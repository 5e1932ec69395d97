use vstd::prelude::*;
use vstd::string::*;

verus! {

/// Server-wide configuration: hostname and port, assembled once at startup
/// and shared read-only by every request handler.
pub struct AppState {
    pub hostname: String,
    pub port: String,
}

/// The hostname used when the environment provides none.
pub open spec fn default_hostname() -> Seq<char> {
    "localhost"@
}

/// The port used when the environment provides none.
pub open spec fn default_port() -> Seq<char> {
    "8000"@
}

/// An absent or empty environment value falls back to the default;
/// any other value is taken verbatim.
pub open spec fn resolved_value(v: Option<Seq<char>>, default: Seq<char>) -> Seq<char> {
    match v {
        Some(s) => if s.len() == 0 { default } else { s },
        None => default,
    }
}

/// The view of an optional owned string.
pub open spec fn opt_string_view(v: Option<String>) -> Option<Seq<char>> {
    match v {
        Some(s) => Some(s@),
        None => None,
    }
}

/// The address a listener binds to: the literal hostname, except that the
/// default hostname selects the wildcard address so external connections
/// are accepted.
pub open spec fn spec_bind_address(hostname: Seq<char>) -> Seq<char> {
    if hostname == default_hostname() {
        "0.0.0.0"@
    } else {
        hostname
    }
}

impl AppState {
    pub fn new(hostname: String, port: String) -> (s: Self)
        ensures
            s.hostname@ == hostname@,
            s.port@ == port@,
    {
        AppState { hostname, port }
    }

    /// Builds the configuration from the raw environment values of the
    /// hostname and port variables; absence or emptiness of either is
    /// normal and resolved to the fixed defaults, never an error.
    pub fn load_from(hostname: Option<String>, port: Option<String>) -> (s: Self)
        ensures
            s.hostname@ == resolved_value(opt_string_view(hostname), default_hostname()),
            s.port@ == resolved_value(opt_string_view(port), default_port()),
    {
        let h: String = match hostname {
            Some(h) => if h.as_str().is_empty() {
                String::from_str("localhost")
            } else {
                h
            },
            None => String::from_str("localhost"),
        };
        let p: String = match port {
            Some(p) => if p.as_str().is_empty() {
                String::from_str("8000")
            } else {
                p
            },
            None => String::from_str("8000"),
        };
        AppState { hostname: h, port: p }
    }

    /// The address the listener binds to for this configuration.
    pub fn bind_address(&self) -> (r: String)
        ensures
            r@ == spec_bind_address(self.hostname@),
    {
        let localhost = String::from_str("localhost");
        if self.hostname == localhost {
            String::from_str("0.0.0.0")
        } else {
            self.hostname.clone()
        }
    }

    /// The full `address:port` string handed to the listener.
    pub fn bind_target(&self) -> (r: String)
        ensures
            r@ == spec_bind_address(self.hostname@) + ":"@ + self.port@,
    {
        let mut r = self.bind_address();
        r.append(":");
        r.append(self.port.as_str());
        r
    }
}

} // verus!
