use vstd::prelude::*;
use vstd::string::*;
use crate::config::opt_string_view;
use crate::text::{contains_char, str_eq, str_starts_with};

verus! {

/// The identity of the handler a request is dispatched to.
#[derive(Clone, Copy, PartialEq, Eq, Structural, Debug)]
pub enum HandlerRef {
    /// The fixed root page.
    Root,
    /// The parameterized dashboard page.
    Handle,
    /// The static-asset collaborator.
    Assets,
    /// The fallback for everything unregistered.
    NotFound,
}

/// The result of routing one request: a handler and, for the parameterized
/// route, the captured path segment.
pub struct RouteMatch {
    pub handler: HandlerRef,
    pub param: Option<String>,
}

/// Trailing-slash normalization: strips exactly one trailing slash, unless
/// the path is the root itself.
pub open spec fn spec_normalize(p: Seq<char>) -> Seq<char> {
    if p.len() > 1 && p[p.len() - 1] == '/' {
        p.subrange(0, p.len() - 1)
    } else {
        p
    }
}

/// Only GET requests reach the registered routes.
pub open spec fn spec_is_get(m: Seq<char>) -> bool {
    m == "GET"@
}

/// The prefix of the parameterized route's pattern.
pub open spec fn handle_prefix() -> Seq<char> {
    "/handle/"@
}

/// The segment captured by the parameterized pattern from a normalized path.
pub open spec fn spec_capture(q: Seq<char>) -> Seq<char> {
    q.subrange(handle_prefix().len() as int, q.len() as int)
}

/// Whether a normalized path matches the parameterized pattern: the handle
/// prefix followed by one non-empty segment with no further slash.
pub open spec fn spec_matches_param(q: Seq<char>) -> bool {
    &&& q.len() > handle_prefix().len()
    &&& q.subrange(0, handle_prefix().len() as int) == handle_prefix()
    &&& !spec_capture(q).contains('/')
}

/// Whether a normalized path lies under the static-asset mount.
pub open spec fn spec_is_asset(q: Seq<char>) -> bool {
    ||| q == "/assets"@
    ||| (q.len() >= "/assets/"@.len() && q.subrange(0, "/assets/"@.len() as int) == "/assets/"@)
}

/// The handler selected for a request, after normalization, in
/// registration order; unmatched requests fall through to `NotFound`.
pub open spec fn spec_handler(m: Seq<char>, p: Seq<char>) -> HandlerRef {
    let q = spec_normalize(p);
    if !spec_is_get(m) {
        HandlerRef::NotFound
    } else if q == "/"@ {
        HandlerRef::Root
    } else if q == "/handle"@ {
        HandlerRef::Handle
    } else if spec_matches_param(q) {
        HandlerRef::Handle
    } else if spec_is_asset(q) {
        HandlerRef::Assets
    } else {
        HandlerRef::NotFound
    }
}

/// The parameter captured for a request: present exactly when the
/// parameterized pattern is the one that matches.
pub open spec fn spec_param(m: Seq<char>, p: Seq<char>) -> Option<Seq<char>> {
    let q = spec_normalize(p);
    if spec_is_get(m) && spec_matches_param(q) {
        Some(spec_capture(q))
    } else {
        None
    }
}

/// Strips exactly one trailing slash from a non-root path.
pub fn normalize<'a>(path: &'a str) -> (r: &'a str)
    ensures
        r@ == spec_normalize(path@),
{
    let n = path.unicode_len();
    if n > 1 && path.get_char(n - 1) == '/' {
        path.substring_char(0, n - 1)
    } else {
        path
    }
}

/// Routes one request: normalizes the path, tries the registered patterns
/// in registration order, and falls back to the not-found handler.
pub fn match_route(method: &str, path: &str) -> (r: RouteMatch)
    ensures
        r.handler == spec_handler(method@, path@),
        opt_string_view(r.param) == spec_param(method@, path@),
{
    proof {
        reveal_strlit("/");
        reveal_strlit("/handle");
        reveal_strlit("/handle/");
    }
    let q = normalize(path);
    if !str_eq(method, "GET") {
        return RouteMatch { handler: HandlerRef::NotFound, param: None };
    }
    if str_eq(q, "/") {
        return RouteMatch { handler: HandlerRef::Root, param: None };
    }
    if str_eq(q, "/handle") {
        return RouteMatch { handler: HandlerRef::Handle, param: None };
    }
    if str_starts_with(q, "/handle/") {
        let plen = "/handle/".unicode_len();
        let qn = q.unicode_len();
        if qn > plen {
            let rest = q.substring_char(plen, qn);
            if !contains_char(rest, '/') {
                return RouteMatch { handler: HandlerRef::Handle, param: Some(rest.to_owned()) };
            }
        }
    }
    if str_eq(q, "/assets") || str_starts_with(q, "/assets/") {
        return RouteMatch { handler: HandlerRef::Assets, param: None };
    }
    RouteMatch { handler: HandlerRef::NotFound, param: None }
}

/// Trailing-slash idempotence: for a path that is not the root and does
/// not already end in a slash, appending a slash changes neither the
/// selected handler nor the captured parameter.
pub proof fn lemma_trailing_slash_idempotent(m: Seq<char>, p: Seq<char>)
    requires
        p.len() > 0,
        p[p.len() - 1] != '/',
    ensures
        spec_handler(m, p.push('/')) == spec_handler(m, p),
        spec_param(m, p.push('/')) == spec_param(m, p),
{
    assert(p.push('/')[p.len() as int] == '/');
    assert(spec_normalize(p.push('/')) =~= p);
    assert(spec_normalize(p) =~= p);
}

} // verus!
