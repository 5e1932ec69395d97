use vstd::prelude::*;
use vstd::string::*;
use vstd::pervasive::unreached;
use crate::config::{AppState, opt_string_view};
use crate::escape::{escaped, is_html_special, lemma_escaped_id, lemma_escaped_no_slash};
use crate::text::{count_matches, lemma_count_matches_one, match_at};
use crate::router::{match_route, spec_handler, spec_param, HandlerRef};
use crate::template::{
    is_open_at,
    lemma_parse_lit_step,
    lemma_parse_var_step,
    spec_parse,
    spec_render_segs,
    RenderContext,
    SegView,
    Template,
};

verus! {

/// What kind of body a response carries.
#[derive(Clone, Copy, PartialEq, Eq, Structural, Debug)]
pub enum ContentType {
    Html,
    Text,
}

/// One HTTP response of the core: status, content type and body text.
pub struct HttpResponse {
    pub status: u16,
    pub content_type: ContentType,
    pub body: String,
}

/// The fixed body of the root page.
pub open spec fn spec_root_body() -> Seq<char> {
    "<h1>ROOT</h1>"@
}

/// The fixed body of the not-found fallback.
pub open spec fn spec_not_found_body() -> Seq<char> {
    "nothing to see here"@
}

/// The name substituted when no path parameter was captured.
pub open spec fn spec_incognito() -> Seq<char> {
    "INCOGNITO"@
}

/// The source of the dashboard page, with its two placeholders.
pub open spec fn spec_dashboard_source() -> Seq<char> {
    "<html><body><h1>Hello, {{name}}</h1><p><a href=\"{{url}}\">dashboard</a></p></body></html>"@
}

/// The literal text of the dashboard before the name placeholder.
pub open spec fn dashboard_pre() -> Seq<char> {
    "<html><body><h1>Hello, "@
}

/// The literal text of the dashboard between the two placeholders.
pub open spec fn dashboard_mid() -> Seq<char> {
    "</h1><p><a href=\""@
}

/// The literal text of the dashboard after the url placeholder.
pub open spec fn dashboard_post() -> Seq<char> {
    "\">dashboard</a></p></body></html>"@
}

/// The segments of the compiled dashboard template.
pub open spec fn dashboard_segs() -> Seq<SegView> {
    seq![
        SegView::Lit(dashboard_pre()),
        SegView::Var("name"@),
        SegView::Lit(dashboard_mid()),
        SegView::Var("url"@),
        SegView::Lit(dashboard_post()),
    ]
}

/// The source of the dashboard page.
pub fn dashboard_source() -> (r: &'static str)
    ensures
        r@ == spec_dashboard_source(),
{
    "<html><body><h1>Hello, {{name}}</h1><p><a href=\"{{url}}\">dashboard</a></p></body></html>"
}

/// The dashboard source parses to exactly its five segments.
pub proof fn lemma_dashboard_parse()
    ensures
        spec_parse(spec_dashboard_source()) == Some(dashboard_segs()),
{
    reveal_strlit(
        "<html><body><h1>Hello, {{name}}</h1><p><a href=\"{{url}}\">dashboard</a></p></body></html>",
    );
    reveal_strlit("<html><body><h1>Hello, ");
    reveal_strlit("</h1><p><a href=\"");
    reveal_strlit("\">dashboard</a></p></body></html>");
    reveal_strlit("name");
    reveal_strlit("url");
    let s = spec_dashboard_source();
    let pre = dashboard_pre();
    let mid = dashboard_mid();
    let post = dashboard_post();
    let i1 = pre.len() as int;
    assert(is_open_at(s, i1));
    lemma_parse_lit_step(s, i1);
    assert(s.subrange(0, i1) =~= pre);
    let s1 = s.skip(i1);
    assert(is_open_at(s1, 0));
    lemma_parse_var_step(s1, 4);
    assert(s1.subrange(2, 6) =~= "name"@);
    let s2 = s1.skip(8);
    let i3 = mid.len() as int;
    assert(is_open_at(s2, i3));
    lemma_parse_lit_step(s2, i3);
    assert(s2.subrange(0, i3) =~= mid);
    let s3 = s2.skip(i3);
    assert(is_open_at(s3, 0));
    lemma_parse_var_step(s3, 3);
    assert(s3.subrange(2, 5) =~= "url"@);
    let s4 = s3.skip(7);
    let i5 = post.len() as int;
    assert(i5 == s4.len());
    lemma_parse_lit_step(s4, i5);
    assert(s4.subrange(0, i5) =~= post);
    let s5 = s4.skip(i5);
    assert(s5 =~= Seq::<char>::empty());
    assert(spec_parse(s5) == Some(Seq::<SegView>::empty()));
    assert(spec_parse(s4) == Some(seq![SegView::Lit(post)] + Seq::<SegView>::empty()));
    assert(spec_parse(s) == Some(
        seq![SegView::Lit(pre)] + (seq![SegView::Var("name"@)] + (seq![SegView::Lit(mid)] + (seq![
            SegView::Var("url"@),
        ] + (seq![SegView::Lit(post)] + Seq::<SegView>::empty())))),
    ));
    assert(seq![SegView::Lit(pre)] + (seq![SegView::Var("name"@)] + (seq![SegView::Lit(mid)]
        + (seq![SegView::Var("url"@)] + (seq![SegView::Lit(post)] + Seq::<SegView>::empty()))))
        =~= dashboard_segs());
}

/// The address text embedded in the dashboard: `//hostname:port`.
pub open spec fn spec_url_text(h: Seq<char>, p: Seq<char>) -> Seq<char> {
    "//"@ + h + ":"@ + p
}

/// The name a request renders with: the captured parameter, or the
/// sentinel when none was captured.
pub open spec fn spec_resolved_name(name: Option<Seq<char>>) -> Seq<char> {
    match name {
        Some(n) => n,
        None => spec_incognito(),
    }
}

/// The dashboard body for a configuration and an optional captured name:
/// the fixed literals around the escaped name and the escaped address.
pub open spec fn spec_dashboard_html(h: Seq<char>, p: Seq<char>, name: Option<Seq<char>>) -> Seq<
    char,
> {
    dashboard_pre() + escaped(spec_resolved_name(name)) + dashboard_mid() + escaped(
        spec_url_text(h, p),
    ) + dashboard_post()
}

/// Rendering the dashboard segments under any context that binds both
/// variables yields the two-substitution concatenation.
pub proof fn lemma_dashboard_render(m: Map<Seq<char>, Seq<char>>)
    requires
        m.contains_key("name"@),
        m.contains_key("url"@),
    ensures
        spec_render_segs(dashboard_segs(), m) == Some(
            dashboard_pre() + escaped(m["name"@]) + dashboard_mid() + escaped(m["url"@])
                + dashboard_post(),
        ),
{
    let segs = dashboard_segs();
    let s1 = segs.drop_first();
    let s2 = s1.drop_first();
    let s3 = s2.drop_first();
    let s4 = s3.drop_first();
    let s5 = s4.drop_first();
    assert(s5 =~= Seq::<SegView>::empty());
    assert(spec_render_segs(s5, m) == Some(Seq::<char>::empty()));
    assert(s4[0] == SegView::Lit(dashboard_post()));
    assert(spec_render_segs(s4, m) == Some(dashboard_post() + Seq::<char>::empty()));
    assert(s3[0] == SegView::Var("url"@));
    assert(spec_render_segs(s3, m) == Some(escaped(m["url"@]) + (dashboard_post() + Seq::<
        char,
    >::empty())));
    assert(s2[0] == SegView::Lit(dashboard_mid()));
    assert(spec_render_segs(s2, m) == Some(dashboard_mid() + (escaped(m["url"@]) + (
    dashboard_post() + Seq::<char>::empty()))));
    assert(s1[0] == SegView::Var("name"@));
    assert(spec_render_segs(s1, m) == Some(escaped(m["name"@]) + (dashboard_mid() + (escaped(
        m["url"@],
    ) + (dashboard_post() + Seq::<char>::empty())))));
    assert(segs[0] == SegView::Lit(dashboard_pre()));
    assert(spec_render_segs(segs, m) == Some(dashboard_pre() + (escaped(m["name"@]) + (
    dashboard_mid() + (escaped(m["url"@]) + (dashboard_post() + Seq::<char>::empty()))))));
    assert(dashboard_pre() + (escaped(m["name"@]) + (dashboard_mid() + (escaped(m["url"@]) + (
    dashboard_post() + Seq::<char>::empty())))) =~= dashboard_pre() + escaped(m["name"@])
        + dashboard_mid() + escaped(m["url"@]) + dashboard_post());
}

/// The address text occurs in the dashboard body exactly once, for the
/// configuration values in effect at render time. This holds whenever the
/// hostname and port are free of slashes and of the characters the
/// renderer escapes, and the resolved name is free of slashes, as every
/// captured path parameter is.
pub proof fn lemma_url_exactly_once(h: Seq<char>, p: Seq<char>, name: Option<Seq<char>>)
    requires
        forall|i: int| 0 <= i < h.len() ==> h[i] != '/' && !is_html_special(h[i]),
        forall|i: int| 0 <= i < p.len() ==> p[i] != '/' && !is_html_special(p[i]),
        forall|i: int|
            0 <= i < spec_resolved_name(name).len() ==> spec_resolved_name(name)[i] != '/',
    ensures
        count_matches(spec_dashboard_html(h, p, name), spec_url_text(h, p)) == 1,
{
    reveal_strlit("//");
    reveal_strlit(":");
    reveal_strlit("<html><body><h1>Hello, ");
    reveal_strlit("</h1><p><a href=\"");
    reveal_strlit("\">dashboard</a></p></body></html>");
    let pre = dashboard_pre();
    let mid = dashboard_mid();
    let post = dashboard_post();
    let nm = escaped(spec_resolved_name(name));
    let url = spec_url_text(h, p);
    lemma_escaped_no_slash(spec_resolved_name(name));
    assert forall|i: int| 0 <= i < url.len() implies !is_html_special(url[i]) && (2 <= i
        ==> url[i] != '/') by {
        if i < 2 {
            assert(url[i] == "//"@[i]);
        } else if i < 2 + h.len() {
            assert(url[i] == h[i - 2]);
        } else if i == 2 + h.len() {
            assert(url[i] == ':');
        } else {
            assert(url[i] == p[i - 3 - h.len()]);
        }
    }
    lemma_escaped_id(url);
    let out = spec_dashboard_html(h, p, name);
    let a = pre + nm + mid;
    assert(out =~= a + url + post);
    let pl = pre.len() as int;
    let nl = nm.len() as int;
    let ml = mid.len() as int;
    let ul = url.len() as int;
    let k = a.len() as int;
    assert(ul >= 3);
    assert(url[0] == '/' && url[1] == '/');
    assert(match_at(out, url, k)) by {
        assert(out.subrange(k, k + ul) =~= url);
    }
    assert forall|i: int| i != k implies !match_at(out, url, i) by {
        if match_at(out, url, i) {
            assert(out.subrange(i, i + ul)[0] == out[i]);
            assert(out.subrange(i, i + ul)[1] == out[i + 1]);
            assert(out[i] == '/' && out[i + 1] == '/');
            if i < pl {
                assert(out[i] == pre[i]);
            } else if i < pl + nl {
                assert(out[i] == nm[i - pl]);
            } else if i < k {
                assert(out[i] == mid[i - pl - nl]);
                if i + 1 < k {
                    assert(out[i + 1] == mid[i - pl - nl + 1]);
                } else {
                    assert(i - pl - nl == ml - 1);
                }
            } else if i == k + 1 {
                assert(out[i + 1] == url[2]);
            } else if i < k + ul {
                assert(out[i] == url[i - k]);
            } else {
                assert(out[i] == post[i - k - ul]);
                assert(out[i + 1] == post[i - k - ul + 1]);
            }
        }
    }
    lemma_count_matches_one(out, url, k);
}

/// The fixed body of the root page.
pub fn root_body() -> (r: &'static str)
    ensures
        r@ == spec_root_body(),
{
    "<h1>ROOT</h1>"
}

/// The fixed body of the not-found fallback.
pub fn not_found_body() -> (r: &'static str)
    ensures
        r@ == spec_not_found_body(),
{
    "nothing to see here"
}

/// Builds the `//hostname:port` text for a configuration.
pub fn url_text(state: &AppState) -> (r: String)
    ensures
        r@ == spec_url_text(state.hostname@, state.port@),
{
    let mut r = String::from_str("//");
    r.append(state.hostname.as_str());
    r.append(":");
    r.append(state.port.as_str());
    r
}

/// The handle handler's body: renders the fixed dashboard template with
/// the address derived from the configuration and the resolved name.
pub fn handle_response(state: &AppState, name: Option<String>) -> (r: String)
    ensures
        r@ == spec_dashboard_html(state.hostname@, state.port@, opt_string_view(name)),
{
    let resolved: String = match name {
        Some(n) => n,
        None => String::from_str("INCOGNITO"),
    };
    let ghost resolved_view = resolved@;
    let url = url_text(state);
    let ghost url_view = url@;
    let mut ctx = RenderContext::new();
    ctx.insert(String::from_str("url"), url);
    ctx.insert(String::from_str("name"), resolved);
    proof {
        reveal_strlit("name");
        reveal_strlit("url");
        lemma_dashboard_parse();
        assert("name"@.len() == 4);
        assert("url"@.len() == 3);
        assert("name"@ != "url"@);
        assert(ctx@.contains_key("name"@) && ctx@["name"@] == resolved_view);
        assert(ctx@.contains_key("url"@) && ctx@["url"@] == url_view);
        lemma_dashboard_render(ctx@);
    }
    let t = match Template::compile(dashboard_source()) {
        Ok(t) => t,
        Err(_) => unreached(),
    };
    match t.render(&ctx) {
        Ok(out) => out,
        Err(_) => unreached(),
    }
}

/// The generic body of a response whose render failed.
pub open spec fn spec_render_failure_body() -> Seq<char> {
    "internal render error"@
}

/// Renders a page response from a template: a successful render becomes
/// the HTML body of a 200 response; a render failure is fatal to that
/// request alone and yields a 500 response with a generic message.
pub fn render_page(t: &Template, ctx: &RenderContext) -> (r: HttpResponse)
    ensures
        match spec_render_segs(t@, ctx@) {
            Some(body) => r.status == 200 && r.content_type == ContentType::Html && r.body@
                == body,
            None => r.status == 500 && r.content_type == ContentType::Text && r.body@
                == spec_render_failure_body(),
        },
{
    match t.render(ctx) {
        Ok(out) => HttpResponse { status: 200, content_type: ContentType::Html, body: out },
        Err(_) => HttpResponse {
            status: 500,
            content_type: ContentType::Text,
            body: String::from_str("internal render error"),
        },
    }
}

/// Routes a request and produces its response. `None` stands for a path
/// under the asset mount, which the static-file collaborator serves; every
/// other request gets the matched handler's response: the fixed root page,
/// the rendered dashboard, or the not-found fallback.
pub fn respond(state: &AppState, method: &str, path: &str) -> (r: Option<HttpResponse>)
    ensures
        (r is None) <==> spec_handler(method@, path@) == HandlerRef::Assets,
        spec_handler(method@, path@) == HandlerRef::Root ==> (match r {
            Some(resp) => resp.status == 200 && resp.content_type == ContentType::Html
                && resp.body@ == spec_root_body(),
            None => false,
        }),
        spec_handler(method@, path@) == HandlerRef::Handle ==> (match r {
            Some(resp) => resp.status == 200 && resp.content_type == ContentType::Html
                && resp.body@ == spec_dashboard_html(
                state.hostname@,
                state.port@,
                spec_param(method@, path@),
            ),
            None => false,
        }),
        spec_handler(method@, path@) == HandlerRef::NotFound ==> (match r {
            Some(resp) => resp.status == 404 && resp.content_type == ContentType::Text
                && resp.body@ == spec_not_found_body(),
            None => false,
        }),
{
    let m = match_route(method, path);
    match m.handler {
        HandlerRef::Root => Some(
            HttpResponse {
                status: 200,
                content_type: ContentType::Html,
                body: String::from_str(root_body()),
            },
        ),
        HandlerRef::Handle => Some(
            HttpResponse {
                status: 200,
                content_type: ContentType::Html,
                body: handle_response(state, m.param),
            },
        ),
        HandlerRef::Assets => None,
        HandlerRef::NotFound => Some(
            HttpResponse {
                status: 404,
                content_type: ContentType::Text,
                body: String::from_str(not_found_body()),
            },
        ),
    }
}

} // verus!
