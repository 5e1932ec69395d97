use vstd::prelude::*;
use vstd::string::*;
use crate::escape::{escape_html, escaped};
use crate::text::str_eq;

verus! {

/// One piece of a compiled template: literal text, or a placeholder whose
/// value is substituted (escaped) from the render context.
#[derive(Debug)]
pub enum Segment {
    Lit(String),
    Var(String),
}

/// The mathematical form of a segment.
pub ghost enum SegView {
    Lit(Seq<char>),
    Var(Seq<char>),
}

impl View for Segment {
    type V = SegView;

    open spec fn view(&self) -> SegView {
        match self {
            Segment::Lit(s) => SegView::Lit(s@),
            Segment::Var(s) => SegView::Var(s@),
        }
    }
}

/// A compiled template: the segments of the source, in order.
#[derive(Debug)]
pub struct Template {
    pub segments: Vec<Segment>,
}

impl View for Template {
    type V = Seq<SegView>;

    open spec fn view(&self) -> Seq<SegView> {
        self.segments@.map_values(|seg: Segment| seg@)
    }
}

/// The template source contains unbalanced or unknown placeholder syntax.
#[derive(Clone, Copy, PartialEq, Eq, Structural, Debug)]
pub enum TemplateError {
    Syntax,
}

/// The template references a variable the context does not define.
#[derive(Clone, Copy, PartialEq, Eq, Structural, Debug)]
pub enum RenderError {
    MissingVariable,
}

/// Whether an opening placeholder marker stands at position `i`.
pub open spec fn is_open_at(s: Seq<char>, i: int) -> bool {
    i + 2 <= s.len() && s[i] == '{' && s[i + 1] == '{'
}

/// The position of the first opening marker, or the length if there is none.
pub open spec fn first_open(s: Seq<char>) -> nat
    decreases s.len(),
{
    if s.len() < 2 {
        s.len()
    } else if s[0] == '{' && s[1] == '{' {
        0
    } else {
        1 + first_open(s.drop_first())
    }
}

/// The characters allowed in a placeholder's variable name.
pub open spec fn is_ident_char(c: char) -> bool {
    ||| ('a' as u32) <= c as u32 && c as u32 <= ('z' as u32)
    ||| ('A' as u32) <= c as u32 && c as u32 <= ('Z' as u32)
    ||| ('0' as u32) <= c as u32 && c as u32 <= ('9' as u32)
    ||| c == '_'
}

/// The length of the prefix made of spaces.
pub open spec fn count_spaces(s: Seq<char>) -> nat
    decreases s.len(),
{
    if s.len() == 0 {
        0
    } else if s[0] == ' ' {
        1 + count_spaces(s.drop_first())
    } else {
        0
    }
}

/// The length of the prefix made of name characters.
pub open spec fn count_ident(s: Seq<char>) -> nat
    decreases s.len(),
{
    if s.len() == 0 {
        0
    } else if is_ident_char(s[0]) {
        1 + count_ident(s.drop_first())
    } else {
        0
    }
}

pub proof fn lemma_first_open_le(s: Seq<char>)
    ensures
        first_open(s) <= s.len(),
    decreases s.len(),
{
    if s.len() < 2 {
    } else if s[0] == '{' && s[1] == '{' {
    } else {
        lemma_first_open_le(s.drop_first());
    }
}

/// The template grammar: literal runs up to the next `{{`, then a
/// placeholder `{{` spaces name spaces `}}`; a marker without a matching
/// close, or with an empty or malformed name, is a syntax error.
pub open spec fn spec_parse(s: Seq<char>) -> Option<Seq<SegView>>
    decreases s.len(),
{
    if s.len() == 0 {
        Some(Seq::empty())
    } else if is_open_at(s, 0) {
        let sp1 = count_spaces(s.skip(2)) as int;
        let idlen = count_ident(s.skip(2 + sp1)) as int;
        let sp2 = count_spaces(s.skip(2 + sp1 + idlen)) as int;
        let close_at = 2 + sp1 + idlen + sp2;
        if idlen > 0 && close_at + 2 <= s.len() && s[close_at] == '}' && s[close_at + 1]
            == '}' {
            let name = s.subrange(2 + sp1, 2 + sp1 + idlen);
            match spec_parse(s.skip(close_at + 2)) {
                Some(rest) => Some(seq![SegView::Var(name)] + rest),
                None => None,
            }
        } else {
            None
        }
    } else {
        let i: nat = if first_open(s) <= s.len() {
            first_open(s)
        } else {
            s.len()
        };
        match spec_parse(s.skip(i as int)) {
            Some(rest) => Some(seq![SegView::Lit(s.subrange(0, i as int))] + rest),
            None => None,
        }
    }
}

/// Pins `first_open` down from a pointwise description: no marker before
/// `i`, and one at `i` unless `i` is the length.
pub proof fn lemma_first_open_is(s: Seq<char>, i: int)
    requires
        0 <= i <= s.len(),
        forall|j: int| 0 <= j < i ==> !is_open_at(s, j),
        i < s.len() ==> is_open_at(s, i),
    ensures
        first_open(s) == i,
    decreases s.len(),
{
    if s.len() < 2 {
        if i < s.len() {
            assert(is_open_at(s, i));
        }
    } else if is_open_at(s, 0) {
        assert(i == 0);
    } else {
        assert(i != 0);
        let t = s.drop_first();
        assert forall|j: int| 0 <= j < i - 1 implies !is_open_at(t, j) by {
            if is_open_at(t, j) {
                assert(t[j] == s[j + 1]);
                assert(t[j + 1] == s[j + 2]);
                assert(is_open_at(s, j + 1));
            }
        }
        if i - 1 < t.len() {
            assert(is_open_at(s, i));
            assert(t[i - 1] == s[i]);
            assert(t[i] == s[i + 1]);
            assert(is_open_at(t, i - 1));
        }
        lemma_first_open_is(t, i - 1);
    }
}

/// Pins `count_ident` down from a pointwise description of the prefix.
pub proof fn lemma_count_ident_is(t: Seq<char>, k: int)
    requires
        0 <= k <= t.len(),
        forall|j: int| 0 <= j < k ==> is_ident_char(t[j]),
        k < t.len() ==> !is_ident_char(t[k]),
    ensures
        count_ident(t) == k,
    decreases k,
{
    if k == 0 {
        if t.len() > 0 {
            assert(!is_ident_char(t[0]));
        }
    } else {
        assert(is_ident_char(t[0]));
        let u = t.drop_first();
        assert forall|j: int| 0 <= j < k - 1 implies is_ident_char(u[j]) by {
            assert(u[j] == t[j + 1]);
        }
        if k - 1 < u.len() {
            assert(u[k - 1] == t[k]);
        }
        lemma_count_ident_is(u, k - 1);
    }
}

/// One evaluation step of the grammar: a literal run of length `i` ends at
/// the first marker (or at the end of the source).
pub proof fn lemma_parse_lit_step(s: Seq<char>, i: int)
    requires
        0 < i <= s.len(),
        forall|j: int| 0 <= j < i ==> !is_open_at(s, j),
        i < s.len() ==> is_open_at(s, i),
    ensures
        spec_parse(s) == (match spec_parse(s.skip(i)) {
            Some(rest) => Some(seq![SegView::Lit(s.subrange(0, i))] + rest),
            None => None,
        }),
{
    lemma_first_open_is(s, i);
    lemma_first_open_le(s);
    assert(!is_open_at(s, 0));
    assert(s.len() > 0);
}

/// One evaluation step of the grammar: a placeholder with no inner spaces
/// and a name of length `idlen` stands at the front.
pub proof fn lemma_parse_var_step(s: Seq<char>, idlen: int)
    requires
        is_open_at(s, 0),
        idlen > 0,
        4 + idlen <= s.len(),
        forall|j: int| 2 <= j < 2 + idlen ==> is_ident_char(s[j]),
        s[2 + idlen] == '}',
        s[2 + idlen + 1] == '}',
    ensures
        spec_parse(s) == (match spec_parse(s.skip(4 + idlen)) {
            Some(rest) => Some(seq![SegView::Var(s.subrange(2, 2 + idlen))] + rest),
            None => None,
        }),
{
    let b = s.skip(2);
    assert(b[0] == s[2]);
    assert(is_ident_char(s[2]));
    assert(!is_ident_char(' '));
    assert(count_spaces(b) == 0);
    assert forall|j: int| 0 <= j < idlen implies is_ident_char(b[j]) by {
        assert(b[j] == s[j + 2]);
    }
    assert(b[idlen] == s[2 + idlen]);
    assert(!is_ident_char('}'));
    lemma_count_ident_is(b, idlen);
    let c = s.skip(2 + idlen);
    assert(c[0] == s[2 + idlen]);
    assert(count_spaces(c) == 0);
}

fn is_ident_char_exec(c: char) -> (r: bool)
    ensures
        r == is_ident_char(c),
{
    let u = c as u32;
    (97 <= u && u <= 122) || (65 <= u && u <= 90) || (48 <= u && u <= 57) || c == '_'
}

fn count_spaces_from(s: &str, start: usize) -> (k: usize)
    requires
        start <= s@.len(),
    ensures
        k == count_spaces(s@.skip(start as int)),
        start + k <= s@.len(),
{
    let n = s.unicode_len();
    let mut k: usize = 0;
    while start + k < n && s.get_char(start + k) == ' '
        invariant
            n == s@.len(),
            start + k <= n,
            count_spaces(s@.skip(start as int)) == k + count_spaces(s@.skip(start + k)),
        decreases n - start - k,
    {
        proof {
            let t = s@.skip(start + k);
            assert(t[0] == s@[start + k]);
            assert(t.drop_first() =~= s@.skip(start + k + 1));
            assert(count_spaces(t) == 1 + count_spaces(s@.skip(start + k + 1)));
        }
        k += 1;
    }
    proof {
        let t = s@.skip(start + k);
        if start + k < n {
            assert(t[0] == s@[start + k]);
        }
        assert(count_spaces(t) == 0);
    }
    k
}

fn count_ident_from(s: &str, start: usize) -> (k: usize)
    requires
        start <= s@.len(),
    ensures
        k == count_ident(s@.skip(start as int)),
        start + k <= s@.len(),
{
    let n = s.unicode_len();
    let mut k: usize = 0;
    while start + k < n && is_ident_char_exec(s.get_char(start + k))
        invariant
            n == s@.len(),
            start + k <= n,
            count_ident(s@.skip(start as int)) == k + count_ident(s@.skip(start + k)),
        decreases n - start - k,
    {
        proof {
            let t = s@.skip(start + k);
            assert(t[0] == s@[start + k]);
            assert(t.drop_first() =~= s@.skip(start + k + 1));
            assert(count_ident(t) == 1 + count_ident(s@.skip(start + k + 1)));
        }
        k += 1;
    }
    proof {
        let t = s@.skip(start + k);
        if start + k < n {
            assert(t[0] == s@[start + k]);
        }
        assert(count_ident(t) == 0);
    }
    k
}

/// Finds the first opening marker, or returns the length if there is none.
fn find_open(s: &str) -> (i: usize)
    ensures
        i == first_open(s@),
{
    let n = s.unicode_len();
    proof {
        assert(s@.skip(0) =~= s@);
    }
    if n < 2 {
        return n;
    }
    let mut i: usize = 0;
    while i < n - 1
        invariant
            n == s@.len(),
            n >= 2,
            i <= n,
            first_open(s@) == i + first_open(s@.skip(i as int)),
        decreases n - i,
    {
        if s.get_char(i) == '{' && s.get_char(i + 1) == '{' {
            proof {
                let t = s@.skip(i as int);
                assert(t[0] == s@[i as int] && t[1] == s@[i + 1]);
                assert(first_open(t) == 0);
            }
            return i;
        }
        proof {
            let t = s@.skip(i as int);
            assert(t.len() == n - i >= 2);
            assert(t[0] == s@[i as int] && t[1] == s@[i + 1]);
            assert(t.drop_first() =~= s@.skip(i + 1));
            assert(first_open(t) == 1 + first_open(s@.skip(i + 1)));
        }
        i += 1;
    }
    proof {
        let t = s@.skip(i as int);
        assert(t.len() < 2);
        assert(first_open(t) == t.len());
    }
    n
}

fn compile_rec(s: &str) -> (r: Result<Vec<Segment>, TemplateError>)
    ensures
        match r {
            Ok(v) => spec_parse(s@) == Some(v@.map_values(|seg: Segment| seg@)),
            Err(_) => spec_parse(s@) is None,
        },
    decreases s@.len(),
{
    let n = s.unicode_len();
    if n == 0 {
        let v: Vec<Segment> = Vec::new();
        proof {
            assert(v@.map_values(|seg: Segment| seg@) =~= Seq::<SegView>::empty());
        }
        return Ok(v);
    }
    if n >= 2 && s.get_char(0) == '{' && s.get_char(1) == '{' {
        proof {
            assert(is_open_at(s@, 0));
        }
        let sp1 = count_spaces_from(s, 2);
        let idlen = count_ident_from(s, 2 + sp1);
        let sp2 = count_spaces_from(s, 2 + sp1 + idlen);
        let close_at = 2 + sp1 + idlen + sp2;
        if idlen == 0 || close_at > n - 2 || s.get_char(close_at) != '}' || s.get_char(
            close_at + 1,
        ) != '}' {
            return Err(TemplateError::Syntax);
        }
        let name = s.substring_char(2 + sp1, 2 + sp1 + idlen);
        let rest_str = s.substring_char(close_at + 2, n);
        proof {
            assert(rest_str@ =~= s@.skip(close_at + 2));
        }
        match compile_rec(rest_str) {
            Ok(rest) => {
                let mut v: Vec<Segment> = Vec::new();
                v.push(Segment::Var(name.to_owned()));
                let mut rest_m = rest;
                let ghost rest0 = rest_m@;
                v.append(&mut rest_m);
                proof {
                    let f = |seg: Segment| seg@;
                    assert(v@.map_values(f) =~= seq![SegView::Var(name@)] + rest0.map_values(f));
                }
                Ok(v)
            },
            Err(e) => Err(e),
        }
    } else {
        let i = find_open(s);
        proof {
            lemma_first_open_le(s@);
            if i == 0 {
                assert(is_open_at(s@, 0));
            }
        }
        let lit = s.substring_char(0, i);
        let rest_str = s.substring_char(i, n);
        proof {
            assert(rest_str@ =~= s@.skip(i as int));
        }
        match compile_rec(rest_str) {
            Ok(rest) => {
                let mut v: Vec<Segment> = Vec::new();
                v.push(Segment::Lit(lit.to_owned()));
                let mut rest_m = rest;
                let ghost rest0 = rest_m@;
                v.append(&mut rest_m);
                proof {
                    let f = |seg: Segment| seg@;
                    assert(v@.map_values(f) =~= seq![SegView::Lit(lit@)] + rest0.map_values(f));
                }
                Ok(v)
            },
            Err(e) => Err(e),
        }
    }
}

/// The key/value data supplied to the renderer for one request; a later
/// insertion for the same key overrides an earlier one.
pub struct RenderContext {
    pub pairs: Vec<(String, String)>,
}

/// The mapping a pair list stands for, later entries overriding earlier.
pub open spec fn ctx_map_of(pairs: Seq<(String, String)>) -> Map<Seq<char>, Seq<char>>
    decreases pairs.len(),
{
    if pairs.len() == 0 {
        Map::empty()
    } else {
        ctx_map_of(pairs.drop_last()).insert(pairs.last().0@, pairs.last().1@)
    }
}

impl View for RenderContext {
    type V = Map<Seq<char>, Seq<char>>;

    open spec fn view(&self) -> Map<Seq<char>, Seq<char>> {
        ctx_map_of(self.pairs@)
    }
}

impl RenderContext {
    pub fn new() -> (c: Self)
        ensures
            c@ == Map::<Seq<char>, Seq<char>>::empty(),
    {
        let c = RenderContext { pairs: Vec::new() };
        proof {
            assert(c.pairs@.len() == 0);
        }
        c
    }

    /// Binds `key` to `value`, overriding any earlier binding.
    pub fn insert(&mut self, key: String, value: String)
        ensures
            final(self)@ == old(self)@.insert(key@, value@),
    {
        self.pairs.push((key, value));
        proof {
            assert(self.pairs@.drop_last() =~= old(self).pairs@);
        }
    }

    /// Looks a key up; the latest binding wins.
    pub fn lookup(&self, key: &str) -> (r: Option<&String>)
        ensures
            match r {
                Some(v) => self@.contains_key(key@) && v@ == self@[key@],
                None => !self@.contains_key(key@),
            },
    {
        let n = self.pairs.len();
        let mut i: usize = n;
        proof {
            assert(self.pairs@.take(i as int) =~= self.pairs@);
        }
        while i > 0
            invariant
                i <= n,
                n == self.pairs.len(),
                self@.contains_key(key@) <==> ctx_map_of(self.pairs@.take(i as int)).contains_key(
                    key@,
                ),
                self@.contains_key(key@) ==> self@[key@] == ctx_map_of(
                    self.pairs@.take(i as int),
                )[key@],
            decreases i,
        {
            i = i - 1;
            proof {
                let t = self.pairs@.take(i + 1);
                assert(t.drop_last() =~= self.pairs@.take(i as int));
                assert(t.last() == self.pairs@[i as int]);
            }
            if str_eq(self.pairs[i].0.as_str(), key) {
                return Some(&self.pairs[i].1);
            }
        }
        proof {
            assert(self.pairs@.take(0) =~= Seq::<(String, String)>::empty());
        }
        None
    }
}

/// The rendering of a segment list under a context: literals verbatim,
/// placeholders replaced by the escaped value of their variable; `None`
/// exactly when some variable is missing from the context.
pub open spec fn spec_render_segs(segs: Seq<SegView>, m: Map<Seq<char>, Seq<char>>) -> Option<
    Seq<char>,
>
    decreases segs.len(),
{
    if segs.len() == 0 {
        Some(Seq::empty())
    } else {
        match spec_render_segs(segs.drop_first(), m) {
            Some(rest) => match segs[0] {
                SegView::Lit(t) => Some(t + rest),
                SegView::Var(v) => if m.contains_key(v) {
                    Some(escaped(m[v]) + rest)
                } else {
                    None
                },
            },
            None => None,
        }
    }
}

fn render_from(segs: &Vec<Segment>, i: usize, ctx: &RenderContext) -> (r: Result<
    String,
    RenderError,
>)
    requires
        i <= segs.len(),
    ensures
        match r {
            Ok(out) => spec_render_segs(segs@.map_values(|seg: Segment| seg@).skip(i as int), ctx@)
                == Some(out@),
            Err(_) => spec_render_segs(
                segs@.map_values(|seg: Segment| seg@).skip(i as int),
                ctx@,
            ) is None,
        },
    decreases segs.len() - i,
{
    let ghost f = |seg: Segment| seg@;
    let ghost views = segs@.map_values(|seg: Segment| seg@);
    if i == segs.len() {
        proof {
            assert(views.skip(i as int) =~= Seq::<SegView>::empty());
        }
        return Ok(String::new());
    }
    proof {
        assert(views.skip(i as int).drop_first() =~= views.skip(i + 1));
        assert(views.skip(i as int)[0] == views[i as int]);
    }
    match render_from(segs, i + 1, ctx) {
        Ok(rest) => {
            match &segs[i] {
                Segment::Lit(t) => {
                    let mut out = t.clone();
                    out.append(rest.as_str());
                    Ok(out)
                },
                Segment::Var(name) => {
                    match ctx.lookup(name.as_str()) {
                        Some(value) => {
                            let mut out = escape_html(value.as_str());
                            out.append(rest.as_str());
                            Ok(out)
                        },
                        None => Err(RenderError::MissingVariable),
                    }
                },
            }
        },
        Err(e) => Err(e),
    }
}

impl Template {
    /// Compiles a template source; fails exactly on malformed placeholder
    /// syntax.
    pub fn compile(source: &str) -> (r: Result<Template, TemplateError>)
        ensures
            match r {
                Ok(t) => spec_parse(source@) == Some(t@),
                Err(_) => spec_parse(source@) is None,
            },
    {
        match compile_rec(source) {
            Ok(v) => Ok(Template { segments: v }),
            Err(e) => Err(e),
        }
    }

    /// Renders the template under a context; fails exactly when the
    /// template references a variable the context does not define.
    pub fn render(&self, ctx: &RenderContext) -> (r: Result<String, RenderError>)
        ensures
            match r {
                Ok(out) => spec_render_segs(self@, ctx@) == Some(out@),
                Err(_) => spec_render_segs(self@, ctx@) is None,
            },
    {
        proof {
            assert(self@.skip(0) =~= self@);
        }
        render_from(&self.segments, 0, ctx)
    }
}

} // verus!
