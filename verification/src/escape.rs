use vstd::prelude::*;
use vstd::string::*;

verus! {

/// The escaping policy of the renderer: every substituted value has these
/// characters replaced by HTML entities, so attacker-controlled values
/// cannot inject markup.
pub open spec fn is_html_special(c: char) -> bool {
    c == '&' || c == '<' || c == '>' || c == '"' || c == '\''
}

/// The text a single character contributes to escaped output.
pub open spec fn escaped_char(c: char) -> Seq<char> {
    if c == '&' {
        "&amp;"@
    } else if c == '<' {
        "&lt;"@
    } else if c == '>' {
        "&gt;"@
    } else if c == '"' {
        "&quot;"@
    } else if c == '\'' {
        "&#x27;"@
    } else {
        seq![c]
    }
}

/// HTML escaping of a whole string: the concatenation of each character's
/// escaped form, in order.
pub open spec fn escaped(s: Seq<char>) -> Seq<char>
    decreases s.len(),
{
    if s.len() == 0 {
        Seq::empty()
    } else {
        escaped_char(s[0]) + escaped(s.drop_first())
    }
}

/// Escaping one more character on the right extends the escaped output on
/// the right.
pub proof fn lemma_escaped_push(s: Seq<char>, c: char)
    ensures
        escaped(s.push(c)) == escaped(s) + escaped_char(c),
    decreases s.len(),
{
    if s.len() == 0 {
        reveal_with_fuel(escaped, 3);
        assert(s.push(c)[0] == c);
        assert(s.push(c).drop_first() =~= Seq::<char>::empty());
        assert(escaped(s.push(c)) =~= escaped(s) + escaped_char(c));
    } else {
        assert(s.push(c).drop_first() =~= s.drop_first().push(c));
        lemma_escaped_push(s.drop_first(), c);
        assert(escaped(s.push(c)) =~= escaped(s) + escaped_char(c));
    }
}

/// A string without special characters escapes to itself.
pub proof fn lemma_escaped_id(s: Seq<char>)
    requires
        forall|i: int| 0 <= i < s.len() ==> !is_html_special(s[i]),
    ensures
        escaped(s) == s,
    decreases s.len(),
{
    if s.len() == 0 {
        assert(escaped(s) =~= s);
    } else {
        assert(!is_html_special(s[0]));
        lemma_escaped_id(s.drop_first());
        assert(escaped(s) =~= s);
    }
}

/// Escaped output never contains a raw tag delimiter: under this policy a
/// substituted value cannot open or close an HTML tag.
pub proof fn lemma_escaped_no_raw_tags(s: Seq<char>)
    ensures
        forall|i: int| 0 <= i < escaped(s).len() ==> escaped(s)[i] != '<' && escaped(s)[i] != '>',
    decreases s.len(),
{
    reveal_strlit("&amp;");
    reveal_strlit("&lt;");
    reveal_strlit("&gt;");
    reveal_strlit("&quot;");
    reveal_strlit("&#x27;");
    if s.len() == 0 {
    } else {
        lemma_escaped_no_raw_tags(s.drop_first());
        assert forall|i: int| 0 <= i < escaped(s).len() implies escaped(s)[i] != '<'
            && escaped(s)[i] != '>' by {
            if i < escaped_char(s[0]).len() {
                assert(escaped(s)[i] == escaped_char(s[0])[i]);
            } else {
                assert(escaped(s)[i] == escaped(s.drop_first())[i - escaped_char(s[0]).len()]);
            }
        }
    }
}

/// Escaping introduces no slash: the escaped form of a slash-free string
/// is slash-free.
pub proof fn lemma_escaped_no_slash(s: Seq<char>)
    requires
        forall|i: int| 0 <= i < s.len() ==> s[i] != '/',
    ensures
        forall|i: int| 0 <= i < escaped(s).len() ==> escaped(s)[i] != '/',
    decreases s.len(),
{
    reveal_strlit("&amp;");
    reveal_strlit("&lt;");
    reveal_strlit("&gt;");
    reveal_strlit("&quot;");
    reveal_strlit("&#x27;");
    if s.len() == 0 {
    } else {
        lemma_escaped_no_slash(s.drop_first());
        assert forall|i: int| 0 <= i < escaped(s).len() implies escaped(s)[i] != '/' by {
            if i < escaped_char(s[0]).len() {
                assert(escaped(s)[i] == escaped_char(s[0])[i]);
            } else {
                assert(escaped(s)[i] == escaped(s.drop_first())[i - escaped_char(s[0]).len()]);
            }
        }
    }
}

/// Escapes a string for substitution into HTML.
pub fn escape_html(s: &str) -> (r: String)
    ensures
        r@ == escaped(s@),
{
    let n = s.unicode_len();
    let mut r = String::new();
    let mut i: usize = 0;
    while i < n
        invariant
            n == s@.len(),
            i <= n,
            r@ == escaped(s@.subrange(0, i as int)),
        decreases n - i,
    {
        let c = s.get_char(i);
        if c == '&' {
            r.append("&amp;");
        } else if c == '<' {
            r.append("&lt;");
        } else if c == '>' {
            r.append("&gt;");
        } else if c == '"' {
            r.append("&quot;");
        } else if c == '\'' {
            r.append("&#x27;");
        } else {
            let piece = s.substring_char(i, i + 1);
            r.append(piece);
            proof {
                assert(piece@ =~= seq![s@[i as int]]);
            }
        }
        proof {
            lemma_escaped_push(s@.subrange(0, i as int), s@[i as int]);
            assert(s@.subrange(0, i + 1 as int) =~= s@.subrange(0, i as int).push(s@[i as int]));
        }
        i += 1;
    }
    proof {
        assert(s@.subrange(0, n as int) =~= s@);
    }
    r
}

} // verus!
