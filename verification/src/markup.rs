//! XML entity escaping and whitespace collapsing for markup text.
use vstd::prelude::*;
use crate::text::{chars_of, char_is_ws, is_ws, matches_at, occurs_at, starts_with};

verus! {

/// Decodes the five predefined XML entities (`&lt;`, `&gt;`, `&quot;`,
/// `&apos;`, `&amp;`), each occurrence in the input once; text produced by a
/// decoding is not decoded again.
pub open spec fn xml_unescape(s: Seq<char>) -> Seq<char>
    decreases s.len(),
{
    if s.len() == 0 {
        s
    } else if s.len() >= 4 && starts_with(s, "&lt;"@) {
        seq!['<'] + xml_unescape(s.skip(4))
    } else if s.len() >= 4 && starts_with(s, "&gt;"@) {
        seq!['>'] + xml_unescape(s.skip(4))
    } else if s.len() >= 6 && starts_with(s, "&quot;"@) {
        seq!['"'] + xml_unescape(s.skip(6))
    } else if s.len() >= 6 && starts_with(s, "&apos;"@) {
        seq!['\''] + xml_unescape(s.skip(6))
    } else if s.len() >= 5 && starts_with(s, "&amp;"@) {
        seq!['&'] + xml_unescape(s.skip(5))
    } else {
        seq![s[0]] + xml_unescape(s.skip(1))
    }
}

proof fn lemma_prefix_at(s: Seq<char>, i: int, p: Seq<char>)
    requires
        0 <= i <= s.len(),
    ensures
        starts_with(s.skip(i), p) == occurs_at(s, p, i),
{
    if p.len() <= s.skip(i).len() {
        assert(s.skip(i).subrange(0, p.len() as int) =~= s.subrange(i, i + p.len()));
    }
}

pub fn unescape_xml_entities(s: &[char]) -> (r: Vec<char>)
    ensures
        r@ == xml_unescape(s@),
{
    let lt = chars_of("&lt;");
    let gt = chars_of("&gt;");
    let quot = chars_of("&quot;");
    let apos = chars_of("&apos;");
    let amp = chars_of("&amp;");
    proof {
        reveal_strlit("&lt;");
        reveal_strlit("&gt;");
        reveal_strlit("&quot;");
        reveal_strlit("&apos;");
        reveal_strlit("&amp;");
    }
    let mut r: Vec<char> = Vec::new();
    let mut i: usize = 0;
    assert(s@.skip(0) =~= s@);
    while i < s.len()
        invariant
            i <= s.len(),
            lt@ == "&lt;"@, gt@ == "&gt;"@, quot@ == "&quot;"@, apos@ == "&apos;"@, amp@ == "&amp;"@,
            lt@.len() == 4, gt@.len() == 4, quot@.len() == 6, apos@.len() == 6, amp@.len() == 5,
            xml_unescape(s@) == r@ + xml_unescape(s@.skip(i as int)),
        decreases s.len() - i,
    {
        let ghost rest = s@.skip(i as int);
        let ghost r0 = r@;
        proof {
            lemma_prefix_at(s@, i as int, "&lt;"@);
            lemma_prefix_at(s@, i as int, "&gt;"@);
            lemma_prefix_at(s@, i as int, "&quot;"@);
            lemma_prefix_at(s@, i as int, "&apos;"@);
            lemma_prefix_at(s@, i as int, "&amp;"@);
        }
        let step: usize;
        if matches_at(s, lt.as_slice(), i) {
            r.push('<');
            step = 4;
        } else if matches_at(s, gt.as_slice(), i) {
            r.push('>');
            step = 4;
        } else if matches_at(s, quot.as_slice(), i) {
            r.push('"');
            step = 6;
        } else if matches_at(s, apos.as_slice(), i) {
            r.push('\'');
            step = 6;
        } else if matches_at(s, amp.as_slice(), i) {
            r.push('&');
            step = 5;
        } else {
            r.push(s[i]);
            step = 1;
        }
        assert(rest.skip(step as int) =~= s@.skip(i + step));
        i = i + step;
        assert(r@ + xml_unescape(s@.skip(i as int)) =~= r0 + (seq![r@.last()] + xml_unescape(s@.skip(i as int))));
    }
    assert(s@.skip(i as int) =~= Seq::<char>::empty());
    assert(r@ + Seq::<char>::empty() =~= r@);
    r
}

/// The XML escape of one character.
pub open spec fn xml_escape_char(c: char) -> Seq<char> {
    if c == '&' {
        "&amp;"@
    } else if c == '<' {
        "&lt;"@
    } else if c == '>' {
        "&gt;"@
    } else if c == '"' {
        "&quot;"@
    } else if c == '\'' {
        "&apos;"@
    } else {
        seq![c]
    }
}

/// Escapes `&`, `<`, `>`, `"` and `'` as XML entities.
pub open spec fn xml_escape(s: Seq<char>) -> Seq<char>
    decreases s.len(),
{
    if s.len() == 0 {
        s
    } else {
        xml_escape(s.drop_last()) + xml_escape_char(s.last())
    }
}

pub fn escape_xml(s: &[char]) -> (r: Vec<char>)
    ensures
        r@ == xml_escape(s@),
{
    let amp = chars_of("&amp;");
    let lt = chars_of("&lt;");
    let gt = chars_of("&gt;");
    let quot = chars_of("&quot;");
    let apos = chars_of("&apos;");
    let mut r: Vec<char> = Vec::new();
    assert(s@.take(0) =~= Seq::<char>::empty());
    for i in 0..s.len()
        invariant
            lt@ == "&lt;"@, gt@ == "&gt;"@, quot@ == "&quot;"@, apos@ == "&apos;"@, amp@ == "&amp;"@,
            r@ == xml_escape(s@.take(i as int)),
    {
        let c = s[i];
        let ghost r0 = r@;
        if c == '&' {
            crate::text::extend(&mut r, amp.as_slice());
        } else if c == '<' {
            crate::text::extend(&mut r, lt.as_slice());
        } else if c == '>' {
            crate::text::extend(&mut r, gt.as_slice());
        } else if c == '"' {
            crate::text::extend(&mut r, quot.as_slice());
        } else if c == '\'' {
            crate::text::extend(&mut r, apos.as_slice());
        } else {
            r.push(c);
            assert(r@ =~= r0 + seq![c]);
        }
        assert(s@.take(i + 1).drop_last() =~= s@.take(i as int));
    }
    assert(s@.take(s.len() as int) =~= s@);
    r
}

proof fn lemma_xml_escape_push_front(c: char, s: Seq<char>)
    ensures
        xml_escape(seq![c] + s) == xml_escape_char(c) + xml_escape(s),
    decreases s.len(),
{
    if s.len() == 0 {
        assert(seq![c] + s =~= seq![c]);
        assert(seq![c].drop_last() =~= Seq::<char>::empty());
        assert(xml_escape_char(c) + xml_escape(s) =~= xml_escape_char(c));
        assert(xml_escape(Seq::<char>::empty()) =~= Seq::<char>::empty());
        assert(seq![c].last() == c);
        assert(xml_escape(seq![c]) =~= Seq::<char>::empty() + xml_escape_char(c));
    } else {
        lemma_xml_escape_push_front(c, s.drop_last());
        assert((seq![c] + s).drop_last() =~= seq![c] + s.drop_last());
        assert((seq![c] + s).last() == s.last());
        assert(xml_escape_char(c) + xml_escape(s) =~= (xml_escape_char(c) + xml_escape(s.drop_last()))
            + xml_escape_char(s.last()));
    }
}

proof fn lemma_differs_at(s: Seq<char>, p: Seq<char>, k: int)
    requires
        0 <= k < p.len(),
        k < s.len(),
        s[k] != p[k],
    ensures
        !starts_with(s, p),
{
    if starts_with(s, p) {
        assert(s.subrange(0, p.len() as int)[k] == s[k]);
    }
}

proof fn lemma_xml_unescape_prefix(c: char, rest: Seq<char>)
    ensures
        xml_unescape(xml_escape_char(c) + rest) == seq![c] + xml_unescape(rest),
{
    reveal_strlit("&lt;");
    reveal_strlit("&gt;");
    reveal_strlit("&quot;");
    reveal_strlit("&apos;");
    reveal_strlit("&amp;");
    let e = xml_escape_char(c);
    let s = e + rest;
    assert(s.skip(e.len() as int) =~= rest);
    assert(s.subrange(0, e.len() as int) =~= e);
    if e.len() == 1 {
        assert(s[0] == c);
        lemma_differs_at(s, "&lt;"@, 0);
        lemma_differs_at(s, "&gt;"@, 0);
        lemma_differs_at(s, "&quot;"@, 0);
        lemma_differs_at(s, "&apos;"@, 0);
        lemma_differs_at(s, "&amp;"@, 0);
    } else if c == '&' {
        assert(s[1] == 'a' && s[2] == 'm');
        lemma_differs_at(s, "&lt;"@, 1);
        lemma_differs_at(s, "&gt;"@, 1);
        lemma_differs_at(s, "&quot;"@, 1);
        lemma_differs_at(s, "&apos;"@, 2);
    } else if c == '>' {
        assert(s[1] == 'g');
        lemma_differs_at(s, "&lt;"@, 1);
    } else if c == '"' {
        assert(s[1] == 'q');
        lemma_differs_at(s, "&lt;"@, 1);
        lemma_differs_at(s, "&gt;"@, 1);
    } else if c == '\'' {
        assert(s[1] == 'a' && s[2] == 'p');
        lemma_differs_at(s, "&lt;"@, 1);
        lemma_differs_at(s, "&gt;"@, 1);
        lemma_differs_at(s, "&quot;"@, 1);
    }
}

/// Decoding the entities of XML-escaped text gives back the text.
pub proof fn lemma_xml_unescape_escape(s: Seq<char>)
    ensures
        xml_unescape(xml_escape(s)) == s,
    decreases s.len(),
{
    if s.len() > 0 {
        let c = s[0];
        let t = s.skip(1);
        assert(s =~= seq![c] + t);
        lemma_xml_escape_push_front(c, t);
        lemma_xml_unescape_prefix(c, xml_escape(t));
        lemma_xml_unescape_escape(t);
    }
}

/// Collapses every run of whitespace into a single space.
pub open spec fn collapse_whitespace(s: Seq<char>) -> Seq<char>
    decreases s.len(),
{
    if s.len() == 0 {
        s
    } else {
        let pre = collapse_whitespace(s.drop_last());
        if !is_ws(s.last()) {
            pre.push(s.last())
        } else if s.len() >= 2 && is_ws(s[s.len() - 2]) {
            pre
        } else {
            pre.push(' ')
        }
    }
}

pub fn collapse_ws(s: &[char]) -> (r: Vec<char>)
    ensures
        r@ == collapse_whitespace(s@),
{
    let mut out: Vec<char> = Vec::new();
    let mut ws = false;
    assert(s@.take(0) =~= Seq::<char>::empty());
    for i in 0..s.len()
        invariant
            out@ == collapse_whitespace(s@.take(i as int)),
            ws == (i > 0 && is_ws(s@[i - 1])),
    {
        let ch = s[i];
        assert(s@.take(i + 1).drop_last() =~= s@.take(i as int));
        assert(s@.take(i + 1).last() == ch);
        if char_is_ws(ch) {
            if !ws {
                out.push(' ');
                ws = true;
            }
            assert(i + 1 >= 2 ==> s@.take(i + 1)[i - 1] == s@[i - 1]);
        } else {
            out.push(ch);
            ws = false;
        }
    }
    assert(s@.take(s.len() as int) =~= s@);
    out
}

}
