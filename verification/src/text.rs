//! Character-level text utilities: escaping for XML, HTML and Pango markup,
//! substring replacement, and the round-trip laws the escapes obey.

use vstd::prelude::*;

verus! {

// ---------------------------------------------------------------------------
// Bridging between `str`/`String` and `Vec<char>`
// ---------------------------------------------------------------------------

/// Collect the characters of a string slice into a vector.
pub fn chars_of(s: &str) -> (r: Vec<char>)
    ensures
        r@ == s@,
{
    let n: usize = s.unicode_len();
    let mut r: Vec<char> = Vec::new();
    let mut i: usize = 0;
    while i < n
        invariant
            n == s@.len(),
            i <= n,
            r@ == s@.subrange(0, i as int),
        decreases n - i,
    {
        r.push(s.get_char(i));
        i = i + 1;
        proof {
            assert(r@ =~= s@.subrange(0, i as int));
        }
    }
    proof {
        assert(r@ =~= s@);
    }
    r
}

/// Relies on `core::iter::Iterator::collect`: a `String` holds exactly the
/// characters it was collected from, in order.
#[verifier::external_body]
pub fn string_from_chars(v: &Vec<char>) -> (r: String)
    ensures
        r@ == v@,
{
    v.iter().collect()
}

/// Character-for-character equality of two string slices.
pub fn str_eq(a: &str, b: &str) -> (r: bool)
    ensures
        r == (a@ == b@),
{
    let oa: String = a.to_owned();
    let ob: String = b.to_owned();
    oa == ob
}

// ---------------------------------------------------------------------------
// Escaping
// ---------------------------------------------------------------------------

/// What one character becomes under XML escaping (`& < > " '`).
pub open spec fn xml_escape_char(c: char) -> Seq<char> {
    if c == '&' {
        seq!['&', 'a', 'm', 'p', ';']
    } else if c == '<' {
        seq!['&', 'l', 't', ';']
    } else if c == '>' {
        seq!['&', 'g', 't', ';']
    } else if c == '"' {
        seq!['&', 'q', 'u', 'o', 't', ';']
    } else if c == '\'' {
        seq!['&', 'a', 'p', 'o', 's', ';']
    } else {
        seq![c]
    }
}

/// XML escaping of a whole string: each character replaced by its entity.
pub open spec fn xml_escaped(s: Seq<char>) -> Seq<char>
    decreases s.len(),
{
    if s.len() == 0 {
        Seq::<char>::empty()
    } else {
        xml_escape_char(s[0]) + xml_escaped(s.drop_first())
    }
}

/// What one character becomes under HTML escaping (`'` becomes `&#x27;`).
pub open spec fn html_escape_char(c: char) -> Seq<char> {
    if c == '\'' {
        seq!['&', '#', 'x', '2', '7', ';']
    } else {
        xml_escape_char(c)
    }
}

/// HTML escaping of a whole string.
pub open spec fn html_escaped(s: Seq<char>) -> Seq<char>
    decreases s.len(),
{
    if s.len() == 0 {
        Seq::<char>::empty()
    } else {
        html_escape_char(s[0]) + html_escaped(s.drop_first())
    }
}

/// What one character becomes under Pango escaping (`& < >` only).
pub open spec fn pango_escape_char(c: char) -> Seq<char> {
    if c == '&' {
        seq!['&', 'a', 'm', 'p', ';']
    } else if c == '<' {
        seq!['&', 'l', 't', ';']
    } else if c == '>' {
        seq!['&', 'g', 't', ';']
    } else {
        seq![c]
    }
}

/// Pango escaping of a whole string.
pub open spec fn pango_escaped(s: Seq<char>) -> Seq<char>
    decreases s.len(),
{
    if s.len() == 0 {
        Seq::<char>::empty()
    } else {
        pango_escape_char(s[0]) + pango_escaped(s.drop_first())
    }
}

/// Append the escape of `c` to `out`, for the XML escape set.
fn push_xml_escape(out: &mut Vec<char>, c: char)
    ensures
        final(out)@ == old(out)@ + xml_escape_char(c),
{
    if c == '&' {
        out.push('&');
        out.push('a');
        out.push('m');
        out.push('p');
        out.push(';');
    } else if c == '<' {
        out.push('&');
        out.push('l');
        out.push('t');
        out.push(';');
    } else if c == '>' {
        out.push('&');
        out.push('g');
        out.push('t');
        out.push(';');
    } else if c == '"' {
        out.push('&');
        out.push('q');
        out.push('u');
        out.push('o');
        out.push('t');
        out.push(';');
    } else if c == '\'' {
        out.push('&');
        out.push('a');
        out.push('p');
        out.push('o');
        out.push('s');
        out.push(';');
    } else {
        out.push(c);
    }
    proof {
        assert(final(out)@ =~= old(out)@ + xml_escape_char(c));
    }
}

/// Escape a string for inclusion in a Windows toast XML document.
pub fn xml_escape(text: &str) -> (r: String)
    ensures
        r@ == xml_escaped(text@),
{
    let cs: Vec<char> = chars_of(text);
    let n: usize = cs.len();
    let mut out: Vec<char> = Vec::new();
    let mut i: usize = 0;
    proof {
        assert(text@.skip(0) =~= text@);
    }
    while i < n
        invariant
            n == cs@.len(),
            cs@ == text@,
            i <= n,
            xml_escaped(text@) == out@ + xml_escaped(text@.skip(i as int)),
        decreases n - i,
    {
        proof {
            assert(text@.skip(i as int)[0] == text@[i as int]);
            assert(text@.skip(i as int).drop_first() =~= text@.skip(i as int + 1));
        }
        push_xml_escape(&mut out, cs[i]);
        i = i + 1;
    }
    proof {
        assert(text@.skip(n as int) =~= Seq::<char>::empty());
    }
    string_from_chars(&out)
}

/// Append the escape of `c` to `out`, for the HTML escape set.
fn push_html_escape(out: &mut Vec<char>, c: char)
    ensures
        final(out)@ == old(out)@ + html_escape_char(c),
{
    if c == '\'' {
        out.push('&');
        out.push('#');
        out.push('x');
        out.push('2');
        out.push('7');
        out.push(';');
        proof {
            assert(final(out)@ =~= old(out)@ + html_escape_char(c));
        }
    } else {
        push_xml_escape(out, c);
    }
}

/// Escape a string for inclusion in HTML output.
pub fn html_escape(text: &str) -> (r: String)
    ensures
        r@ == html_escaped(text@),
{
    let cs: Vec<char> = chars_of(text);
    let n: usize = cs.len();
    let mut out: Vec<char> = Vec::new();
    let mut i: usize = 0;
    proof {
        assert(text@.skip(0) =~= text@);
    }
    while i < n
        invariant
            n == cs@.len(),
            cs@ == text@,
            i <= n,
            html_escaped(text@) == out@ + html_escaped(text@.skip(i as int)),
        decreases n - i,
    {
        proof {
            assert(text@.skip(i as int)[0] == text@[i as int]);
            assert(text@.skip(i as int).drop_first() =~= text@.skip(i as int + 1));
        }
        push_html_escape(&mut out, cs[i]);
        i = i + 1;
    }
    proof {
        assert(text@.skip(n as int) =~= Seq::<char>::empty());
    }
    string_from_chars(&out)
}

/// Append the escape of `c` to `out`, for the Pango escape set.
fn push_pango_escape(out: &mut Vec<char>, c: char)
    ensures
        final(out)@ == old(out)@ + pango_escape_char(c),
{
    if c == '&' {
        out.push('&');
        out.push('a');
        out.push('m');
        out.push('p');
        out.push(';');
    } else if c == '<' {
        out.push('&');
        out.push('l');
        out.push('t');
        out.push(';');
    } else if c == '>' {
        out.push('&');
        out.push('g');
        out.push('t');
        out.push(';');
    } else {
        out.push(c);
    }
    proof {
        assert(final(out)@ =~= old(out)@ + pango_escape_char(c));
    }
}

/// Escape a string for Pango markup (Linux notification bodies).
pub fn pango_escape(text: &str) -> (r: String)
    ensures
        r@ == pango_escaped(text@),
{
    let cs: Vec<char> = chars_of(text);
    let n: usize = cs.len();
    let mut out: Vec<char> = Vec::new();
    let mut i: usize = 0;
    proof {
        assert(text@.skip(0) =~= text@);
    }
    while i < n
        invariant
            n == cs@.len(),
            cs@ == text@,
            i <= n,
            pango_escaped(text@) == out@ + pango_escaped(text@.skip(i as int)),
        decreases n - i,
    {
        proof {
            assert(text@.skip(i as int)[0] == text@[i as int]);
            assert(text@.skip(i as int).drop_first() =~= text@.skip(i as int + 1));
        }
        push_pango_escape(&mut out, cs[i]);
        i = i + 1;
    }
    proof {
        assert(text@.skip(n as int) =~= Seq::<char>::empty());
    }
    string_from_chars(&out)
}

// ---------------------------------------------------------------------------
// Sanitizing custom data values
// ---------------------------------------------------------------------------

/// True of the characters that `sanitize_string` removes.
pub open spec fn is_dropped_char(c: char) -> bool {
    c == '<' || c == '>' || c == '"' || c == '\''
}

/// A string with every `< > " '` removed.
pub open spec fn sanitized_chars(s: Seq<char>) -> Seq<char> {
    s.filter(|c: char| !is_dropped_char(c))
}

/// Remove angle brackets and quote characters from a string.
pub fn sanitize_string(input: &str) -> (r: String)
    ensures
        r@ == sanitized_chars(input@),
{
    let cs: Vec<char> = chars_of(input);
    let n: usize = cs.len();
    let mut out: Vec<char> = Vec::new();
    let mut i: usize = 0;
    while i < n
        invariant
            n == cs@.len(),
            cs@ == input@,
            i <= n,
            out@ == input@.subrange(0, i as int).filter(|c: char| !is_dropped_char(c)),
        decreases n - i,
    {
        let c: char = cs[i];
        if !(c == '<' || c == '>' || c == '"' || c == '\'') {
            out.push(c);
        }
        i = i + 1;
        proof {
            reveal(Seq::filter);
            assert(input@.subrange(0, i as int).drop_last() =~= input@.subrange(
                0,
                i as int - 1,
            ));
            assert(input@.subrange(0, i as int).last() == input@[i - 1]);
        }
    }
    proof {
        assert(input@.subrange(0, n as int) =~= input@);
    }
    string_from_chars(&out)
}

// ---------------------------------------------------------------------------
// Unescaping, and the round-trip laws
// ---------------------------------------------------------------------------

/// Inverse of `xml_escaped`: the five XML entities decoded, other text kept.
pub open spec fn xml_unescaped(s: Seq<char>) -> Seq<char>
    decreases s.len(),
{
    if s.len() == 0 {
        Seq::<char>::empty()
    } else if s.len() >= 5 && s.subrange(0, 5) == seq!['&', 'a', 'm', 'p', ';'] {
        seq!['&'] + xml_unescaped(s.skip(5))
    } else if s.len() >= 4 && s.subrange(0, 4) == seq!['&', 'l', 't', ';'] {
        seq!['<'] + xml_unescaped(s.skip(4))
    } else if s.len() >= 4 && s.subrange(0, 4) == seq!['&', 'g', 't', ';'] {
        seq!['>'] + xml_unescaped(s.skip(4))
    } else if s.len() >= 6 && s.subrange(0, 6) == seq!['&', 'q', 'u', 'o', 't', ';'] {
        seq!['"'] + xml_unescaped(s.skip(6))
    } else if s.len() >= 6 && s.subrange(0, 6) == seq!['&', 'a', 'p', 'o', 's', ';'] {
        seq!['\''] + xml_unescaped(s.skip(6))
    } else {
        seq![s[0]] + xml_unescaped(s.drop_first())
    }
}

/// Inverse of `pango_escaped`: the three Pango entities decoded.
pub open spec fn pango_unescaped(s: Seq<char>) -> Seq<char>
    decreases s.len(),
{
    if s.len() == 0 {
        Seq::<char>::empty()
    } else if s.len() >= 5 && s.subrange(0, 5) == seq!['&', 'a', 'm', 'p', ';'] {
        seq!['&'] + pango_unescaped(s.skip(5))
    } else if s.len() >= 4 && s.subrange(0, 4) == seq!['&', 'l', 't', ';'] {
        seq!['<'] + pango_unescaped(s.skip(4))
    } else if s.len() >= 4 && s.subrange(0, 4) == seq!['&', 'g', 't', ';'] {
        seq!['>'] + pango_unescaped(s.skip(4))
    } else {
        seq![s[0]] + pango_unescaped(s.drop_first())
    }
}

/// XML-escaping any text and then XML-unescaping it yields the original text.
pub proof fn lemma_xml_escape_roundtrip(s: Seq<char>)
    ensures
        xml_unescaped(xml_escaped(s)) == s,
    decreases s.len(),
{
    if s.len() == 0 {
        assert(xml_unescaped(xml_escaped(s)) =~= s);
    } else {
        let c = s[0];
        let rest = s.drop_first();
        lemma_xml_escape_roundtrip(rest);
        let e = xml_escaped(s);
        assert(e == xml_escape_char(c) + xml_escaped(rest));
        if c == '&' {
            assert(e.subrange(0, 5) =~= seq!['&', 'a', 'm', 'p', ';']);
            assert(e.skip(5) =~= xml_escaped(rest));
            assert(xml_unescaped(e) =~= seq![c] + rest);
            assert(seq![c] + rest =~= s);
        } else if c == '<' {
            assert(e.subrange(0, 4) =~= seq!['&', 'l', 't', ';']);
            assert(e.skip(4) =~= xml_escaped(rest));
            assert(!(e.len() >= 5 && e.subrange(0, 5) == seq!['&', 'a', 'm', 'p', ';'])) by {
                if e.len() >= 5 && e.subrange(0, 5) == seq!['&', 'a', 'm', 'p', ';'] {
                    assert(e[1] == 'a');
                    assert(e[1] == 'l');
                }
            }
            assert(xml_unescaped(e) =~= seq![c] + rest);
            assert(seq![c] + rest =~= s);
        } else if c == '>' {
            assert(e.subrange(0, 4) =~= seq!['&', 'g', 't', ';']);
            assert(e.skip(4) =~= xml_escaped(rest));
            assert(!(e.len() >= 5 && e.subrange(0, 5) == seq!['&', 'a', 'm', 'p', ';'])) by {
                if e.len() >= 5 && e.subrange(0, 5) == seq!['&', 'a', 'm', 'p', ';'] {
                    assert(e[1] == 'a');
                    assert(e[1] == 'g');
                }
            }
            assert(!(e.len() >= 4 && e.subrange(0, 4) == seq!['&', 'l', 't', ';'])) by {
                if e.len() >= 4 && e.subrange(0, 4) == seq!['&', 'l', 't', ';'] {
                    assert(e[1] == 'l');
                    assert(e[1] == 'g');
                }
            }
            assert(xml_unescaped(e) =~= seq![c] + rest);
            assert(seq![c] + rest =~= s);
        } else if c == '"' {
            assert(e.subrange(0, 6) =~= seq!['&', 'q', 'u', 'o', 't', ';']);
            assert(e.skip(6) =~= xml_escaped(rest));
            assert(!(e.len() >= 5 && e.subrange(0, 5) == seq!['&', 'a', 'm', 'p', ';'])) by {
                if e.len() >= 5 && e.subrange(0, 5) == seq!['&', 'a', 'm', 'p', ';'] {
                    assert(e[1] == 'a');
                    assert(e[1] == 'q');
                }
            }
            assert(!(e.len() >= 4 && e.subrange(0, 4) == seq!['&', 'l', 't', ';'])) by {
                if e.len() >= 4 && e.subrange(0, 4) == seq!['&', 'l', 't', ';'] {
                    assert(e[1] == 'l');
                    assert(e[1] == 'q');
                }
            }
            assert(!(e.len() >= 4 && e.subrange(0, 4) == seq!['&', 'g', 't', ';'])) by {
                if e.len() >= 4 && e.subrange(0, 4) == seq!['&', 'g', 't', ';'] {
                    assert(e[1] == 'g');
                    assert(e[1] == 'q');
                }
            }
            assert(xml_unescaped(e) =~= seq![c] + rest);
            assert(seq![c] + rest =~= s);
        } else if c == '\'' {
            assert(e.subrange(0, 6) =~= seq!['&', 'a', 'p', 'o', 's', ';']);
            assert(e.skip(6) =~= xml_escaped(rest));
            assert(!(e.len() >= 5 && e.subrange(0, 5) == seq!['&', 'a', 'm', 'p', ';'])) by {
                if e.len() >= 5 && e.subrange(0, 5) == seq!['&', 'a', 'm', 'p', ';'] {
                    assert(e[2] == 'm');
                    assert(e[2] == 'p');
                }
            }
            assert(!(e.len() >= 4 && e.subrange(0, 4) == seq!['&', 'l', 't', ';'])) by {
                if e.len() >= 4 && e.subrange(0, 4) == seq!['&', 'l', 't', ';'] {
                    assert(e[1] == 'l');
                    assert(e[1] == 'a');
                }
            }
            assert(!(e.len() >= 4 && e.subrange(0, 4) == seq!['&', 'g', 't', ';'])) by {
                if e.len() >= 4 && e.subrange(0, 4) == seq!['&', 'g', 't', ';'] {
                    assert(e[1] == 'g');
                    assert(e[1] == 'a');
                }
            }
            assert(!(e.len() >= 6 && e.subrange(0, 6) == seq!['&', 'q', 'u', 'o', 't', ';']))
                by {
                if e.len() >= 6 && e.subrange(0, 6) == seq!['&', 'q', 'u', 'o', 't', ';'] {
                    assert(e[1] == 'q');
                    assert(e[1] == 'a');
                }
            }
            assert(xml_unescaped(e) =~= seq![c] + rest);
            assert(seq![c] + rest =~= s);
        } else {
            // An unescaped character is kept as itself; no entity begins
            // without an ampersand.
            assert(e[0] == c);
            assert(!(e.len() >= 5 && e.subrange(0, 5) == seq!['&', 'a', 'm', 'p', ';'])) by {
                if e.len() >= 5 && e.subrange(0, 5) == seq!['&', 'a', 'm', 'p', ';'] {
                    assert(e[0] == '&');
                }
            }
            assert(!(e.len() >= 4 && e.subrange(0, 4) == seq!['&', 'l', 't', ';'])) by {
                if e.len() >= 4 && e.subrange(0, 4) == seq!['&', 'l', 't', ';'] {
                    assert(e[0] == '&');
                }
            }
            assert(!(e.len() >= 4 && e.subrange(0, 4) == seq!['&', 'g', 't', ';'])) by {
                if e.len() >= 4 && e.subrange(0, 4) == seq!['&', 'g', 't', ';'] {
                    assert(e[0] == '&');
                }
            }
            assert(!(e.len() >= 6 && e.subrange(0, 6) == seq!['&', 'q', 'u', 'o', 't', ';']))
                by {
                if e.len() >= 6 && e.subrange(0, 6) == seq!['&', 'q', 'u', 'o', 't', ';'] {
                    assert(e[0] == '&');
                }
            }
            assert(!(e.len() >= 6 && e.subrange(0, 6) == seq!['&', 'a', 'p', 'o', 's', ';']))
                by {
                if e.len() >= 6 && e.subrange(0, 6) == seq!['&', 'a', 'p', 'o', 's', ';'] {
                    assert(e[0] == '&');
                }
            }
            assert(e.drop_first() =~= xml_escaped(rest));
            assert(xml_unescaped(e) =~= seq![c] + rest);
            assert(seq![c] + rest =~= s);
        }
    }
}

/// Pango-escaping any text and then Pango-unescaping it yields the original
/// text: the escape is inverted exactly on the escaped set `{&, <, >}`.
pub proof fn lemma_pango_escape_roundtrip(s: Seq<char>)
    ensures
        pango_unescaped(pango_escaped(s)) == s,
    decreases s.len(),
{
    if s.len() == 0 {
        assert(pango_unescaped(pango_escaped(s)) =~= s);
    } else {
        let c = s[0];
        let rest = s.drop_first();
        lemma_pango_escape_roundtrip(rest);
        let e = pango_escaped(s);
        assert(e == pango_escape_char(c) + pango_escaped(rest));
        if c == '&' {
            assert(e.subrange(0, 5) =~= seq!['&', 'a', 'm', 'p', ';']);
            assert(e.skip(5) =~= pango_escaped(rest));
            assert(pango_unescaped(e) =~= seq![c] + rest);
            assert(seq![c] + rest =~= s);
        } else if c == '<' {
            assert(e.subrange(0, 4) =~= seq!['&', 'l', 't', ';']);
            assert(e.skip(4) =~= pango_escaped(rest));
            assert(!(e.len() >= 5 && e.subrange(0, 5) == seq!['&', 'a', 'm', 'p', ';'])) by {
                if e.len() >= 5 && e.subrange(0, 5) == seq!['&', 'a', 'm', 'p', ';'] {
                    assert(e[1] == 'a');
                    assert(e[1] == 'l');
                }
            }
            assert(pango_unescaped(e) =~= seq![c] + rest);
            assert(seq![c] + rest =~= s);
        } else if c == '>' {
            assert(e.subrange(0, 4) =~= seq!['&', 'g', 't', ';']);
            assert(e.skip(4) =~= pango_escaped(rest));
            assert(!(e.len() >= 5 && e.subrange(0, 5) == seq!['&', 'a', 'm', 'p', ';'])) by {
                if e.len() >= 5 && e.subrange(0, 5) == seq!['&', 'a', 'm', 'p', ';'] {
                    assert(e[1] == 'a');
                    assert(e[1] == 'g');
                }
            }
            assert(!(e.len() >= 4 && e.subrange(0, 4) == seq!['&', 'l', 't', ';'])) by {
                if e.len() >= 4 && e.subrange(0, 4) == seq!['&', 'l', 't', ';'] {
                    assert(e[1] == 'l');
                    assert(e[1] == 'g');
                }
            }
            assert(pango_unescaped(e) =~= seq![c] + rest);
            assert(seq![c] + rest =~= s);
        } else {
            assert(e[0] == c);
            assert(!(e.len() >= 5 && e.subrange(0, 5) == seq!['&', 'a', 'm', 'p', ';'])) by {
                if e.len() >= 5 && e.subrange(0, 5) == seq!['&', 'a', 'm', 'p', ';'] {
                    assert(e[0] == '&');
                }
            }
            assert(!(e.len() >= 4 && e.subrange(0, 4) == seq!['&', 'l', 't', ';'])) by {
                if e.len() >= 4 && e.subrange(0, 4) == seq!['&', 'l', 't', ';'] {
                    assert(e[0] == '&');
                }
            }
            assert(!(e.len() >= 4 && e.subrange(0, 4) == seq!['&', 'g', 't', ';'])) by {
                if e.len() >= 4 && e.subrange(0, 4) == seq!['&', 'g', 't', ';'] {
                    assert(e[0] == '&');
                }
            }
            assert(e.drop_first() =~= pango_escaped(rest));
            assert(pango_unescaped(e) =~= seq![c] + rest);
            assert(seq![c] + rest =~= s);
        }
    }
}

// ---------------------------------------------------------------------------
// Substring replacement
// ---------------------------------------------------------------------------

/// Every non-overlapping occurrence of `pat` in `s` replaced by `rep`,
/// scanning left to right.  An empty pattern leaves `s` unchanged.
pub open spec fn replaced(s: Seq<char>, pat: Seq<char>, rep: Seq<char>) -> Seq<char>
    decreases s.len(),
{
    if pat.len() == 0 || s.len() < pat.len() {
        s
    } else if s.subrange(0, pat.len() as int) == pat {
        rep + replaced(s.skip(pat.len() as int), pat, rep)
    } else {
        seq![s[0]] + replaced(s.drop_first(), pat, rep)
    }
}

/// Does `pat` occur in `s` starting at position `i`?
fn matches_at(s: &Vec<char>, pat: &Vec<char>, i: usize) -> (r: bool)
    requires
        i <= s@.len(),
    ensures
        r == (i + pat@.len() <= s@.len() && s@.subrange(
            i as int,
            i as int + pat@.len(),
        ) == pat@),
{
    let plen: usize = pat.len();
    let slen: usize = s.len();
    if plen > slen - i {
        return false;
    }
    let mut j: usize = 0;
    while j < plen
        invariant
            slen == s@.len(),
            i + plen <= slen,
            plen == pat@.len(),
            j <= plen,
            s@.subrange(i as int, i as int + j as int) == pat@.subrange(0, j as int),
        decreases plen - j,
    {
        if s[i + j] != pat[j] {
            proof {
                assert(s@.subrange(i as int, i as int + pat@.len())[j as int] == s@[i + j]);
            }
            return false;
        }
        j = j + 1;
        proof {
            assert(s@.subrange(i as int, i as int + j as int) =~= pat@.subrange(0, j as int));
        }
    }
    proof {
        assert(s@.subrange(i as int, i as int + plen as int) =~= pat@);
    }
    true
}

/// Replace every occurrence of `pat` in `s` by `rep`, left to right.
pub fn replace_all(s: &Vec<char>, pat: &Vec<char>, rep: &Vec<char>) -> (r: Vec<char>)
    ensures
        r@ == replaced(s@, pat@, rep@),
{
    let n: usize = s.len();
    let plen: usize = pat.len();
    let mut out: Vec<char> = Vec::new();
    let mut i: usize = 0;
    proof {
        assert(s@.skip(0) =~= s@);
    }
    while i < n
        invariant
            n == s@.len(),
            plen == pat@.len(),
            i <= n,
            replaced(s@, pat@, rep@) == out@ + replaced(s@.skip(i as int), pat@, rep@),
        decreases n - i,
    {
        let ghost tail = s@.skip(i as int);
        if plen > 0 && matches_at(s, pat, i) {
            proof {
                assert(tail.subrange(0, plen as int) =~= s@.subrange(
                    i as int,
                    i as int + plen as int,
                ));
                assert(tail.skip(plen as int) =~= s@.skip(i as int + plen as int));
            }
            let ghost out0 = out@;
            let rlen: usize = rep.len();
            let mut j: usize = 0;
            while j < rlen
                invariant
                    rlen == rep@.len(),
                    j <= rlen,
                    out@ == out0 + rep@.subrange(0, j as int),
                decreases rlen - j,
            {
                out.push(rep[j]);
                j = j + 1;
                proof {
                    assert(out@ =~= out0 + rep@.subrange(0, j as int));
                }
            }
            proof {
                assert(out@ =~= out0 + rep@);
            }
            i = i + plen;
        } else {
            proof {
                assert(tail[0] == s@[i as int]);
                assert(tail.drop_first() =~= s@.skip(i as int + 1));
                if plen > 0 && tail.len() >= plen {
                    assert(tail.subrange(0, plen as int) =~= s@.subrange(
                        i as int,
                        i as int + plen as int,
                    ));
                }
            }
            out.push(s[i]);
            i = i + 1;
        }
    }
    proof {
        assert(s@.skip(n as int) =~= Seq::<char>::empty());
    }
    out
}

// ---------------------------------------------------------------------------
// HTML entity decoding
// ---------------------------------------------------------------------------

/// The named and numeric entities decoded before HTML is converted to plain
/// text.  `&amp;` is decoded last so that text such as `&amp;lt;` yields the
/// literal `&lt;` rather than `<`.
pub open spec fn decoded_entities(s: Seq<char>) -> Seq<char> {
    let s1 = replaced(s, seq!['&', 'l', 't', ';'], seq!['<']);
    let s2 = replaced(s1, seq!['&', 'g', 't', ';'], seq!['>']);
    let s3 = replaced(s2, seq!['&', 'q', 'u', 'o', 't', ';'], seq!['"']);
    let s4 = replaced(s3, seq!['&', '#', '3', '9', ';'], seq!['\'']);
    let s5 = replaced(s4, seq!['&', '#', 'x', '2', '7', ';'], seq!['\'']);
    let s6 = replaced(s5, seq!['&', 'a', 'p', 'o', 's', ';'], seq!['\'']);
    let s7 = replaced(s6, seq!['&', 'n', 'b', 's', 'p', ';'], seq![' ']);
    let s8 = replaced(s7, seq!['&', 'n', 'd', 'a', 's', 'h', ';'], seq!['\u{2013}']);
    let s9 = replaced(s8, seq!['&', 'm', 'd', 'a', 's', 'h', ';'], seq!['\u{2014}']);
    let s10 = replaced(s9, seq!['&', 'h', 'e', 'l', 'l', 'i', 'p', ';'], seq!['\u{2026}']);
    let s11 = replaced(s10, seq!['&', 'c', 'o', 'p', 'y', ';'], seq!['\u{a9}']);
    let s12 = replaced(s11, seq!['&', 'r', 'e', 'g', ';'], seq!['\u{ae}']);
    let s13 = replaced(s12, seq!['&', 't', 'r', 'a', 'd', 'e', ';'], seq!['\u{2122}']);
    replaced(s13, seq!['&', 'a', 'm', 'p', ';'], seq!['&'])
}

/// Decode the common HTML entities in `s`, `&amp;` last.
pub fn decode_entities_chars(s: &Vec<char>) -> (r: Vec<char>)
    ensures
        r@ == decoded_entities(s@),
{
    let apos: Vec<char> = vec!['\''];
    let p_lt: Vec<char> = chars_of("&lt;");
    let p_gt: Vec<char> = chars_of("&gt;");
    let p_quot: Vec<char> = chars_of("&quot;");
    let p_39: Vec<char> = chars_of("&#39;");
    let p_x27: Vec<char> = chars_of("&#x27;");
    let p_apos: Vec<char> = chars_of("&apos;");
    let p_nbsp: Vec<char> = chars_of("&nbsp;");
    let p_ndash: Vec<char> = chars_of("&ndash;");
    let p_mdash: Vec<char> = chars_of("&mdash;");
    let p_hellip: Vec<char> = chars_of("&hellip;");
    let p_copy: Vec<char> = chars_of("&copy;");
    let p_reg: Vec<char> = chars_of("&reg;");
    let p_trade: Vec<char> = chars_of("&trade;");
    let p_amp: Vec<char> = chars_of("&amp;");
    proof {
        reveal_strlit("&lt;");
        reveal_strlit("&gt;");
        reveal_strlit("&quot;");
        reveal_strlit("&#39;");
        reveal_strlit("&#x27;");
        reveal_strlit("&apos;");
        reveal_strlit("&nbsp;");
        reveal_strlit("&ndash;");
        reveal_strlit("&mdash;");
        reveal_strlit("&hellip;");
        reveal_strlit("&copy;");
        reveal_strlit("&reg;");
        reveal_strlit("&trade;");
        reveal_strlit("&amp;");
        assert(p_lt@ =~= seq!['&', 'l', 't', ';']);
        assert(p_gt@ =~= seq!['&', 'g', 't', ';']);
        assert(p_quot@ =~= seq!['&', 'q', 'u', 'o', 't', ';']);
        assert(p_39@ =~= seq!['&', '#', '3', '9', ';']);
        assert(p_x27@ =~= seq!['&', '#', 'x', '2', '7', ';']);
        assert(p_apos@ =~= seq!['&', 'a', 'p', 'o', 's', ';']);
        assert(p_nbsp@ =~= seq!['&', 'n', 'b', 's', 'p', ';']);
        assert(p_ndash@ =~= seq!['&', 'n', 'd', 'a', 's', 'h', ';']);
        assert(p_mdash@ =~= seq!['&', 'm', 'd', 'a', 's', 'h', ';']);
        assert(p_hellip@ =~= seq!['&', 'h', 'e', 'l', 'l', 'i', 'p', ';']);
        assert(p_copy@ =~= seq!['&', 'c', 'o', 'p', 'y', ';']);
        assert(p_reg@ =~= seq!['&', 'r', 'e', 'g', ';']);
        assert(p_trade@ =~= seq!['&', 't', 'r', 'a', 'd', 'e', ';']);
        assert(p_amp@ =~= seq!['&', 'a', 'm', 'p', ';']);
        assert(apos@ =~= seq!['\'']);
    }
    let r_lt: Vec<char> = vec!['<'];
    let r_gt: Vec<char> = vec!['>'];
    let r_quot: Vec<char> = vec!['"'];
    let r_sp: Vec<char> = vec![' '];
    let r_ndash: Vec<char> = vec!['\u{2013}'];
    let r_mdash: Vec<char> = vec!['\u{2014}'];
    let r_hellip: Vec<char> = vec!['\u{2026}'];
    let r_copy: Vec<char> = vec!['\u{a9}'];
    let r_reg: Vec<char> = vec!['\u{ae}'];
    let r_trade: Vec<char> = vec!['\u{2122}'];
    let r_amp: Vec<char> = vec!['&'];
    proof {
        assert(r_lt@ =~= seq!['<']);
        assert(r_gt@ =~= seq!['>']);
        assert(r_quot@ =~= seq!['"']);
        assert(r_sp@ =~= seq![' ']);
        assert(r_ndash@ =~= seq!['\u{2013}']);
        assert(r_mdash@ =~= seq!['\u{2014}']);
        assert(r_hellip@ =~= seq!['\u{2026}']);
        assert(r_copy@ =~= seq!['\u{a9}']);
        assert(r_reg@ =~= seq!['\u{ae}']);
        assert(r_trade@ =~= seq!['\u{2122}']);
        assert(r_amp@ =~= seq!['&']);
    }
    let s1: Vec<char> = replace_all(s, &p_lt, &r_lt);
    let s2: Vec<char> = replace_all(&s1, &p_gt, &r_gt);
    let s3: Vec<char> = replace_all(&s2, &p_quot, &r_quot);
    let s4: Vec<char> = replace_all(&s3, &p_39, &apos);
    let s5: Vec<char> = replace_all(&s4, &p_x27, &apos);
    let s6: Vec<char> = replace_all(&s5, &p_apos, &apos);
    let s7: Vec<char> = replace_all(&s6, &p_nbsp, &r_sp);
    let s8: Vec<char> = replace_all(&s7, &p_ndash, &r_ndash);
    let s9: Vec<char> = replace_all(&s8, &p_mdash, &r_mdash);
    let s10: Vec<char> = replace_all(&s9, &p_hellip, &r_hellip);
    let s11: Vec<char> = replace_all(&s10, &p_copy, &r_copy);
    let s12: Vec<char> = replace_all(&s11, &p_reg, &r_reg);
    let s13: Vec<char> = replace_all(&s12, &p_trade, &r_trade);
    replace_all(&s13, &p_amp, &r_amp)
}

/// Decode the common HTML entities in a string.
pub fn decode_html_entities(s: &str) -> (r: String)
    ensures
        r@ == decoded_entities(s@),
{
    let cs: Vec<char> = chars_of(s);
    let out: Vec<char> = decode_entities_chars(&cs);
    string_from_chars(&out)
}

// ---------------------------------------------------------------------------
// Lines and whitespace
// ---------------------------------------------------------------------------

/// The whitespace characters trimmed from line ends.
pub open spec fn is_space(c: char) -> bool {
    c == ' ' || c == '\t' || c == '\r' || c == '\n' || c == '\u{a0}'
}

/// Whether `c` is a whitespace character trimmed from line ends.
pub fn is_space_char(c: char) -> (r: bool)
    ensures
        r == is_space(c),
{
    c == ' ' || c == '\t' || c == '\r' || c == '\n' || c == '\u{a0}'
}

/// `s` with leading whitespace removed.
pub open spec fn trimmed_start(s: Seq<char>) -> Seq<char>
    decreases s.len(),
{
    if s.len() > 0 && is_space(s[0]) {
        trimmed_start(s.drop_first())
    } else {
        s
    }
}

/// `s` with trailing whitespace removed.
pub open spec fn trimmed_end(s: Seq<char>) -> Seq<char>
    decreases s.len(),
{
    if s.len() > 0 && is_space(s.last()) {
        trimmed_end(s.drop_last())
    } else {
        s
    }
}

/// `s` with whitespace removed from both ends.
pub open spec fn trimmed(s: Seq<char>) -> Seq<char> {
    trimmed_end(trimmed_start(s))
}

/// Remove whitespace from both ends of `s`.
pub fn trim_chars(s: &Vec<char>) -> (r: Vec<char>)
    ensures
        r@ == trimmed(s@),
{
    let n: usize = s.len();
    let mut start: usize = 0;
    proof {
        assert(s@.skip(0) =~= s@);
    }
    while start < n && is_space_char(s[start])
        invariant
            n == s@.len(),
            start <= n,
            trimmed_start(s@) == trimmed_start(s@.skip(start as int)),
        decreases n - start,
    {
        proof {
            assert(s@.skip(start as int)[0] == s@[start as int]);
            assert(s@.skip(start as int).drop_first() =~= s@.skip(start as int + 1));
        }
        start = start + 1;
    }
    proof {
        if start < n {
            assert(s@.skip(start as int)[0] == s@[start as int]);
        } else {
            assert(s@.skip(start as int) =~= Seq::<char>::empty());
        }
        assert(trimmed_start(s@) == s@.skip(start as int));
    }
    let mut end: usize = n;
    while end > start && is_space_char(s[end - 1])
        invariant
            n == s@.len(),
            start <= end <= n,
            trimmed_start(s@) == s@.skip(start as int),
            trimmed_end(s@.skip(start as int)) == trimmed_end(
                s@.subrange(start as int, end as int),
            ),
        decreases end,
    {
        proof {
            let cur = s@.subrange(start as int, end as int);
            assert(s@.skip(start as int) =~= s@.subrange(start as int, n as int));
            assert(cur.last() == s@[end - 1]);
            assert(cur.drop_last() =~= s@.subrange(start as int, end as int - 1));
        }
        end = end - 1;
    }
    proof {
        let cur = s@.subrange(start as int, end as int);
        assert(s@.skip(start as int) =~= s@.subrange(start as int, n as int));
        if end > start {
            assert(cur.last() == s@[end - 1]);
        }
        assert(trimmed_end(cur) == cur);
    }
    let mut out: Vec<char> = Vec::new();
    let mut i: usize = start;
    while i < end
        invariant
            start <= i <= end <= n,
            n == s@.len(),
            out@ == s@.subrange(start as int, i as int),
        decreases end - i,
    {
        out.push(s[i]);
        i = i + 1;
        proof {
            assert(out@ =~= s@.subrange(start as int, i as int));
        }
    }
    out
}

/// The position of the first `'\n'` in `s`; meaningful only when one occurs.
pub open spec fn first_newline(s: Seq<char>) -> nat
    decreases s.len(),
{
    if s.len() == 0 {
        0
    } else if s[0] == '\n' {
        0
    } else {
        1 + first_newline(s.drop_first())
    }
}

/// `s` divided at every `'\n'`; the separators are not kept.
pub open spec fn split_lines(s: Seq<char>) -> Seq<Seq<char>>
    decreases s.len(),
    via split_lines_decreases
{
    if !s.contains('\n') {
        seq![s]
    } else {
        let i = first_newline(s) as int;
        seq![s.subrange(0, i)] + split_lines(s.skip(i + 1))
    }
}

#[via_fn]
proof fn split_lines_decreases(s: Seq<char>) {
    if s.contains('\n') {
        lemma_first_newline(s);
    }
}

/// Facts about `first_newline` when a newline occurs in `s`.
pub proof fn lemma_first_newline(s: Seq<char>)
    requires
        s.contains('\n'),
    ensures
        0 <= first_newline(s) < s.len(),
        s[first_newline(s) as int] == '\n',
        forall|j: int| 0 <= j < first_newline(s) ==> s[j] != '\n',
    decreases s.len(),
{
    if s[0] != '\n' {
        assert(s.drop_first().contains('\n')) by {
            let k = choose|k: int| 0 <= k < s.len() && s[k] == '\n';
            assert(s.drop_first()[k - 1] == '\n');
        }
        lemma_first_newline(s.drop_first());
        assert forall|j: int| 0 <= j < first_newline(s) implies s[j] != '\n' by {
            if j > 0 {
                assert(s.drop_first()[j - 1] == s[j]);
            }
        }
    }
}

/// `first_newline` is determined by any witness with nothing before it.
pub proof fn lemma_first_newline_is(s: Seq<char>, m: int)
    requires
        0 <= m < s.len(),
        s[m] == '\n',
        forall|j: int| 0 <= j < m ==> s[j] != '\n',
    ensures
        first_newline(s) == m,
        s.contains('\n'),
{
    assert(s.contains('\n'));
    lemma_first_newline(s);
    if first_newline(s) < m {
        assert(s[first_newline(s) as int] == '\n');
    }
}

/// Lines joined with single newlines.
pub open spec fn joined_lines(ls: Seq<Seq<char>>) -> Seq<char>
    decreases ls.len(),
{
    if ls.len() == 0 {
        Seq::<char>::empty()
    } else if ls.len() == 1 {
        ls[0]
    } else {
        ls[0] + seq!['\n'] + joined_lines(ls.drop_first())
    }
}

/// The whitespace normalization applied after tags are stripped: every line
/// trimmed, empty lines dropped, the rest joined with single newlines.
pub open spec fn normalized_lines(s: Seq<char>) -> Seq<char> {
    joined_lines(
        split_lines(s).map_values(|l: Seq<char>| trimmed(l)).filter(
            |l: Seq<char>| l.len() != 0,
        ),
    )
}

/// Split `s` at newlines.
pub fn split_lines_exec(s: &Vec<char>) -> (r: Vec<Vec<char>>)
    ensures
        r.deep_view() == split_lines(s@),
{
    let n: usize = s.len();
    let mut out: Vec<Vec<char>> = Vec::new();
    let mut cur: Vec<char> = Vec::new();
    let mut i: usize = 0;
    proof {
        assert(out.deep_view() =~= Seq::<Seq<char>>::empty());
        assert(cur@ + s@.skip(0) =~= s@);
        assert(Seq::<Seq<char>>::empty() + split_lines(s@) =~= split_lines(s@));
    }
    while i < n
        invariant
            n == s@.len(),
            i <= n,
            split_lines(s@) == out.deep_view() + split_lines(cur@ + s@.skip(i as int)),
            !cur@.contains('\n'),
        decreases n - i,
    {
        let c: char = s[i];
        let ghost rest = cur@ + s@.skip(i as int);
        proof {
            assert(s@.skip(i as int)[0] == s@[i as int]);
            assert(rest.skip(cur@.len() as int) =~= s@.skip(i as int));
            assert(rest[cur@.len() as int] == s@[i as int]);
        }
        if c == '\n' {
            proof {
                assert(rest.contains('\n')) by {
                    assert(rest[cur@.len() as int] == '\n');
                }
                lemma_first_newline(rest);
                assert forall|j: int| 0 <= j < cur@.len() implies rest[j] != '\n' by {
                    assert(rest[j] == cur@[j]);
                }
                assert(first_newline(rest) == cur@.len()) by {
                    if first_newline(rest) < cur@.len() {
                        assert(rest[first_newline(rest) as int] == '\n');
                    }
                }
                assert(rest.subrange(0, cur@.len() as int) =~= cur@);
                assert(rest.skip(cur@.len() as int + 1) =~= s@.skip(i as int + 1));
            }
            let ghost old_deep = out.deep_view();
            let ghost cur_view = cur@;
            out.push(cur);
            cur = Vec::new();
            proof {
                assert forall|k: int| 0 <= k < out.deep_view().len() implies #[trigger] out
                    .deep_view()[k] == old_deep.push(cur_view)[k] by {}
                assert(out.deep_view() =~= old_deep.push(cur_view));
                assert(split_lines(rest) =~= seq![cur_view] + split_lines(
                    s@.skip(i as int + 1),
                ));
                assert(old_deep.push(cur_view) =~= old_deep + seq![cur_view]);
                assert(cur@ + s@.skip(i as int + 1) =~= s@.skip(i as int + 1));
                assert(out.deep_view() + split_lines(cur@ + s@.skip(i as int + 1))
                    =~= old_deep + split_lines(rest));
            }
        } else {
            proof {
                assert(cur@.push(c) + s@.skip(i as int + 1) =~= rest);
                assert(!cur@.push(c).contains('\n')) by {
                    assert forall|j: int| 0 <= j < cur@.push(c).len() implies cur@.push(c)[j]
                        != '\n' by {
                        if j < cur@.len() {
                            assert(cur@.push(c)[j] == cur@[j]);
                        }
                    }
                }
            }
            cur.push(c);
        }
        i = i + 1;
    }
    proof {
        assert(cur@ + s@.skip(n as int) =~= cur@);
        assert(!cur@.contains('\n') ==> split_lines(cur@) == seq![cur@]);
    }
    let ghost old_deep = out.deep_view();
    let ghost cur_view = cur@;
    out.push(cur);
    proof {
        assert forall|k: int| 0 <= k < out.deep_view().len() implies #[trigger] out.deep_view()[k]
            == old_deep.push(cur_view)[k] by {}
        assert(out.deep_view() =~= old_deep.push(cur_view));
        assert(old_deep.push(cur_view) =~= old_deep + seq![cur_view]);
    }
    out
}

/// What remains of the join after the first `i` lines have been emitted.
pub open spec fn join_rest(ls: Seq<Seq<char>>, i: int) -> Seq<char> {
    if i == 0 {
        joined_lines(ls)
    } else if i < ls.len() {
        seq!['\n'] + joined_lines(ls.skip(i))
    } else {
        Seq::<char>::empty()
    }
}

proof fn lemma_join_unfold(ls: Seq<Seq<char>>, i: int)
    requires
        0 <= i < ls.len(),
    ensures
        join_rest(ls, i) == (if i > 0 {
            seq!['\n']
        } else {
            Seq::<char>::empty()
        }) + ls[i] + join_rest(ls, i + 1),
{
    if i == 0 {
        if ls.len() == 1 {
            assert(join_rest(ls, 0) =~= Seq::<char>::empty() + ls[0] + join_rest(ls, 1));
        } else {
            assert(ls.drop_first() =~= ls.skip(1));
            assert(join_rest(ls, 0) =~= Seq::<char>::empty() + ls[0] + join_rest(ls, 1));
        }
    } else {
        let tail = ls.skip(i);
        assert(tail[0] == ls[i]);
        if i + 1 == ls.len() {
            assert(tail.len() == 1);
            assert(join_rest(ls, i) =~= seq!['\n'] + ls[i] + join_rest(ls, i + 1));
        } else {
            assert(tail.drop_first() =~= ls.skip(i + 1));
            assert(join_rest(ls, i) =~= seq!['\n'] + ls[i] + join_rest(ls, i + 1));
        }
    }
}

/// Join lines with single newlines.
fn join_lines_exec(ls: &Vec<Vec<char>>) -> (r: Vec<char>)
    ensures
        r@ == joined_lines(ls.deep_view()),
{
    let n: usize = ls.len();
    let mut out: Vec<char> = Vec::new();
    let mut i: usize = 0;
    proof {
        assert(ls.deep_view().len() == n);
        assert(Seq::<char>::empty() + join_rest(ls.deep_view(), 0) =~= joined_lines(
            ls.deep_view(),
        ));
    }
    while i < n
        invariant
            n == ls.deep_view().len(),
            i <= n,
            joined_lines(ls.deep_view()) == out@ + join_rest(ls.deep_view(), i as int),
        decreases n - i,
    {
        proof {
            lemma_join_unfold(ls.deep_view(), i as int);
        }
        if i > 0 {
            out.push('\n');
        }
        let line: &Vec<char> = &ls[i];
        proof {
            assert(line@ == ls.deep_view()[i as int]);
        }
        let ghost out0 = out@;
        let mut j: usize = 0;
        while j < line.len()
            invariant
                j <= line@.len(),
                out@ == out0 + line@.subrange(0, j as int),
            decreases line@.len() - j,
        {
            out.push(line[j]);
            j = j + 1;
            proof {
                assert(out@ =~= out0 + line@.subrange(0, j as int));
            }
        }
        proof {
            assert(out0 + line@.subrange(0, line@.len() as int) =~= out0 + line@);
        }
        i = i + 1;
    }
    out
}

/// Trim every line of `s`, drop the empty ones, join with single newlines.
pub fn normalize_lines(s: &Vec<char>) -> (r: Vec<char>)
    ensures
        r@ == normalized_lines(s@),
{
    let lines: Vec<Vec<char>> = split_lines_exec(s);
    let n: usize = lines.len();
    let mut kept: Vec<Vec<char>> = Vec::new();
    let mut i: usize = 0;
    proof {
        assert(lines.deep_view().subrange(0, 0) =~= Seq::<Seq<char>>::empty());
        reveal(Seq::filter);
        assert(kept.deep_view() =~= Seq::<Seq<char>>::empty());
        assert(Seq::<Seq<char>>::empty().map_values(|l: Seq<char>| trimmed(l)) =~= Seq::<
            Seq<char>,
        >::empty());
        assert(Seq::<Seq<char>>::empty().filter(|l: Seq<char>| l.len() != 0) =~= Seq::<
            Seq<char>,
        >::empty());
    }
    while i < n
        invariant
            n == lines.deep_view().len(),
            n == lines@.len(),
            i <= n,
            kept.deep_view() == lines.deep_view().subrange(0, i as int).map_values(
                |l: Seq<char>| trimmed(l),
            ).filter(|l: Seq<char>| l.len() != 0),
        decreases n - i,
    {
        let t: Vec<char> = trim_chars(&lines[i]);
        let ghost pre = lines.deep_view().subrange(0, i as int).map_values(
            |l: Seq<char>| trimmed(l),
        );
        let ghost mapped_next = lines.deep_view().subrange(0, i as int + 1).map_values(
            |l: Seq<char>| trimmed(l),
        );
        proof {
            reveal(Seq::filter);
            assert(lines@[i as int]@ == lines.deep_view()[i as int]);
            assert(t@ == trimmed(lines.deep_view()[i as int]));
            assert(mapped_next.drop_last() =~= pre);
            assert(mapped_next.last() == trimmed(lines.deep_view()[i as int]));
            assert(mapped_next =~= pre.push(t@));
        }
        if t.len() > 0 {
            let ghost old_deep = kept.deep_view();
            let ghost t_view = t@;
            kept.push(t);
            proof {
                assert forall|k: int| 0 <= k < kept.deep_view().len() implies #[trigger] kept
                    .deep_view()[k] == old_deep.push(t_view)[k] by {}
                assert(kept.deep_view() =~= old_deep.push(t_view));
                assert(mapped_next.filter(|l: Seq<char>| l.len() != 0) =~= old_deep.push(
                    t_view,
                ));
            }
        } else {
            proof {
                assert(mapped_next.filter(|l: Seq<char>| l.len() != 0) =~= kept.deep_view());
            }
        }
        i = i + 1;
    }
    proof {
        assert(lines.deep_view().subrange(0, n as int) =~= lines.deep_view());
    }
    join_lines_exec(&kept)
}

// ---------------------------------------------------------------------------
// Decimal text
// ---------------------------------------------------------------------------

/// The decimal digit character for `d`, when `0 <= d < 10`.
pub open spec fn dec_digit(d: int) -> char {
    if d == 0 {
        '0'
    } else if d == 1 {
        '1'
    } else if d == 2 {
        '2'
    } else if d == 3 {
        '3'
    } else if d == 4 {
        '4'
    } else if d == 5 {
        '5'
    } else if d == 6 {
        '6'
    } else if d == 7 {
        '7'
    } else if d == 8 {
        '8'
    } else {
        '9'
    }
}

/// Decimal text of `v`, without leading zeros.
pub open spec fn dec_of(v: nat) -> Seq<char>
    decreases v,
{
    if v < 10 {
        seq![dec_digit(v as int)]
    } else {
        dec_of(v / 10) + seq![dec_digit((v % 10) as int)]
    }
}

fn dec_digit_exec(d: u8) -> (r: char)
    requires
        d < 10,
    ensures
        r == dec_digit(d as int),
{
    if d == 0 {
        '0'
    } else if d == 1 {
        '1'
    } else if d == 2 {
        '2'
    } else if d == 3 {
        '3'
    } else if d == 4 {
        '4'
    } else if d == 5 {
        '5'
    } else if d == 6 {
        '6'
    } else if d == 7 {
        '7'
    } else if d == 8 {
        '8'
    } else {
        '9'
    }
}

fn push_decimal(v: u64, out: &mut Vec<char>)
    ensures
        final(out)@ == old(out)@ + dec_of(v as nat),
    decreases v,
{
    if v < 10 {
        out.push(dec_digit_exec(v as u8));
        proof {
            assert(final(out)@ =~= old(out)@ + dec_of(v as nat));
        }
    } else {
        push_decimal(v / 10, out);
        out.push(dec_digit_exec((v % 10) as u8));
        proof {
            assert(final(out)@ =~= old(out)@ + dec_of(v as nat));
        }
    }
}

/// Decimal text of a 64-bit value.
pub fn to_decimal_u64(v: u64) -> (r: String)
    ensures
        r@ == dec_of(v as nat),
{
    let mut out: Vec<char> = Vec::new();
    push_decimal(v, &mut out);
    string_from_chars(&out)
}

/// Decimal text of a signed 32-bit value, with a leading minus when negative.
pub fn to_decimal_i32(v: i32) -> (r: String)
    ensures
        v >= 0 ==> r@ == dec_of(v as nat),
        v < 0 ==> r@ == seq!['-'] + dec_of((-(v as int)) as nat),
{
    if v >= 0 {
        to_decimal_u64(v as u64)
    } else {
        let mut out: Vec<char> = Vec::new();
        out.push('-');
        let wide: i64 = v as i64;
        let magnitude: u64 = (-wide) as u64;
        proof {
            assert(magnitude as int == -(v as int));
        }
        push_decimal(magnitude, &mut out);
        proof {
            assert(out@ =~= seq!['-'] + dec_of((-(v as int)) as nat));
        }
        string_from_chars(&out)
    }
}

/// Decimal value written by `s`, digits read left to right.
pub open spec fn dec_num(s: Seq<char>) -> int
    decreases s.len(),
{
    if s.len() == 0 {
        0
    } else {
        dec_num(s.drop_last()) * 10 + dec_digit_val(s.last())
    }
}

/// The numeric value of a decimal digit character; meaningful only on digits.
pub open spec fn dec_digit_val(c: char) -> int {
    if c == '0' {
        0
    } else if c == '1' {
        1
    } else if c == '2' {
        2
    } else if c == '3' {
        3
    } else if c == '4' {
        4
    } else if c == '5' {
        5
    } else if c == '6' {
        6
    } else if c == '7' {
        7
    } else if c == '8' {
        8
    } else if c == '9' {
        9
    } else {
        -1
    }
}

/// Is `s` a non-empty string of decimal digits?
pub open spec fn is_dec_text(s: Seq<char>) -> bool {
    s.len() > 0 && (forall|k: int| 0 <= k < s.len() ==> dec_digit_val(s[k]) >= 0)
}

fn dec_val_exec(c: char) -> (r: Option<u8>)
    ensures
        match r {
            Some(d) => dec_digit_val(c) == d as int,
            None => dec_digit_val(c) < 0,
        },
{
    if c == '0' {
        Some(0u8)
    } else if c == '1' {
        Some(1u8)
    } else if c == '2' {
        Some(2u8)
    } else if c == '3' {
        Some(3u8)
    } else if c == '4' {
        Some(4u8)
    } else if c == '5' {
        Some(5u8)
    } else if c == '6' {
        Some(6u8)
    } else if c == '7' {
        Some(7u8)
    } else if c == '8' {
        Some(8u8)
    } else if c == '9' {
        Some(9u8)
    } else {
        None
    }
}

proof fn lemma_dec_num_nonneg(s: Seq<char>)
    requires
        forall|k: int| 0 <= k < s.len() ==> dec_digit_val(s[k]) >= 0,
    ensures
        dec_num(s) >= 0,
    decreases s.len(),
{
    if s.len() > 0 {
        assert(forall|k: int|
            0 <= k < s.drop_last().len() ==> dec_digit_val(s.drop_last()[k]) >= 0);
        lemma_dec_num_nonneg(s.drop_last());
    }
}

proof fn lemma_dec_num_grows(s: Seq<char>, i: int)
    requires
        0 <= i <= s.len(),
        forall|k: int| 0 <= k < s.len() ==> dec_digit_val(s[k]) >= 0,
    ensures
        dec_num(s.subrange(0, i)) <= dec_num(s),
    decreases s.len() - i,
{
    if i == s.len() {
        assert(s.subrange(0, i) =~= s);
    } else {
        lemma_dec_num_grows(s, i + 1);
        let p = s.subrange(0, i);
        let q = s.subrange(0, i + 1);
        assert(q.drop_last() =~= p);
        assert(q.last() == s[i]);
        assert(forall|k: int| 0 <= k < p.len() ==> dec_digit_val(p[k]) >= 0);
        lemma_dec_num_nonneg(p);
        assert(dec_num(p) <= dec_num(p) * 10) by (nonlinear_arith)
            requires
                dec_num(p) >= 0,
        ;
    }
}

/// Parse a decimal string into a 32-bit value, as notification ids on the
/// D-Bus wire format require.
pub fn parse_u32_decimal(s: &str) -> (r: Option<u32>)
    ensures
        match r {
            Some(v) => is_dec_text(s@) && v as int == dec_num(s@),
            None => !is_dec_text(s@) || dec_num(s@) > u32::MAX,
        },
{
    let cs: Vec<char> = chars_of(s);
    let n: usize = cs.len();
    if n == 0 {
        return None;
    }
    let mut acc: u32 = 0;
    let mut i: usize = 0;
    proof {
        assert(s@.subrange(0, 0) =~= Seq::<char>::empty());
    }
    while i < n
        invariant
            n == s@.len(),
            cs@ == s@,
            i <= n,
            acc as int == dec_num(s@.subrange(0, i as int)),
            forall|k: int| 0 <= k < i ==> dec_digit_val(s@[k]) >= 0,
        decreases n - i,
    {
        let d: u8 = match dec_val_exec(cs[i]) {
            Some(d) => d,
            None => {
                return None;
            },
        };
        let ghost pre = s@.subrange(0, i as int);
        let shifted: u32 = match acc.checked_mul(10) {
            Some(x) => x,
            None => {
                proof {
                    assert(forall|k: int| 0 <= k < pre.len() ==> dec_digit_val(pre[k]) >= 0);
                    lemma_dec_num_nonneg(pre);
                    if is_dec_text(s@) {
                        lemma_dec_num_grows(s@, i as int + 1);
                        assert(s@.subrange(0, i as int + 1).drop_last() =~= pre);
                        assert(s@.subrange(0, i as int + 1).last() == s@[i as int]);
                    }
                }
                return None;
            },
        };
        let next: u32 = match shifted.checked_add(d as u32) {
            Some(x) => x,
            None => {
                proof {
                    assert(forall|k: int| 0 <= k < pre.len() ==> dec_digit_val(pre[k]) >= 0);
                    lemma_dec_num_nonneg(pre);
                    if is_dec_text(s@) {
                        lemma_dec_num_grows(s@, i as int + 1);
                        assert(s@.subrange(0, i as int + 1).drop_last() =~= pre);
                        assert(s@.subrange(0, i as int + 1).last() == s@[i as int]);
                    }
                }
                return None;
            },
        };
        proof {
            assert(s@.subrange(0, i as int + 1).drop_last() =~= pre);
            assert(s@.subrange(0, i as int + 1).last() == s@[i as int]);
        }
        acc = next;
        i = i + 1;
    }
    proof {
        assert(s@.subrange(0, n as int) =~= s@);
    }
    Some(acc)
}

/// Append `tail` to a `String`.
pub fn append_str(s: &mut String, tail: &str)
    ensures
        final(s)@ == old(s)@ + tail@,
{
    s.append(tail);
}

/// Append the Pango escape of every character of `s` to `out`.
pub fn push_pango_escape_str(out: &mut Vec<char>, s: &str)
    ensures
        final(out)@ == old(out)@ + pango_escaped(s@),
{
    let cs: Vec<char> = chars_of(s);
    let n: usize = cs.len();
    let mut i: usize = 0;
    proof {
        assert(s@.skip(0) =~= s@);
    }
    while i < n
        invariant
            n == cs@.len(),
            cs@ == s@,
            i <= n,
            old(out)@ + pango_escaped(s@) == out@ + pango_escaped(s@.skip(i as int)),
        decreases n - i,
    {
        proof {
            assert(s@.skip(i as int)[0] == s@[i as int]);
            assert(s@.skip(i as int).drop_first() =~= s@.skip(i as int + 1));
        }
        push_pango_escape(out, cs[i]);
        i = i + 1;
    }
    proof {
        assert(s@.skip(n as int) =~= Seq::<char>::empty());
        assert(out@ + Seq::<char>::empty() =~= out@);
    }
}

} // verus!
