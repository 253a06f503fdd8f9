//! Conversion of HTML fragments to plain text.
//!
//! The grammar handled here is deliberately small: a tag is a `<`, followed by
//! at least one character other than `>`, followed by `>`.  Entities are
//! decoded first, block-level tags become line breaks, every other tag is
//! removed, and the surviving lines are trimmed and joined.

use vstd::prelude::*;

use crate::text::{
    chars_of, decode_entities_chars, decoded_entities, normalize_lines, normalized_lines,
    str_eq, string_from_chars, trim_chars, trimmed,
};

verus! {

// ---------------------------------------------------------------------------
// Finding characters
// ---------------------------------------------------------------------------

/// The position of the first occurrence of `c` in `s`; meaningful only when
/// one occurs.
pub open spec fn first_at(s: Seq<char>, c: char) -> nat
    decreases s.len(),
{
    if s.len() == 0 {
        0
    } else if s[0] == c {
        0
    } else {
        1 + first_at(s.drop_first(), c)
    }
}

/// Facts about `first_at` when `c` occurs in `s`.
pub proof fn lemma_first_at(s: Seq<char>, c: char)
    requires
        s.contains(c),
    ensures
        first_at(s, c) < s.len(),
        s[first_at(s, c) as int] == c,
        forall|j: int| 0 <= j < first_at(s, c) ==> s[j] != c,
    decreases s.len(),
{
    if s[0] != c {
        assert(s.drop_first().contains(c)) by {
            let k = choose|k: int| 0 <= k < s.len() && s[k] == c;
            assert(s.drop_first()[k - 1] == c);
        }
        lemma_first_at(s.drop_first(), c);
        assert forall|j: int| 0 <= j < first_at(s, c) implies s[j] != c by {
            if j > 0 {
                assert(s.drop_first()[j - 1] == s[j]);
            }
        }
    }
}

/// `first_at` is determined by any witness position with nothing before it.
pub proof fn lemma_first_at_is(s: Seq<char>, c: char, m: int)
    requires
        0 <= m < s.len(),
        s[m] == c,
        forall|j: int| 0 <= j < m ==> s[j] != c,
    ensures
        first_at(s, c) == m,
{
    assert(s.contains(c));
    lemma_first_at(s, c);
    if first_at(s, c) < m {
        assert(s[first_at(s, c) as int] == c);
    }
}

/// The index of the first `'>'` at or after `from`, if any.
fn find_gt(s: &Vec<char>, from: usize) -> (r: Option<usize>)
    requires
        from <= s@.len(),
    ensures
        match r {
            Some(j) => {
                &&& from <= j < s@.len()
                &&& s@[j as int] == '>'
                &&& forall|k: int| from <= k < j ==> s@[k] != '>'
            },
            None => forall|k: int| from <= k < s@.len() ==> s@[k] != '>',
        },
{
    let n: usize = s.len();
    let mut j: usize = from;
    while j < n
        invariant
            from <= j <= n,
            n == s@.len(),
            forall|k: int| from <= k < j ==> s@[k] != '>',
        decreases n - j,
    {
        if s[j] == '>' {
            return Some(j);
        }
        j = j + 1;
    }
    None
}

// ---------------------------------------------------------------------------
// Tag classification
// ---------------------------------------------------------------------------

/// ASCII lower-casing of a single character.
pub open spec fn lower_char(c: char) -> char {
    if c == 'A' {
        'a'
    } else if c == 'B' {
        'b'
    } else if c == 'C' {
        'c'
    } else if c == 'D' {
        'd'
    } else if c == 'E' {
        'e'
    } else if c == 'F' {
        'f'
    } else if c == 'G' {
        'g'
    } else if c == 'H' {
        'h'
    } else if c == 'I' {
        'i'
    } else if c == 'J' {
        'j'
    } else if c == 'K' {
        'k'
    } else if c == 'L' {
        'l'
    } else if c == 'M' {
        'm'
    } else if c == 'N' {
        'n'
    } else if c == 'O' {
        'o'
    } else if c == 'P' {
        'p'
    } else if c == 'Q' {
        'q'
    } else if c == 'R' {
        'r'
    } else if c == 'S' {
        's'
    } else if c == 'T' {
        't'
    } else if c == 'U' {
        'u'
    } else if c == 'V' {
        'v'
    } else if c == 'W' {
        'w'
    } else if c == 'X' {
        'x'
    } else if c == 'Y' {
        'y'
    } else if c == 'Z' {
        'z'
    } else {
        c
    }
}

/// ASCII lower-casing of a character.
pub fn to_lower_char(c: char) -> (r: char)
    ensures
        r == lower_char(c),
{
    if c == 'A' {
        'a'
    } else if c == 'B' {
        'b'
    } else if c == 'C' {
        'c'
    } else if c == 'D' {
        'd'
    } else if c == 'E' {
        'e'
    } else if c == 'F' {
        'f'
    } else if c == 'G' {
        'g'
    } else if c == 'H' {
        'h'
    } else if c == 'I' {
        'i'
    } else if c == 'J' {
        'j'
    } else if c == 'K' {
        'k'
    } else if c == 'L' {
        'l'
    } else if c == 'M' {
        'm'
    } else if c == 'N' {
        'n'
    } else if c == 'O' {
        'o'
    } else if c == 'P' {
        'p'
    } else if c == 'Q' {
        'q'
    } else if c == 'R' {
        'r'
    } else if c == 'S' {
        's'
    } else if c == 'T' {
        't'
    } else if c == 'U' {
        'u'
    } else if c == 'V' {
        'v'
    } else if c == 'W' {
        'w'
    } else if c == 'X' {
        'x'
    } else if c == 'Y' {
        'y'
    } else if c == 'Z' {
        'z'
    } else {
        c
    }
}

/// Does `s`, lower-cased, start with `p` (given in lower case)?
pub open spec fn starts_with_ci(s: Seq<char>, p: Seq<char>) -> bool {
    s.len() >= p.len() && (forall|k: int| 0 <= k < p.len() ==> lower_char(s[k]) == p[k])
}

/// Case-insensitive prefix test against a lower-case pattern.
fn starts_with_ci_exec(s: &Vec<char>, p: &str) -> (r: bool)
    ensures
        r == starts_with_ci(s@, p@),
{
    let pc: Vec<char> = chars_of(p);
    let plen: usize = pc.len();
    if s.len() < plen {
        return false;
    }
    let mut k: usize = 0;
    while k < plen
        invariant
            plen == p@.len(),
            pc@ == p@,
            plen <= s@.len(),
            k <= plen,
            forall|t: int| 0 <= t < k ==> lower_char(s@[t]) == p@[t],
        decreases plen - k,
    {
        if to_lower_char(s[k]) != pc[k] {
            return false;
        }
        k = k + 1;
    }
    true
}

/// The tag body with a leading `/` removed.
pub open spec fn tag_name_part(t: Seq<char>) -> Seq<char> {
    if t.len() > 0 && t[0] == '/' {
        t.drop_first()
    } else {
        t
    }
}

/// Is `t` (the text between `<` and `>`) a block-level tag?  The name test is
/// a case-insensitive prefix test, matching an opening or closing tag with or
/// without attributes.
pub open spec fn is_block_content(t: Seq<char>) -> bool {
    let u = tag_name_part(t);
    ||| starts_with_ci(u, seq!['b', 'l', 'o', 'c', 'k', 'q', 'u', 'o', 't', 'e'])
    ||| starts_with_ci(u, seq!['d', 'i', 'v'])
    ||| starts_with_ci(u, seq!['b', 'r'])
    ||| starts_with_ci(u, seq!['h', '1'])
    ||| starts_with_ci(u, seq!['h', '2'])
    ||| starts_with_ci(u, seq!['h', '3'])
    ||| starts_with_ci(u, seq!['h', '4'])
    ||| starts_with_ci(u, seq!['h', '5'])
    ||| starts_with_ci(u, seq!['h', '6'])
    ||| starts_with_ci(u, seq!['l', 'i'])
    ||| starts_with_ci(u, seq!['u', 'l'])
    ||| starts_with_ci(u, seq!['o', 'l'])
    ||| starts_with_ci(u, seq!['t', 'a', 'b', 'l', 'e'])
    ||| starts_with_ci(u, seq!['t', 'r'])
    ||| starts_with_ci(u, seq!['t', 'd'])
    ||| starts_with_ci(u, seq!['t', 'h'])
    ||| starts_with_ci(u, seq!['p'])
    ||| starts_with_ci(u, seq!['p', 'r', 'e'])
}

/// Block-tag test on the characters between `<` and `>`.
fn is_block_content_exec(t: &Vec<char>) -> (r: bool)
    ensures
        r == is_block_content(t@),
{
    let mut u: Vec<char> = Vec::new();
    let start: usize = if t.len() > 0 && t[0] == '/' {
        1
    } else {
        0
    };
    let mut i: usize = start;
    while i < t.len()
        invariant
            start <= i <= t@.len(),
            start == (if t@.len() > 0 && t@[0] == '/' {
                1int
            } else {
                0int
            }),
            u@ == t@.subrange(start as int, i as int),
        decreases t@.len() - i,
    {
        u.push(t[i]);
        i = i + 1;
        proof {
            assert(u@ =~= t@.subrange(start as int, i as int));
        }
    }
    proof {
        assert(u@ =~= tag_name_part(t@));
    }
    let r: bool = starts_with_ci_exec(&u, "blockquote") || starts_with_ci_exec(&u, "div")
        || starts_with_ci_exec(&u, "br") || starts_with_ci_exec(&u, "h1")
        || starts_with_ci_exec(&u, "h2") || starts_with_ci_exec(&u, "h3")
        || starts_with_ci_exec(&u, "h4") || starts_with_ci_exec(&u, "h5")
        || starts_with_ci_exec(&u, "h6") || starts_with_ci_exec(&u, "li")
        || starts_with_ci_exec(&u, "ul") || starts_with_ci_exec(&u, "ol")
        || starts_with_ci_exec(&u, "table") || starts_with_ci_exec(&u, "tr")
        || starts_with_ci_exec(&u, "td") || starts_with_ci_exec(&u, "th")
        || starts_with_ci_exec(&u, "p") || starts_with_ci_exec(&u, "pre");
    proof {
        reveal_strlit("blockquote");
        reveal_strlit("div");
        reveal_strlit("br");
        reveal_strlit("h1");
        reveal_strlit("h2");
        reveal_strlit("h3");
        reveal_strlit("h4");
        reveal_strlit("h5");
        reveal_strlit("h6");
        reveal_strlit("li");
        reveal_strlit("ul");
        reveal_strlit("ol");
        reveal_strlit("table");
        reveal_strlit("tr");
        reveal_strlit("td");
        reveal_strlit("th");
        reveal_strlit("p");
        reveal_strlit("pre");
        assert("blockquote"@ =~= seq!['b', 'l', 'o', 'c', 'k', 'q', 'u', 'o', 't', 'e']);
        assert("div"@ =~= seq!['d', 'i', 'v']);
        assert("br"@ =~= seq!['b', 'r']);
        assert("h1"@ =~= seq!['h', '1']);
        assert("h2"@ =~= seq!['h', '2']);
        assert("h3"@ =~= seq!['h', '3']);
        assert("h4"@ =~= seq!['h', '4']);
        assert("h5"@ =~= seq!['h', '5']);
        assert("h6"@ =~= seq!['h', '6']);
        assert("li"@ =~= seq!['l', 'i']);
        assert("ul"@ =~= seq!['u', 'l']);
        assert("ol"@ =~= seq!['o', 'l']);
        assert("table"@ =~= seq!['t', 'a', 'b', 'l', 'e']);
        assert("tr"@ =~= seq!['t', 'r']);
        assert("td"@ =~= seq!['t', 'd']);
        assert("th"@ =~= seq!['t', 'h']);
        assert("p"@ =~= seq!['p']);
        assert("pre"@ =~= seq!['p', 'r', 'e']);
    }
    r
}

// ---------------------------------------------------------------------------
// The two tag passes
// ---------------------------------------------------------------------------

/// Where the tag starting at the head of `s` ends: the index of the first
/// `'>'` after the opening `'<'`, if there is one.
pub open spec fn tag_end(s: Seq<char>) -> Option<int> {
    if s.drop_first().contains('>') {
        Some(1 + first_at(s.drop_first(), '>') as int)
    } else {
        None
    }
}

/// First pass: every block-level tag becomes a newline; all other text, tags
/// included, is kept.  Scanning restarts one character after a `<` that does
/// not open a block tag, so block tags nested behind stray `<` are still
/// found.
pub open spec fn blocks_to_newlines(s: Seq<char>) -> Seq<char>
    decreases s.len(),
    via blocks_to_newlines_decreases
{
    if s.len() == 0 {
        Seq::<char>::empty()
    } else if s[0] == '<' && tag_end(s) is Some && is_block_content(
        s.subrange(1, tag_end(s)->0),
    ) {
        seq!['\n'] + blocks_to_newlines(s.skip(tag_end(s)->0 + 1))
    } else {
        seq![s[0]] + blocks_to_newlines(s.drop_first())
    }
}

#[via_fn]
proof fn blocks_to_newlines_decreases(s: Seq<char>) {
    if s.len() > 0 && s[0] == '<' && tag_end(s) is Some {
        lemma_first_at(s.drop_first(), '>');
    }
}

/// Second pass: every remaining tag (at least one character between `<` and
/// `>`) is removed; everything else is kept.
pub open spec fn stripped_tags(s: Seq<char>) -> Seq<char>
    decreases s.len(),
    via stripped_tags_decreases
{
    if s.len() == 0 {
        Seq::<char>::empty()
    } else if s[0] == '<' && tag_end(s) is Some && tag_end(s)->0 >= 2 {
        stripped_tags(s.skip(tag_end(s)->0 + 1))
    } else {
        seq![s[0]] + stripped_tags(s.drop_first())
    }
}

#[via_fn]
proof fn stripped_tags_decreases(s: Seq<char>) {
    if s.len() > 0 && s[0] == '<' && tag_end(s) is Some {
        lemma_first_at(s.drop_first(), '>');
    }
}

/// The plain-text projection of an HTML fragment: entities decoded, block
/// tags turned into line breaks, other tags removed, lines trimmed and
/// joined.
pub open spec fn html_to_plain_spec(s: Seq<char>) -> Seq<char> {
    normalized_lines(stripped_tags(blocks_to_newlines(decoded_entities(s))))
}

/// Relate an absolute `'>'` position to `tag_end` of the tail at `i`.
proof fn lemma_tag_end_at(s: Seq<char>, i: int, j: int)
    requires
        0 <= i < j < s.len(),
        s[j] == '>',
        forall|k: int| i < k < j ==> s[k] != '>',
    ensures
        tag_end(s.skip(i)) == Some(j - i),
{
    let t = s.skip(i).drop_first();
    assert(t =~= s.skip(i + 1));
    assert(t[j - i - 1] == '>');
    assert(forall|k: int| 0 <= k < j - i - 1 ==> t[k] == s[k + i + 1]);
    lemma_first_at_is(t, '>', j - i - 1);
}

/// No `'>'` in the tail at `i` means no tag end there.
proof fn lemma_tag_end_none(s: Seq<char>, i: int)
    requires
        0 <= i < s.len(),
        forall|k: int| i < k < s.len() ==> s[k] != '>',
    ensures
        tag_end(s.skip(i)) is None,
{
    let t = s.skip(i).drop_first();
    assert(t =~= s.skip(i + 1));
    if t.contains('>') {
        let k = choose|k: int| 0 <= k < t.len() && t[k] == '>';
        assert(s[k + i + 1] == '>');
    }
}

/// Run the block-tag pass over `s`.
fn blocks_to_newlines_exec(s: &Vec<char>) -> (r: Vec<char>)
    ensures
        r@ == blocks_to_newlines(s@),
{
    let n: usize = s.len();
    let mut out: Vec<char> = Vec::new();
    let mut i: usize = 0;
    proof {
        assert(s@.skip(0) =~= s@);
    }
    while i < n
        invariant
            n == s@.len(),
            i <= n,
            blocks_to_newlines(s@) == out@ + blocks_to_newlines(s@.skip(i as int)),
        decreases n - i,
    {
        let ghost tail = s@.skip(i as int);
        proof {
            assert(tail[0] == s@[i as int]);
            assert(tail.drop_first() =~= s@.skip(i as int + 1));
        }
        let c: char = s[i];
        let mut plain_step: bool = true;
        if c == '<' {
            match find_gt(s, i + 1) {
                Some(j) => {
                    proof {
                        lemma_tag_end_at(s@, i as int, j as int);
                    }
                    let mut content: Vec<char> = Vec::new();
                    let mut k: usize = i + 1;
                    while k < j
                        invariant
                            i + 1 <= k <= j,
                            j < s@.len(),
                            content@ == s@.subrange(i as int + 1, k as int),
                        decreases j - k,
                    {
                        content.push(s[k]);
                        k = k + 1;
                        proof {
                            assert(content@ =~= s@.subrange(i as int + 1, k as int));
                        }
                    }
                    proof {
                        assert(content@ =~= tail.subrange(1, j - i));
                    }
                    if is_block_content_exec(&content) {
                        out.push('\n');
                        proof {
                            assert(tail.skip(j - i + 1) =~= s@.skip(j as int + 1));
                        }
                        i = j + 1;
                        plain_step = false;
                    }
                },
                None => {
                    proof {
                        lemma_tag_end_none(s@, i as int);
                    }
                },
            }
        }
        if plain_step {
            out.push(c);
            i = i + 1;
        }
    }
    proof {
        assert(s@.skip(n as int) =~= Seq::<char>::empty());
    }
    out
}

/// Run the strip pass over `s`.
fn stripped_tags_exec(s: &Vec<char>) -> (r: Vec<char>)
    ensures
        r@ == stripped_tags(s@),
{
    let n: usize = s.len();
    let mut out: Vec<char> = Vec::new();
    let mut i: usize = 0;
    proof {
        assert(s@.skip(0) =~= s@);
    }
    while i < n
        invariant
            n == s@.len(),
            i <= n,
            stripped_tags(s@) == out@ + stripped_tags(s@.skip(i as int)),
        decreases n - i,
    {
        let ghost tail = s@.skip(i as int);
        proof {
            assert(tail[0] == s@[i as int]);
            assert(tail.drop_first() =~= s@.skip(i as int + 1));
        }
        let c: char = s[i];
        let mut plain_step: bool = true;
        if c == '<' {
            match find_gt(s, i + 1) {
                Some(j) => {
                    proof {
                        lemma_tag_end_at(s@, i as int, j as int);
                    }
                    if j >= i + 2 {
                        proof {
                            assert(tail.skip(j - i + 1) =~= s@.skip(j as int + 1));
                        }
                        i = j + 1;
                        plain_step = false;
                    }
                },
                None => {
                    proof {
                        lemma_tag_end_none(s@, i as int);
                    }
                },
            }
        }
        if plain_step {
            out.push(c);
            i = i + 1;
        }
    }
    proof {
        assert(s@.skip(n as int) =~= Seq::<char>::empty());
    }
    out
}

/// Convert an HTML fragment to plain text: decode entities, turn block tags
/// into line breaks, strip remaining tags, and normalize the lines.
pub fn convert_html_to_plain(html: &str) -> (r: String)
    ensures
        r@ == html_to_plain_spec(html@),
{
    let cs: Vec<char> = chars_of(html);
    let decoded: Vec<char> = decode_entities_chars(&cs);
    let blocked: Vec<char> = blocks_to_newlines_exec(&decoded);
    let stripped: Vec<char> = stripped_tags_exec(&blocked);
    let normal: Vec<char> = normalize_lines(&stripped);
    string_from_chars(&normal)
}

// ---------------------------------------------------------------------------
// Conversion to Pango markup
// ---------------------------------------------------------------------------

/// ASCII letters and digits, by code point.
pub open spec fn is_alnum(c: char) -> bool {
    (48 <= c as u32 && c as u32 <= 57) || (65 <= c as u32 && c as u32 <= 90) || (97 <= c as u32
        && c as u32 <= 122)
}

/// Letter-or-digit test.
pub fn is_alnum_char(c: char) -> (r: bool)
    ensures
        r == is_alnum(c),
{
    let v: u32 = c as u32;
    (48 <= v && v <= 57) || (65 <= v && v <= 90) || (97 <= v && v <= 122)
}

/// The leading run of letters and digits in `u`.
pub open spec fn alnum_prefix(u: Seq<char>) -> Seq<char>
    decreases u.len(),
{
    if u.len() > 0 && is_alnum(u[0]) {
        seq![u[0]] + alnum_prefix(u.drop_first())
    } else {
        Seq::<char>::empty()
    }
}

/// `s` lower-cased character by character.
pub open spec fn lowered(s: Seq<char>) -> Seq<char>
    decreases s.len(),
{
    if s.len() == 0 {
        Seq::<char>::empty()
    } else {
        seq![lower_char(s[0])] + lowered(s.drop_first())
    }
}

/// The lower-cased tag name of the text between `<` and `>`: the leading
/// letters and digits after an optional `/`.
pub open spec fn tag_name(t: Seq<char>) -> Seq<char> {
    lowered(alnum_prefix(tag_name_part(t)))
}

/// Extract the lower-cased tag name.
fn tag_name_exec(t: &Vec<char>) -> (r: Vec<char>)
    ensures
        r@ == tag_name(t@),
{
    let start: usize = if t.len() > 0 && t[0] == '/' {
        1
    } else {
        0
    };
    let ghost u = tag_name_part(t@);
    proof {
        assert(u =~= t@.skip(start as int));
    }
    let mut out: Vec<char> = Vec::new();
    let n: usize = t.len();
    let mut i: usize = start;
    while i < n && is_alnum_char(t[i])
        invariant
            n == t@.len(),
            start <= i <= n,
            u == t@.skip(start as int),
            lowered(alnum_prefix(u)) == out@ + lowered(alnum_prefix(t@.skip(i as int))),
        decreases n - i,
    {
        let ghost rest = t@.skip(i as int);
        let ghost out0 = out@;
        proof {
            assert(rest[0] == t@[i as int]);
            assert(rest.drop_first() =~= t@.skip(i as int + 1));
        }
        out.push(to_lower_char(t[i]));
        i = i + 1;
        proof {
            let ap = alnum_prefix(rest);
            assert(ap == seq![rest[0]] + alnum_prefix(t@.skip(i as int)));
            assert(ap[0] == rest[0]);
            assert(ap.drop_first() =~= alnum_prefix(t@.skip(i as int)));
            assert(lowered(ap) == seq![lower_char(rest[0])] + lowered(
                alnum_prefix(t@.skip(i as int)),
            ));
            assert(out@ =~= out0 + seq![lower_char(rest[0])]);
            assert(out0 + lowered(ap) =~= out@ + lowered(alnum_prefix(t@.skip(i as int))));
        }
    }
    proof {
        let tail = t@.skip(i as int);
        if i < n {
            assert(tail[0] == t@[i as int]);
            assert(!is_alnum(tail[0]));
        }
        assert(alnum_prefix(tail) =~= Seq::<char>::empty());
        assert(lowered(Seq::<char>::empty()) =~= Seq::<char>::empty());
        assert(out@ + Seq::<char>::empty() =~= out@);
    }
    out
}

/// The position of the first occurrence of `pat` in `s`; meaningful only
/// when one occurs.
pub open spec fn first_sub(s: Seq<char>, pat: Seq<char>) -> nat
    decreases s.len(),
{
    if pat.len() == 0 {
        0
    } else if s.len() < pat.len() {
        0
    } else if s.subrange(0, pat.len() as int) == pat {
        0
    } else {
        1 + first_sub(s.drop_first(), pat)
    }
}

/// Does `pat` occur in `s`?
pub open spec fn has_sub(s: Seq<char>, pat: Seq<char>) -> bool {
    exists|k: int| 0 <= k <= s.len() - pat.len() && #[trigger] s.subrange(k, k + pat.len()) == pat
}

proof fn lemma_first_sub(s: Seq<char>, pat: Seq<char>)
    requires
        has_sub(s, pat),
    ensures
        first_sub(s, pat) + pat.len() <= s.len(),
        s.subrange(first_sub(s, pat) as int, first_sub(s, pat) as int + pat.len() as int) == pat,
    decreases s.len(),
{
    let k0 = choose|k: int| 0 <= k <= s.len() - pat.len() && #[trigger] s.subrange(
        k,
        k + pat.len(),
    ) == pat;
    if s.subrange(0, pat.len() as int) == pat {
    } else {
        assert(k0 > 0);
        assert(has_sub(s.drop_first(), pat)) by {
            assert(s.drop_first().subrange(k0 - 1, k0 - 1 + pat.len()) =~= s.subrange(
                k0,
                k0 + pat.len(),
            ));
        }
        lemma_first_sub(s.drop_first(), pat);
        assert(s.subrange(
            first_sub(s, pat) as int,
            first_sub(s, pat) as int + pat.len() as int,
        ) =~= s.drop_first().subrange(
            first_sub(s.drop_first(), pat) as int,
            first_sub(s.drop_first(), pat) as int + pat.len() as int,
        ));
    }
}

/// Find the first occurrence of `pat` in `v`.
fn find_sub(v: &Vec<char>, pat: &str) -> (r: Option<usize>)
    ensures
        match r {
            Some(k) => has_sub(v@, pat@) && k == first_sub(v@, pat@),
            None => !has_sub(v@, pat@),
        },
{
    let pc: Vec<char> = chars_of(pat);
    let n: usize = v.len();
    let plen: usize = pc.len();
    if plen == 0 {
        proof {
            assert(v@.subrange(0, 0 + pat@.len() as int) =~= pat@);
            assert(has_sub(v@, pat@)) by {
                assert(v@.subrange(0, 0 + pat@.len() as int) == pat@);
            }
        }
        return Some(0);
    }
    if plen > n {
        proof {
            if has_sub(v@, pat@) {
                let k = choose|k: int|
                    0 <= k <= v@.len() - pat@.len() && #[trigger] v@.subrange(
                        k,
                        k + pat@.len(),
                    ) == pat@;
                assert(k <= v@.len() - pat@.len());
            }
        }
        return None;
    }
    let limit: usize = n - plen;
    let mut i: usize = 0;
    while i <= limit
        invariant
            n == v@.len(),
            plen == pat@.len(),
            pc@ == pat@,
            1 <= plen <= n,
            limit == n - plen,
            i <= limit + 1,
            forall|k: int| 0 <= k < i ==> #[trigger] v@.subrange(k, k + pat@.len()) != pat@,
        decreases limit + 1 - i,
    {
        let mut j: usize = 0;
        let mut found: bool = true;
        while j < plen
            invariant
                n == v@.len(),
                plen == pat@.len(),
                pc@ == pat@,
                i + plen <= n,
                j <= plen,
                found ==> forall|t: int| 0 <= t < j ==> v@[i + t] == pat@[t],
                !found ==> v@.subrange(i as int, i as int + plen as int) != pat@,
            decreases plen - j,
        {
            if v[i + j] != pc[j] {
                proof {
                    if v@.subrange(i as int, i as int + plen as int) == pat@ {
                        assert(v@.subrange(i as int, i as int + plen as int)[j as int]
                            == v@[i + j]);
                    }
                }
                found = false;
                j = plen;
            } else {
                j = j + 1;
            }
        }
        if found {
            proof {
                assert(v@.subrange(i as int, i as int + plen as int) =~= pat@) by {
                    assert forall|t: int| 0 <= t < plen implies v@.subrange(
                        i as int,
                        i as int + plen as int,
                    )[t] == pat@[t] by {
                        assert(v@.subrange(i as int, i as int + plen as int)[t] == v@[i + t]);
                    }
                }
                assert(has_sub(v@, pat@));
                lemma_first_sub_is(v@, pat@, i as int);
            }
            return Some(i);
        }
        i = i + 1;
    }
    proof {
        if has_sub(v@, pat@) {
            let k = choose|k: int|
                0 <= k <= v@.len() - pat@.len() && #[trigger] v@.subrange(k, k + pat@.len())
                    == pat@;
            assert(k < i);
        }
    }
    None
}

/// `first_sub` is determined by any occurrence with none before it.
proof fn lemma_first_sub_is(s: Seq<char>, pat: Seq<char>, m: int)
    requires
        0 <= m,
        m + pat.len() <= s.len(),
        s.subrange(m, m + pat.len()) == pat,
        forall|k: int| 0 <= k < m ==> #[trigger] s.subrange(k, k + pat.len()) != pat,
    ensures
        first_sub(s, pat) == m,
    decreases s.len(),
{
    if pat.len() == 0 {
        assert(m == 0) by {
            if m > 0 {
                assert(s.subrange(0, 0 + pat.len() as int) =~= pat);
            }
        }
    } else if s.subrange(0, pat.len() as int) == pat {
        assert(m == 0) by {
            if m > 0 {
                assert(s.subrange(0, 0 + pat.len() as int) == pat);
            }
        }
    } else {
        assert(m > 0) by {
            if m == 0 {
                assert(s.subrange(0, pat.len() as int) == pat);
            }
        }
        assert(s.drop_first().subrange(m - 1, m - 1 + pat.len()) =~= s.subrange(
            m,
            m + pat.len(),
        ));
        assert forall|k: int| 0 <= k < m - 1 implies #[trigger] s.drop_first().subrange(
            k,
            k + pat.len(),
        ) != pat by {
            assert(s.drop_first().subrange(k, k + pat.len()) =~= s.subrange(
                k + 1,
                k + 1 + pat.len(),
            ));
        }
        lemma_first_sub_is(s.drop_first(), pat, m - 1);
    }
}


/// The structural tag names told apart, for the fall-through cases of the
/// structured classification.
proof fn lemma_structured_names_distinct()
    ensures
        "pre"@ != "a"@,
        "pre"@ != "li"@,
        "pre"@ != "div"@,
        "pre"@ != "p"@,
        "pre"@ != "tr"@,
        "pre"@ != "ul"@,
        "pre"@ != "ol"@,
        "pre"@ != "br"@,
        "a"@ != "li"@,
        "a"@ != "div"@,
        "a"@ != "p"@,
        "a"@ != "tr"@,
        "a"@ != "ul"@,
        "a"@ != "ol"@,
        "a"@ != "br"@,
{
    reveal_strlit("pre");
    reveal_strlit("a");
    reveal_strlit("li");
    reveal_strlit("div");
    reveal_strlit("p");
    reveal_strlit("tr");
    reveal_strlit("ul");
    reveal_strlit("ol");
    reveal_strlit("br");
    assert("pre"@.len() == 3);
    assert("a"@.len() == 1);
    assert("li"@.len() == 2);
    assert("div"@.len() == 3);
    assert("p"@.len() == 1);
    assert("tr"@.len() == 2);
    assert("ul"@.len() == 2);
    assert("ol"@.len() == 2);
    assert("br"@.len() == 2);
    assert("pre"@ != "div"@) by {
        if "pre"@ == "div"@ {
            assert("pre"@[0] == "div"@[0]);
        }
    }
    assert("a"@ != "p"@) by {
        if "a"@ == "p"@ {
            assert("a"@[0] == "p"@[0]);
        }
    }
}

/// What a tag contributes to the Pango rendering: the structural inline
/// tags are normalized (`strong` to `b`, `em` to `i`, `del` and `strike`
/// to `s`, `code` and `pre` to `tt`; `b i u s tt` kept), anchors keep only
/// their `href`, the block tags `div p li tr br` become a line break, and
/// every other tag disappears.
pub open spec fn pango_tag_emit(c: Seq<char>) -> Seq<char> {
    let closing = c.len() > 0 && c[0] == '/';
    let name = tag_name(c);
    if name == "strong"@ || name == "b"@ {
        if closing {
            "</b>"@
        } else {
            "<b>"@
        }
    } else if name == "em"@ || name == "i"@ {
        if closing {
            "</i>"@
        } else {
            "<i>"@
        }
    } else if name == "del"@ || name == "strike"@ || name == "s"@ {
        if closing {
            "</s>"@
        } else {
            "<s>"@
        }
    } else if name == "code"@ || name == "pre"@ || name == "tt"@ {
        if closing {
            "</tt>"@
        } else {
            "<tt>"@
        }
    } else if name == "u"@ {
        if closing {
            "</u>"@
        } else {
            "<u>"@
        }
    } else if name == "a"@ {
        if closing {
            "</a>"@
        } else if has_sub(c, "href=\""@) {
            let after = c.skip(first_sub(c, "href=\""@) as int + 6);
            if after.contains('"') {
                "<a href=\""@ + after.subrange(0, first_at(after, '"') as int) + "\">"@
            } else {
                Seq::<char>::empty()
            }
        } else {
            Seq::<char>::empty()
        }
    } else if name == "div"@ || name == "p"@ || name == "li"@ || name == "tr"@ || name
        == "br"@ {
        seq!['\n']
    } else {
        Seq::<char>::empty()
    }
}

/// Append what a tag contributes to the Pango rendering.
fn push_pango_tag_emit(out: &mut Vec<char>, c: &Vec<char>)
    ensures
        final(out)@ == old(out)@ + pango_tag_emit(c@),
{
    let closing: bool = c.len() > 0 && c[0] == '/';
    let name_chars: Vec<char> = tag_name_exec(c);
    let name: String = crate::text::string_from_chars(&name_chars);
    if str_eq(name.as_str(), "strong") || str_eq(name.as_str(), "b") {
        push_str_pieces(out, if closing { "</b>" } else { "<b>" });
    } else if str_eq(name.as_str(), "em") || str_eq(name.as_str(), "i") {
        push_str_pieces(out, if closing { "</i>" } else { "<i>" });
    } else if str_eq(name.as_str(), "del") || str_eq(name.as_str(), "strike") || str_eq(
        name.as_str(),
        "s",
    ) {
        push_str_pieces(out, if closing { "</s>" } else { "<s>" });
    } else if str_eq(name.as_str(), "code") || str_eq(name.as_str(), "pre") || str_eq(
        name.as_str(),
        "tt",
    ) {
        push_str_pieces(out, if closing { "</tt>" } else { "<tt>" });
    } else if str_eq(name.as_str(), "u") {
        push_str_pieces(out, if closing { "</u>" } else { "<u>" });
    } else if str_eq(name.as_str(), "a") {
        if closing {
            push_str_pieces(out, "</a>");
        } else {
            match find_sub(c, "href=\"") {
                Some(at) => {
                    proof {
                        reveal_strlit("href=\"");
                        lemma_first_sub(c@, "href=\""@);
                    }
                    let start: usize = at + 6;
                    let ghost after = c@.skip(start as int);
                    // The quote that closes the value.
                    let n: usize = c.len();
                    let mut q: usize = start;
                    while q < n && c[q] != '"'
                        invariant
                            n == c@.len(),
                            start <= q <= n,
                            after == c@.skip(start as int),
                            forall|j: int| start <= j < q ==> c@[j] != '"',
                        decreases n - q,
                    {
                        q = q + 1;
                    }
                    if q < n {
                        proof {
                            assert(after[q - start] == c@[q as int]);
                            assert forall|j: int| 0 <= j < q - start implies after[j] != '"'
                                by {
                                assert(after[j] == c@[j + start]);
                            }
                            lemma_first_at_is(after, '"', q as int - start as int);
                        }
                        push_str_pieces(out, "<a href=\"");
                        let ghost mid = out@;
                        let mut k: usize = start;
                        while k < q
                            invariant
                                start <= k <= q <= n,
                                n == c@.len(),
                                out@ == mid + c@.subrange(start as int, k as int),
                            decreases q - k,
                        {
                            out.push(c[k]);
                            k = k + 1;
                            proof {
                                assert(out@ =~= mid + c@.subrange(start as int, k as int));
                            }
                        }
                        proof {
                            assert(c@.subrange(start as int, q as int) =~= after.subrange(
                                0,
                                first_at(after, '"') as int,
                            ));
                        }
                        push_str_pieces(out, "\">");
                        proof {
                            assert(final(out)@ =~= old(out)@ + pango_tag_emit(c@));
                        }
                    } else {
                        proof {
                            if after.contains('"') {
                                let j = choose|j: int|
                                    0 <= j < after.len() && after[j] == '"';
                                assert(c@[j + start] == '"');
                            }
                        }
                    }
                },
                None => {},
            }
        }
    } else if str_eq(name.as_str(), "div") || str_eq(name.as_str(), "p") || str_eq(
        name.as_str(),
        "li",
    ) || str_eq(name.as_str(), "tr") || str_eq(name.as_str(), "br") {
        out.push('\n');
    } else {
    }
}

/// Append a literal piece.
fn push_str_pieces(out: &mut Vec<char>, piece: &str)
    ensures
        final(out)@ == old(out)@ + piece@,
{
    let cs: Vec<char> = chars_of(piece);
    let n: usize = cs.len();
    let mut i: usize = 0;
    while i < n
        invariant
            n == piece@.len(),
            cs@ == piece@,
            i <= n,
            out@ == old(out)@ + piece@.subrange(0, i as int),
        decreases n - i,
    {
        out.push(cs[i]);
        i = i + 1;
        proof {
            assert(out@ =~= old(out)@ + piece@.subrange(0, i as int));
        }
    }
    proof {
        assert(old(out)@ + piece@.subrange(0, n as int) =~= old(out)@ + piece@);
    }
}

/// The tag pass of the Pango conversion: every tag replaced by what
/// `pango_tag_emit` says, all other text kept.
pub open spec fn pango_tags(s: Seq<char>) -> Seq<char>
    decreases s.len(),
    via pango_tags_decreases
{
    if s.len() == 0 {
        Seq::<char>::empty()
    } else if s[0] == '<' && tag_end(s) is Some {
        pango_tag_emit(s.subrange(1, tag_end(s)->0)) + pango_tags(s.skip(tag_end(s)->0 + 1))
    } else {
        seq![s[0]] + pango_tags(s.drop_first())
    }
}

#[via_fn]
proof fn pango_tags_decreases(s: Seq<char>) {
    if s.len() > 0 && s[0] == '<' && tag_end(s) is Some {
        lemma_first_at(s.drop_first(), '>');
    }
}

/// Run the Pango tag pass.
fn pango_tags_exec(s: &Vec<char>) -> (r: Vec<char>)
    ensures
        r@ == pango_tags(s@),
{
    let n: usize = s.len();
    let mut out: Vec<char> = Vec::new();
    let mut i: usize = 0;
    proof {
        assert(s@.skip(0) =~= s@);
    }
    while i < n
        invariant
            n == s@.len(),
            i <= n,
            pango_tags(s@) == out@ + pango_tags(s@.skip(i as int)),
        decreases n - i,
    {
        let ghost tail = s@.skip(i as int);
        proof {
            assert(tail[0] == s@[i as int]);
            assert(tail.drop_first() =~= s@.skip(i as int + 1));
        }
        let c: char = s[i];
        let mut plain_step: bool = true;
        if c == '<' {
            match find_gt(s, i + 1) {
                Some(j) => {
                    proof {
                        lemma_tag_end_at(s@, i as int, j as int);
                    }
                    let mut content: Vec<char> = Vec::new();
                    let mut k: usize = i + 1;
                    while k < j
                        invariant
                            i + 1 <= k <= j,
                            j < s@.len(),
                            content@ == s@.subrange(i as int + 1, k as int),
                        decreases j - k,
                    {
                        content.push(s[k]);
                        k = k + 1;
                        proof {
                            assert(content@ =~= s@.subrange(i as int + 1, k as int));
                        }
                    }
                    proof {
                        assert(content@ =~= tail.subrange(1, j - i));
                        assert(tail.skip(j - i + 1) =~= s@.skip(j as int + 1));
                    }
                    push_pango_tag_emit(&mut out, &content);
                    i = j + 1;
                    plain_step = false;
                },
                None => {
                    proof {
                        lemma_tag_end_none(s@, i as int);
                    }
                },
            }
        }
        if plain_step {
            out.push(c);
            i = i + 1;
        }
    }
    proof {
        assert(s@.skip(n as int) =~= Seq::<char>::empty());
    }
    out
}

/// Runs of three or more newlines collapsed to two: `run` counts the
/// newlines already emitted immediately before `s`.
pub open spec fn collapsed_newlines(s: Seq<char>, run: nat) -> Seq<char>
    decreases s.len(),
{
    if s.len() == 0 {
        Seq::<char>::empty()
    } else if s[0] == '\n' {
        if run >= 2 {
            collapsed_newlines(s.drop_first(), run)
        } else {
            seq!['\n'] + collapsed_newlines(s.drop_first(), run + 1)
        }
    } else {
        seq![s[0]] + collapsed_newlines(s.drop_first(), 0)
    }
}

/// Collapse runs of three or more newlines to two.
fn collapse_newlines_exec(s: &Vec<char>) -> (r: Vec<char>)
    ensures
        r@ == collapsed_newlines(s@, 0),
{
    let n: usize = s.len();
    let mut out: Vec<char> = Vec::new();
    let mut run: usize = 0;
    let mut i: usize = 0;
    proof {
        assert(s@.skip(0) =~= s@);
    }
    while i < n
        invariant
            n == s@.len(),
            i <= n,
            collapsed_newlines(s@, 0) == out@ + collapsed_newlines(
                s@.skip(i as int),
                run as nat,
            ),
            run <= 2,
        decreases n - i,
    {
        proof {
            assert(s@.skip(i as int)[0] == s@[i as int]);
            assert(s@.skip(i as int).drop_first() =~= s@.skip(i as int + 1));
        }
        let c: char = s[i];
        if c == '\n' {
            if run < 2 {
                out.push('\n');
                run = run + 1;
            }
        } else {
            out.push(c);
            run = 0;
        }
        i = i + 1;
    }
    proof {
        assert(s@.skip(n as int) =~= Seq::<char>::empty());
    }
    out
}

/// The Pango-markup projection of an HTML fragment: entities decoded, the
/// supported inline tags normalized and anchors reduced to their `href`,
/// block tags turned into line breaks, other tags removed, newline runs
/// collapsed, and the ends trimmed.
pub open spec fn html_to_pango_spec(s: Seq<char>) -> Seq<char> {
    trimmed(collapsed_newlines(pango_tags(decoded_entities(s)), 0))
}

/// Convert an HTML fragment to Pango markup.
pub fn convert_html_to_pango(html: &str) -> (r: String)
    ensures
        r@ == html_to_pango_spec(html@),
{
    let cs: Vec<char> = chars_of(html);
    let decoded: Vec<char> = decode_entities_chars(&cs);
    let tagged: Vec<char> = pango_tags_exec(&decoded);
    let collapsed: Vec<char> = collapse_newlines_exec(&tagged);
    let trimmed_out: Vec<char> = trim_chars(&collapsed);
    string_from_chars(&trimmed_out)
}

// ---------------------------------------------------------------------------
// Conversion to structured plain text
// ---------------------------------------------------------------------------

/// What one tag (and possibly a looked-ahead stretch after it) contributes
/// to the structured rendering, together with how far past the `>` the scan
/// continues.  `rest` is the text after the tag's `>`.
pub open spec fn structured_tag_step(c: Seq<char>, rest: Seq<char>) -> (Seq<char>, int) {
    let closing = c.len() > 0 && c[0] == '/';
    let name = tag_name(c);
    if name == "pre"@ && !closing && has_sub(lowered_full(rest), "</pre>"@) {
        // The block up to the first closing tag, tags stripped and each
        // line indented two spaces.
        let d = first_sub(lowered_full(rest), "</pre>"@) as int;
        let inner = rest.subrange(0, d);
        (
            seq!['\n'] + crate::markdown::indented_code(
                crate::markdown::code_lines(stripped_tags(inner)),
            ),
            d + 6,
        )
    } else if name == "a"@ && !closing && has_sub(c, "href=\""@) && anchor_text_end(rest)
        is Some {
        // The link text followed by its destination in parentheses.
        let after = c.skip(first_sub(c, "href=\""@) as int + 6);
        if after.contains('"') {
            let url = after.subrange(0, first_at(after, '"') as int);
            let t = anchor_text_end(rest)->0;
            (rest.subrange(0, t) + " ("@ + url + ")"@, t + 4)
        } else {
            (Seq::<char>::empty(), 0)
        }
    } else if name == "li"@ && !closing {
        (seq!['\n', '\u{2022}', ' '], 0)
    } else if name == "div"@ || name == "p"@ || name == "tr"@ || name == "ul"@ || name
        == "ol"@ || name == "br"@ {
        (seq!['\n'], 0)
    } else {
        (Seq::<char>::empty(), 0)
    }
}

/// Lower-case a whole sequence (same as `lowered`, exported for lookahead
/// searches).
pub open spec fn lowered_full(s: Seq<char>) -> Seq<char> {
    Seq::new(s.len(), |i: int| lower_char(s[i]))
}

/// Where the link text of an anchor ends: the position of the first `<` in
/// `rest`, provided the tag there is exactly a closing `</a>` (in any
/// case).  `None` when the text runs into another tag or never closes.
pub open spec fn anchor_text_end(rest: Seq<char>) -> Option<int> {
    if rest.contains('<') {
        let t = first_at(rest, '<') as int;
        if t + 4 <= rest.len() && lowered_full(rest.subrange(t, t + 4)) == "</a>"@ {
            Some(t)
        } else {
            None
        }
    } else {
        None
    }
}

/// The tag pass of the structured conversion.
pub open spec fn structured_tags(s: Seq<char>) -> Seq<char>
    decreases s.len(),
    via structured_tags_decreases
{
    if s.len() == 0 {
        Seq::<char>::empty()
    } else if s[0] == '<' && tag_end(s) is Some {
        let j = tag_end(s)->0;
        let step = structured_tag_step(s.subrange(1, j), s.skip(j + 1));
        let advance = if 0 <= step.1 <= s.len() - j - 1 {
            step.1
        } else {
            0
        };
        step.0 + structured_tags(s.skip(j + 1 + advance))
    } else {
        seq![s[0]] + structured_tags(s.drop_first())
    }
}

#[via_fn]
proof fn structured_tags_decreases(s: Seq<char>) {
    if s.len() > 0 && s[0] == '<' && tag_end(s) is Some {
        lemma_first_at(s.drop_first(), '>');
    }
}

/// Lower-case a character vector.
fn lowered_exec(s: &Vec<char>) -> (r: Vec<char>)
    ensures
        r@ == lowered_full(s@),
{
    let n: usize = s.len();
    let mut out: Vec<char> = Vec::new();
    let mut i: usize = 0;
    while i < n
        invariant
            n == s@.len(),
            i <= n,
            out@.len() == i,
            forall|k: int| 0 <= k < i ==> out@[k] == lower_char(s@[k]),
        decreases n - i,
    {
        out.push(to_lower_char(s[i]));
        i = i + 1;
    }
    proof {
        assert(out@ =~= lowered_full(s@));
    }
    out
}

/// Copy a subrange into a fresh vector.
fn copy_range(s: &Vec<char>, from: usize, to: usize) -> (r: Vec<char>)
    requires
        from <= to <= s@.len(),
    ensures
        r@ == s@.subrange(from as int, to as int),
{
    let mut out: Vec<char> = Vec::new();
    let mut i: usize = from;
    while i < to
        invariant
            from <= i <= to <= s@.len(),
            out@ == s@.subrange(from as int, i as int),
        decreases to - i,
    {
        out.push(s[i]);
        i = i + 1;
        proof {
            assert(out@ =~= s@.subrange(from as int, i as int));
        }
    }
    out
}

/// Run the structured tag pass.
#[verifier::rlimit(80)]
fn structured_tags_exec(s: &Vec<char>) -> (r: Vec<char>)
    ensures
        r@ == structured_tags(s@),
{
    let n: usize = s.len();
    let mut out: Vec<char> = Vec::new();
    let mut i: usize = 0;
    proof {
        assert(s@.skip(0) =~= s@);
    }
    while i < n
        invariant
            n == s@.len(),
            i <= n,
            structured_tags(s@) == out@ + structured_tags(s@.skip(i as int)),
        decreases n - i,
    {
        let ghost tail = s@.skip(i as int);
        proof {
            assert(tail[0] == s@[i as int]);
            assert(tail.drop_first() =~= s@.skip(i as int + 1));
        }
        let c: char = s[i];
        let mut plain_step: bool = true;
        if c == '<' {
            match find_gt(s, i + 1) {
                Some(j) => {
                    proof {
                        lemma_tag_end_at(s@, i as int, j as int);
                    }
                    let content: Vec<char> = copy_range(s, i + 1, j);
                    let rest: Vec<char> = copy_range(s, j + 1, n);
                    proof {
                        assert(content@ =~= tail.subrange(1, j - i));
                        assert(rest@ =~= tail.skip(j - i + 1));
                        assert(tail.skip(j - i + 1) =~= s@.skip(j as int + 1));
                    }
                    let advance: usize = push_structured_tag_step(&mut out, &content, &rest);
                    proof {
                        assert(rest@.len() == s@.len() - j - 1);
                        assert(advance <= rest@.len());
                        assert(s@.skip(j as int + 1).skip(advance as int) =~= s@.skip(
                            j as int + 1 + advance as int,
                        ));
                        assert(tail.skip(j - i + 1 + advance) =~= s@.skip(
                            j as int + 1 + advance as int,
                        ));
                    }
                    i = j + 1 + advance;
                    plain_step = false;
                },
                None => {
                    proof {
                        lemma_tag_end_none(s@, i as int);
                    }
                },
            }
        }
        if plain_step {
            out.push(c);
            i = i + 1;
        }
    }
    proof {
        assert(s@.skip(n as int) =~= Seq::<char>::empty());
    }
    out
}

/// Append one structured tag step and return how far past the `>` the scan
/// continues.
#[verifier::rlimit(80)]
fn push_structured_tag_step(out: &mut Vec<char>, c: &Vec<char>, rest: &Vec<char>) -> (advance:
    usize)
    ensures
        ({
            let step = structured_tag_step(c@, rest@);
            &&& final(out)@ == old(out)@ + step.0
            &&& advance as int == (if 0 <= step.1 <= rest@.len() {
                step.1
            } else {
                0
            })
        }),
{
    let rest_len: usize = rest.len();
    let closing: bool = c.len() > 0 && c[0] == '/';
    let name_chars: Vec<char> = tag_name_exec(c);
    let name: String = crate::text::string_from_chars(&name_chars);
    let lowered_rest: Vec<char> = lowered_exec(rest);
    if str_eq(name.as_str(), "pre") && !closing {
        match find_sub(&lowered_rest, "</pre>") {
            Some(d) => {
                proof {
                    reveal_strlit("</pre>");
                    lemma_first_sub(lowered_full(rest@), "</pre>"@);
                    assert(lowered_full(rest@).len() == rest@.len());
                    assert("</pre>"@.len() == 6);
                    assert(d + 6 <= rest_len);
                }
                let inner: Vec<char> = copy_range(rest, 0, d);
                let stripped: Vec<char> = stripped_tags_exec(&inner);
                let stripped_text: String = crate::text::string_from_chars(&stripped);
                out.push('\n');
                crate::markdown::push_indented_code(out, stripped_text.as_str());
                proof {
                    assert(final(out)@ =~= old(out)@ + structured_tag_step(c@, rest@).0);
                }
                d + 6
            },
            None => {
                proof {
                    lemma_structured_names_distinct();
                    assert(final(out)@ =~= old(out)@ + structured_tag_step(c@, rest@).0);
                }
                0
            },
        }
    } else if str_eq(name.as_str(), "a") && !closing {
        // The anchor text up to the closing tag, then the destination.
        let href_at: Option<usize> = find_sub(c, "href=\"");
        let text_end: Option<usize> = anchor_text_end_exec(rest, &lowered_rest);
        match (href_at, text_end) {
            (Some(at), Some(t)) => {
                proof {
                    reveal_strlit("href=\"");
                    lemma_first_sub(c@, "href=\""@);
                }
                let start: usize = at + 6;
                let ghost after = c@.skip(start as int);
                let n: usize = c.len();
                let mut q: usize = start;
                while q < n && c[q] != '"'
                    invariant
                        n == c@.len(),
                        start <= q <= n,
                        after == c@.skip(start as int),
                        forall|j: int| start <= j < q ==> c@[j] != '"',
                    decreases n - q,
                {
                    q = q + 1;
                }
                if q < n {
                    proof {
                        assert(after[q - start] == c@[q as int]);
                        assert forall|j: int| 0 <= j < q - start implies after[j] != '"' by {
                            assert(after[j] == c@[j + start]);
                        }
                        lemma_first_at_is(after, '"', q as int - start as int);
                    }
                    let ghost out0 = out@;
                    let text: Vec<char> = copy_range(rest, 0, t);
                    let mut k: usize = 0;
                    while k < text.len()
                        invariant
                            k <= text@.len(),
                            out@ == out0 + text@.subrange(0, k as int),
                        decreases text@.len() - k,
                    {
                        out.push(text[k]);
                        k = k + 1;
                        proof {
                            assert(out@ =~= out0 + text@.subrange(0, k as int));
                        }
                    }
                    proof {
                        assert(out0 + text@.subrange(0, text@.len() as int) =~= out0 + text@);
                    }
                    out.push(' ');
                    out.push('(');
                    let url: Vec<char> = copy_range(c, start, q);
                    let ghost out1 = out@;
                    let mut k2: usize = 0;
                    while k2 < url.len()
                        invariant
                            k2 <= url@.len(),
                            out@ == out1 + url@.subrange(0, k2 as int),
                        decreases url@.len() - k2,
                    {
                        out.push(url[k2]);
                        k2 = k2 + 1;
                        proof {
                            assert(out@ =~= out1 + url@.subrange(0, k2 as int));
                        }
                    }
                    proof {
                        assert(out1 + url@.subrange(0, url@.len() as int) =~= out1 + url@);
                    }
                    out.push(')');
                    proof {
                        reveal_strlit(" (");
                        reveal_strlit(")");
                        assert(" ("@ =~= seq![' ', '(']);
                        assert(")"@ =~= seq![')']);
                        assert(final(out)@ =~= old(out)@ + structured_tag_step(c@, rest@).0);
                    }
                    proof {
                        assert(anchor_text_end(rest@) == Some(t as int));
                        assert(t + 4 <= rest_len);
                    }
                    t + 4
                } else {
                    proof {
                        lemma_structured_names_distinct();
                        if after.contains('"') {
                            let j = choose|j: int| 0 <= j < after.len() && after[j] == '"';
                            assert(c@[j + start] == '"');
                        }
                        assert(final(out)@ =~= old(out)@ + structured_tag_step(c@, rest@).0);
                    }
                    0
                }
            },
            _ => {
                proof {
                    lemma_structured_names_distinct();
                    assert(final(out)@ =~= old(out)@ + structured_tag_step(c@, rest@).0);
                }
                0
            },
        }
    } else if str_eq(name.as_str(), "li") && !closing {
        out.push('\n');
        out.push('\u{2022}');
        out.push(' ');
        proof {
            assert(final(out)@ =~= old(out)@ + structured_tag_step(c@, rest@).0);
        }
        0
    } else if str_eq(name.as_str(), "div") || str_eq(name.as_str(), "p") || str_eq(
        name.as_str(),
        "tr",
    ) || str_eq(name.as_str(), "ul") || str_eq(name.as_str(), "ol") || str_eq(
        name.as_str(),
        "br",
    ) {
        out.push('\n');
        proof {
            assert(final(out)@ =~= old(out)@ + structured_tag_step(c@, rest@).0);
        }
        0
    } else {
        proof {
            assert(final(out)@ =~= old(out)@ + structured_tag_step(c@, rest@).0);
        }
        0
    }
}

/// Find where an anchor's text ends: the first `<` of `rest`, provided the
/// tag there is exactly `</a>`.
fn anchor_text_end_exec(rest: &Vec<char>, lowered_rest: &Vec<char>) -> (r: Option<usize>)
    requires
        lowered_rest@ == lowered_full(rest@),
    ensures
        match r {
            Some(t) => anchor_text_end(rest@) == Some(t as int),
            None => anchor_text_end(rest@) is None,
        },
{
    let n: usize = rest.len();
    let mut t: usize = 0;
    while t < n && rest[t] != '<'
        invariant
            n == rest@.len(),
            t <= n,
            forall|j: int| 0 <= j < t ==> rest@[j] != '<',
        decreases n - t,
    {
        t = t + 1;
    }
    if t == n {
        proof {
            if rest@.contains('<') {
                let j = choose|j: int| 0 <= j < rest@.len() && rest@[j] == '<';
                assert(rest@[j] != '<');
            }
        }
        return None;
    }
    proof {
        lemma_first_at_is(rest@, '<', t as int);
    }
    if n - t >= 4 && lowered_rest[t] == '<' && lowered_rest[t + 1] == '/' && lowered_rest[t
        + 2] == 'a' && lowered_rest[t + 3] == '>' {
        proof {
            reveal_strlit("</a>");
            assert(lowered_full(rest@.subrange(t as int, t as int + 4)) =~= "</a>"@);
        }
        Some(t)
    } else {
        proof {
            reveal_strlit("</a>");
            if t + 4 <= rest@.len() && lowered_full(rest@.subrange(t as int, t as int + 4))
                == "</a>"@ {
                assert(lowered_full(rest@.subrange(t as int, t as int + 4))[0] == lower_char(
                    rest@[t as int],
                ));
                assert(lowered_full(rest@.subrange(t as int, t as int + 4))[1] == lower_char(
                    rest@[t as int + 1],
                ));
                assert(lowered_full(rest@.subrange(t as int, t as int + 4))[2] == lower_char(
                    rest@[t as int + 2],
                ));
                assert(lowered_full(rest@.subrange(t as int, t as int + 4))[3] == lower_char(
                    rest@[t as int + 3],
                ));
            }
        }
        None
    }
}

/// The structured plain-text projection of an HTML fragment: entities
/// decoded, preformatted blocks indented, anchors reduced to
/// `text (destination)`, list items bulleted, block tags turned into line
/// breaks, other tags removed, newline runs collapsed, the ends trimmed.
pub open spec fn html_to_structured_spec(s: Seq<char>) -> Seq<char> {
    trimmed(collapsed_newlines(structured_tags(decoded_entities(s)), 0))
}

/// Convert an HTML fragment to structured plain text.
pub fn convert_html_to_structured(html: &str) -> (r: String)
    ensures
        r@ == html_to_structured_spec(html@),
{
    let cs: Vec<char> = chars_of(html);
    let decoded: Vec<char> = decode_entities_chars(&cs);
    let tagged: Vec<char> = structured_tags_exec(&decoded);
    let collapsed: Vec<char> = collapse_newlines_exec(&tagged);
    let trimmed_out: Vec<char> = trim_chars(&collapsed);
    string_from_chars(&trimmed_out)
}

} // verus!
