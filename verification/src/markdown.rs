//! Markdown conversion.
//!
//! Parsing is delegated to the `pulldown_cmark` event parser behind a trusted
//! wrapper that hands back a plain event stream; every rendering decision —
//! plain text, structured plain text, Pango markup — is made here by verified
//! folds over that stream.  The HTML rendering keeps the parser's own HTML
//! writer and the `ammonia` sanitizer behind named results.

use vstd::prelude::*;

use crate::text::{
    chars_of, pango_escaped, push_pango_escape_str, split_lines, split_lines_exec,
    string_from_chars, trim_chars, trimmed,
};

verus! {

// ---------------------------------------------------------------------------
// The event stream
// ---------------------------------------------------------------------------

/// The opening tags the renderers react to; everything else is `Other`.
#[derive(Debug, Clone, PartialEq, Eq)]
pub enum MdTag {
    Paragraph,
    CodeBlock,
    List,
    Item,
    Strong,
    Emphasis,
    Strikethrough,
    Link { url: String },
    Other,
}

/// The closing tags the renderers react to; everything else is `OtherEnd`.
#[derive(Debug, Clone, Copy, PartialEq, Eq, Structural)]
pub enum MdTagEnd {
    Paragraph,
    CodeBlock,
    List,
    Item,
    Strong,
    Emphasis,
    Strikethrough,
    Link,
    OtherEnd,
}

/// One event of the markdown parse.
#[derive(Debug, Clone, PartialEq, Eq)]
pub enum MdEvent {
    Start(MdTag),
    End(MdTagEnd),
    Text(String),
    Code(String),
    SoftBreak,
    HardBreak,
    OtherEvent,
}

/// The event stream that parsing `s` yields, with strikethrough always
/// enabled and tables enabled when `tables` is set.
pub uninterp spec fn md_events_of(s: Seq<char>, tables: bool) -> Seq<MdEvent>;

#[verifier::external_type_specification]
#[verifier::external_body]
pub struct ExMdParserEvent<'a>(pulldown_cmark::Event<'a>);

#[verifier::external_type_specification]
#[verifier::external_body]
pub struct ExMdParserTag<'a>(pulldown_cmark::Tag<'a>);

#[verifier::external_type_specification]
#[verifier::external_body]
pub struct ExMdParserTagEnd(pulldown_cmark::TagEnd);

/// Relies on the variants of `pulldown_cmark::Tag`: each opening tag the
/// renderers react to carried over one for one, every other tag as `Other`.
#[verifier::external_body]
fn convert_tag(tag: pulldown_cmark::Tag) -> MdTag {
    match tag {
        pulldown_cmark::Tag::Paragraph => MdTag::Paragraph,
        pulldown_cmark::Tag::CodeBlock(_) => MdTag::CodeBlock,
        pulldown_cmark::Tag::List(_) => MdTag::List,
        pulldown_cmark::Tag::Item => MdTag::Item,
        pulldown_cmark::Tag::Strong => MdTag::Strong,
        pulldown_cmark::Tag::Emphasis => MdTag::Emphasis,
        pulldown_cmark::Tag::Strikethrough => MdTag::Strikethrough,
        pulldown_cmark::Tag::Link { dest_url, .. } => MdTag::Link { url: dest_url.into_string() },
        _ => MdTag::Other,
    }
}

/// Relies on the variants of `pulldown_cmark::TagEnd`: each closing tag the
/// renderers react to carried over one for one, every other as `OtherEnd`.
#[verifier::external_body]
fn convert_tag_end(tag_end: pulldown_cmark::TagEnd) -> MdTagEnd {
    match tag_end {
        pulldown_cmark::TagEnd::Paragraph => MdTagEnd::Paragraph,
        pulldown_cmark::TagEnd::CodeBlock => MdTagEnd::CodeBlock,
        pulldown_cmark::TagEnd::List(_) => MdTagEnd::List,
        pulldown_cmark::TagEnd::Item => MdTagEnd::Item,
        pulldown_cmark::TagEnd::Strong => MdTagEnd::Strong,
        pulldown_cmark::TagEnd::Emphasis => MdTagEnd::Emphasis,
        pulldown_cmark::TagEnd::Strikethrough => MdTagEnd::Strikethrough,
        pulldown_cmark::TagEnd::Link => MdTagEnd::Link,
        _ => MdTagEnd::OtherEnd,
    }
}

/// Relies on the variants of `pulldown_cmark::Event`: each event carried
/// over one for one, text payloads as owned strings.
#[verifier::external_body]
fn convert_event(event: pulldown_cmark::Event) -> MdEvent {
    match event {
        pulldown_cmark::Event::Start(tag) => MdEvent::Start(convert_tag(tag)),
        pulldown_cmark::Event::End(tag_end) => MdEvent::End(convert_tag_end(tag_end)),
        pulldown_cmark::Event::Text(t) => MdEvent::Text(t.into_string()),
        pulldown_cmark::Event::Code(t) => MdEvent::Code(t.into_string()),
        pulldown_cmark::Event::SoftBreak => MdEvent::SoftBreak,
        pulldown_cmark::Event::HardBreak => MdEvent::HardBreak,
        _ => MdEvent::OtherEvent,
    }
}

/// Relies on `pulldown_cmark::Options`: strikethrough always on, tables
/// when asked for.
#[verifier::external_body]
fn parse_options(tables: bool) -> pulldown_cmark::Options {
    let mut options = pulldown_cmark::Options::empty();
    options.insert(pulldown_cmark::Options::ENABLE_STRIKETHROUGH);
    if tables {
        options.insert(pulldown_cmark::Options::ENABLE_TABLES);
    }
    options
}

#[verifier::external_type_specification]
#[verifier::external_body]
pub struct ExMdParserOptions(pulldown_cmark::Options);

/// Relies on `pulldown_cmark::Parser::new_ext`: the CommonMark event stream
/// of `s`, each event converted one for one.
#[verifier::external_body]
pub fn md_events(s: &str, tables: bool) -> (r: Vec<MdEvent>)
    ensures
        r@ == md_events_of(s@, tables),
{
    pulldown_cmark::Parser::new_ext(s, parse_options(tables)).map(convert_event).collect()
}

// ---------------------------------------------------------------------------
// Plain text rendering
// ---------------------------------------------------------------------------

/// What one event contributes to the plain-text rendering: only text, inline
/// code and breaks survive.
pub open spec fn md_plain_step(e: MdEvent) -> Seq<char> {
    match e {
        MdEvent::Text(t) => t@,
        MdEvent::Code(t) => t@,
        MdEvent::SoftBreak => seq![' '],
        MdEvent::HardBreak => seq!['\n'],
        _ => Seq::<char>::empty(),
    }
}

/// The plain-text rendering of an event stream.
pub open spec fn md_plain_render(es: Seq<MdEvent>) -> Seq<char>
    decreases es.len(),
{
    if es.len() == 0 {
        Seq::<char>::empty()
    } else {
        md_plain_step(es[0]) + md_plain_render(es.drop_first())
    }
}

/// Append the characters of `t` to `out`.
fn push_str_chars(out: &mut Vec<char>, t: &str)
    ensures
        final(out)@ == old(out)@ + t@,
{
    let cs: Vec<char> = chars_of(t);
    let n: usize = cs.len();
    let mut i: usize = 0;
    while i < n
        invariant
            n == t@.len(),
            cs@ == t@,
            i <= n,
            out@ == old(out)@ + t@.subrange(0, i as int),
        decreases n - i,
    {
        out.push(cs[i]);
        i = i + 1;
        proof {
            assert(out@ =~= old(out)@ + t@.subrange(0, i as int));
        }
    }
    proof {
        assert(old(out)@ + t@.subrange(0, n as int) =~= old(out)@ + t@);
    }
}

/// Convert markdown to plain text: formatting dropped, text kept.
pub fn convert_markdown_to_plain(markdown: &str) -> (r: String)
    ensures
        r@ == md_plain_render(md_events_of(markdown@, true)),
{
    let events: Vec<MdEvent> = md_events(markdown, true);
    let ghost es = events@;
    let n: usize = events.len();
    let mut out: Vec<char> = Vec::new();
    let mut i: usize = 0;
    proof {
        assert(es.skip(0) =~= es);
    }
    while i < n
        invariant
            n == es.len(),
            events@ == es,
            i <= n,
            md_plain_render(es) == out@ + md_plain_render(es.skip(i as int)),
        decreases n - i,
    {
        proof {
            assert(es.skip(i as int)[0] == es[i as int]);
            assert(es.skip(i as int).drop_first() =~= es.skip(i as int + 1));
        }
        match &events[i] {
            MdEvent::Text(t) => {
                push_str_chars(&mut out, t.as_str());
            },
            MdEvent::Code(t) => {
                push_str_chars(&mut out, t.as_str());
            },
            MdEvent::SoftBreak => {
                out.push(' ');
            },
            MdEvent::HardBreak => {
                out.push('\n');
            },
            _ => {},
        }
        i = i + 1;
    }
    proof {
        assert(es.skip(n as int) =~= Seq::<MdEvent>::empty());
    }
    string_from_chars(&out)
}

// ---------------------------------------------------------------------------
// Structured plain text rendering
// ---------------------------------------------------------------------------

/// `n` levels of two-space list indentation.
pub open spec fn indent_spaces(n: nat) -> Seq<char>
    decreases n,
{
    if n == 0 {
        Seq::<char>::empty()
    } else {
        seq![' ', ' '] + indent_spaces((n - 1) as nat)
    }
}

/// The lines of a code-block text, dropping the empty piece a trailing
/// newline would produce.
pub open spec fn code_lines(t: Seq<char>) -> Seq<Seq<char>> {
    if t.len() > 0 && t.last() == '\n' {
        split_lines(t.drop_last())
    } else {
        split_lines(t)
    }
}

/// Code-block text indented two spaces per line, one line per row.
pub open spec fn indented_code(ls: Seq<Seq<char>>) -> Seq<char>
    decreases ls.len(),
{
    if ls.len() == 0 {
        Seq::<char>::empty()
    } else {
        seq![' ', ' '] + ls[0] + seq!['\n'] + indented_code(ls.drop_first())
    }
}

/// What one event contributes to the structured rendering, given whether the
/// renderer is inside a code block and the current list depth.
pub open spec fn md_structured_step(e: MdEvent, in_code: bool, depth: nat) -> Seq<char> {
    match e {
        MdEvent::Start(MdTag::CodeBlock) => seq!['\n'],
        MdEvent::Start(MdTag::Item) => seq!['\n'] + indent_spaces(
            if depth > 0 {
                (depth - 1) as nat
            } else {
                0
            },
        ) + seq!['\u{2022}', ' '],
        MdEvent::End(MdTagEnd::CodeBlock) => seq!['\n'],
        MdEvent::End(MdTagEnd::Paragraph) => seq!['\n', '\n'],
        MdEvent::Text(t) => if in_code {
            indented_code(code_lines(t@))
        } else {
            t@
        },
        MdEvent::Code(t) => seq!['`'] + t@ + seq!['`'],
        MdEvent::SoftBreak => seq![' '],
        MdEvent::HardBreak => seq!['\n'],
        _ => Seq::<char>::empty(),
    }
}

/// The code-block flag after an event.
pub open spec fn md_structured_code(e: MdEvent, in_code: bool) -> bool {
    match e {
        MdEvent::Start(MdTag::CodeBlock) => true,
        MdEvent::End(MdTagEnd::CodeBlock) => false,
        _ => in_code,
    }
}

/// The list depth after an event (saturating at the machine bound).
pub open spec fn md_structured_depth(e: MdEvent, depth: nat) -> nat {
    match e {
        MdEvent::Start(MdTag::List) => if depth < usize::MAX {
            depth + 1
        } else {
            depth
        },
        MdEvent::End(MdTagEnd::List) => if depth > 0 {
            (depth - 1) as nat
        } else {
            0
        },
        _ => depth,
    }
}

/// The structured rendering of an event stream, before the final trim.
pub open spec fn md_structured_render(es: Seq<MdEvent>, in_code: bool, depth: nat) -> Seq<char>
    decreases es.len(),
{
    if es.len() == 0 {
        Seq::<char>::empty()
    } else {
        md_structured_step(es[0], in_code, depth) + md_structured_render(
            es.drop_first(),
            md_structured_code(es[0], in_code),
            md_structured_depth(es[0], depth),
        )
    }
}

/// Append `n` levels of two-space indentation to `out`.
fn push_indent(out: &mut Vec<char>, n: usize)
    ensures
        final(out)@ == old(out)@ + indent_spaces(n as nat),
{
    let mut k: usize = 0;
    while k < n
        invariant
            k <= n,
            out@ + indent_spaces((n - k) as nat) == old(out)@ + indent_spaces(n as nat),
        decreases n - k,
    {
        out.push(' ');
        out.push(' ');
        k = k + 1;
        proof {
            assert(out@ + indent_spaces((n - k) as nat) =~= old(out)@ + indent_spaces(n as nat));
        }
    }
    proof {
        assert(out@ + indent_spaces(0) =~= out@);
    }
}

/// Append an indented code block to `out`.
pub fn push_indented_code(out: &mut Vec<char>, t: &str)
    ensures
        final(out)@ == old(out)@ + indented_code(code_lines(t@)),
{
    let cs: Vec<char> = chars_of(t);
    let trimmed_cs: Vec<char> = if cs.len() > 0 && cs[cs.len() - 1] == '\n' {
        let mut c2: Vec<char> = cs;
        let ghost before = c2@;
        c2.pop();
        proof {
            assert(c2@ =~= before.drop_last());
        }
        c2
    } else {
        cs
    };
    proof {
        assert(split_lines(trimmed_cs@) == code_lines(t@));
    }
    let lines: Vec<Vec<char>> = split_lines_exec(&trimmed_cs);
    let n: usize = lines.len();
    let mut i: usize = 0;
    proof {
        assert(lines.deep_view().skip(0) =~= lines.deep_view());
    }
    while i < n
        invariant
            n == lines.deep_view().len(),
            n == lines@.len(),
            i <= n,
            out@ + indented_code(lines.deep_view().skip(i as int)) == old(out)@ + indented_code(
                lines.deep_view(),
            ),
        decreases n - i,
    {
        proof {
            assert(lines.deep_view().skip(i as int)[0] == lines.deep_view()[i as int]);
            assert(lines.deep_view().skip(i as int).drop_first() =~= lines.deep_view().skip(
                i as int + 1,
            ));
        }
        out.push(' ');
        out.push(' ');
        let line: &Vec<char> = &lines[i];
        proof {
            assert(line@ == lines.deep_view()[i as int]);
        }
        let m: usize = line.len();
        let ghost out0 = out@;
        let mut j: usize = 0;
        while j < m
            invariant
                m == line@.len(),
                j <= m,
                out@ == out0 + line@.subrange(0, j as int),
            decreases m - j,
        {
            out.push(line[j]);
            j = j + 1;
            proof {
                assert(out@ =~= out0 + line@.subrange(0, j as int));
            }
        }
        proof {
            assert(out0 + line@.subrange(0, m as int) =~= out0 + line@);
        }
        out.push('\n');
        i = i + 1;
    }
    proof {
        assert(indented_code(lines.deep_view().skip(n as int)) =~= Seq::<char>::empty());
        assert(out@ + Seq::<char>::empty() =~= out@);
    }
}



/// Convert markdown to structured plain text: line breaks, indented code
/// blocks, bulleted lists; all inline formatting dropped.
pub fn convert_markdown_to_structured_plain(markdown: &str) -> (r: String)
    ensures
        r@ == trimmed(md_structured_render(md_events_of(markdown@, false), false, 0)),
{
    let events: Vec<MdEvent> = md_events(markdown, false);
    let ghost es = events@;
    let n: usize = events.len();
    let mut out: Vec<char> = Vec::new();
    let mut in_code: bool = false;
    let mut depth: usize = 0;
    let mut i: usize = 0;
    proof {
        assert(es.skip(0) =~= es);
    }
    while i < n
        invariant
            n == es.len(),
            events@ == es,
            i <= n,
            md_structured_render(es, false, 0) == out@ + md_structured_render(
                es.skip(i as int),
                in_code,
                depth as nat,
            ),
        decreases n - i,
    {
        proof {
            assert(es.skip(i as int)[0] == es[i as int]);
            assert(es.skip(i as int).drop_first() =~= es.skip(i as int + 1));
        }
        match &events[i] {
            MdEvent::Start(tag) => {
                match tag {
                    MdTag::CodeBlock => {
                        in_code = true;
                        out.push('\n');
                    },
                    MdTag::List => {
                        if depth < usize::MAX {
                            depth = depth + 1;
                        }
                    },
                    MdTag::Item => {
                        out.push('\n');
                        let levels: usize = if depth > 0 {
                            depth - 1
                        } else {
                            0
                        };
                        push_indent(&mut out, levels);
                        out.push('\u{2022}');
                        out.push(' ');
                    },
                    _ => {},
                }
            },
            MdEvent::End(tag_end) => {
                match tag_end {
                    MdTagEnd::CodeBlock => {
                        in_code = false;
                        out.push('\n');
                    },
                    MdTagEnd::List => {
                        if depth > 0 {
                            depth = depth - 1;
                        }
                    },
                    MdTagEnd::Paragraph => {
                        out.push('\n');
                        out.push('\n');
                    },
                    _ => {},
                }
            },
            MdEvent::Text(t) => {
                if in_code {
                    push_indented_code(&mut out, t.as_str());
                } else {
                    push_str_chars(&mut out, t.as_str());
                }
            },
            MdEvent::Code(t) => {
                out.push('`');
                push_str_chars(&mut out, t.as_str());
                out.push('`');
            },
            MdEvent::SoftBreak => {
                out.push(' ');
            },
            MdEvent::HardBreak => {
                out.push('\n');
            },
            MdEvent::OtherEvent => {},
        }
        i = i + 1;
    }
    proof {
        assert(es.skip(n as int) =~= Seq::<MdEvent>::empty());
        assert(out@ + Seq::<char>::empty() =~= out@);
    }
    let trimmed_out: Vec<char> = trim_chars(&out);
    string_from_chars(&trimmed_out)
}

// ---------------------------------------------------------------------------
// Pango rendering
// ---------------------------------------------------------------------------

/// The Pango tags the renderer may have open.
#[derive(Debug, Clone, Copy, PartialEq, Eq, Structural)]
pub enum PangoTag {
    Bold,
    Italic,
    Strike,
    Mono,
    Anchor,
}

/// The text that closes a Pango tag.
pub open spec fn pango_close(t: PangoTag) -> Seq<char> {
    match t {
        PangoTag::Bold => seq!['<', '/', 'b', '>'],
        PangoTag::Italic => seq!['<', '/', 'i', '>'],
        PangoTag::Strike => seq!['<', '/', 's', '>'],
        PangoTag::Mono => seq!['<', '/', 't', 't', '>'],
        PangoTag::Anchor => seq!['<', '/', 'a', '>'],
    }
}

/// What one event contributes to the Pango rendering, given the stack of
/// open tags.
pub open spec fn md_pango_step(e: MdEvent, stack: Seq<PangoTag>) -> Seq<char> {
    match e {
        MdEvent::Start(MdTag::Strong) => seq!['<', 'b', '>'],
        MdEvent::Start(MdTag::Emphasis) => seq!['<', 'i', '>'],
        MdEvent::Start(MdTag::Strikethrough) => seq!['<', 's', '>'],
        MdEvent::Start(MdTag::CodeBlock) => seq!['<', 't', 't', '>'],
        MdEvent::Start(MdTag::Link { url }) => seq!['<', 'a', ' ', 'h', 'r', 'e', 'f', '=', '"']
            + pango_escaped(url@) + seq!['"', '>'],
        MdEvent::End(MdTagEnd::Strong) | MdEvent::End(MdTagEnd::Emphasis) | MdEvent::End(
            MdTagEnd::Strikethrough,
        ) | MdEvent::End(MdTagEnd::CodeBlock) | MdEvent::End(MdTagEnd::Link) => if stack.len()
            > 0 {
            pango_close(stack.last())
        } else {
            Seq::<char>::empty()
        },
        MdEvent::End(MdTagEnd::Paragraph) => seq!['\n', '\n'],
        MdEvent::Text(t) => pango_escaped(t@),
        MdEvent::Code(t) => seq!['<', 't', 't', '>'] + pango_escaped(t@) + seq![
            '<',
            '/',
            't',
            't',
            '>',
        ],
        MdEvent::SoftBreak => seq![' '],
        MdEvent::HardBreak => seq!['\n'],
        _ => Seq::<char>::empty(),
    }
}

/// The stack of open Pango tags after an event.
pub open spec fn md_pango_stack(e: MdEvent, stack: Seq<PangoTag>) -> Seq<PangoTag> {
    match e {
        MdEvent::Start(MdTag::Strong) => stack.push(PangoTag::Bold),
        MdEvent::Start(MdTag::Emphasis) => stack.push(PangoTag::Italic),
        MdEvent::Start(MdTag::Strikethrough) => stack.push(PangoTag::Strike),
        MdEvent::Start(MdTag::CodeBlock) => stack.push(PangoTag::Mono),
        MdEvent::Start(MdTag::Link { .. }) => stack.push(PangoTag::Anchor),
        MdEvent::End(MdTagEnd::Strong) | MdEvent::End(MdTagEnd::Emphasis) | MdEvent::End(
            MdTagEnd::Strikethrough,
        ) | MdEvent::End(MdTagEnd::CodeBlock) | MdEvent::End(MdTagEnd::Link) => if stack.len()
            > 0 {
            stack.drop_last()
        } else {
            stack
        },
        _ => stack,
    }
}

/// The Pango rendering of an event stream, before the final trim.
pub open spec fn md_pango_render(es: Seq<MdEvent>, stack: Seq<PangoTag>) -> Seq<char>
    decreases es.len(),
{
    if es.len() == 0 {
        Seq::<char>::empty()
    } else {
        md_pango_step(es[0], stack) + md_pango_render(
            es.drop_first(),
            md_pango_stack(es[0], stack),
        )
    }
}

/// Convert markdown to Pango markup for Linux notification bodies.
pub fn convert_markdown_to_pango(markdown: &str) -> (r: String)
    ensures
        r@ == trimmed(md_pango_render(md_events_of(markdown@, false), Seq::empty())),
{
    let events: Vec<MdEvent> = md_events(markdown, false);
    let ghost es = events@;
    let n: usize = events.len();
    let mut out: Vec<char> = Vec::new();
    let mut stack: Vec<PangoTag> = Vec::new();
    let mut i: usize = 0;
    proof {
        assert(es.skip(0) =~= es);
        assert(stack@ =~= Seq::<PangoTag>::empty());
    }
    while i < n
        invariant
            n == es.len(),
            events@ == es,
            i <= n,
            md_pango_render(es, Seq::empty()) == out@ + md_pango_render(
                es.skip(i as int),
                stack@,
            ),
        decreases n - i,
    {
        proof {
            assert(es.skip(i as int)[0] == es[i as int]);
            assert(es.skip(i as int).drop_first() =~= es.skip(i as int + 1));
        }
        match &events[i] {
            MdEvent::Start(tag) => {
                match tag {
                    MdTag::Strong => {
                        out.push('<');
                        out.push('b');
                        out.push('>');
                        stack.push(PangoTag::Bold);
                    },
                    MdTag::Emphasis => {
                        out.push('<');
                        out.push('i');
                        out.push('>');
                        stack.push(PangoTag::Italic);
                    },
                    MdTag::Strikethrough => {
                        out.push('<');
                        out.push('s');
                        out.push('>');
                        stack.push(PangoTag::Strike);
                    },
                    MdTag::CodeBlock => {
                        out.push('<');
                        out.push('t');
                        out.push('t');
                        out.push('>');
                        stack.push(PangoTag::Mono);
                    },
                    MdTag::Link { url } => {
                        out.push('<');
                        out.push('a');
                        out.push(' ');
                        out.push('h');
                        out.push('r');
                        out.push('e');
                        out.push('f');
                        out.push('=');
                        out.push('"');
                        push_pango_escape_str(&mut out, url.as_str());
                        out.push('"');
                        out.push('>');
                        stack.push(PangoTag::Anchor);
                    },
                    _ => {},
                }
            },
            MdEvent::End(tag_end) => {
                match tag_end {
                    MdTagEnd::Strong | MdTagEnd::Emphasis | MdTagEnd::Strikethrough
                        | MdTagEnd::CodeBlock | MdTagEnd::Link => {
                        let popped: Option<PangoTag> = stack.pop();
                        match popped {
                            Some(PangoTag::Bold) => {
                                out.push('<');
                                out.push('/');
                                out.push('b');
                                out.push('>');
                            },
                            Some(PangoTag::Italic) => {
                                out.push('<');
                                out.push('/');
                                out.push('i');
                                out.push('>');
                            },
                            Some(PangoTag::Strike) => {
                                out.push('<');
                                out.push('/');
                                out.push('s');
                                out.push('>');
                            },
                            Some(PangoTag::Mono) => {
                                out.push('<');
                                out.push('/');
                                out.push('t');
                                out.push('t');
                                out.push('>');
                            },
                            Some(PangoTag::Anchor) => {
                                out.push('<');
                                out.push('/');
                                out.push('a');
                                out.push('>');
                            },
                            None => {},
                        }
                    },
                    MdTagEnd::Paragraph => {
                        out.push('\n');
                        out.push('\n');
                    },
                    _ => {},
                }
            },
            MdEvent::Text(t) => {
                push_pango_escape_str(&mut out, t.as_str());
            },
            MdEvent::Code(t) => {
                out.push('<');
                out.push('t');
                out.push('t');
                out.push('>');
                push_pango_escape_str(&mut out, t.as_str());
                out.push('<');
                out.push('/');
                out.push('t');
                out.push('t');
                out.push('>');
            },
            MdEvent::SoftBreak => {
                out.push(' ');
            },
            MdEvent::HardBreak => {
                out.push('\n');
            },
            MdEvent::OtherEvent => {},
        }
        i = i + 1;
    }
    proof {
        assert(es.skip(n as int) =~= Seq::<MdEvent>::empty());
        assert(out@ + Seq::<char>::empty() =~= out@);
    }
    let trimmed_out: Vec<char> = trim_chars(&out);
    string_from_chars(&trimmed_out)
}

// ---------------------------------------------------------------------------
// HTML rendering
// ---------------------------------------------------------------------------

/// Is `u` a link destination the HTML rendering keeps?  Only web links and
/// in-page anchors survive.
pub open spec fn spec_link_url_allowed(u: Seq<char>) -> bool {
    ||| starts_with_lit(u, seq!['h', 't', 't', 'p', ':', '/', '/'])
    ||| starts_with_lit(u, seq!['h', 't', 't', 'p', 's', ':', '/', '/'])
    ||| starts_with_lit(u, seq!['#'])
}

/// Is `u` an image source the HTML rendering keeps?  Only web images.
pub open spec fn spec_image_url_allowed(u: Seq<char>) -> bool {
    ||| starts_with_lit(u, seq!['h', 't', 't', 'p', ':', '/', '/'])
    ||| starts_with_lit(u, seq!['h', 't', 't', 'p', 's', ':', '/', '/'])
}

/// Does `s` start with `p`?
pub open spec fn starts_with_lit(s: Seq<char>, p: Seq<char>) -> bool {
    s.len() >= p.len() && s.subrange(0, p.len() as int) == p
}

/// Case-sensitive prefix test.
fn starts_with_exec(s: &Vec<char>, p: &str) -> (r: bool)
    ensures
        r == starts_with_lit(s@, p@),
{
    let pc: Vec<char> = chars_of(p);
    let plen: usize = pc.len();
    if s.len() < plen {
        return false;
    }
    let mut k: usize = 0;
    while k < plen
        invariant
            plen == p@.len(),
            pc@ == p@,
            plen <= s@.len(),
            k <= plen,
            forall|t: int| 0 <= t < k ==> s@[t] == p@[t],
        decreases plen - k,
    {
        if s[k] != pc[k] {
            proof {
                if starts_with_lit(s@, p@) {
                    assert(s@.subrange(0, plen as int)[k as int] == p@[k as int]);
                }
            }
            return false;
        }
        k = k + 1;
    }
    proof {
        assert(s@.subrange(0, plen as int) =~= p@);
    }
    true
}

/// Whether a markdown link destination is kept in the HTML rendering.
pub fn link_url_allowed(u: &str) -> (r: bool)
    ensures
        r == spec_link_url_allowed(u@),
{
    let cs: Vec<char> = chars_of(u);
    let r: bool = starts_with_exec(&cs, "http://") || starts_with_exec(&cs, "https://")
        || starts_with_exec(&cs, "#");
    proof {
        reveal_strlit("http://");
        reveal_strlit("https://");
        reveal_strlit("#");
        assert("http://"@ =~= seq!['h', 't', 't', 'p', ':', '/', '/']);
        assert("https://"@ =~= seq!['h', 't', 't', 'p', 's', ':', '/', '/']);
        assert("#"@ =~= seq!['#']);
    }
    r
}

/// Whether a markdown image source is kept in the HTML rendering.
pub fn image_url_allowed(u: &str) -> (r: bool)
    ensures
        r == spec_image_url_allowed(u@),
{
    let cs: Vec<char> = chars_of(u);
    let r: bool = starts_with_exec(&cs, "http://") || starts_with_exec(&cs, "https://");
    proof {
        reveal_strlit("http://");
        reveal_strlit("https://");
        assert("http://"@ =~= seq!['h', 't', 't', 'p', ':', '/', '/']);
        assert("https://"@ =~= seq!['h', 't', 't', 'p', 's', ':', '/', '/']);
    }
    r
}

/// The HTML that the markdown writer produces for `s` after raw HTML is
/// dropped and link and image destinations are restricted by
/// `spec_link_url_allowed` and `spec_image_url_allowed`.
pub uninterp spec fn md_html_raw_of(s: Seq<char>) -> Seq<char>;

/// Relies on the variants of `pulldown_cmark::Event`: raw HTML events are
/// dropped, and links and images keep only the destinations
/// `link_url_allowed` / `image_url_allowed` admit.
#[verifier::external_body]
fn keep_event(event: &pulldown_cmark::Event) -> bool {
    match event {
        pulldown_cmark::Event::Html(_) | pulldown_cmark::Event::InlineHtml(_) => false,
        pulldown_cmark::Event::Start(pulldown_cmark::Tag::Link { dest_url, .. }) =>
            link_url_allowed(dest_url),
        pulldown_cmark::Event::Start(pulldown_cmark::Tag::Image { dest_url, .. }) =>
            image_url_allowed(dest_url),
        _ => true,
    }
}

/// Relies on `pulldown_cmark::Parser::new_ext` and
/// `pulldown_cmark::html::push_html`: the rendered HTML of the event stream
/// with the events `keep_event` refuses removed.
#[verifier::external_body]
pub fn markdown_to_html_raw(s: &str) -> (r: String)
    ensures
        r@ == md_html_raw_of(s@),
{
    let parser = pulldown_cmark::Parser::new_ext(s, parse_options(true));
    let mut html_output = String::new();
    pulldown_cmark::html::push_html(&mut html_output, parser.filter(keep_event));
    html_output
}

/// What `ammonia` leaves of an HTML fragment under this library's policy.
pub uninterp spec fn sanitized_of(s: Seq<char>) -> Seq<char>;

/// Relies on `ammonia::Builder::clean`: the fragment reduced to the safe
/// formatting tags (`p br strong em b i u ul ol li a span div`), `href` and
/// `title` on links, `class` on spans and divs, `rel="noopener noreferrer"`
/// added to links, and only `http`/`https` URLs kept.
#[verifier::external_body]
pub fn sanitize_html(html: &str) -> (r: String)
    ensures
        r@ == sanitized_of(html@),
{
    let tags = ["p", "br", "strong", "em", "b", "i", "u", "ul", "ol", "li", "a", "span", "div"];
    let mut builder = ammonia::Builder::default();
    builder
        .add_tags(&tags)
        .add_tag_attributes("a", &["href", "title"])
        .add_tag_attributes("span", &["class"])
        .add_tag_attributes("div", &["class"])
        .link_rel(Some("noopener noreferrer"))
        .url_schemes(std::collections::HashSet::from(["https", "http"]));
    builder.clean(html).to_string()
}

/// Convert markdown to sanitized HTML.
pub fn convert_markdown_to_html(markdown: &str) -> (r: String)
    ensures
        r@ == sanitized_of(md_html_raw_of(markdown@)),
{
    let raw: String = markdown_to_html_raw(markdown);
    sanitize_html(raw.as_str())
}

} // verus!
