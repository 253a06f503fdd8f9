//! Notification content: rich text bodies, media attachments, interactive
//! elements, and validation against per-platform limits.

use vstd::prelude::*;

use crate::errors::{NotificationError, NotificationResult};
use crate::html::{
    convert_html_to_pango, convert_html_to_plain, convert_html_to_structured,
    html_to_pango_spec, html_to_plain_spec, html_to_structured_spec,
};
use crate::markdown::{
    convert_markdown_to_html, convert_markdown_to_pango, convert_markdown_to_plain,
    convert_markdown_to_structured_plain, md_events_of, md_html_raw_of, md_pango_render,
    md_plain_render, md_structured_render, sanitize_html, sanitized_of,
};
use crate::priority::Priority;
use crate::text::{
    chars_of, html_escape, html_escaped, pango_escape, pango_escaped, sanitize_string,
    sanitized_chars, split_lines, str_eq, string_from_chars, trimmed,
};

verus! {

// ---------------------------------------------------------------------------
// Platform limits
// ---------------------------------------------------------------------------

/// The per-platform limits content is validated against.  Lengths are in
/// characters; sizes in bytes.  `None` means unlimited.
#[derive(Debug, Clone, Default, PartialEq, Eq, Structural)]
pub struct PlatformLimits {
    pub max_actions: Option<usize>,
    pub max_title_length: Option<usize>,
    pub max_body_length: Option<usize>,
    pub max_image_size: Option<usize>,
    pub max_file_size: Option<usize>,
}

// ---------------------------------------------------------------------------
// Rich text
// ---------------------------------------------------------------------------

/// A notification body: plain text, markdown, HTML, or a map of
/// platform-specific renderings keyed by format name.
#[derive(Debug, Clone, PartialEq, Eq)]
pub enum RichText {
    Plain(String),
    Markdown(String),
    Html(String),
    PlatformSpecific(Vec<(String, String)>),
}

/// The first value under `key` in a rendering map.
pub open spec fn spec_map_get(m: Seq<(String, String)>, key: Seq<char>) -> Option<Seq<char>>
    decreases m.len(),
{
    if m.len() == 0 {
        None
    } else if m[0].0@ == key {
        Some(m[0].1@)
    } else {
        spec_map_get(m.drop_first(), key)
    }
}

/// Look the first value under `key` up in a rendering map.
pub fn map_get<'a>(m: &'a Vec<(String, String)>, key: &str) -> (r: Option<&'a String>)
    ensures
        match r {
            Some(v) => spec_map_get(m@, key@) == Some(v@),
            None => spec_map_get(m@, key@) is None,
        },
{
    let n: usize = m.len();
    let mut i: usize = 0;
    proof {
        assert(m@.skip(0) =~= m@);
    }
    while i < n
        invariant
            n == m@.len(),
            i <= n,
            spec_map_get(m@, key@) == spec_map_get(m@.skip(i as int), key@),
        decreases n - i,
    {
        proof {
            assert(m@.skip(i as int)[0] == m@[i as int]);
            assert(m@.skip(i as int).drop_first() =~= m@.skip(i as int + 1));
        }
        if str_eq(m[i].0.as_str(), key) {
            return Some(&m[i].1);
        }
        i = i + 1;
    }
    None
}

/// The plain-text projection of a rich text value.
pub open spec fn spec_plain_text(rt: RichText) -> Seq<char> {
    match rt {
        RichText::Plain(t) => t@,
        RichText::Markdown(m) => md_plain_render(md_events_of(m@, true)),
        RichText::Html(h) => html_to_plain_spec(h@),
        RichText::PlatformSpecific(m) => match spec_map_get(m@, "plain"@) {
            Some(v) => v,
            None => if m@.len() > 0 {
                m@[0].1@
            } else {
                Seq::<char>::empty()
            },
        },
    }
}

/// The HTML projection of a rich text value.
pub open spec fn spec_html_text(rt: RichText) -> Seq<char> {
    match rt {
        RichText::Plain(t) => html_escaped(t@),
        RichText::Markdown(m) => sanitized_of(md_html_raw_of(m@)),
        RichText::Html(h) => h@,
        RichText::PlatformSpecific(m) => match spec_map_get(m@, "html"@) {
            Some(v) => v,
            None => match spec_map_get(m@, "plain"@) {
                Some(p) => html_escaped(p),
                None => Seq::<char>::empty(),
            },
        },
    }
}

/// The Pango-markup projection of a rich text value.
pub open spec fn spec_pango_text(rt: RichText) -> Seq<char> {
    match rt {
        RichText::Plain(t) => pango_escaped(t@),
        RichText::Markdown(m) => trimmed(md_pango_render(md_events_of(m@, false), Seq::empty())),
        RichText::Html(h) => html_to_pango_spec(h@),
        RichText::PlatformSpecific(m) => match spec_map_get(m@, "pango"@) {
            Some(v) => pango_escaped(v),
            None => match spec_map_get(m@, "plain"@) {
                Some(p) => pango_escaped(p),
                None => Seq::<char>::empty(),
            },
        },
    }
}

/// The structured plain-text projection of a rich text value.
pub open spec fn spec_structured_plain(rt: RichText) -> Seq<char> {
    match rt {
        RichText::Plain(t) => t@,
        RichText::Markdown(m) => trimmed(
            md_structured_render(md_events_of(m@, false), false, 0),
        ),
        RichText::Html(h) => html_to_structured_spec(h@),
        RichText::PlatformSpecific(m) => match spec_map_get(m@, "plain"@) {
            Some(v) => v,
            None => Seq::<char>::empty(),
        },
    }
}

/// The byte-budget estimate of a rich text value: the character count of the
/// carried text.
pub open spec fn spec_estimated_size(rt: RichText) -> int {
    match rt {
        RichText::Plain(t) => t@.len() as int,
        RichText::Markdown(m) => m@.len() as int,
        RichText::Html(h) => h@.len() as int,
        RichText::PlatformSpecific(m) => spec_map_size(m@),
    }
}

/// The summed value lengths of a rendering map.
pub open spec fn spec_map_size(m: Seq<(String, String)>) -> int
    decreases m.len(),
{
    if m.len() == 0 {
        0
    } else {
        m[0].1@.len() + spec_map_size(m.drop_first())
    }
}

/// Sentence-ending punctuation, for subtitle extraction.
pub open spec fn is_sentence_end(c: char) -> bool {
    c == '.' || c == '!' || c == '?'
}

/// The position of the first sentence end in `s`; meaningful only when one
/// occurs.
pub open spec fn first_sentence_end(s: Seq<char>) -> nat
    decreases s.len(),
{
    if s.len() == 0 {
        0
    } else if is_sentence_end(s[0]) {
        0
    } else {
        1 + first_sentence_end(s.drop_first())
    }
}

/// Does any sentence end occur in `s`?
pub open spec fn has_sentence_end(s: Seq<char>) -> bool {
    exists|k: int| 0 <= k < s.len() && is_sentence_end(s[k])
}

proof fn lemma_first_sentence_end(s: Seq<char>)
    requires
        has_sentence_end(s),
    ensures
        first_sentence_end(s) < s.len(),
        is_sentence_end(s[first_sentence_end(s) as int]),
        forall|j: int| 0 <= j < first_sentence_end(s) ==> !is_sentence_end(s[j]),
    decreases s.len(),
{
    if !is_sentence_end(s[0]) {
        assert(has_sentence_end(s.drop_first())) by {
            let k = choose|k: int| 0 <= k < s.len() && is_sentence_end(s[k]);
            assert(is_sentence_end(s.drop_first()[k - 1]));
        }
        lemma_first_sentence_end(s.drop_first());
        assert forall|j: int| 0 <= j < first_sentence_end(s) implies !is_sentence_end(s[j]) by {
            if j > 0 {
                assert(s.drop_first()[j - 1] == s[j]);
            }
        }
    }
}


/// The index of the first sentence end in `line`, if any.
fn find_sentence_end(line: &Vec<char>) -> (r: Option<usize>)
    ensures
        match r {
            Some(j) => j < line@.len() && is_sentence_end(line@[j as int]) && (forall|k: int|
                0 <= k < j ==> !is_sentence_end(line@[k])),
            None => forall|k: int| 0 <= k < line@.len() ==> !is_sentence_end(line@[k]),
        },
{
    let m: usize = line.len();
    let mut j: usize = 0;
    while j < m
        invariant
            m == line@.len(),
            j <= m,
            forall|k: int| 0 <= k < j ==> !is_sentence_end(line@[k]),
        decreases m - j,
    {
        let c: char = line[j];
        if c == '.' || c == '!' || c == '?' {
            return Some(j);
        }
        j = j + 1;
    }
    None
}

/// The short summary extracted from a plain projection: the first line cut
/// at its first sentence end, shortened to 97 characters plus an ellipsis
/// when longer than 100; `None` when the result is empty.
pub open spec fn spec_extract_subtitle(p: Seq<char>) -> Option<Seq<char>> {
    if p.len() == 0 {
        None
    } else {
        let line = split_lines(p)[0];
        let cut = if has_sentence_end(line) {
            line.subrange(0, first_sentence_end(line) as int + 1)
        } else {
            line
        };
        let shortened = if cut.len() > 100 {
            cut.subrange(0, 97) + seq!['.', '.', '.']
        } else {
            cut
        };
        if shortened.len() == 0 {
            None
        } else {
            Some(shortened)
        }
    }
}

impl RichText {
    /// Plain text content.
    pub fn plain(text: &str) -> (r: RichText)
        ensures
            r matches RichText::Plain(t) && t@ == text@,
    {
        RichText::Plain(text.to_owned())
    }

    /// Markdown content.
    pub fn markdown(text: &str) -> (r: RichText)
        ensures
            r matches RichText::Markdown(t) && t@ == text@,
    {
        RichText::Markdown(text.to_owned())
    }

    /// HTML content.
    pub fn html(text: &str) -> (r: RichText)
        ensures
            r matches RichText::Html(t) && t@ == text@,
    {
        RichText::Html(text.to_owned())
    }

    /// The plain-text projection, for platforms without markup.
    pub fn to_plain_text(&self) -> (r: String)
        ensures
            r@ == spec_plain_text(*self),
    {
        match self {
            RichText::Plain(text) => text.clone(),
            RichText::Markdown(md) => convert_markdown_to_plain(md.as_str()),
            RichText::Html(html) => convert_html_to_plain(html.as_str()),
            RichText::PlatformSpecific(map) => {
                match map_get(map, "plain") {
                    Some(v) => v.clone(),
                    None => {
                        if map.len() > 0 {
                            map[0].1.clone()
                        } else {
                            String::new()
                        }
                    },
                }
            },
        }
    }

    /// The HTML projection, for platforms that render it.
    pub fn to_html(&self) -> (r: String)
        ensures
            r@ == spec_html_text(*self),
    {
        match self {
            RichText::Plain(text) => html_escape(text.as_str()),
            RichText::Markdown(md) => convert_markdown_to_html(md.as_str()),
            RichText::Html(html) => html.clone(),
            RichText::PlatformSpecific(map) => {
                match map_get(map, "html") {
                    Some(v) => v.clone(),
                    None => {
                        match map_get(map, "plain") {
                            Some(p) => html_escape(p.as_str()),
                            None => String::new(),
                        }
                    },
                }
            },
        }
    }

    /// The Pango-markup projection, for Linux notification servers that
    /// list markup support.
    pub fn to_pango_markup(&self) -> (r: String)
        ensures
            r@ == spec_pango_text(*self),
    {
        match self {
            RichText::Plain(text) => pango_escape(text.as_str()),
            RichText::Markdown(md) => convert_markdown_to_pango(md.as_str()),
            RichText::Html(html) => convert_html_to_pango(html.as_str()),
            RichText::PlatformSpecific(map) => {
                match map_get(map, "pango") {
                    Some(v) => pango_escape(v.as_str()),
                    None => {
                        match map_get(map, "plain") {
                            Some(p) => pango_escape(p.as_str()),
                            None => String::new(),
                        }
                    },
                }
            },
        }
    }

    /// The structured plain-text projection: line breaks, indented code
    /// blocks, bullets and link URLs preserved.
    pub fn to_structured_plain_text(&self) -> (r: String)
        ensures
            r@ == spec_structured_plain(*self),
    {
        match self {
            RichText::Plain(text) => text.clone(),
            RichText::Markdown(md) => convert_markdown_to_structured_plain(md.as_str()),
            RichText::Html(html) => convert_html_to_structured(html.as_str()),
            RichText::PlatformSpecific(map) => {
                match map_get(map, "plain") {
                    Some(v) => v.clone(),
                    None => String::new(),
                }
            },
        }
    }

    /// Reject a body whose plain projection exceeds the platform's body
    /// length limit.
    pub fn validate(&self, platform_limits: &PlatformLimits) -> (r: NotificationResult<()>)
        ensures
            r is Ok <==> rich_text_fits(*self, *platform_limits),
    {
        let content: String = self.to_plain_text();
        match platform_limits.max_body_length {
            Some(max_body_length) => {
                if content.as_str().unicode_len() > max_body_length {
                    Err(
                        NotificationError::ValidationError {
                            field: "body".to_owned(),
                            message: "Body exceeds maximum length".to_owned(),
                        },
                    )
                } else {
                    Ok(())
                }
            },
            None => Ok(()),
        }
    }

    /// The byte-budget estimate of the carried text.
    pub fn estimated_size(&self) -> (r: usize)
        ensures
            r == spec_estimated_size(*self) || r == usize::MAX,
    {
        match self {
            RichText::Plain(text) => text.as_str().unicode_len(),
            RichText::Markdown(md) => md.as_str().unicode_len(),
            RichText::Html(html) => html.as_str().unicode_len(),
            RichText::PlatformSpecific(map) => {
                let n: usize = map.len();
                let mut total: usize = 0;
                let mut i: usize = 0;
                let mut saturated: bool = false;
                proof {
                    assert(map@.skip(0) =~= map@);
                }
                while i < n
                    invariant
                        n == map@.len(),
                        i <= n,
                        !saturated ==> spec_map_size(map@) == total + spec_map_size(
                            map@.skip(i as int),
                        ),
                        saturated ==> total == usize::MAX,
                    decreases n - i,
                {
                    proof {
                        assert(map@.skip(i as int)[0] == map@[i as int]);
                        assert(map@.skip(i as int).drop_first() =~= map@.skip(i as int + 1));
                    }
                    let piece: usize = map[i].1.as_str().unicode_len();
                    if !saturated {
                        match total.checked_add(piece) {
                            Some(t) => {
                                total = t;
                            },
                            None => {
                                total = usize::MAX;
                                saturated = true;
                            },
                        }
                    }
                    i = i + 1;
                }
                proof {
                    if !saturated {
                        assert(spec_map_size(map@.skip(n as int)) == 0);
                    }
                }
                total
            },
        }
    }

    /// Extract a short summary for a subtitle: the first sentence of the
    /// first line, at most 100 characters.
    pub fn extract_subtitle(&self) -> (r: Option<String>)
        ensures
            match r {
                Some(t) => spec_extract_subtitle(spec_plain_text(*self)) == Some(t@),
                None => spec_extract_subtitle(spec_plain_text(*self)) is None,
            },
    {
        let plain: String = self.to_plain_text();
        let cs: Vec<char> = chars_of(plain.as_str());
        if cs.len() == 0 {
            return None;
        }
        // The first line.
        let mut line: Vec<char> = Vec::new();
        let n: usize = cs.len();
        let mut i: usize = 0;
        while i < n && cs[i] != '\n'
            invariant
                n == cs@.len(),
                i <= n,
                line@ == cs@.subrange(0, i as int),
                forall|k: int| 0 <= k < i ==> cs@[k] != '\n',
            decreases n - i,
        {
            line.push(cs[i]);
            i = i + 1;
            proof {
                assert(line@ =~= cs@.subrange(0, i as int));
            }
        }
        proof {
            if i < n {
                crate::text::lemma_first_newline_is(cs@, i as int);
                assert(split_lines(cs@)[0] == cs@.subrange(0, i as int));
            } else {
                if cs@.contains('\n') {
                    let k = choose|k: int| 0 <= k < cs@.len() && cs@[k] == '\n';
                    assert(cs@[k] != '\n');
                }
                assert(split_lines(cs@) =~= seq![cs@]);
                assert(line@ =~= cs@);
            }
        }
        // Cut at the first sentence end.
        let m: usize = line.len();
        let cut_at: Option<usize> = find_sentence_end(&line);
        let cut_len: usize = match cut_at {
            Some(j) => j,
            None => m,
        };
        let cut: Vec<char> = if cut_len < m {
            proof {
                assert(has_sentence_end(line@));
                lemma_first_sentence_end(line@);
                assert(first_sentence_end(line@) == cut_len) by {
                    if first_sentence_end(line@) < cut_len {
                        assert(is_sentence_end(line@[first_sentence_end(line@) as int]));
                    }
                }
            }
            let mut c2: Vec<char> = Vec::new();
            let mut k: usize = 0;
            while k <= cut_len
                invariant
                    cut_len < m,
                    m == line@.len(),
                    k <= cut_len + 1,
                    c2@ == line@.subrange(0, k as int),
                decreases cut_len + 1 - k,
            {
                c2.push(line[k]);
                k = k + 1;
                proof {
                    assert(c2@ =~= line@.subrange(0, k as int));
                }
            }
            c2
        } else {
            proof {
                if has_sentence_end(line@) {
                    let k = choose|k: int| 0 <= k < line@.len() && is_sentence_end(line@[k]);
                    assert(!is_sentence_end(line@[k]));
                }
            }
            line
        };
        // Shorten when over 100 characters.
        let shortened: Vec<char> = if cut.len() > 100 {
            let mut c3: Vec<char> = Vec::new();
            let mut k: usize = 0;
            while k < 97
                invariant
                    cut@.len() > 100,
                    k <= 97,
                    c3@ == cut@.subrange(0, k as int),
                decreases 97 - k,
            {
                c3.push(cut[k]);
                k = k + 1;
                proof {
                    assert(c3@ =~= cut@.subrange(0, k as int));
                }
            }
            c3.push('.');
            c3.push('.');
            c3.push('.');
            proof {
                assert(c3@ =~= cut@.subrange(0, 97) + seq!['.', '.', '.']);
            }
            c3
        } else {
            cut
        };
        if shortened.len() == 0 {
            None
        } else {
            Some(string_from_chars(&shortened))
        }
    }
}

/// Whether the plain projection of `rt` fits a platform's body limit.
pub open spec fn rich_text_fits(rt: RichText, l: PlatformLimits) -> bool {
    match l.max_body_length {
        Some(max) => spec_plain_text(rt).len() <= max,
        None => true,
    }
}

// ---------------------------------------------------------------------------
// Media
// ---------------------------------------------------------------------------

/// Where an image sits in the notification layout.
#[derive(Debug, Clone, Copy, PartialEq, Eq, Structural)]
pub enum ImagePlacement {
    AppIcon,
    Icon,
    Hero,
    Inline,
    Background,
}

/// Image encodings the library knows.
#[derive(Debug, Clone, Copy, PartialEq, Eq, Structural)]
pub enum ImageFormat {
    Png,
    Jpeg,
    Gif,
    WebP,
    Svg,
    Ico,
}

impl ImageFormat {
    /// The formats accepted for embedded image data.
    pub open spec fn spec_supported(self) -> bool {
        self is Png || self is Jpeg || self is Gif || self is WebP
    }

    /// Whether embedded data in this format is accepted.
    pub fn is_supported(&self) -> (r: bool)
        ensures
            r == self.spec_supported(),
    {
        match self {
            ImageFormat::Png => true,
            ImageFormat::Jpeg => true,
            ImageFormat::Gif => true,
            ImageFormat::WebP => true,
            ImageFormat::Svg => false,
            ImageFormat::Ico => false,
        }
    }

    /// The MIME type of the format.
    pub fn mime_type(&self) -> (r: &'static str)
        ensures
            self is Png ==> r@ == "image/png"@,
            self is Jpeg ==> r@ == "image/jpeg"@,
            self is Gif ==> r@ == "image/gif"@,
            self is WebP ==> r@ == "image/webp"@,
            self is Svg ==> r@ == "image/svg+xml"@,
            self is Ico ==> r@ == "image/x-icon"@,
    {
        match self {
            ImageFormat::Png => "image/png",
            ImageFormat::Jpeg => "image/jpeg",
            ImageFormat::Gif => "image/gif",
            ImageFormat::WebP => "image/webp",
            ImageFormat::Svg => "image/svg+xml",
            ImageFormat::Ico => "image/x-icon",
        }
    }
}

/// Where image bytes come from.  Paths and URLs are carried as text; the
/// surrounding application resolves them against the filesystem or network.
#[derive(Debug, Clone, PartialEq, Eq)]
pub enum ImageData {
    /// A local file path.
    File(String),
    /// A URL (`file`, `http` or `https` are meaningful to the cache).
    Url(String),
    /// Embedded bytes in a known format.
    Embedded { data: Vec<u8>, format: ImageFormat },
    /// A named system icon, resolved per platform.
    SystemIcon(String),
}

/// The static validity of an image source: embedded data must be non-empty
/// and in a supported format.  Whether a path or URL resolves is only known
/// when the cache touches it.
pub open spec fn image_data_ok(d: ImageData) -> bool {
    match d {
        ImageData::Embedded { data, format } => data@.len() > 0 && format.spec_supported(),
        _ => true,
    }
}

/// The byte-size estimate of an image source, without touching the
/// filesystem: embedded data counts exactly, a URL as a nominal 1024, a
/// file path as 0 (unknown), a system icon as 64.
pub open spec fn image_size_estimate(d: ImageData) -> int {
    match d {
        ImageData::File(_) => 0,
        ImageData::Url(_) => 1024,
        ImageData::Embedded { data, .. } => data@.len() as int,
        ImageData::SystemIcon(_) => 64,
    }
}

impl ImageData {
    /// Check the static validity of the source.
    pub fn validate(&self, _platform_limits: &PlatformLimits) -> (r: NotificationResult<()>)
        ensures
            r is Ok <==> image_data_ok(*self),
    {
        match self {
            ImageData::Embedded { data, format } => {
                if data.len() == 0 {
                    Err(
                        NotificationError::ValidationError {
                            field: "image_data".to_owned(),
                            message: "Embedded image data cannot be empty".to_owned(),
                        },
                    )
                } else if !format.is_supported() {
                    Err(
                        NotificationError::ValidationError {
                            field: "image_format".to_owned(),
                            message: "Unsupported image format".to_owned(),
                        },
                    )
                } else {
                    Ok(())
                }
            },
            _ => Ok(()),
        }
    }

    /// The byte-size estimate of the source.
    pub fn estimated_size(&self) -> (r: usize)
        ensures
            r == image_size_estimate(*self),
    {
        match self {
            ImageData::File(_) => 0,
            ImageData::Url(_) => 1024,
            ImageData::Embedded { data, .. } => data.len(),
            ImageData::SystemIcon(_) => 64,
        }
    }

    /// The URL form of the source, when it has one.
    pub fn as_url(&self) -> (r: Option<String>)
        ensures
            match *self {
                ImageData::Url(_) => r is Some,
                ImageData::File(_) => r is Some,
                _ => r is None,
            },
    {
        match self {
            ImageData::Url(url) => Some(url.clone()),
            ImageData::File(path) => {
                let mut out: String = String::new();
                crate::text::append_str(&mut out, "file://");
                crate::text::append_str(&mut out, path.as_str());
                Some(out)
            },
            _ => None,
        }
    }
}

/// Cross-platform system sounds.
#[derive(Debug, Clone, Copy, PartialEq, Eq, Structural)]
pub enum SystemSound {
    Default,
    Alert,
    Critical,
    Information,
    Question,
    Warning,
    Error,
    Success,
}

/// Where notification audio comes from.
#[derive(Debug, Clone, PartialEq, Eq)]
pub enum AudioSource {
    System(SystemSound),
    File(String),
    Url(String),
    Default,
    Silent,
}

impl AudioSource {
    /// Audio sources carry no statically checkable content; whether a file
    /// or URL resolves is checked when it is played.
    pub fn validate(&self) -> (r: NotificationResult<()>)
        ensures
            r is Ok,
    {
        Ok(())
    }
}

/// Video encodings.
#[derive(Debug, Clone, Copy, PartialEq, Eq, Structural)]
pub enum VideoFormat {
    Mp4,
    WebM,
    Mov,
    Avi,
}

/// Where video bytes come from.
#[derive(Debug, Clone, PartialEq, Eq)]
pub enum VideoSource {
    File(String),
    Url(String),
    Embedded { data: Vec<u8>, mime_type: String },
}

/// The static validity of a video source: embedded data must be non-empty.
pub open spec fn video_source_ok(s: VideoSource) -> bool {
    match s {
        VideoSource::Embedded { data, .. } => data@.len() > 0,
        _ => true,
    }
}

impl VideoSource {
    /// Check the static validity of the source.
    pub fn validate(&self) -> (r: NotificationResult<()>)
        ensures
            r is Ok <==> video_source_ok(*self),
    {
        match self {
            VideoSource::Embedded { data, .. } => {
                if data.len() == 0 {
                    Err(
                        NotificationError::ValidationError {
                            field: "video_data".to_owned(),
                            message: "Embedded video data cannot be empty".to_owned(),
                        },
                    )
                } else {
                    Ok(())
                }
            },
            _ => Ok(()),
        }
    }
}

/// A video attachment.
#[derive(Debug, Clone, PartialEq, Eq)]
pub struct VideoData {
    pub source: VideoSource,
    pub format: VideoFormat,
    pub loop_video: bool,
}

impl VideoData {
    /// Check the static validity of the video.
    pub fn validate(&self) -> (r: NotificationResult<()>)
        ensures
            r is Ok <==> video_source_ok(self.source),
    {
        self.source.validate()
    }

    /// The byte-size estimate of the video.
    pub fn estimated_size(&self) -> (r: usize)
        ensures
            r == video_size_estimate(*self),
    {
        match &self.source {
            VideoSource::File(_) => 0,
            VideoSource::Embedded { data, .. } => data.len(),
            VideoSource::Url(_) => 10240,
        }
    }
}

/// The byte-size estimate of a video, without touching the filesystem.
pub open spec fn video_size_estimate(v: VideoData) -> int {
    match v.source {
        VideoSource::File(_) => 0,
        VideoSource::Embedded { data, .. } => data@.len() as int,
        VideoSource::Url(_) => 10240,
    }
}

/// A media attachment.  Durations are in milliseconds; audio volume is a
/// percentage.
#[derive(Debug, Clone, PartialEq, Eq)]
pub enum MediaAttachment {
    Image {
        data: ImageData,
        placement: ImagePlacement,
        alt_text: Option<String>,
        dimensions: Option<(u32, u32)>,
    },
    Audio {
        source: AudioSource,
        volume_percent: u32,
        loop_audio: bool,
        duration_millis: Option<u64>,
    },
    Video {
        data: VideoData,
        thumbnail: Option<ImageData>,
        duration_millis: Option<u64>,
        auto_play: bool,
    },
    File { path: String, filename: Option<String>, mime_type: Option<String>, size_bytes: Option<u64> },
}

/// The static validity of an attachment under the given limits: images must
/// carry valid data within the image-size limit; embedded video must be
/// non-empty; a file with a known size must fit the file-size limit.
pub open spec fn media_ok(m: MediaAttachment, l: PlatformLimits) -> bool {
    match m {
        MediaAttachment::Image { data, .. } => image_data_ok(data) && (match l.max_image_size {
            Some(max) => image_size_estimate(data) <= max,
            None => true,
        }),
        MediaAttachment::Audio { .. } => true,
        MediaAttachment::Video { data, .. } => video_source_ok(data.source),
        MediaAttachment::File { size_bytes, .. } => match (l.max_file_size, size_bytes) {
            (Some(max), Some(size)) => size <= max,
            _ => true,
        },
    }
}

impl MediaAttachment {
    /// Check the static validity of the attachment under the given limits.
    pub fn validate(&self, platform_limits: &PlatformLimits) -> (r: NotificationResult<()>)
        ensures
            r is Ok <==> media_ok(*self, *platform_limits),
    {
        match self {
            MediaAttachment::Image { data, .. } => {
                match data.validate(platform_limits) {
                    Ok(()) => {},
                    Err(e) => {
                        return Err(e);
                    },
                }
                match platform_limits.max_image_size {
                    Some(max_image_size) => {
                        if data.estimated_size() > max_image_size {
                            Err(
                                NotificationError::ValidationError {
                                    field: "image_size".to_owned(),
                                    message: "Image exceeds maximum size".to_owned(),
                                },
                            )
                        } else {
                            Ok(())
                        }
                    },
                    None => Ok(()),
                }
            },
            MediaAttachment::Audio { source, .. } => source.validate(),
            MediaAttachment::Video { data, .. } => data.validate(),
            MediaAttachment::File { size_bytes, .. } => {
                match (platform_limits.max_file_size, size_bytes) {
                    (Some(max_file_size), Some(size)) => {
                        if *size > max_file_size as u64 {
                            Err(
                                NotificationError::ValidationError {
                                    field: "file_size".to_owned(),
                                    message: "File exceeds maximum size".to_owned(),
                                },
                            )
                        } else {
                            Ok(())
                        }
                    },
                    _ => Ok(()),
                }
            },
        }
    }

    /// The byte-size estimate of the attachment.
    pub fn estimated_size(&self) -> (r: usize)
        ensures
            r == media_size_estimate(*self),
    {
        match self {
            MediaAttachment::Image { data, .. } => data.estimated_size(),
            MediaAttachment::Audio { .. } => 1024,
            MediaAttachment::Video { data, .. } => data.estimated_size(),
            MediaAttachment::File { size_bytes, .. } => {
                match size_bytes {
                    Some(size) => {
                        if *size > usize::MAX as u64 {
                            usize::MAX
                        } else {
                            *size as usize
                        }
                    },
                    None => 0,
                }
            },
        }
    }
}

/// The byte-size estimate of an attachment.
pub open spec fn media_size_estimate(m: MediaAttachment) -> int {
    match m {
        MediaAttachment::Image { data, .. } => image_size_estimate(data),
        MediaAttachment::Audio { .. } => 1024,
        MediaAttachment::Video { data, .. } => video_size_estimate(data),
        MediaAttachment::File { size_bytes, .. } => match size_bytes {
            Some(size) => if size > usize::MAX {
                usize::MAX as int
            } else {
                size as int
            },
            None => 0,
        },
    }
}

// ---------------------------------------------------------------------------
// Interactions
// ---------------------------------------------------------------------------

/// Unique action identifier.
#[derive(Debug, Clone, PartialEq, Eq, Hash)]
pub struct ActionId {
    pub text: String,
}

impl ActionId {
    /// Wrap an identifier string.
    pub fn new(id: &str) -> (r: ActionId)
        ensures
            r.text@ == id@,
    {
        ActionId { text: id.to_owned() }
    }

    /// The identifier's text.
    pub fn as_str(&self) -> (r: &str)
        ensures
            r@ == self.text@,
    {
        self.text.as_str()
    }
}

/// Unique input identifier.
#[derive(Debug, Clone, PartialEq, Eq, Hash)]
pub struct InputId {
    pub text: String,
}

impl InputId {
    /// Wrap an identifier string.
    pub fn new(id: &str) -> (r: InputId)
        ensures
            r.text@ == id@,
    {
        InputId { text: id.to_owned() }
    }

    /// The identifier's text.
    pub fn as_str(&self) -> (r: &str)
        ensures
            r@ == self.text@,
    {
        self.text.as_str()
    }
}

/// Visual style of an action button.
#[derive(Debug, Clone, Copy, PartialEq, Eq, Structural)]
pub enum ActionStyle {
    Default,
    Primary,
    Secondary,
    Destructive,
    Success,
    Warning,
}

/// What activating an action does.
#[derive(Debug, Clone, Copy, PartialEq, Eq, Structural)]
pub enum ActivationType {
    /// Bring the app to the foreground.
    Foreground,
    /// Handle in the background without UI.
    Background,
    /// Launch an external URL or app.
    Protocol,
}

/// An icon attached to an action.
#[derive(Debug, Clone, PartialEq, Eq, Hash)]
pub enum ActionIcon {
    System(String),
    File(String),
    Url(String),
    Embedded(Vec<u8>),
}

/// Payload data carried by an action.
#[derive(Debug, Clone, PartialEq, Eq)]
pub struct ActionPayload {
    pub data: Vec<(String, String)>,
    pub callback_url: Option<String>,
}

/// A confirmation dialog shown before an action runs.
#[derive(Debug, Clone, PartialEq, Eq)]
pub struct ActionConfirmation {
    pub title: String,
    pub message: String,
    pub confirm_label: String,
    pub cancel_label: String,
}

/// An action button on a notification.
#[derive(Debug, Clone, PartialEq, Eq)]
pub struct NotificationAction {
    pub id: ActionId,
    pub label: String,
    pub icon: Option<ActionIcon>,
    pub style: ActionStyle,
    pub activation_type: ActivationType,
    pub url: Option<String>,
    pub payload: Option<ActionPayload>,
    pub confirmation: Option<ActionConfirmation>,
}

/// An action is valid when its label is non-empty and at most 64 characters.
pub open spec fn action_ok(a: NotificationAction) -> bool {
    0 < a.label@.len() <= 64
}

impl NotificationAction {
    /// Reject an empty or over-long label.
    pub fn validate(&self) -> (r: NotificationResult<()>)
        ensures
            r is Ok <==> action_ok(*self),
    {
        if self.label.as_str().unicode_len() == 0 {
            Err(
                NotificationError::ValidationError {
                    field: "label".to_owned(),
                    message: "Action label cannot be empty".to_owned(),
                },
            )
        } else if self.label.as_str().unicode_len() > 64 {
            Err(
                NotificationError::ValidationError {
                    field: "label".to_owned(),
                    message: "Action label too long (max 64 characters)".to_owned(),
                },
            )
        } else {
            Ok(())
        }
    }
}

/// A calendar date (year, month, day), for date inputs.
#[derive(Debug, Clone, Copy, PartialEq, Eq, Structural)]
pub struct Date {
    pub year: i32,
    pub month: u8,
    pub day: u8,
}

/// Validation rules for a text input.
#[derive(Debug, Clone, PartialEq, Eq)]
pub struct InputValidation {
    pub required: bool,
    pub pattern: Option<String>,
    pub min_length: Option<usize>,
    pub max_length: Option<usize>,
    pub error_message: Option<String>,
}

/// The outcome `regex::Regex` gives for `pattern` on `text`: `None` when the
/// pattern does not compile, else whether it matches.
pub uninterp spec fn regex_match_of(pattern: Seq<char>, text: Seq<char>) -> Option<bool>;

/// Relies on `regex::Regex::new` and `regex::Regex::is_match`: whether the
/// pattern compiles, and whether it matches `text`.
#[verifier::external_body]
fn regex_is_match(pattern: &str, text: &str) -> (r: Option<bool>)
    ensures
        r == regex_match_of(pattern@, text@),
{
    match regex::Regex::new(pattern) {
        Ok(re) => Some(re.is_match(text)),
        Err(_) => None,
    }
}

/// Whether `value` passes `v`: present when required, within the length
/// bounds, and matching the pattern whenever the pattern compiles.
pub open spec fn input_value_ok(v: InputValidation, value: Seq<char>) -> bool {
    &&& (v.required ==> trimmed(value).len() > 0)
    &&& (match v.min_length {
        Some(min) => value.len() >= min,
        None => true,
    })
    &&& (match v.max_length {
        Some(max) => value.len() <= max,
        None => true,
    })
    &&& (match v.pattern {
        Some(p) => regex_match_of(p@, value) != Some(false),
        None => true,
    })
}

impl InputValidation {
    /// Check a user-supplied value against these rules.  The error is the
    /// configured message, or a default description of the failed rule.
    pub fn validate(&self, value: &str) -> (r: Result<(), String>)
        ensures
            r is Ok <==> input_value_ok(*self, value@),
    {
        if self.required {
            let cs: Vec<char> = chars_of(value);
            let t: Vec<char> = crate::text::trim_chars(&cs);
            if t.len() == 0 {
                let msg: String = match &self.error_message {
                    Some(m) => m.clone(),
                    None => "This field is required".to_owned(),
                };
                return Err(msg);
            }
        }
        match self.min_length {
            Some(min_len) => {
                if value.unicode_len() < min_len {
                    return Err("Below minimum length".to_owned());
                }
            },
            None => {},
        }
        match self.max_length {
            Some(max_len) => {
                if value.unicode_len() > max_len {
                    return Err("Above maximum length".to_owned());
                }
            },
            None => {},
        }
        match &self.pattern {
            Some(pattern) => {
                match regex_is_match(pattern.as_str(), value) {
                    Some(false) => {
                        let msg: String = match &self.error_message {
                            Some(m) => m.clone(),
                            None => "Invalid format".to_owned(),
                        };
                        Err(msg)
                    },
                    _ => Ok(()),
                }
            },
            None => Ok(()),
        }
    }
}

/// One option of a selection input.
#[derive(Debug, Clone, PartialEq, Eq)]
pub struct SelectionOption {
    pub value: String,
    pub label: String,
    pub description: Option<String>,
    pub icon: Option<String>,
}

/// A user input element on a notification.  Numeric bounds are carried in
/// thousandths to stay exact.
#[derive(Debug, Clone, PartialEq, Eq)]
pub enum NotificationInput {
    Text {
        id: InputId,
        label: String,
        placeholder: String,
        validation: Option<InputValidation>,
        max_length: Option<usize>,
        multiline: bool,
    },
    Selection {
        id: InputId,
        label: String,
        options: Vec<SelectionOption>,
        multiple: bool,
        default_selection: Option<String>,
    },
    Number {
        id: InputId,
        label: String,
        min_milli: Option<i64>,
        max_milli: Option<i64>,
        step_milli: Option<i64>,
        default_milli: Option<i64>,
    },
    Date { id: InputId, label: String, min_date: Option<Date>, max_date: Option<Date> },
}

/// An input is valid when its label is non-empty, a text input's maximum
/// length is not zero, and a selection offers at least one option.
pub open spec fn input_ok(i: NotificationInput) -> bool {
    match i {
        NotificationInput::Text { label, max_length, .. } => label@.len() > 0 && max_length
            != Some(0usize),
        NotificationInput::Selection { label, options, .. } => label@.len() > 0
            && options@.len() > 0,
        _ => true,
    }
}

impl NotificationInput {
    /// Check the static validity of the input element.
    pub fn validate(&self) -> (r: NotificationResult<()>)
        ensures
            r is Ok <==> input_ok(*self),
    {
        match self {
            NotificationInput::Text { label, max_length, .. } => {
                if label.as_str().unicode_len() == 0 {
                    return Err(
                        NotificationError::ValidationError {
                            field: "label".to_owned(),
                            message: "Input label cannot be empty".to_owned(),
                        },
                    );
                }
                match max_length {
                    Some(max_len) => {
                        if *max_len == 0 {
                            Err(
                                NotificationError::ValidationError {
                                    field: "max_length".to_owned(),
                                    message: "Max length must be greater than 0".to_owned(),
                                },
                            )
                        } else {
                            Ok(())
                        }
                    },
                    None => Ok(()),
                }
            },
            NotificationInput::Selection { label, options, .. } => {
                if label.as_str().unicode_len() == 0 {
                    Err(
                        NotificationError::ValidationError {
                            field: "label".to_owned(),
                            message: "Input label cannot be empty".to_owned(),
                        },
                    )
                } else if options.len() == 0 {
                    Err(
                        NotificationError::ValidationError {
                            field: "options".to_owned(),
                            message: "Selection input must have at least one option".to_owned(),
                        },
                    )
                } else {
                    Ok(())
                }
            },
            _ => Ok(()),
        }
    }

    /// The input's identifier.
    pub fn id(&self) -> (r: &InputId)
        ensures
            r == self.spec_id(),
    {
        match self {
            NotificationInput::Text { id, .. } => id,
            NotificationInput::Selection { id, .. } => id,
            NotificationInput::Number { id, .. } => id,
            NotificationInput::Date { id, .. } => id,
        }
    }

    /// The input's identifier, in specifications.
    pub open spec fn spec_id(self) -> InputId {
        match self {
            NotificationInput::Text { id, .. } => id,
            NotificationInput::Selection { id, .. } => id,
            NotificationInput::Number { id, .. } => id,
            NotificationInput::Date { id, .. } => id,
        }
    }
}

/// A quick reply option.
#[derive(Debug, Clone, PartialEq, Eq)]
pub struct QuickReply {
    pub id: ActionId,
    pub text: String,
    pub payload: Option<String>,
    pub icon: Option<String>,
}

/// A context-menu action.
#[derive(Debug, Clone, PartialEq, Eq)]
pub struct ContextMenuAction {
    pub id: ActionId,
    pub label: String,
    pub icon: Option<String>,
    pub separator_before: bool,
}

/// All interactive elements of a notification.
#[derive(Debug, Clone, PartialEq, Eq)]
pub struct InteractionSet {
    pub actions: Vec<NotificationAction>,
    pub inputs: Vec<NotificationInput>,
    pub quick_replies: Vec<QuickReply>,
    pub context_menu: Vec<ContextMenuAction>,
}

impl Default for InteractionSet {
    /// No interactive elements.
    fn default() -> (r: InteractionSet)
        ensures
            r.actions@.len() == 0,
            r.inputs@.len() == 0,
            r.quick_replies@.len() == 0,
            r.context_menu@.len() == 0,
    {
        InteractionSet {
            actions: Vec::new(),
            inputs: Vec::new(),
            quick_replies: Vec::new(),
            context_menu: Vec::new(),
        }
    }
}

/// An interaction set is valid under limits when the action count fits and
/// every action and input is itself valid.
pub open spec fn interactions_ok(s: InteractionSet, l: PlatformLimits) -> bool {
    &&& (match l.max_actions {
        Some(max) => s.actions@.len() <= max,
        None => true,
    })
    &&& (forall|k: int| 0 <= k < s.actions@.len() ==> action_ok(#[trigger] s.actions@[k]))
    &&& (forall|k: int| 0 <= k < s.inputs@.len() ==> input_ok(#[trigger] s.inputs@[k]))
}

impl InteractionSet {
    /// Check the action count against the platform limit and every action
    /// and input for validity.
    pub fn validate(&self, platform_limits: &PlatformLimits) -> (r: NotificationResult<()>)
        ensures
            r is Ok <==> interactions_ok(*self, *platform_limits),
    {
        match platform_limits.max_actions {
            Some(max_actions) => {
                if self.actions.len() > max_actions {
                    return Err(
                        NotificationError::ValidationError {
                            field: "actions".to_owned(),
                            message: "Too many actions".to_owned(),
                        },
                    );
                }
            },
            None => {},
        }
        let n: usize = self.actions.len();
        let mut i: usize = 0;
        while i < n
            invariant
                n == self.actions@.len(),
                i <= n,
                forall|k: int| 0 <= k < i ==> action_ok(#[trigger] self.actions@[k]),
            decreases n - i,
        {
            match self.actions[i].validate() {
                Ok(()) => {},
                Err(e) => {
                    return Err(e);
                },
            }
            i = i + 1;
        }
        let m: usize = self.inputs.len();
        let mut j: usize = 0;
        while j < m
            invariant
                m == self.inputs@.len(),
                j <= m,
                forall|k: int| 0 <= k < j ==> input_ok(#[trigger] self.inputs@[k]),
            decreases m - j,
        {
            match self.inputs[j].validate() {
                Ok(()) => {},
                Err(e) => {
                    return Err(e);
                },
            }
            j = j + 1;
        }
        Ok(())
    }

    /// Find an action by identifier.
    pub fn find_action(&self, action_id: &ActionId) -> (r: Option<&NotificationAction>)
        ensures
            match r {
                Some(a) => exists|k: int|
                    0 <= k < self.actions@.len() && self.actions@[k] == *a && a.id.text@
                        == action_id.text@,
                None => forall|k: int|
                    0 <= k < self.actions@.len() ==> (#[trigger] self.actions@[k]).id.text@
                        != action_id.text@,
            },
    {
        let n: usize = self.actions.len();
        let mut i: usize = 0;
        while i < n
            invariant
                n == self.actions@.len(),
                i <= n,
                forall|k: int|
                    0 <= k < i ==> (#[trigger] self.actions@[k]).id.text@ != action_id.text@,
            decreases n - i,
        {
            if str_eq(self.actions[i].id.as_str(), action_id.as_str()) {
                return Some(&self.actions[i]);
            }
            i = i + 1;
        }
        None
    }

    /// Find an input by identifier.
    pub fn find_input(&self, input_id: &InputId) -> (r: Option<&NotificationInput>)
        ensures
            match r {
                Some(inp) => exists|k: int|
                    0 <= k < self.inputs@.len() && self.inputs@[k] == *inp
                        && inp.spec_id().text@ == input_id.text@,
                None => forall|k: int|
                    0 <= k < self.inputs@.len() ==> (#[trigger] self.inputs@[k]).spec_id().text@
                        != input_id.text@,
            },
    {
        let n: usize = self.inputs.len();
        let mut i: usize = 0;
        while i < n
            invariant
                n == self.inputs@.len(),
                i <= n,
                forall|k: int|
                    0 <= k < i ==> (#[trigger] self.inputs@[k]).spec_id().text@ != input_id.text@,
            decreases n - i,
        {
            if str_eq(self.inputs[i].id().as_str(), input_id.as_str()) {
                return Some(&self.inputs[i]);
            }
            i = i + 1;
        }
        None
    }
}

/// One interactive element, for the fluent content builder.
#[derive(Debug, Clone)]
pub enum NotificationInteraction {
    Action(Box<NotificationAction>),
    Input(NotificationInput),
    QuickReply(QuickReply),
}

// ---------------------------------------------------------------------------
// Supporting metadata
// ---------------------------------------------------------------------------

/// Localization data.
#[derive(Debug, Clone, PartialEq, Eq)]
pub struct LocalizationData {
    pub locale: String,
    pub translations: Vec<(String, String)>,
    pub rtl: bool,
}

/// Accessibility metadata.
#[derive(Debug, Clone, PartialEq, Eq)]
pub struct AccessibilityMetadata {
    pub screen_reader_text: Option<String>,
    pub high_contrast_mode: bool,
    pub large_text_mode: bool,
    pub reduce_motion: bool,
}

impl Default for AccessibilityMetadata {
    /// No accessibility adjustments.
    fn default() -> (r: AccessibilityMetadata)
        ensures
            r.screen_reader_text is None,
            !r.high_contrast_mode,
            !r.large_text_mode,
            !r.reduce_motion,
    {
        AccessibilityMetadata {
            screen_reader_text: None,
            high_contrast_mode: false,
            large_text_mode: false,
            reduce_motion: false,
        }
    }
}

/// Whether content has passed validation.
#[derive(Debug, Clone, PartialEq, Eq)]
pub enum ValidationState {
    Pending,
    Valid,
    Invalid(String),
}

// ---------------------------------------------------------------------------
// The content record
// ---------------------------------------------------------------------------

/// The full content of a notification.
#[derive(Debug, Clone)]
pub struct NotificationContent {
    /// Primary title (required, non-empty for valid content).
    pub title: String,
    /// Optional subtitle.
    pub subtitle: Option<String>,
    /// Rich text body.
    pub body: RichText,
    /// Media attachments.
    pub media: Vec<MediaAttachment>,
    /// Interactive elements.
    pub interactions: InteractionSet,
    /// Category for templating and grouping.
    pub category: Option<crate::category::NotificationCategory>,
    /// Priority level.
    pub priority: Priority,
    /// Application-specific key/value data.
    pub custom_data: Vec<(String, String)>,
    /// Localization data.
    pub localization: Option<LocalizationData>,
    /// Accessibility metadata.
    pub accessibility: AccessibilityMetadata,
    /// Whether this content has passed validation.
    pub validation_state: ValidationState,
}

/// The checks `validate` makes, as one statement: non-empty title within the
/// title limit, body within the body limit, every attachment valid, and the
/// interaction set valid.
pub open spec fn content_checks(c: NotificationContent, l: PlatformLimits) -> bool {
    &&& c.title@.len() > 0
    &&& (match l.max_title_length {
        Some(max) => c.title@.len() <= max,
        None => true,
    })
    &&& rich_text_fits(c.body, l)
    &&& (forall|k: int| 0 <= k < c.media@.len() ==> media_ok(#[trigger] c.media@[k], l))
    &&& interactions_ok(c.interactions, l)
}

impl NotificationContent {
    /// Content with a title and body and everything else empty or default.
    pub fn new(title: &str, body: RichText) -> (r: NotificationContent)
        ensures
            r.title@ == title@,
            r.body == body,
            r.subtitle is None,
            r.media@.len() == 0,
            r.interactions.actions@.len() == 0,
            r.interactions.inputs@.len() == 0,
            r.category is None,
            r.priority is Normal,
            r.custom_data@.len() == 0,
            r.validation_state is Pending,
    {
        NotificationContent {
            title: title.to_owned(),
            subtitle: None,
            body,
            media: Vec::new(),
            interactions: InteractionSet::default(),
            category: None,
            priority: Priority::default(),
            custom_data: Vec::new(),
            localization: None,
            accessibility: AccessibilityMetadata::default(),
            validation_state: ValidationState::Pending,
        }
    }

    /// The same content with a subtitle.
    pub fn with_subtitle(self, subtitle: &str) -> (r: NotificationContent)
        ensures
            r.subtitle matches Some(s) && s@ == subtitle@,
            r.title == self.title,
            r.body == self.body,
            r.priority == self.priority,
            r.custom_data == self.custom_data,
    {
        NotificationContent { subtitle: Some(subtitle.to_owned()), ..self }
    }

    /// The same content with a different priority.
    pub fn with_priority(self, priority: Priority) -> (r: NotificationContent)
        ensures
            r.priority == priority,
            r.title == self.title,
            r.body == self.body,
            r.subtitle == self.subtitle,
            r.custom_data == self.custom_data,
    {
        NotificationContent { priority, ..self }
    }

    /// The same content with a category.
    pub fn with_category(self, category: crate::category::NotificationCategory) -> (r:
        NotificationContent)
        ensures
            r.category == Some(category),
            r.title == self.title,
    {
        NotificationContent { category: Some(category), ..self }
    }

    /// The same content with one more media attachment.
    pub fn with_media(self, media: MediaAttachment) -> (r: NotificationContent)
        ensures
            r.media@.len() == self.media@.len() + 1,
            r.media@.last() == media,
            r.media@.subrange(0, self.media@.len() as int) == self.media@,
            r.title == self.title,
    {
        let ghost orig = self.media@;
        let mut media_list: Vec<MediaAttachment> = self.media;
        media_list.push(media);
        proof {
            assert(media_list@.subrange(0, media_list@.len() - 1) =~= orig);
        }
        NotificationContent { media: media_list, ..self }
    }

    /// The same content with one more interactive element.
    pub fn with_interaction(self, interaction: NotificationInteraction) -> (r:
        NotificationContent)
        ensures
            r.title == self.title,
            r.body == self.body,
            match interaction {
                NotificationInteraction::Action(_) => r.interactions.actions@.len()
                    == self.interactions.actions@.len() + 1,
                NotificationInteraction::Input(_) => r.interactions.inputs@.len()
                    == self.interactions.inputs@.len() + 1,
                NotificationInteraction::QuickReply(_) => r.interactions.quick_replies@.len()
                    == self.interactions.quick_replies@.len() + 1,
            },
    {
        let mut interactions: InteractionSet = self.interactions;
        match interaction {
            NotificationInteraction::Action(action) => {
                interactions.actions.push(*action);
            },
            NotificationInteraction::Input(input) => {
                interactions.inputs.push(input);
            },
            NotificationInteraction::QuickReply(reply) => {
                interactions.quick_replies.push(reply);
            },
        }
        NotificationContent { interactions, ..self }
    }

    /// The same content with one more custom key/value pair appended.
    pub fn with_custom_data(self, key: &str, value: &str) -> (r: NotificationContent)
        ensures
            r.custom_data@.len() == self.custom_data@.len() + 1,
            r.custom_data@.last().0@ == key@,
            r.custom_data@.last().1@ == value@,
            r.custom_data@.subrange(0, self.custom_data@.len() as int) == self.custom_data@,
            r.title == self.title,
            r.body == self.body,
    {
        let ghost orig = self.custom_data@;
        let mut custom_data: Vec<(String, String)> = self.custom_data;
        custom_data.push((key.to_owned(), value.to_owned()));
        proof {
            assert(custom_data@.subrange(0, custom_data@.len() - 1) =~= orig);
        }
        NotificationContent { custom_data, ..self }
    }

    /// The first custom value under `key`.
    pub fn custom_value(&self, key: &str) -> (r: Option<&String>)
        ensures
            match r {
                Some(v) => spec_map_get(self.custom_data@, key@) == Some(v@),
                None => spec_map_get(self.custom_data@, key@) is None,
            },
    {
        map_get(&self.custom_data, key)
    }

    /// Check against the platform limits without changing anything: the
    /// result is `Ok` exactly when every rule of `content_checks` holds,
    /// and the error says which rule broke first.
    pub fn check(&self, platform_limits: &PlatformLimits) -> (r: NotificationResult<()>)
        ensures
            r is Ok <==> content_checks(*self, *platform_limits),
    {
        if self.title.as_str().unicode_len() == 0 {
            return Err(
                NotificationError::ValidationError {
                    field: "title".to_owned(),
                    message: "Title cannot be empty".to_owned(),
                },
            );
        }
        match platform_limits.max_title_length {
            Some(max_title_length) => {
                if self.title.as_str().unicode_len() > max_title_length {
                    return Err(
                        NotificationError::ValidationError {
                            field: "title".to_owned(),
                            message: "Title exceeds maximum length".to_owned(),
                        },
                    );
                }
            },
            None => {},
        }
        match self.body.validate(platform_limits) {
            Ok(()) => {},
            Err(e) => {
                return Err(e);
            },
        }
        let n: usize = self.media.len();
        let mut i: usize = 0;
        while i < n
            invariant
                n == self.media@.len(),
                i <= n,
                forall|k: int|
                    0 <= k < i ==> media_ok(#[trigger] self.media@[k], *platform_limits),
            decreases n - i,
        {
            match self.media[i].validate(platform_limits) {
                Ok(()) => {},
                Err(e) => {
                    return Err(e);
                },
            }
            i = i + 1;
        }
        match self.interactions.validate(platform_limits) {
            Ok(()) => {},
            Err(e) => {
                return Err(e);
            },
        }
        Ok(())
    }

    /// Validate against the platform limits and, on success, sanitize: an
    /// HTML body is cleaned, every custom data value has angle brackets and
    /// quotes removed, and the validation state becomes `Valid`.  On failure
    /// the content is unchanged and the error says which rule broke.
    pub fn validate(&mut self, platform_limits: &PlatformLimits) -> (r: NotificationResult<()>)
        ensures
            r is Ok <==> content_checks(*old(self), *platform_limits),
            r is Err ==> *final(self) == *old(self),
            r is Ok ==> {
                &&& final(self).title == old(self).title
                &&& final(self).subtitle == old(self).subtitle
                &&& final(self).priority == old(self).priority
                &&& final(self).media == old(self).media
                &&& final(self).interactions == old(self).interactions
                &&& final(self).validation_state is Valid
                &&& (match old(self).body {
                    RichText::Html(h) => final(self).body matches RichText::Html(h2) && h2@
                        == sanitized_of(h@),
                    _ => final(self).body == old(self).body,
                })
                &&& final(self).custom_data@.len() == old(self).custom_data@.len()
                &&& (forall|k: int|
                    0 <= k < old(self).custom_data@.len() ==> (
                    #[trigger] final(self).custom_data@[k]).0 == old(self).custom_data@[k].0
                        && final(self).custom_data@[k].1@ == sanitized_chars(
                        old(self).custom_data@[k].1@,
                    ))
            },
    {
        // Title checks.
        if self.title.as_str().unicode_len() == 0 {
            return Err(
                NotificationError::ValidationError {
                    field: "title".to_owned(),
                    message: "Title cannot be empty".to_owned(),
                },
            );
        }
        match platform_limits.max_title_length {
            Some(max_title_length) => {
                if self.title.as_str().unicode_len() > max_title_length {
                    return Err(
                        NotificationError::ValidationError {
                            field: "title".to_owned(),
                            message: "Title exceeds maximum length".to_owned(),
                        },
                    );
                }
            },
            None => {},
        }
        // Body length.
        match self.body.validate(platform_limits) {
            Ok(()) => {},
            Err(e) => {
                return Err(e);
            },
        }
        // Media.
        let n: usize = self.media.len();
        let mut i: usize = 0;
        while i < n
            invariant
                n == self.media@.len(),
                i <= n,
                forall|k: int|
                    0 <= k < i ==> media_ok(#[trigger] self.media@[k], *platform_limits),
            decreases n - i,
        {
            match self.media[i].validate(platform_limits) {
                Ok(()) => {},
                Err(e) => {
                    return Err(e);
                },
            }
            i = i + 1;
        }
        // Interactions.
        match self.interactions.validate(platform_limits) {
            Ok(()) => {},
            Err(e) => {
                return Err(e);
            },
        }
        // Sanitize.
        let cleaned_body: Option<RichText> = match &self.body {
            RichText::Html(h) => Some(RichText::Html(sanitize_html(h.as_str()))),
            _ => None,
        };
        match cleaned_body {
            Some(b) => {
                self.body = b;
            },
            None => {},
        }
        let m: usize = self.custom_data.len();
        let ghost data0 = self.custom_data@;
        let mut j: usize = 0;
        while j < m
            invariant
                m == self.custom_data@.len(),
                m == data0.len(),
                j <= m,
                self.title == old(self).title,
                self.subtitle == old(self).subtitle,
                self.priority == old(self).priority,
                self.media == old(self).media,
                self.interactions == old(self).interactions,
                self.validation_state == old(self).validation_state,
                data0 == old(self).custom_data@,
                match old(self).body {
                    RichText::Html(h) => self.body matches RichText::Html(h2) && h2@
                        == sanitized_of(h@),
                    _ => self.body == old(self).body,
                },
                forall|k: int|
                    j <= k < m ==> #[trigger] self.custom_data@[k] == data0[k],
                forall|k: int|
                    0 <= k < j ==> (#[trigger] self.custom_data@[k]).0 == data0[k].0
                        && self.custom_data@[k].1@ == sanitized_chars(data0[k].1@),
            decreases m - j,
        {
            let cleaned: String = sanitize_string(self.custom_data[j].1.as_str());
            let key_copy: String = self.custom_data[j].0.clone();
            self.custom_data.set(j, (key_copy, cleaned));
            j = j + 1;
        }
        self.validation_state = ValidationState::Valid;
        proof {
            assert(self.title == old(self).title);
            assert(self.subtitle == old(self).subtitle);
            assert(self.priority == old(self).priority);
            assert(self.media == old(self).media);
            assert(self.interactions == old(self).interactions);
            assert(self.validation_state is Valid);
            assert(match old(self).body {
                RichText::Html(h) => self.body matches RichText::Html(h2) && h2@
                    == sanitized_of(h@),
                _ => self.body == old(self).body,
            });
            assert(self.custom_data@.len() == old(self).custom_data@.len());
            assert(forall|k: int|
                0 <= k < old(self).custom_data@.len() ==> (#[trigger] self.custom_data@[k]).0
                    == old(self).custom_data@[k].0 && self.custom_data@[k].1@
                    == sanitized_chars(old(self).custom_data@[k].1@));
            assert(content_checks(*old(self), *platform_limits));
        }
        Ok(())
    }

    /// Whether any action activates in the background.
    pub fn supports_background_activation(&self) -> (r: bool)
        ensures
            r == exists|k: int|
                0 <= k < self.interactions.actions@.len() && (
                #[trigger] self.interactions.actions@[k]).activation_type is Background,
    {
        let n: usize = self.interactions.actions.len();
        let mut i: usize = 0;
        while i < n
            invariant
                n == self.interactions.actions@.len(),
                i <= n,
                forall|k: int|
                    0 <= k < i ==> !((#[trigger] self.interactions.actions@[k]).activation_type
                        is Background),
            decreases n - i,
        {
            match self.interactions.actions[i].activation_type {
                ActivationType::Background => {
                    return true;
                },
                _ => {},
            }
            i = i + 1;
        }
        false
    }

    /// The byte-budget estimate of the whole content: title, subtitle, body
    /// and attachments.
    pub fn estimated_size(&self) -> usize {
        let mut total: usize = self.title.as_str().unicode_len();
        match &self.subtitle {
            Some(s) => {
                total = total.saturating_add(s.as_str().unicode_len());
            },
            None => {},
        }
        total = total.saturating_add(self.body.estimated_size());
        let n: usize = self.media.len();
        let mut i: usize = 0;
        while i < n
            invariant
                n == self.media@.len(),
                i <= n,
            decreases n - i,
        {
            total = total.saturating_add(self.media[i].estimated_size());
            i = i + 1;
        }
        total
    }
}

impl Default for NotificationContent {
    /// Placeholder content with a default title and an empty plain body.
    fn default() -> NotificationContent {
        NotificationContent::new("Default Title", RichText::Plain(String::new()))
    }
}

/// The plain text projection of plain text is the text itself.
pub proof fn lemma_plain_projection(s: String)
    ensures
        spec_plain_text(RichText::Plain(s)) == s@,
{
}

} // verus!
