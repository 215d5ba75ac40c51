//! Document formats: their names, their kinds, and how a name or a path
//! resolves to one.

use vstd::prelude::*;
use crate::text::{
    chars_of, ends_with, fold, is_white_space, same_ignoring_case, spec_is_blank,
};

verus! {

/// A format that a document, or a part of one, can be held in.
#[derive(Clone, Copy, Debug, PartialEq, Eq, Structural, Hash)]
pub enum Format {
    // Document stores
    Article,
    // Markup formats
    Html,
    Jats,
    // Text formats
    Markdown,
    Text,
    // Data serialization formats
    Json,
    Json5,
    Yaml,
    Cbor,
    CborZst,
    // Image formats
    Gif,
    Jpeg,
    Png,
    Svg,
    WebP,
    // Audio formats
    Aac,
    Flac,
    Mp3,
    Ogg,
    Wav,
    // Video formats
    Avi,
    Mkv,
    Mp4,
    Ogv,
    WebM,
    // Development focussed formats
    Debug,
    // Unknown format
    Unknown,
}

impl Default for Format {
    fn default() -> (format: Format)
        ensures
            format == Format::Unknown,
    {
        Format::Unknown
    }
}

impl Format {
    /// The name of the format as shown to people.
    pub open spec fn spec_name(self) -> Seq<char> {
        match self {
            Format::Article => "Stencila Article"@,
            Format::Html => "HTML"@,
            Format::Jats => "JATS"@,
            Format::Markdown => "Markdown"@,
            Format::Text => "Plain text"@,
            Format::Json => "JSON"@,
            Format::Json5 => "JSON5"@,
            Format::Yaml => "YAML"@,
            Format::Cbor => "CBOR"@,
            Format::CborZst => "CBOR+Zstandard"@,
            Format::Gif => "GIF"@,
            Format::Jpeg => "JPEG"@,
            Format::Png => "PNG"@,
            Format::Svg => "SVG"@,
            Format::WebP => "WebP"@,
            Format::Aac => "AAC"@,
            Format::Flac => "FLAC"@,
            Format::Mp3 => "MPEG-3"@,
            Format::Ogg => "Ogg Vorbis"@,
            Format::Wav => "WAV"@,
            Format::Avi => "AVI"@,
            Format::Mkv => "Matroska"@,
            Format::Mp4 => "MPEG-4"@,
            Format::Ogv => "Ogg Vorbis Video"@,
            Format::WebM => "WebM"@,
            Format::Debug => "Debug"@,
            Format::Unknown => "Unknown"@,
        }
    }

    /// Get the name of a format to use when displayed
    pub fn name(&self) -> (name: &'static str)
        ensures
            name@ == self.spec_name(),
    {
        match self {
            Format::Article => "Stencila Article",
            Format::Html => "HTML",
            Format::Jats => "JATS",
            Format::Markdown => "Markdown",
            Format::Text => "Plain text",
            Format::Json => "JSON",
            Format::Json5 => "JSON5",
            Format::Yaml => "YAML",
            Format::Cbor => "CBOR",
            Format::CborZst => "CBOR+Zstandard",
            Format::Gif => "GIF",
            Format::Jpeg => "JPEG",
            Format::Png => "PNG",
            Format::Svg => "SVG",
            Format::WebP => "WebP",
            Format::Aac => "AAC",
            Format::Flac => "FLAC",
            Format::Mp3 => "MPEG-3",
            Format::Ogg => "Ogg Vorbis",
            Format::Wav => "WAV",
            Format::Avi => "AVI",
            Format::Mkv => "Matroska",
            Format::Mp4 => "MPEG-4",
            Format::Ogv => "Ogg Vorbis Video",
            Format::WebM => "WebM",
            Format::Debug => "Debug",
            Format::Unknown => "Unknown",
        }
    }

    /// The lower-case name that tags the format, and that files in the
    /// format have as their extension.
    pub open spec fn spec_tag(self) -> Seq<char> {
        match self {
            Format::Article => "article"@,
            Format::Html => "html"@,
            Format::Jats => "jats"@,
            Format::Markdown => "markdown"@,
            Format::Text => "text"@,
            Format::Json => "json"@,
            Format::Json5 => "json5"@,
            Format::Yaml => "yaml"@,
            Format::Cbor => "cbor"@,
            Format::CborZst => "cborzst"@,
            Format::Gif => "gif"@,
            Format::Jpeg => "jpeg"@,
            Format::Png => "png"@,
            Format::Svg => "svg"@,
            Format::WebP => "webp"@,
            Format::Aac => "aac"@,
            Format::Flac => "flac"@,
            Format::Mp3 => "mp3"@,
            Format::Ogg => "ogg"@,
            Format::Wav => "wav"@,
            Format::Avi => "avi"@,
            Format::Mkv => "mkv"@,
            Format::Mp4 => "mp4"@,
            Format::Ogv => "ogv"@,
            Format::WebM => "webm"@,
            Format::Debug => "debug"@,
            Format::Unknown => "unknown"@,
        }
    }

    /// The lower-case name that tags the format.
    pub fn tag(&self) -> (tag: &'static str)
        ensures
            tag@ == self.spec_tag(),
    {
        match self {
            Format::Article => "article",
            Format::Html => "html",
            Format::Jats => "jats",
            Format::Markdown => "markdown",
            Format::Text => "text",
            Format::Json => "json",
            Format::Json5 => "json5",
            Format::Yaml => "yaml",
            Format::Cbor => "cbor",
            Format::CborZst => "cborzst",
            Format::Gif => "gif",
            Format::Jpeg => "jpeg",
            Format::Png => "png",
            Format::Svg => "svg",
            Format::WebP => "webp",
            Format::Aac => "aac",
            Format::Flac => "flac",
            Format::Mp3 => "mp3",
            Format::Ogg => "ogg",
            Format::Wav => "wav",
            Format::Avi => "avi",
            Format::Mkv => "mkv",
            Format::Mp4 => "mp4",
            Format::Ogv => "ogv",
            Format::WebM => "webm",
            Format::Debug => "debug",
            Format::Unknown => "unknown",
        }
    }

    /// The rank of the preference for the format: lower is preferred.
    pub open spec fn spec_rank(self) -> u8 {
        match self {
            Format::Json | Format::Json5 | Format::Yaml => 0,
            Format::Html | Format::Jats | Format::Markdown => 1,
            _ => u8::MAX,
        }
    }

    /// Get the rank of the preference for the format
    ///
    /// A lower rank indicates a higher preference. Used when resolving a
    /// URL path to a file when there is more than one file that matches the path.
    pub fn rank(&self) -> (rank: u8)
        ensures
            rank == self.spec_rank(),
    {
        match self {
            Format::Json | Format::Json5 | Format::Yaml => 0,
            Format::Html | Format::Jats | Format::Markdown => 1,
            _ => u8::MAX,
        }
    }

    /// Is this a document store format?
    pub fn is_store(&self) -> (b: bool)
        ensures
            b == (*self is Article),
    {
        matches!(self, Format::Article)
    }

    /// Is this an image format?
    pub fn is_image(&self) -> (b: bool)
        ensures
            b == (*self is Gif || *self is Jpeg || *self is Png || *self is Svg || *self is WebP),
    {
        matches!(self, Format::Gif | Format::Jpeg | Format::Png | Format::Svg | Format::WebP)
    }

    /// Is this an audio format?
    pub fn is_audio(&self) -> (b: bool)
        ensures
            b == (*self is Aac || *self is Flac || *self is Mp3 || *self is Ogg || *self is Wav),
    {
        matches!(self, Format::Aac | Format::Flac | Format::Mp3 | Format::Ogg | Format::Wav)
    }

    /// Is this a video format?
    pub fn is_video(&self) -> (b: bool)
        ensures
            b == (*self is Avi || *self is Mkv || *self is Mp4 || *self is Ogv || *self is WebM),
    {
        matches!(self, Format::Avi | Format::Mkv | Format::Mp4 | Format::Ogv | Format::WebM)
    }

    /// Whether a document in this format holds everything a node holds.
    pub fn is_lossless(&self) -> (b: bool)
        ensures
            b == (*self is Json || *self is Json5 || *self is Yaml || *self is Cbor
                || *self is CborZst || *self is Article),
    {
        matches!(
            self,
            Format::Json | Format::Json5 | Format::Yaml | Format::Cbor | Format::CborZst
                | Format::Article
        )
    }

    /// Get the default file name extension for a format
    pub fn get_extension(&self) -> (extension: String)
        ensures
            extension@ == self.spec_tag(),
    {
        String::from_str(self.tag())
    }
}


/// No format has the name.
#[derive(Clone, Debug, PartialEq, Eq)]
pub struct FormatError {
    /// The name that no format has
    pub name: String,
}

impl FormatError {
    /// The error in words.
    pub fn message(&self) -> (message: String)
        ensures
            message@ == "No format matching name `"@ + self.name@ + "`"@,
    {
        let mut message = String::from_str("No format matching name `");
        message.append(self.name.as_str());
        message.append("`");
        message
    }
}

/// Whether the characters of `a` in `from..to` are those of `b`, but for
/// the case of the letters of ASCII.
fn range_matches(a: &Vec<char>, from: usize, to: usize, b: &Vec<char>) -> (same: bool)
    requires
        from <= to <= a.len(),
    ensures
        same == same_ignoring_case(a@.subrange(from as int, to as int), b@),
{
    if to - from != b.len() {
        return false;
    }
    let mut i: usize = 0;
    while i < b.len()
        invariant
            from <= to <= a.len(),
            to - from == b.len(),
            i <= b.len(),
            forall|k: int|
                0 <= k < i ==> fold(#[trigger] a@.subrange(from as int, to as int)[k]) == fold(
                    b@[k],
                ),
        decreases b.len() - i,
    {
        if fold(a[from + i]) != fold(b[i]) {
            assert(a@.subrange(from as int, to as int)[i as int] == a@[from + i]);
            return false;
        }
        assert(a@.subrange(from as int, to as int)[i as int] == a@[from + i]);
        i += 1;
    }
    true
}

/// The text, without the white space before and after it, is `word` but
/// for the case of the letters of ASCII.
pub open spec fn trimmed_is(text: Seq<char>, word: Seq<char>) -> bool {
    exists|from: int, to: int| #[trigger] trims_to(text, from, to) && same_ignoring_case(
        text.subrange(from, to),
        word,
    )
}

/// Taking the white space before and after `text` away leaves its
/// characters in `from..to`.
pub open spec fn trims_to(text: Seq<char>, from: int, to: int) -> bool {
    &&& 0 <= from <= to <= text.len()
    &&& spec_is_blank(text.take(from))
    &&& spec_is_blank(text.skip(to))
    &&& from < to ==> !is_white_space(text[from]) && !is_white_space(text[to - 1])
}

/// Where the white space before and after `text` ends and begins.
fn trim_bounds(text: &Vec<char>) -> (bounds: (usize, usize))
    ensures
        trims_to(text@, bounds.0 as int, bounds.1 as int),
        forall|from: int, to: int|
            from < to && #[trigger] trims_to(text@, from, to) ==> from == bounds.0 && to
                == bounds.1,
{
    let mut from: usize = 0;
    while from < text.len() && is_white_space(text[from])
        invariant
            from <= text.len(),
            forall|k: int| 0 <= k < from ==> is_white_space(#[trigger] text@[k]),
        decreases text.len() - from,
    {
        from += 1;
    }
    let mut to: usize = text.len();
    while to > from && is_white_space(text[to - 1])
        invariant
            from <= to <= text.len(),
            forall|k: int| to <= k < text.len() ==> is_white_space(#[trigger] text@[k]),
        decreases to,
    {
        to -= 1;
    }
    proof {
        assert forall|k: int| 0 <= k < text@.take(from as int).len() implies is_white_space(
            #[trigger] text@.take(from as int)[k],
        ) by {
            assert(text@.take(from as int)[k] == text@[k]);
        }
        assert forall|k: int| 0 <= k < text@.skip(to as int).len() implies is_white_space(
            #[trigger] text@.skip(to as int)[k],
        ) by {
            assert(text@.skip(to as int)[k] == text@[to + k]);
        }
        assert forall|a: int, b: int| a < b && #[trigger] trims_to(text@, a, b) implies a == from
            && b == to by {
            // the first and the last character that is not white space are fixed
            if a < from {
                assert(is_white_space(text@[a]));
            }
            if from < a {
                if from < to {
                    assert(text@.take(a)[from as int] == text@[from as int]);
                } else {
                    assert(is_white_space(text@[b - 1]));
                }
            }
            if b > to {
                assert(is_white_space(text@[b - 1]));
            }
            if b < to {
                assert(text@.skip(b)[to - 1 - b] == text@[to - 1]);
            }
        }
    }
    (from, to)
}

/// The place of a format in the order of their declaration.
pub open spec fn ordinal(format: Format) -> int {
    match format {
        Format::Article => 0,
        Format::Html => 1,
        Format::Jats => 2,
        Format::Markdown => 3,
        Format::Text => 4,
        Format::Json => 5,
        Format::Json5 => 6,
        Format::Yaml => 7,
        Format::Cbor => 8,
        Format::CborZst => 9,
        Format::Gif => 10,
        Format::Jpeg => 11,
        Format::Png => 12,
        Format::Svg => 13,
        Format::WebP => 14,
        Format::Aac => 15,
        Format::Flac => 16,
        Format::Mp3 => 17,
        Format::Ogg => 18,
        Format::Wav => 19,
        Format::Avi => 20,
        Format::Mkv => 21,
        Format::Mp4 => 22,
        Format::Ogv => 23,
        Format::WebM => 24,
        Format::Debug => 25,
        Format::Unknown => 26,
    }
}

/// The formats, in the order of their declaration.
pub fn all_formats() -> (formats: [Format; 27])
    ensures
        forall|format: Format|
            0 <= #[trigger] ordinal(format) < 27 && formats[ordinal(format)] == format,
{
    [
        Format::Article,
        Format::Html,
        Format::Jats,
        Format::Markdown,
        Format::Text,
        Format::Json,
        Format::Json5,
        Format::Yaml,
        Format::Cbor,
        Format::CborZst,
        Format::Gif,
        Format::Jpeg,
        Format::Png,
        Format::Svg,
        Format::WebP,
        Format::Aac,
        Format::Flac,
        Format::Mp3,
        Format::Ogg,
        Format::Wav,
        Format::Avi,
        Format::Mkv,
        Format::Mp4,
        Format::Ogv,
        Format::WebM,
        Format::Debug,
        Format::Unknown,
    ]
}

/// The format that a short name stands for: `sta`, `md`, `txt` or `yml`,
/// in any case and with white space around it.
pub open spec fn alias_of(name: Seq<char>) -> Option<Format> {
    if trimmed_is(name, "sta"@) {
        Some(Format::Article)
    } else if trimmed_is(name, "md"@) {
        Some(Format::Markdown)
    } else if trimmed_is(name, "txt"@) {
        Some(Format::Text)
    } else if trimmed_is(name, "yml"@) {
        Some(Format::Yaml)
    } else {
        None
    }
}

/// `format` is the first format, in the order of their declaration, whose
/// tag is `name` but for the case of the letters of ASCII.
pub open spec fn tagged(name: Seq<char>, format: Format, formats: Seq<Format>, i: int) -> bool {
    &&& 0 <= i < formats.len()
    &&& formats[i] == format
    &&& same_ignoring_case(name, format.spec_tag())
    &&& forall|k: int| 0 <= k < i ==> !same_ignoring_case(name, (#[trigger] formats[k]).spec_tag())
}

/// How a name resolves: `Some` format, or none.
///
/// A short name resolves to its format. Any other name resolves to the
/// format with that tag, whatever the case of its letters.
pub open spec fn resolves_to(name: Seq<char>, format: Option<Format>) -> bool {
    match alias_of(name) {
        Some(alias) => format == Some(alias),
        None => match format {
            Some(format) => same_ignoring_case(name, format.spec_tag()),
            None => forall|other: Format| !same_ignoring_case(name, #[trigger] other.spec_tag()),
        },
    }
}

impl Format {
    /// Whether the text, without the white space around it and in any
    /// case, is `word`.
    fn is_word(text: &Vec<char>, bounds: (usize, usize), word: &str) -> (b: bool)
        requires
            trims_to(text@, bounds.0 as int, bounds.1 as int),
            forall|from: int, to: int|
                from < to && #[trigger] trims_to(text@, from, to) ==> from == bounds.0 && to
                    == bounds.1,
            word@.len() > 0,
        ensures
            b == trimmed_is(text@, word@),
    {
        let word = chars_of(word);
        let b = range_matches(text, bounds.0, bounds.1, &word);
        proof {
            if trimmed_is(text@, word@) {
                let (from, to) = choose|from: int, to: int| #[trigger]
                    trims_to(text@, from, to) && same_ignoring_case(
                        text@.subrange(from, to),
                        word@,
                    );
                assert(text@.subrange(from, to).len() == word@.len());
                assert(from < to);
            }
        }
        b
    }

    /// Resolve a [`Format`] from a name for the format
    pub fn from_name(name: &str) -> (format: Result<Format, FormatError>)
        ensures
            match format {
                Ok(format) => resolves_to(name@, Some(format)),
                Err(error) => resolves_to(name@, None) && error.name@ == name@,
            },
    {
        proof {
            reveal_strlit("sta");
            reveal_strlit("md");
            reveal_strlit("txt");
            reveal_strlit("yml");
        }
        let text = chars_of(name);
        let bounds = trim_bounds(&text);
        if Format::is_word(&text, bounds, "sta") {
            return Ok(Format::Article);
        }
        if Format::is_word(&text, bounds, "md") {
            return Ok(Format::Markdown);
        }
        if Format::is_word(&text, bounds, "txt") {
            return Ok(Format::Text);
        }
        if Format::is_word(&text, bounds, "yml") {
            return Ok(Format::Yaml);
        }
        let formats = all_formats();
        let mut i: usize = 0;
        while i < 27
            invariant
                i <= 27,
                text@ == name@,
                alias_of(name@) is None,
                forall|format: Format|
                    0 <= #[trigger] ordinal(format) < 27 && formats[ordinal(format)] == format,
                forall|k: int|
                    0 <= k < i ==> !same_ignoring_case(name@, (#[trigger] formats[k]).spec_tag()),
            decreases 27 - i,
        {
            let tag = chars_of(formats[i].tag());
            if range_matches(&text, 0, text.len(), &tag) {
                assert(text@.subrange(0, text.len() as int) =~= text@);
                return Ok(formats[i]);
            }
            assert(text@.subrange(0, text.len() as int) =~= text@);
            i += 1;
        }
        proof {
            assert forall|other: Format| !same_ignoring_case(
                name@,
                #[trigger] other.spec_tag(),
            ) by {
                let k = ordinal(other);
                assert(!same_ignoring_case(name@, formats[k].spec_tag()));
            }
        }
        Err(FormatError { name: String::from_str(name) })
    }
}


/// The place of the last `c` in `text`, or -1 where there is none.
pub open spec fn last_index(text: Seq<char>, c: char) -> int
    decreases text.len(),
{
    if text.len() == 0 {
        -1
    } else if text.last() == c {
        text.len() - 1
    } else {
        last_index(text.drop_last(), c)
    }
}

/// The place of the last `c` in the characters of `text` from `from` on,
/// counted from `from`; -1 where there is none.
fn find_last(text: &Vec<char>, from: usize, c: char) -> (found: Option<usize>)
    requires
        from <= text.len(),
    ensures
        match found {
            Some(i) => i == last_index(text@.skip(from as int), c) && i < text.len() - from,
            None => last_index(text@.skip(from as int), c) == -1,
        },
{
    let ghost rest = text@.skip(from as int);
    let mut found: Option<usize> = None;
    let mut i: usize = from;
    proof {
        assert(rest.take(0) =~= Seq::<char>::empty());
    }
    while i < text.len()
        invariant
            from <= i <= text.len(),
            rest == text@.skip(from as int),
            match found {
                Some(k) => k == last_index(rest.take(i - from), c) && k < i - from,
                None => last_index(rest.take(i - from), c) == -1,
            },
        decreases text.len() - i,
    {
        proof {
            assert(rest.take(i - from + 1).drop_last() =~= rest.take(i - from));
            assert(rest.take(i - from + 1).last() == text@[i as int]);
        }
        if text[i] == c {
            found = Some(i - from);
        }
        i += 1;
    }
    proof {
        assert(rest.take(text.len() - from) =~= rest);
    }
    found
}

/// The last segment of a path: what follows its last `/`.
pub open spec fn last_segment(path: Seq<char>) -> Seq<char> {
    path.skip(last_index(path, '/') + 1)
}

/// The name by which the format of a path is looked up: the extension of
/// its last segment, which is what follows the last `.` of the segment
/// unless that `.` starts it; else the segment; else, where the path ends in
/// `/`, the whole path.
pub open spec fn path_name(path: Seq<char>) -> Seq<char> {
    let segment = last_segment(path);
    let dot = last_index(segment, '.');
    if dot > 0 {
        segment.skip(dot + 1)
    } else if segment.len() > 0 {
        segment
    } else {
        path
    }
}

/// Whether `text` ends with `suffix`.
fn has_suffix(text: &Vec<char>, suffix: &str) -> (b: bool)
    ensures
        b == ends_with(text@, suffix@),
{
    let tail = chars_of(suffix);
    if text.len() < tail.len() {
        return false;
    }
    let start = text.len() - tail.len();
    let mut i: usize = 0;
    while i < tail.len()
        invariant
            tail@ == suffix@,
            start + tail.len() == text.len(),
            i <= tail.len(),
            forall|k: int| 0 <= k < i ==> text@[start + k] == #[trigger] tail@[k],
        decreases tail.len() - i,
    {
        if text[start + i] != tail[i] {
            assert(text@.skip(start as int)[i as int] != tail@[i as int]);
            return false;
        }
        i += 1;
    }
    assert(text@.skip(start as int) =~= tail@);
    true
}

/// The format of a sidecar file.
#[derive(Clone, Copy, Debug, PartialEq, Eq, Structural)]
pub enum SidecarFormat {
    JsonZip,
    Json,
}

/// The path without the extension of its last segment.
pub open spec fn path_stem(path: Seq<char>) -> Seq<char> {
    let start = last_index(path, '/') + 1;
    let dot = last_index(path.skip(start), '.');
    if dot > 0 {
        path.take(start + dot)
    } else {
        path
    }
}

/// The path of the sidecar of a document: the path of the document with
/// `.json`, or `.json.zip`, in the place of its extension.
pub fn sidecar_path(path: &str, format: SidecarFormat) -> (sidecar: String)
    ensures
        sidecar@ == path_stem(path@) + (match format {
            SidecarFormat::Json => ".json"@,
            SidecarFormat::JsonZip => ".json.zip"@,
        }),
{
    let text = chars_of(path);
    let start = match find_last(&text, 0, '/') {
        Some(slash) => slash + 1,
        None => 0,
    };
    proof {
        assert(text@.skip(0) =~= text@);
    }
    let stem = match find_last(&text, start, '.') {
        Some(dot) if dot > 0 => path.substring_char(0, start + dot),
        _ => path,
    };
    proof {
        assert(path@.subrange(0, path@.len() as int) =~= path@);
        assert(stem@ =~= path_stem(path@));
    }
    let mut sidecar = String::from_str(stem);
    match format {
        SidecarFormat::Json => sidecar.append(".json"),
        SidecarFormat::JsonZip => sidecar.append(".json.zip"),
    }
    sidecar
}

impl Format {
    /// Resolve a [`Format`] from a file path
    ///
    /// A path that ends in `.jats.xml` or in `.cbor.zst` has that format.
    /// Any other path has the format that its name resolves to.
    pub fn from_path(path: &str) -> (format: Result<Format, FormatError>)
        ensures
            ends_with(path@, ".jats.xml"@) ==> format == Ok::<Format, FormatError>(Format::Jats),
            !ends_with(path@, ".jats.xml"@) && ends_with(path@, ".cbor.zst"@) ==> format == Ok::<
                Format,
                FormatError,
            >(Format::CborZst),
            !ends_with(path@, ".jats.xml"@) && !ends_with(path@, ".cbor.zst"@) ==> match format {
                Ok(format) => resolves_to(path_name(path@), Some(format)),
                Err(error) => resolves_to(path_name(path@), None) && error.name@ == path_name(
                    path@,
                ),
            },
    {
        let text = chars_of(path);
        if has_suffix(&text, ".jats.xml") {
            return Ok(Format::Jats);
        }
        if has_suffix(&text, ".cbor.zst") {
            return Ok(Format::CborZst);
        }
        let start = match find_last(&text, 0, '/') {
            Some(slash) => slash + 1,
            None => 0,
        };
        proof {
            assert(text@.skip(0) =~= text@);
        }
        let len = text.len();
        let name = match find_last(&text, start, '.') {
            Some(dot) if dot > 0 => path.substring_char(start + dot + 1, len),
            _ => if start < len {
                path.substring_char(start, len)
            } else {
                path
            },
        };
        proof {
            let segment = last_segment(path@);
            assert(segment == path@.skip(start as int));
            let dot = last_index(segment, '.');
            if dot > 0 {
                assert(segment.skip(dot + 1) =~= path@.subrange(start + dot + 1, len as int));
            } else if segment.len() > 0 {
                assert(segment =~= path@.subrange(start as int, len as int));
            }
            assert(name@ == path_name(path@));
        }
        Format::from_name(name)
    }

    /// Resolve a [`Format`] from a string (e.g. a URL)
    pub fn from_string(string: &str) -> (format: Result<Format, FormatError>)
        ensures
            ends_with(string@, ".jats.xml"@) ==> format == Ok::<Format, FormatError>(Format::Jats),
            !ends_with(string@, ".jats.xml"@) && ends_with(string@, ".cbor.zst"@) ==> format
                == Ok::<Format, FormatError>(Format::CborZst),
            !ends_with(string@, ".jats.xml"@) && !ends_with(string@, ".cbor.zst"@)
                ==> match format {
                Ok(format) => resolves_to(path_name(string@), Some(format)),
                Err(error) => resolves_to(path_name(string@), None) && error.name@ == path_name(
                    string@,
                ),
            },
    {
        Format::from_path(string)
    }
}

} // verus!
