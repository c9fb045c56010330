//! The preview panel: information about the selected file, a preview of its
//! text, and its annotations.

use vstd::prelude::*;
use vstd::utf8::{decode_utf8, encode_utf8, is_char_boundary};
use vstd::string::StringSliceAdditionalSpecFns;
use crate::paths::{split_stem_extension, file_name_or_empty, file_name_or_default, stem_and_extension};
use crate::text::{concat, concat3, decimal, lowercase, same_chars, to_lowercase, u64_to_decimal};

verus! {

broadcast use vstd::utf8::group_utf8_lib;

/// The preview panel's state.
pub struct PreviewPanelState {
    pub file_content_preview: Option<String>,
    pub new_annotation_text: String,
}

impl PreviewPanelState {
    /// No preview, no annotation being typed.
    pub fn new() -> (s: Self)
        ensures
            s.file_content_preview is None,
            s.new_annotation_text@.len() == 0,
    {
        PreviewPanelState { file_content_preview: None, new_annotation_text: String::new() }
    }

    /// Saving the typed annotation: hands out its text and clears it, when
    /// something was typed.
    pub fn take_new_annotation(&mut self) -> (r: Option<String>)
        ensures
            old(self).new_annotation_text@.len() == 0 ==> r is None && final(self).new_annotation_text@
                == old(self).new_annotation_text@,
            old(self).new_annotation_text@.len() > 0 ==> (r matches Some(t) && t@ == old(self).new_annotation_text@)
                && final(self).new_annotation_text@.len() == 0,
            final(self).file_content_preview == old(self).file_content_preview,
    {
        if self.new_annotation_text.as_str().is_empty() {
            return None;
        }
        let text = self.new_annotation_text.clone();
        self.new_annotation_text = String::new();
        Some(text)
    }
}

impl Default for PreviewPanelState {
    fn default() -> (s: Self)
        ensures
            s.file_content_preview is None,
            s.new_annotation_text@.len() == 0,
    {
        PreviewPanelState::new()
    }
}

/// How long ago a file was modified: `agora`, `N min atrás`, `N h atrás` or `N dias atrás`.
pub open spec fn time_ago_text(secs: nat) -> Seq<char> {
    if secs < 60 {
        "agora"@
    } else if secs < 3600 {
        decimal(secs / 60) + " min atrás"@
    } else if secs < 86400 {
        decimal(secs / 3600) + " h atrás"@
    } else {
        decimal(secs / 86400) + " dias atrás"@
    }
}

/// How long ago a file was modified, from the elapsed seconds.
pub fn format_time_ago(secs: u64) -> (r: String)
    ensures
        r@ == time_ago_text(secs as nat),
{
    if secs < 60 {
        "agora".to_owned()
    } else if secs < 3600 {
        concat(u64_to_decimal(secs / 60).as_str(), " min atrás")
    } else if secs < 86400 {
        concat(u64_to_decimal(secs / 3600).as_str(), " h atrás")
    } else {
        concat(u64_to_decimal(secs / 86400).as_str(), " dias atrás")
    }
}

/// What kind of preview a selected path gets.
#[derive(Debug, Clone, Copy, PartialEq, Eq, Structural)]
pub enum PreviewKind {
    /// Not a file.
    Directory,
    /// A text file: its first 4 KB are shown.
    Text,
    /// An image.
    Image,
    /// Anything else.
    Unsupported,
}

/// Extensions previewed as text.
pub open spec fn is_text_extension(e: Seq<char>) -> bool {
    e == "txt"@ || e == "md"@ || e == "rs"@ || e == "py"@ || e == "js"@ || e == "ts"@ || e == "json"@
        || e == "toml"@ || e == "yaml"@ || e == "yml"@ || e == "xml"@ || e == "html"@ || e == "css"@
        || e == "c"@ || e == "cpp"@ || e == "h"@ || e == "java"@ || e == "go"@ || e == "sh"@ || e
        == "bat"@ || e == "csv"@ || e == "log"@ || e == "cfg"@ || e == "ini"@
}

/// Extensions previewed as images.
pub open spec fn is_image_extension(e: Seq<char>) -> bool {
    e == "png"@ || e == "jpg"@ || e == "jpeg"@ || e == "gif"@ || e == "bmp"@
}

/// The lowercased extension of a path, or the empty text.
pub open spec fn lower_extension(path: Seq<char>) -> Seq<char> {
    match split_stem_extension(file_name_or_empty(path)).1 {
        Some(e) => lowercase(e),
        None => Seq::empty(),
    }
}

/// The preview a path gets: by its lowercased extension, when it is a file.
pub open spec fn preview_kind_of(is_file: bool, path: Seq<char>) -> PreviewKind {
    if !is_file {
        PreviewKind::Directory
    } else if is_text_extension(lower_extension(path)) {
        PreviewKind::Text
    } else if is_image_extension(lower_extension(path)) {
        PreviewKind::Image
    } else {
        PreviewKind::Unsupported
    }
}

/// The kind of preview for a path that is (or is not) a file.
pub fn preview_kind(is_file: bool, path: &str) -> (r: PreviewKind)
    ensures
        r == preview_kind_of(is_file, path@),
{
    if !is_file {
        return PreviewKind::Directory;
    }
    let name = file_name_or_default(path);
    let (_stem, ext) = stem_and_extension(name.as_str());
    let e = match ext {
        Some(x) => to_lowercase(x.as_str()),
        None => String::new(),
    };
    let x = e.as_str();
    if same_chars(x, "txt") || same_chars(x, "md") || same_chars(x, "rs") || same_chars(x, "py")
        || same_chars(x, "js") || same_chars(x, "ts") || same_chars(x, "json") || same_chars(x, "toml")
        || same_chars(x, "yaml") || same_chars(x, "yml") || same_chars(x, "xml") || same_chars(x, "html")
        || same_chars(x, "css") || same_chars(x, "c") || same_chars(x, "cpp") || same_chars(x, "h")
        || same_chars(x, "java") || same_chars(x, "go") || same_chars(x, "sh") || same_chars(x, "bat")
        || same_chars(x, "csv") || same_chars(x, "log") || same_chars(x, "cfg") || same_chars(x, "ini") {
        PreviewKind::Text
    } else if same_chars(x, "png") || same_chars(x, "jpg") || same_chars(x, "jpeg") || same_chars(x, "gif")
        || same_chars(x, "bmp") {
        PreviewKind::Image
    } else {
        PreviewKind::Unsupported
    }
}

/// Bytes of text shown in a preview.
pub const PREVIEW_BYTES: usize = 4096;

/// The last character boundary at or before byte `n`.
pub open spec fn boundary_at_most(bytes: Seq<u8>, n: int) -> int
    decreases n,
{
    if n <= 0 {
        0
    } else if is_char_boundary(bytes, n) {
        n
    } else {
        boundary_at_most(bytes, n - 1)
    }
}

/// The preview of a text: all of it when it fits in 4096 bytes, otherwise
/// the characters that fit, followed by a truncation notice.
pub open spec fn preview_text(content: Seq<char>) -> Seq<char> {
    let b = encode_utf8(content);
    if b.len() > PREVIEW_BYTES {
        decode_utf8(b.subrange(0, boundary_at_most(b, PREVIEW_BYTES as int))) + "...\n\n[arquivo truncado]"@
    } else {
        content
    }
}

/// The preview of a text file's content.
pub fn text_preview(content: &str) -> (r: String)
    ensures
        r@ == preview_text(content@),
{
    if content.as_bytes().len() <= PREVIEW_BYTES {
        return content.to_owned();
    }
    let mut end: usize = PREVIEW_BYTES;
    while end > 0 && !content.is_char_boundary(end)
        invariant
            end <= PREVIEW_BYTES,
            content.spec_bytes().len() > PREVIEW_BYTES,
            boundary_at_most(content.spec_bytes(), end as int) == boundary_at_most(
                content.spec_bytes(),
                PREVIEW_BYTES as int,
            ),
        decreases end,
    {
        end = end - 1;
    }
    proof {
        assert(boundary_at_most(content.spec_bytes(), end as int) == end as int);
    }
    let (head, _tail) = content.split_at(end);
    proof {
        assert(encode_utf8(head@) == head.spec_bytes());
        assert(decode_utf8(encode_utf8(head@)) == head@);
    }
    concat(head, "...\n\n[arquivo truncado]")
}

/// What `DateTime::<Utc>::from_timestamp_micros(micros)` formatted with
/// `pattern` gives, or nothing when the instant is out of chrono's range.
pub uninterp spec fn utc_text(micros: i64, pattern: Seq<char>) -> Option<Seq<char>>;

/// The pattern of annotation dates: day/month/year hours:minutes.
pub open spec fn date_pattern() -> Seq<char> {
    "%d/%m/%Y %H:%M"@
}

/// Calls `chrono::DateTime::from_timestamp_micros` and formats the instant in
/// UTC with `pattern`; the result is named `utc_text` of the arguments. The
/// pattern is the date pattern of annotations, which chrono accepts (an
/// invalid pattern would make the formatting panic).
#[verifier::external_body]
fn format_utc(micros: i64, pattern: &str) -> (r: Option<String>)
    requires
        pattern@ == date_pattern(),
    ensures
        match r {
            Some(t) => utc_text(micros, pattern@) == Some(t@),
            None => utc_text(micros, pattern@) is None,
        },
{
    chrono::DateTime::from_timestamp_micros(micros).map(|d| d.format(pattern).to_string())
}

/// The creation date shown on an annotation: day/month/year hours:minutes,
/// in UTC; nothing when the instant cannot be represented.
pub fn annotation_date(created_at: i64) -> (r: Option<String>)
    ensures
        match r {
            Some(t) => utc_text(created_at, date_pattern()) == Some(t@),
            None => utc_text(created_at, date_pattern()) is None,
        },
{
    format_utc(created_at, "%d/%m/%Y %H:%M")
}

/// The machine tag shown on an annotation: the first eight bytes of the
/// machine id, in brackets. The id must hold a character boundary at byte
/// eight (slicing there would panic otherwise).
pub fn machine_tag(machine_id: &str) -> (r: String)
    requires
        is_char_boundary(machine_id.spec_bytes(), 8),
    ensures
        exists|head: Seq<char>|
            encode_utf8(head) == machine_id.spec_bytes().subrange(0, 8) && r@ == "("@ + head + ")"@,
{
    let (head, _rest) = machine_id.split_at(8);
    let r = concat3("(", head, ")");
    proof {
        assert(encode_utf8(head@) == head.spec_bytes());
    }
    r
}

/// The type line of the file information: the extension of the file name
/// with its dot, when it has one.
pub fn type_label(path: &str) -> (r: Option<String>)
    ensures
        match split_stem_extension(file_name_or_empty(path@)).1 {
            Some(e) => r matches Some(t) && t@ == "Tipo: ."@ + e,
            None => r is None,
        },
{
    let name = file_name_or_default(path);
    let (_, ext) = stem_and_extension(name.as_str());
    match ext {
        Some(e) => Some(concat("Tipo: .", e.as_str())),
        None => None,
    }
}

} // verus!
