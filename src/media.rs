//! Classification of media files by extension, and the placeholder graphic
//! that stands in for a video.
use vstd::prelude::*;
use vstd::string::*;
use vstd::utf8::encode_utf8;

verus! {

/// What a file is taken to be, from its extension.
#[derive(Clone, Copy, Debug, PartialEq, Eq, Structural)]
pub enum MediaKind {
    Image,
    Video,
    Unsupported,
}

/// What `str::to_lowercase` returns for a text.
pub uninterp spec fn lower_of(s: Seq<char>) -> Seq<char>;

/// What `Path::extension` gives for a path, as text; empty where it gives none.
pub uninterp spec fn extension_of(p: Seq<char>) -> Seq<char>;

/// What `Path::file_name` gives for a path, as text; empty where it gives none.
pub uninterp spec fn file_name_of(p: Seq<char>) -> Seq<char>;

/// Relies on `str::to_lowercase`: the lower-case form of a text, which depends
/// on the text alone.
#[verifier::external_body]
fn lowercase(s: &str) -> (r: String)
    ensures
        r@ == lower_of(s@),
{
    s.to_lowercase()
}

/// Relies on `std::path::Path::extension` (and `OsStr::to_string_lossy`,
/// lossless on text that came from a `&str`): the part of the last path
/// component after its final dot.
#[verifier::external_body]
fn path_extension(p: &str) -> (r: String)
    ensures
        r@ == extension_of(p@),
{
    match std::path::Path::new(p).extension() {
        Some(e) => e.to_string_lossy().into_owned(),
        None => String::new(),
    }
}

/// Relies on `std::path::Path::file_name` (and `OsStr::to_string_lossy`):
/// the last component of a path.
#[verifier::external_body]
fn path_file_name(p: &str) -> (r: String)
    ensures
        r@ == file_name_of(p@),
{
    match std::path::Path::new(p).file_name() {
        Some(n) => n.to_string_lossy().into_owned(),
        None => String::new(),
    }
}

/// The kind that a lower-case extension names.
pub open spec fn kind_of_extension(e: Seq<char>) -> MediaKind {
    if e == "png"@ || e == "jpg"@ || e == "jpeg"@ || e == "gif"@ || e == "bmp"@ || e == "webp"@ {
        MediaKind::Image
    } else if e == "mp4"@ || e == "avi"@ || e == "mov"@ || e == "mkv"@ || e == "webm"@
        || e == "m4v"@ || e == "flv"@ {
        MediaKind::Video
    } else {
        MediaKind::Unsupported
    }
}

/// The kind of a path: its extension, compared without regard to case.
pub open spec fn kind_of_path(p: Seq<char>) -> MediaKind {
    kind_of_extension(lower_of(extension_of(p)))
}

/// Whether a path names an image or a video.
pub open spec fn is_media_path(p: Seq<char>) -> bool {
    kind_of_path(p) != MediaKind::Unsupported
}

/// Character-wise equality of two texts.
pub(crate) fn same_text(a: &str, b: &str) -> (r: bool)
    ensures
        r == (a@ == b@),
{
    let n = a.unicode_len();
    if n != b.unicode_len() {
        return false;
    }
    let mut i: usize = 0;
    while i < n
        invariant
            n == a@.len(),
            n == b@.len(),
            i <= n,
            forall|j: int| 0 <= j < i ==> a@[j] == b@[j],
        decreases n - i,
    {
        if a.get_char(i) != b.get_char(i) {
            return false;
        }
        i = i + 1;
    }
    assert(a@ =~= b@);
    true
}

/// The kind that a lower-case extension names.
pub fn classify_extension(ext: &str) -> (r: MediaKind)
    ensures
        r == kind_of_extension(ext@),
{
    if same_text(ext, "png") || same_text(ext, "jpg") || same_text(ext, "jpeg")
        || same_text(ext, "gif") || same_text(ext, "bmp") || same_text(ext, "webp") {
        MediaKind::Image
    } else if same_text(ext, "mp4") || same_text(ext, "avi") || same_text(ext, "mov")
        || same_text(ext, "mkv") || same_text(ext, "webm") || same_text(ext, "m4v")
        || same_text(ext, "flv") {
        MediaKind::Video
    } else {
        MediaKind::Unsupported
    }
}

/// The kind of the file at `path`, from its extension in any case.
pub fn classify(path: &str) -> (r: MediaKind)
    ensures
        r == kind_of_path(path@),
{
    let ext = path_extension(path);
    let lower = lowercase(ext.as_str());
    classify_extension(lower.as_str())
}

/// Whether the file at `path` is a video, from its extension in any case.
pub fn is_video_file(path: &str) -> (r: bool)
    ensures
        r == (kind_of_path(path@) == MediaKind::Video),
{
    classify(path) == MediaKind::Video
}

/// The opening of the placeholder graphic, up to where the file name stands.
pub const PLACEHOLDER_HEAD: &'static str = "<svg xmlns=\"http://www.w3.org/2000/svg\" width=\"200\" height=\"150\" viewBox=\"0 0 200 150\"><rect width=\"200\" height=\"150\" fill=\"#333333\"/><circle cx=\"100\" cy=\"75\" r=\"20\" fill=\"#ffffff\"/><polygon points=\"95,65 95,85 110,75\" fill=\"#333333\"/><text x=\"100\" y=\"120\" text-anchor=\"middle\" fill=\"#ffffff\" font-family=\"Arial\" font-size=\"12\">Video</text><text x=\"100\" y=\"135\" text-anchor=\"middle\" fill=\"#aaaaaa\" font-family=\"Arial\" font-size=\"10\">";

/// The close of the placeholder graphic, after the file name.
pub const PLACEHOLDER_TAIL: &'static str = "</text></svg>";

/// The text of the placeholder graphic that shows a video's file name.
pub open spec fn placeholder_text(name: Seq<char>) -> Seq<char> {
    PLACEHOLDER_HEAD@ + name + PLACEHOLDER_TAIL@
}

/// The bytes of the placeholder graphic for the video at `path`: the UTF-8
/// encoding of an SVG image that shows the path's file name. The file itself
/// is not read.
pub fn video_placeholder(path: &str) -> (r: Vec<u8>)
    ensures
        r@ == encode_utf8(placeholder_text(file_name_of(path@))),
{
    let name = path_file_name(path);
    let mut text = String::from_str(PLACEHOLDER_HEAD);
    text.append(name.as_str());
    text.append(PLACEHOLDER_TAIL);
    text.as_str().as_bytes_vec()
}

} // verus!
