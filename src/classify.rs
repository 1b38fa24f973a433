//! Classification of attached files by extension, and the option line that
//! attaches a file.
use vstd::prelude::*;
use vstd::string::StringExecFns;
use crate::text::text_eq;

verus! {

/// What `std::path::Path::extension` gives for a path, as text.
pub uninterp spec fn extension_of(path: Seq<char>) -> Option<Seq<char>>;

/// What `str::to_lowercase` gives for a text.
pub uninterp spec fn lower_of(s: Seq<char>) -> Seq<char>;

/// Relies on std::path::Path::extension for the extension of the file name,
/// which depends on the path's text alone.
#[verifier::external_body]
fn path_extension(path: &str) -> (r: Option<String>)
    ensures
        r matches Some(e) ==> extension_of(path@) == Some(e@),
        r is None ==> extension_of(path@) is None,
{
    match std::path::Path::new(path).extension() {
        Some(e) => e.to_str().map(String::from),
        None => None,
    }
}

/// Relies on str::to_lowercase, whose result depends on the characters alone.
#[verifier::external_body]
fn lowercase(s: &str) -> (r: String)
    ensures
        r@ == lower_of(s@),
{
    s.to_lowercase()
}

/// The extensions, in lower case, of the files that the tool takes as media.
pub open spec fn media_extensions() -> Set<Seq<char>> {
    set![
        "jpg"@,
        "jpeg"@,
        "png"@,
        "webp"@,
        "heic"@,
        "pdf"@,
        "ogg"@,
        "opus"@,
        "mp3"@,
        "m4a"@,
        "mp4"@,
    ]
}

/// A path is media when its extension, in lower case, is a media extension.
pub open spec fn is_media_path(path: Seq<char>) -> bool {
    match extension_of(path) {
        Some(e) => media_extensions().contains(lower_of(e)),
        None => false,
    }
}

/// How a file is handed to the tool.
#[derive(Clone, Copy, Debug, PartialEq, Eq, Structural)]
pub enum FileKind {
    /// Passed with `-i`.
    Media,
    /// Passed with `-f`.
    Generic,
}

pub open spec fn kind_of(path: Seq<char>) -> FileKind {
    if is_media_path(path) {
        FileKind::Media
    } else {
        FileKind::Generic
    }
}

/// The option line that attaches the file at `path`: the flag of its kind
/// followed directly by the path.
pub open spec fn attachment_line(path: Seq<char>) -> Seq<char> {
    match kind_of(path) {
        FileKind::Media => "-i"@ + path,
        FileKind::Generic => "-f"@ + path,
    }
}

/// Whether `ext`, taken as it is, is one of the media extensions.
pub fn is_media_extension(ext: &str) -> (r: bool)
    ensures
        r == media_extensions().contains(ext@),
{
    text_eq(ext, "jpg") || text_eq(ext, "jpeg") || text_eq(ext, "png") || text_eq(ext, "webp")
        || text_eq(ext, "heic") || text_eq(ext, "pdf") || text_eq(ext, "ogg") || text_eq(ext, "opus")
        || text_eq(ext, "mp3") || text_eq(ext, "m4a") || text_eq(ext, "mp4")
}

/// Whether the file at `path` (which need not exist) is media: its
/// extension, in lower case, is a media extension. A path without an
/// extension is not media.
pub fn is_media_file(path: &str) -> (r: bool)
    ensures
        r == is_media_path(path@),
{
    match path_extension(path) {
        Some(e) => {
            let low = lowercase(e.as_str());
            is_media_extension(low.as_str())
        },
        None => false,
    }
}

/// The kind of the file at `path`. The result is a function of the path's
/// text alone, so classifying a path twice gives the same kind.
pub fn classify(path: &str) -> (r: FileKind)
    ensures
        r == kind_of(path@),
{
    if is_media_file(path) {
        FileKind::Media
    } else {
        FileKind::Generic
    }
}

/// The option line that attaches the file at `path`, `-i<path>` for media
/// and `-f<path>` otherwise, with no quoting.
pub fn option_line(path: &str) -> (r: String)
    ensures
        r@ == attachment_line(path@),
{
    let flag = match classify(path) {
        FileKind::Media => "-i",
        FileKind::Generic => "-f",
    };
    let mut line = String::from_str(flag);
    line.append(path);
    line
}

} // verus!
