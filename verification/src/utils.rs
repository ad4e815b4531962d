//! File names and paths.

use vstd::prelude::*;
use vstd::string::*;

verus! {

/// The extension of a path as the standard library reads it: what follows the
/// last dot of the file name, unless the name has no dot or only a leading
/// one.
pub uninterp spec fn path_extension(path: Seq<char>) -> Option<Seq<char>>;

/// A path with the extension of its file name removed, as the standard
/// library does it.
pub uninterp spec fn path_without_extension(path: Seq<char>) -> Seq<char>;

/// A path relative to `base`, as the standard library computes it; `None`
/// where `base` is not a prefix of the path, component by component.
pub uninterp spec fn path_relative_to(path: Seq<char>, base: Seq<char>) -> Option<Seq<char>>;

/// The extension of `path`.
///
/// Trusted: `Path::extension` of the standard library. The extension is a
/// part of the file name that follows a dot, so that it is shorter than the
/// path.
#[verifier::external_body]
fn extension_of<'a>(path: &'a str) -> (r: Option<&'a str>)
    ensures
        match r {
            Some(e) => path_extension(path@) == Some(e@) && e@.len() < path@.len(),
            None => path_extension(path@) is None,
        },
{
    std::path::Path::new(path).extension().and_then(|e| e.to_str())
}

/// `path` without the extension of its file name.
///
/// Trusted: `PathBuf::set_extension` of the standard library, with an empty
/// extension.
#[verifier::external_body]
pub(crate) fn remove_extension(path: &str) -> (r: String)
    ensures
        r@ == path_without_extension(path@),
{
    let mut buffer = std::path::PathBuf::from(path);
    buffer.set_extension("");
    buffer.to_string_lossy().to_string()
}

/// `path` relative to `base`.
///
/// Trusted: `Path::strip_prefix` of the standard library.
#[verifier::external_body]
pub(crate) fn relative_to(path: &str, base: &str) -> (r: Option<String>)
    ensures
        match r {
            Some(rest) => path_relative_to(path@, base@) == Some(rest@),
            None => path_relative_to(path@, base@) is None,
        },
{
    let rest = std::path::Path::new(path).strip_prefix(base).ok()?;
    Some(rest.to_string_lossy().to_string())
}

/// The stem of a path whose extension is `extension`: the path without its
/// last characters, as many as the dot and the extension take.
pub open spec fn stem_of(path: Seq<char>, extension: Option<Seq<char>>) -> Seq<char> {
    match extension {
        Some(e) => path.take(path.len() - e.len() - 1),
        None => path,
    }
}

/// Splits a path into its stem and its extension. The stem keeps the
/// directories; the extension comes without its dot.
pub fn decompose_filename(path: &str) -> (r: (Option<&str>, Option<&str>))
    ensures
        match r.1 {
            Some(e) => path_extension(path@) == Some(e@),
            None => path_extension(path@) is None,
        },
        r.0 matches Some(stem) && stem@ == stem_of(path@, path_extension(path@)),
{
    let extension = extension_of(path);
    let stem = match extension {
        Some(e) => {
            let end: usize = path.unicode_len() - e.unicode_len() - 1;
            path.substring_char(0, end)
        },
        None => path,
    };
    (Some(stem), extension)
}

} // verus!
