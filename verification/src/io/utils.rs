//! Telling where text is to be read from.
use vstd::prelude::*;
use crate::text::scan::{begins_with, starts_with};

verus! {

/// Whether `path` names a place on a network rather than a file: it begins
/// with `http://`, `https://`, `file://`, `ftp://` or `ftps://`.
pub open spec fn names_url(path: Seq<char>) -> bool {
    ||| begins_with(path, "http://"@)
    ||| begins_with(path, "https://"@)
    ||| begins_with(path, "file://"@)
    ||| begins_with(path, "ftp://"@)
    ||| begins_with(path, "ftps://"@)
}

/// Whether `path` names a place on a network rather than a file.
pub fn is_url(path: &str) -> (b: bool)
    ensures
        b == names_url(path@),
{
    starts_with(path, "http://") || starts_with(path, "https://") || starts_with(path, "file://")
        || starts_with(path, "ftp://") || starts_with(path, "ftps://")
}

/// How a file is packed, as its name tells.
#[derive(Debug, Clone, Copy, PartialEq, Eq, Structural)]
pub enum Packing {
    /// A zip archive: the name ends in `.zip`.
    Zip,
    /// An LZMA stream: the name ends in `.lzma`.
    Lzma,
    /// An XZ stream: the name ends in `.lzma2` or `.xz`.
    Xz,
    /// Plain text.
    Plain,
}

/// Whether `s` ends with `suffix`.
pub open spec fn finishes_with(s: Seq<char>, suffix: Seq<char>) -> bool {
    crate::text::scan::occurs_at(s, suffix, s.len() - suffix.len())
}

/// How the file named `path` is packed.
pub open spec fn packing_of(path: Seq<char>) -> Packing {
    if finishes_with(path, ".zip"@) {
        Packing::Zip
    } else if finishes_with(path, ".lzma"@) {
        Packing::Lzma
    } else if finishes_with(path, ".lzma2"@) || finishes_with(path, ".xz"@) {
        Packing::Xz
    } else {
        Packing::Plain
    }
}

/// Whether `s` ends with `suffix`.
pub fn ends_with(s: &str, suffix: &str) -> (b: bool)
    ensures
        b == finishes_with(s@, suffix@),
{
    let text = crate::text::chars_of(s);
    let pat = crate::text::chars_of(suffix);
    if pat.len() > text.len() {
        return false;
    }
    crate::text::scan::matches_at(&text, &pat, text.len() - pat.len())
}

/// How the file named `path` is packed.
pub fn packing(path: &str) -> (p: Packing)
    ensures
        p == packing_of(path@),
{
    if ends_with(path, ".zip") {
        Packing::Zip
    } else if ends_with(path, ".lzma") {
        Packing::Lzma
    } else if ends_with(path, ".lzma2") || ends_with(path, ".xz") {
        Packing::Xz
    } else {
        Packing::Plain
    }
}

/// The path that the URL `url` names, if `url` is one that the crate `url` accepts.
pub uninterp spec fn url_path(url: Seq<char>) -> Option<Seq<char>>;

/// `url::Url::parse` on `url` and, where that gives a URL, `Url::path`:
/// the path of the URL as text. It depends on `url` alone.
#[verifier::external_body]
pub(crate) fn path_of_url(url: &str) -> (r: Option<String>)
    ensures
        match url_path(url@) {
            Some(path) => r matches Some(s) && s@ == path,
            None => r is None,
        },
{
    match url::Url::parse(url) {
        Ok(parsed) => Some(parsed.path().to_string()),
        Err(_) => None,
    }
}

/// Whether a path names something that is packed: anything but a name
/// that ends in `.csv`, `.json` or `.html`.
pub open spec fn names_packed(path: Seq<char>) -> bool {
    !(finishes_with(path, ".csv"@) || finishes_with(path, ".json"@) || finishes_with(
        path,
        ".html"@,
    ))
}

/// Whether the URL `file_name` names something that is packed; `None`
/// where `file_name` is no URL.
pub fn is_compressed(file_name: &str) -> (r: Option<bool>)
    ensures
        r == match url_path(file_name@) {
            Some(path) => Some(names_packed(path)),
            None => None,
        },
{
    match path_of_url(file_name) {
        None => None,
        Some(path) => {
            let p = path.as_str();
            Some(!(ends_with(p, ".csv") || ends_with(p, ".json") || ends_with(p, ".html")))
        },
    }
}

/// Where the text that `path` names is to be taken from.
#[derive(Debug, Clone, Copy, PartialEq, Eq, Structural)]
pub enum Source {
    /// From the network, as text.
    Remote,
    /// From the network, as a packed file that is fetched first.
    RemotePacked,
    /// From a file that is packed as said.
    Local(Packing),
}

/// Where the text that `path` names is to be taken from: from the network
/// where `path` names a place there, packed or not as its path tells; else
/// from a file, packed as its name tells.
pub open spec fn source_of(path: Seq<char>) -> Source {
    if names_url(path) {
        match url_path(path) {
            Some(p) => if names_packed(p) {
                Source::RemotePacked
            } else {
                Source::Remote
            },
            None => Source::Remote,
        }
    } else {
        Source::Local(packing_of(path))
    }
}

/// Where the text that `path` names is to be taken from.
pub fn source(path: &str) -> (r: Source)
    ensures
        r == source_of(path@),
{
    if is_url(path) {
        match is_compressed(path) {
            Some(true) => Source::RemotePacked,
            _ => Source::Remote,
        }
    } else {
        Source::Local(packing(path))
    }
}

} // verus!
