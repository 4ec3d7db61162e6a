//! What the viewer's server decides without touching a file or a socket:
//! which asset a request path names, under which content type it is sent,
//! and the address that the browser is opened at.

use crate::text::{chars_of, find_last};
use vstd::prelude::*;
use vstd::string::*;

verus! {

/// The content type that `actix_files::file_extension_to_mime` gives for the
/// extension `extension`.
pub uninterp spec fn extension_mime(extension: Seq<char>) -> Seq<char>;

/// Looks the extension up with `actix_files::file_extension_to_mime` and
/// writes the media type that comes back as text.
///
/// Trusted: that the answer depends on `extension` alone, so that it can be
/// named [`extension_mime`]. Nothing is claimed of what the answer is.
#[verifier::external_body]
pub(crate) fn mime_of_extension(extension: &str) -> (mime: String)
    ensures
        mime@ == extension_mime(extension@),
{
    actix_files::file_extension_to_mime(extension).to_string()
}

/// An asset of the viewer, as a request names it.
#[derive(Clone, Debug, PartialEq, Eq)]
pub struct ViewerAsset {
    /// The path of the asset among the viewer's files.
    pub path: String,
    /// The content type to send it under.
    pub content_type: String,
}

/// The asset that a request path names: the path itself, or the index page
/// for the empty path.
pub open spec fn asset_path(path: Seq<char>) -> Seq<char> {
    if path.len() == 0 {
        "index.html"@
    } else {
        path
    }
}

/// The content type of an asset, where `mime` was found for the extension
/// of its path, if the path has one.
pub open spec fn content_type_or_default(mime: Option<Seq<char>>) -> Seq<char> {
    match mime {
        Some(found) => found,
        None => "application/octet-stream"@,
    }
}

/// What is found for the extension of `path`: what follows its last `.`, if
/// it has one.
pub open spec fn mime_of_path(path: Seq<char>) -> Option<Seq<char>> {
    match path.index_of_last('.') {
        Some(dot) => Some(extension_mime(path.subrange(dot + 1, path.len() as int))),
        None => None,
    }
}

/// Computes [`content_type_or_default`].
pub fn content_type(mime: Option<String>) -> (content_type: String)
    ensures
        content_type@ == content_type_or_default(mime.deep_view()),
{
    match mime {
        Some(found) => found,
        None => String::from_str("application/octet-stream"),
    }
}

/// The asset that the request path `path` names, and its content type.
pub fn viewer(path: &str) -> (asset: ViewerAsset)
    ensures
        asset.path@ == asset_path(path@),
        asset.content_type@ == content_type_or_default(mime_of_path(asset_path(path@))),
{
    let path = if path.unicode_len() == 0 {
        "index.html"
    } else {
        path
    };
    let chars = chars_of(path);
    let mime = match find_last(&chars, '.') {
        Some(dot) => Some(mime_of_extension(path.substring_char(dot + 1, chars.len()))),
        None => None,
    };
    ViewerAsset { path: String::from_str(path), content_type: content_type(mime) }
}

/// The address of the viewer at the socket `socket`: over HTTPS, or over
/// HTTP where TLS is switched off.
pub open spec fn viewer_url(no_tls: bool, socket: Seq<char>) -> Seq<char> {
    (if no_tls {
        "http://"@
    } else {
        "https://"@
    }) + socket + "/"@
}

/// Computes [`viewer_url`].
pub fn browser_url(no_tls: bool, socket: &str) -> (url: String)
    ensures
        url@ == viewer_url(no_tls, socket@),
{
    let scheme = if no_tls {
        "http://"
    } else {
        "https://"
    };
    String::from_str(scheme).concat(socket).concat("/")
}

} // verus!
