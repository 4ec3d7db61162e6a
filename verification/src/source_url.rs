//! The URL parser of the `url` crate, as this crate uses it.

use vstd::prelude::*;

verus! {

/// What the library reads of a parsed URL.
#[derive(Clone, Debug, PartialEq, Eq)]
pub struct UrlParts {
    /// The URL in the parser's normal form.
    pub href: String,
    /// Its path: what stands between the host and the query.
    pub path: String,
}

/// The view of [`UrlParts`].
pub struct UrlPartsView {
    pub href: Seq<char>,
    pub path: Seq<char>,
}

impl View for UrlParts {
    type V = UrlPartsView;

    open spec fn view(&self) -> UrlPartsView {
        UrlPartsView { href: self.href@, path: self.path@ }
    }
}

impl DeepView for UrlParts {
    type V = UrlPartsView;

    open spec fn deep_view(&self) -> UrlPartsView {
        self@
    }
}

/// What `url::Url::parse` makes of `text`: the normal form and the path of the
/// URL, or nothing where `text` is no absolute URL.
pub uninterp spec fn url_parts(text: Seq<char>) -> Option<UrlPartsView>;

/// Parses `text` with `url::Url::parse`, and reads the result's serialization
/// (`Url::as_str`) and its path (`Url::path`).
///
/// Trusted: that the parser's answer depends on `text` alone, so that it can be
/// named [`url_parts`]. Nothing is claimed of what the answer is.
#[verifier::external_body]
pub(crate) fn parse_url(text: &str) -> (parts: Option<UrlParts>)
    ensures
        parts.deep_view() == url_parts(text@),
{
    match url::Url::parse(text) {
        Ok(parsed) => Some(UrlParts { href: parsed.as_str().to_string(), path: parsed.path().to_string() }),
        Err(_) => None,
    }
}

} // verus!
