//! Which media is still to be downloaded, and under which file name.

use crate::candidate_laws::file_name_is_one_segment;
use crate::model::{Media, MediaType, MediaView, Tweet};
use crate::source_url::{parse_url, url_parts, UrlParts, UrlPartsView};
use crate::text::{decimal, extension, extension_of, to_decimal};
use vstd::prelude::*;
use vstd::string::*;

verus! {

/// Whether `media_types` lists `kind`.
pub open spec fn wants(media_types: Seq<MediaType>, kind: MediaType) -> bool {
    media_types.contains(kind)
}

/// Decides whether `kind` is among `media_types`.
pub fn is_wanted(media_types: &[MediaType], kind: MediaType) -> (found: bool)
    ensures
        found == wants(media_types@, kind),
{
    let mut i: usize = 0;
    while i < media_types.len()
        invariant
            i <= media_types.len(),
            forall|j: int| 0 <= j < i ==> media_types@[j] != kind,
        decreases media_types.len() - i,
    {
        if media_types[i] == kind {
            return true;
        }
        i += 1;
    }
    false
}

/// The name of the file that holds the media `media_id` of the tweet
/// `tweet_id`, fetched from a URL with the path `path`: the two ids in decimal,
/// joined by `_`, then `.` and the extension of the last segment of the path.
/// It names a file in the account's directory: it holds no `/`.
pub open spec fn file_name(tweet_id: u64, media_id: u64, path: Seq<char>) -> Seq<char> {
    decimal(tweet_id as nat) + seq!['_'] + decimal(media_id as nat) + seq!['.'] + extension(path)
}

/// Computes [`file_name`].
pub fn media_file_name(tweet_id: u64, media_id: u64, path: &str) -> (name: String)
    ensures
        name@ == file_name(tweet_id, media_id, path@),
        !name@.contains('/'),
{
    proof {
        reveal_strlit("_");
        reveal_strlit(".");
        file_name_is_one_segment(tweet_id, media_id, path@);
    }
    let mut name = to_decimal(tweet_id);
    name.append("_");
    let media_id_text = to_decimal(media_id);
    name.append(media_id_text.as_str());
    name.append(".");
    let ext = extension_of(path);
    name.append(ext.as_str());
    assert("_"@ =~= seq!['_']);
    assert("."@ =~= seq!['.']);
    name
}

/// What the URL parser makes of the URL of a media item, if it has one.
pub open spec fn parsed(url: Option<Seq<char>>) -> Option<UrlPartsView> {
    match url {
        Some(text) => url_parts(text),
        None => None,
    }
}

/// The URL to fetch and the file name to save under, for a media item of the
/// tweet `tweet_id` whose URL parses to `parts`; nothing where its kind is not
/// among `wanted`, where it has a file already, or where there is no URL.
pub open spec fn candidate(
    media: MediaView,
    tweet_id: u64,
    wanted: Seq<MediaType>,
    parts: Option<UrlPartsView>,
) -> Option<(Seq<char>, Seq<char>)> {
    if !wants(wanted, media.media_type) || media.file_name is Some {
        None
    } else {
        match parts {
            Some(url) => Some((url.href, file_name(tweet_id, media.id, url.path))),
            None => None,
        }
    }
}

impl Media {
    /// Decides [`candidate`] for this media item, given what the URL parser
    /// made of its URL.
    pub fn candidate_for(
        &self,
        tweet_id: u64,
        media_types: &[MediaType],
        parts: Option<UrlParts>,
    ) -> (target: Option<(String, String)>)
        ensures
            target.deep_view() == candidate(self@, tweet_id, media_types@, parts.deep_view()),
            target matches Some(found) ==> !found.1@.contains('/'),
    {
        if !is_wanted(media_types, self.media_type) {
            return None;
        }
        if self.file_name.is_some() {
            return None;
        }
        match parts {
            Some(url) => {
                let name = media_file_name(tweet_id, self.id, url.path.as_str());
                Some((url.href, name))
            },
            None => None,
        }
    }

    /// If this media item of `tweet` is to be downloaded, the URL to fetch
    /// and the file name to save it under.
    ///
    /// A media item is a candidate where its kind is among `media_types`, it
    /// has no file yet and it has a URL that parses.
    pub fn is_download_candidate(&self, tweet: &Tweet, media_types: &[MediaType]) -> (target:
        Option<(String, String)>)
        ensures
            target.deep_view() == candidate(self@, tweet.id, media_types@, parsed(self@.url)),
            target matches Some(found) ==> !found.1@.contains('/'),
    {
        let parts = match &self.url {
            Some(text) => parse_url(text.as_str()),
            None => None,
        };
        self.candidate_for(tweet.id, media_types, parts)
    }
}

} // verus!
