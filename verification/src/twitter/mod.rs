//! What the library needs of the Twitter API: the credentials, the walk
//! through the pages of a timeline, and the conversion of what either API
//! version returns into tweets.

pub mod response;
pub mod v1;
pub mod v2;

use crate::model::{Tweet, TweetView};
use vstd::prelude::*;
use vstd::string::*;

verus! {

/// The credentials for the API.
#[derive(Clone, Debug, PartialEq, Eq)]
pub struct Authentication {
    pub bearer_token: String,
}

impl Authentication {
    /// The value of the `Authorization` header: `Bearer`, a space, the token.
    pub fn authorization(&self) -> (value: String)
        ensures
            value@ == "Bearer "@ + self.bearer_token@,
    {
        String::from_str("Bearer ").concat(self.bearer_token.as_str())
    }
}

/// Why what the API returned cannot be taken over.
#[derive(Clone, Copy, Debug, PartialEq, Eq, Structural)]
pub enum ConvertError {
    /// The id of a tweet is no number.
    TweetId,
    /// The time of a tweet is no RFC 3339 date and time.
    Timestamp,
    /// A tweet names a media key that the response does not include.
    MissingMedia,
    /// A media key has no `_`.
    MediaKeyFormat,
    /// What follows the `_` of a media key is no number.
    MediaId,
    /// The URL of a media item is no URL.
    Url,
    /// A video has no information on its encodings.
    MissingVideoInfo,
    /// None of the encodings of a video states its bitrate.
    MissingVideoVariant,
}

/// The tweets of the pages read so far, and where the timeline goes on.
#[derive(Debug)]
pub struct Timeline {
    /// The tweets of all pages, in the order in which they came.
    pub tweets: Vec<Tweet>,
    /// The token that asks for the next page, once a page has named one.
    pub next_token: Option<String>,
}

impl Timeline {
    /// A timeline of which no page has been read.
    pub fn new() -> (timeline: Timeline)
        ensures
            timeline.tweets.deep_view() == Seq::<TweetView>::empty(),
            timeline.next_token is None,
    {
        let timeline = Timeline { tweets: Vec::new(), next_token: None };
        assert(timeline.tweets.deep_view() =~= Seq::<TweetView>::empty());
        timeline
    }

    /// Takes a page that came with the token `next` for the page after it,
    /// and says whether to ask for that page: the walk ends with the first
    /// page that names no next one.
    pub fn add_page(&mut self, page: Vec<Tweet>, next: Option<String>) -> (more: bool)
        ensures
            final(self).tweets.deep_view() == old(self).tweets.deep_view() + page.deep_view(),
            final(self).next_token == next,
            more == next is Some,
    {
        let mut page = page;
        let ghost before = self.tweets.deep_view();
        let ghost added = page.deep_view();
        self.tweets.append(&mut page);
        assert(self.tweets.deep_view() =~= before + added);
        let more = next.is_some();
        self.next_token = next;
        more
    }

    /// Takes a page of a timeline that is walked towards older tweets, and
    /// says whether to ask for more: the walk ends with the first empty page.
    pub fn add_older(&mut self, page: Vec<Tweet>) -> (more: bool)
        ensures
            final(self).tweets.deep_view() == old(self).tweets.deep_view() + page.deep_view(),
            final(self).next_token == old(self).next_token,
            more == (page.len() > 0),
    {
        let mut page = page;
        let more = page.len() > 0;
        let ghost before = self.tweets.deep_view();
        let ghost added = page.deep_view();
        self.tweets.append(&mut page);
        assert(self.tweets.deep_view() =~= before + added);
        more
    }
}

} // verus!
