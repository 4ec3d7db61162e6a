//! The persisted data model: tweets, their media, and the per-account data file.
//!
//! Every type has a view that replaces strings and vectors by sequences, and
//! the contracts of this crate speak of those views.

use vstd::prelude::*;

verus! {

/// The model version written by this build.
///
/// A data file with an older version is refreshed in full on the next run.
pub const MODEL_VERSION: u64 = 1;

/// The kind of a media attachment.
#[derive(Clone, Copy, Debug, PartialEq, Eq, Structural)]
pub enum MediaType {
    Video,
    Photo,
    Gif,
}

/// One media attachment of a tweet.
#[derive(Clone, Debug, PartialEq, Eq)]
pub struct Media {
    /// Unique within the tweet that holds it.
    pub id: u64,
    pub media_type: MediaType,
    /// The file that holds the downloaded media, once there is one.
    pub file_name: Option<String>,
    /// Where the media can be fetched; absent where the API gave no location.
    pub url: Option<String>,
}

/// The view of a [`Media`].
pub struct MediaView {
    pub id: u64,
    pub media_type: MediaType,
    pub file_name: Option<Seq<char>>,
    pub url: Option<Seq<char>>,
}

impl View for Media {
    type V = MediaView;

    open spec fn view(&self) -> MediaView {
        MediaView {
            id: self.id,
            media_type: self.media_type,
            file_name: self.file_name.deep_view(),
            url: self.url.deep_view(),
        }
    }
}

impl DeepView for Media {
    type V = MediaView;

    open spec fn deep_view(&self) -> MediaView {
        self@
    }
}

/// One tweet. Tweets are identified and ordered by `id` alone.
#[derive(Clone, Debug)]
pub struct Tweet {
    pub id: u64,
    /// Seconds since the Unix epoch.
    pub timestamp: i64,
    pub text: String,
    pub media: Vec<Media>,
}

/// The view of a [`Tweet`].
pub struct TweetView {
    pub id: u64,
    pub timestamp: i64,
    pub text: Seq<char>,
    pub media: Seq<MediaView>,
}

impl View for Tweet {
    type V = TweetView;

    open spec fn view(&self) -> TweetView {
        TweetView {
            id: self.id,
            timestamp: self.timestamp,
            text: self.text@,
            media: self.media.deep_view(),
        }
    }
}

impl DeepView for Tweet {
    type V = TweetView;

    open spec fn deep_view(&self) -> TweetView {
        self@
    }
}

/// What is known of one account: its tweets, ascending by id.
#[derive(Clone, Debug)]
pub struct DataFile {
    pub user_id: u64,
    pub tweets: Vec<Tweet>,
    pub version: u64,
}

/// The view of a [`DataFile`].
pub struct DataFileView {
    pub user_id: u64,
    pub tweets: Seq<TweetView>,
    pub version: u64,
}

impl View for DataFile {
    type V = DataFileView;

    open spec fn view(&self) -> DataFileView {
        DataFileView {
            user_id: self.user_id,
            tweets: self.tweets.deep_view(),
            version: self.version,
        }
    }
}

/// Whether the ids of `tweets` strictly ascend, so that no id occurs twice.
pub open spec fn ascending(tweets: Seq<TweetView>) -> bool {
    forall|i: int, j: int| 0 <= i < j < tweets.len() ==> tweets[i].id < tweets[j].id
}

/// Whether no two media of `media` share an id.
pub open spec fn distinct_media_ids(media: Seq<MediaView>) -> bool {
    forall|i: int, j: int| 0 <= i < j < media.len() ==> media[i].id != media[j].id
}

/// The id after which tweets are to be fetched for a data file: none, so that
/// all are fetched, where a rescan is asked for or the data file was written
/// by an older model version; else the id of its last tweet, if it has one.
pub open spec fn cursor(data_file: DataFileView, rescan: bool) -> Option<u64> {
    if rescan || data_file.version < MODEL_VERSION || data_file.tweets.len() == 0 {
        None
    } else {
        Some(data_file.tweets.last().id)
    }
}

impl Media {
    /// A media item that has not been downloaded yet.
    pub fn new(id: u64, media_type: MediaType, url: Option<String>) -> (media: Media)
        ensures
            media@ == (MediaView {
                id,
                media_type,
                file_name: None,
                url: url.deep_view(),
            }),
    {
        Media { id, media_type, file_name: None, url }
    }
}

impl DataFile {
    /// The invariant of a data file: tweets ascend by id.
    pub open spec fn wf(&self) -> bool {
        ascending(self@.tweets)
    }

    /// An empty data file for `user_id`, at the current model version.
    pub fn new(user_id: u64) -> (data_file: DataFile)
        ensures
            data_file@ == (DataFileView {
                user_id,
                tweets: Seq::empty(),
                version: MODEL_VERSION,
            }),
            data_file.wf(),
    {
        let data_file = DataFile { user_id, tweets: Vec::new(), version: MODEL_VERSION };
        assert(data_file@.tweets =~= Seq::empty());
        data_file
    }

    /// The id of the last tweet, which in a well-formed data file is the
    /// greatest id; `None` where there is no tweet.
    pub fn latest_tweet_id(&self) -> (latest: Option<u64>)
        ensures
            self@.tweets.len() == 0 ==> latest is None,
            self@.tweets.len() > 0 ==> latest == Some(self@.tweets.last().id),
            self.wf() ==> forall|i: int|
                0 <= i < self@.tweets.len() ==> (#[trigger] self@.tweets[i]).id <= latest.unwrap(),
    {
        let n: usize = self.tweets.len();
        if n == 0 {
            None
        } else {
            Some(self.tweets[n - 1].id)
        }
    }

    /// Computes [`cursor`]: the id after which tweets are to be fetched.
    pub fn since_id(&self, rescan: bool) -> (since: Option<u64>)
        ensures
            since == cursor(self@, rescan),
    {
        if rescan || self.version < MODEL_VERSION {
            None
        } else {
            self.latest_tweet_id()
        }
    }
}

} // verus!
