//! Tweets as version 2 of the API returns them: a page lists tweets that name
//! their media by keys, and beside them the media that the keys stand for.

use crate::model::{Media, MediaType, MediaView, Tweet, TweetView};
use crate::source_url::{parse_url, url_parts, UrlParts, UrlPartsView};
use crate::text::{chars_of, find_first, parse_decimal, parse_u64, to_decimal};
use crate::timestamp::{parse_rfc3339, rfc3339_seconds};
use crate::twitter::ConvertError;
use vstd::prelude::*;
use vstd::string::*;

verus! {

/// The media keys of a tweet.
#[derive(Clone, Debug, Default, PartialEq, Eq)]
pub struct GetTweetsTweetAttachment {
    pub media_keys: Vec<String>,
}

/// A tweet of a page.
#[derive(Clone, Debug, PartialEq, Eq)]
pub struct GetTweetsTweet {
    /// The id, in decimal.
    pub id: String,
    pub text: String,
    /// When the tweet was made, as an RFC 3339 date and time.
    pub created_at: String,
    pub attachments: GetTweetsTweetAttachment,
}

/// The view of a [`GetTweetsTweet`].
pub struct GetTweetsTweetView {
    pub id: Seq<char>,
    pub text: Seq<char>,
    pub created_at: Seq<char>,
    pub media_keys: Seq<Seq<char>>,
}

impl View for GetTweetsTweet {
    type V = GetTweetsTweetView;

    open spec fn view(&self) -> GetTweetsTweetView {
        GetTweetsTweetView {
            id: self.id@,
            text: self.text@,
            created_at: self.created_at@,
            media_keys: self.attachments.media_keys.deep_view(),
        }
    }
}

impl DeepView for GetTweetsTweet {
    type V = GetTweetsTweetView;

    open spec fn deep_view(&self) -> GetTweetsTweetView {
        self@
    }
}

/// What the page says of a media item beside its key.
#[derive(Clone, Debug, PartialEq, Eq)]
pub enum GetTweetsMediaVariant {
    /// A video; the API does not say where to fetch it.
    Video,
    /// A photo, with the URL to fetch it from.
    Photo { url: String },
    /// An animated image; the API does not say where to fetch it.
    Gif,
}

/// A media item of a page.
#[derive(Clone, Debug, PartialEq, Eq)]
pub struct GetTweetsMedia {
    /// The key by which tweets name the item: a kind, `_`, the id in decimal.
    pub media_key: String,
    pub variant: GetTweetsMediaVariant,
}

/// The view of a [`GetTweetsMedia`].
pub struct GetTweetsMediaView {
    pub media_key: Seq<char>,
    pub media_type: MediaType,
    /// The URL of a photo.
    pub url: Option<Seq<char>>,
}

impl View for GetTweetsMedia {
    type V = GetTweetsMediaView;

    open spec fn view(&self) -> GetTweetsMediaView {
        GetTweetsMediaView {
            media_key: self.media_key@,
            media_type: match self.variant {
                GetTweetsMediaVariant::Video => MediaType::Video,
                GetTweetsMediaVariant::Photo { .. } => MediaType::Photo,
                GetTweetsMediaVariant::Gif => MediaType::Gif,
            },
            url: match self.variant {
                GetTweetsMediaVariant::Photo { url } => Some(url@),
                _ => None,
            },
        }
    }
}

impl DeepView for GetTweetsMedia {
    type V = GetTweetsMediaView;

    open spec fn deep_view(&self) -> GetTweetsMediaView {
        self@
    }
}

/// The id that a media key holds: the number after its first `_`.
pub open spec fn media_id_of(media_key: Seq<char>) -> Result<u64, ConvertError> {
    match media_key.index_of_first('_') {
        None => Err(ConvertError::MediaKeyFormat),
        Some(at) => match parse_u64(media_key.subrange(at + 1, media_key.len() as int)) {
            None => Err(ConvertError::MediaId),
            Some(id) => Ok(id),
        },
    }
}

/// The media item that a page's item stands for, where the URL parser made
/// `parts` of its URL: the id is read from the key, and a URL that is there
/// is kept in the parser's normal form, or refused where it did not parse.
pub open spec fn converted_media(media: GetTweetsMediaView, parts: Option<UrlPartsView>) -> Result<
    MediaView,
    ConvertError,
> {
    match media_id_of(media.media_key) {
        Err(error) => Err(error),
        Ok(id) => match media.url {
            None => Ok(MediaView { id, media_type: media.media_type, file_name: None, url: None }),
            Some(_) => match parts {
                None => Err(ConvertError::Url),
                Some(url) => Ok(
                    MediaView {
                        id,
                        media_type: media.media_type,
                        file_name: None,
                        url: Some(url.href),
                    },
                ),
            },
        },
    }
}

/// What the URL parser makes of the URL of a page's media item.
pub open spec fn media_url_parts(media: GetTweetsMediaView) -> Option<UrlPartsView> {
    match media.url {
        Some(text) => url_parts(text),
        None => None,
    }
}

/// The view of a conversion's result.
pub open spec fn media_result(result: Result<Media, ConvertError>) -> Result<
    MediaView,
    ConvertError,
> {
    match result {
        Ok(media) => Ok(media@),
        Err(error) => Err(error),
    }
}

/// Reads the id that a media key holds.
pub fn parse_media_key(media_key: &str) -> (id: Result<u64, ConvertError>)
    ensures
        id == media_id_of(media_key@),
{
    let chars = chars_of(media_key);
    match find_first(&chars, '_') {
        None => Err(ConvertError::MediaKeyFormat),
        Some(at) => {
            let number = media_key.substring_char(at + 1, chars.len());
            match parse_decimal(number) {
                None => Err(ConvertError::MediaId),
                Some(id) => Ok(id),
            }
        },
    }
}

impl GetTweetsMedia {
    /// The kind of the item.
    pub fn media_type(&self) -> (kind: MediaType)
        ensures
            kind == self@.media_type,
    {
        match &self.variant {
            GetTweetsMediaVariant::Video => MediaType::Video,
            GetTweetsMediaVariant::Photo { .. } => MediaType::Photo,
            GetTweetsMediaVariant::Gif => MediaType::Gif,
        }
    }

    /// Converts the item, given what the URL parser made of its URL.
    pub fn convert_with(&self, parts: Option<UrlParts>) -> (converted: Result<Media, ConvertError>)
        ensures
            media_result(converted) == converted_media(self@, parts.deep_view()),
    {
        let id = match parse_media_key(self.media_key.as_str()) {
            Ok(id) => id,
            Err(error) => {
                return Err(error);
            },
        };
        let url = match &self.variant {
            GetTweetsMediaVariant::Photo { .. } => match parts {
                Some(url) => Some(url.href),
                None => {
                    return Err(ConvertError::Url);
                },
            },
            _ => None,
        };
        Ok(Media::new(id, self.media_type(), url))
    }

    /// Converts the item into a media item that has not been downloaded.
    pub fn convert(&self) -> (converted: Result<Media, ConvertError>)
        ensures
            media_result(converted) == converted_media(self@, media_url_parts(self@)),
    {
        let parts = match &self.variant {
            GetTweetsMediaVariant::Photo { url } => parse_url(url.as_str()),
            _ => None,
        };
        self.convert_with(parts)
    }
}

/// The first of `included` with the key `media_key`.
pub open spec fn included_media(included: Seq<GetTweetsMediaView>, media_key: Seq<char>) -> Option<
    GetTweetsMediaView,
>
    decreases included.len(),
{
    if included.len() == 0 {
        None
    } else if included[0].media_key == media_key {
        Some(included[0])
    } else {
        included_media(included.drop_first(), media_key)
    }
}

/// The media that the keys `media_keys` stand for, or the first failure.
pub open spec fn attached_media(media_keys: Seq<Seq<char>>, included: Seq<GetTweetsMediaView>)
    -> Result<Seq<MediaView>, ConvertError>
    decreases media_keys.len(),
{
    if media_keys.len() == 0 {
        Ok(Seq::empty())
    } else {
        match attached_media(media_keys.drop_last(), included) {
            Err(error) => Err(error),
            Ok(front) => match included_media(included, media_keys.last()) {
                None => Err(ConvertError::MissingMedia),
                Some(media) => match converted_media(media, media_url_parts(media)) {
                    Err(error) => Err(error),
                    Ok(converted) => Ok(front.push(converted)),
                },
            },
        }
    }
}

/// The tweet that a page's tweet stands for, where its time was read as
/// `seconds`: the first of a bad id, a bad time and a failure of its media,
/// or else the tweet.
pub open spec fn converted_tweet(
    tweet: GetTweetsTweetView,
    seconds: Option<i64>,
    included: Seq<GetTweetsMediaView>,
) -> Result<TweetView, ConvertError> {
    match parse_u64(tweet.id) {
        None => Err(ConvertError::TweetId),
        Some(id) => match seconds {
            None => Err(ConvertError::Timestamp),
            Some(timestamp) => match attached_media(tweet.media_keys, included) {
                Err(error) => Err(error),
                Ok(media) => Ok(TweetView { id, timestamp, text: tweet.text, media }),
            },
        },
    }
}

/// The tweets that a page's tweets stand for, or the first failure.
pub open spec fn converted_tweets(
    tweets: Seq<GetTweetsTweetView>,
    included: Seq<GetTweetsMediaView>,
) -> Result<Seq<TweetView>, ConvertError>
    decreases tweets.len(),
{
    if tweets.len() == 0 {
        Ok(Seq::empty())
    } else {
        match converted_tweets(tweets.drop_last(), included) {
            Err(error) => Err(error),
            Ok(front) => match converted_tweet(
                tweets.last(),
                rfc3339_seconds(tweets.last().created_at),
                included,
            ) {
                Err(error) => Err(error),
                Ok(tweet) => Ok(front.push(tweet)),
            },
        }
    }
}

/// The view of the result of converting media.
pub open spec fn media_list_result(result: Result<Vec<Media>, ConvertError>) -> Result<
    Seq<MediaView>,
    ConvertError,
> {
    match result {
        Ok(media) => Ok(media.deep_view()),
        Err(error) => Err(error),
    }
}

/// The view of the result of converting a tweet.
pub open spec fn tweet_result(result: Result<Tweet, ConvertError>) -> Result<
    TweetView,
    ConvertError,
> {
    match result {
        Ok(tweet) => Ok(tweet@),
        Err(error) => Err(error),
    }
}

/// The view of the result of converting tweets.
pub open spec fn tweets_result(result: Result<Vec<Tweet>, ConvertError>) -> Result<
    Seq<TweetView>,
    ConvertError,
> {
    match result {
        Ok(tweets) => Ok(tweets.deep_view()),
        Err(error) => Err(error),
    }
}

/// Where the first `upto` items do not have the key, the first that has it
/// is found among the rest.
proof fn included_media_skips(included: Seq<GetTweetsMediaView>, media_key: Seq<char>, upto: int)
    requires
        0 <= upto <= included.len(),
        forall|j: int| 0 <= j < upto ==> (#[trigger] included[j]).media_key != media_key,
    ensures
        included_media(included, media_key) == included_media(included.skip(upto), media_key),
    decreases upto,
{
    if upto == 0 {
        assert(included.skip(0) =~= included);
    } else {
        included_media_skips(included, media_key, upto - 1);
        let rest = included.skip(upto - 1);
        assert(rest[0] == included[upto - 1]);
        assert(rest.drop_first() =~= included.skip(upto));
    }
}

/// The first of `included` with the key `media_key`.
fn find_included<'a>(included: &'a Vec<GetTweetsMedia>, media_key: &String) -> (found: Option<
    &'a GetTweetsMedia,
>)
    ensures
        match found {
            Some(media) => included_media(included.deep_view(), media_key@) == Some(media@),
            None => included_media(included.deep_view(), media_key@) is None,
        },
{
    let ghost views = included.deep_view();
    let mut i: usize = 0;
    while i < included.len()
        invariant
            i <= included.len(),
            views == included.deep_view(),
            forall|j: int| 0 <= j < i ==> (#[trigger] views[j]).media_key != media_key@,
        decreases included.len() - i,
    {
        if included[i].media_key == *media_key {
            proof {
                included_media_skips(views, media_key@, i as int);
                assert(views.skip(i as int)[0] == views[i as int]);
            }
            return Some(&included[i]);
        }
        assert(views[i as int].media_key != media_key@);
        i += 1;
    }
    proof {
        included_media_skips(views, media_key@, included.len() as int);
        assert(views.skip(included.len() as int).len() == 0);
    }
    None
}

/// Converts the media that a tweet names by `media_keys`, in their order.
pub fn attach_media(media_keys: &Vec<String>, included: &Vec<GetTweetsMedia>) -> (attached: Result<
    Vec<Media>,
    ConvertError,
>)
    ensures
        media_list_result(attached) == attached_media(
            media_keys.deep_view(),
            included.deep_view(),
        ),
{
    let ghost keys = media_keys.deep_view();
    let ghost views = included.deep_view();
    let mut attached: Vec<Media> = Vec::new();
    assert(attached.deep_view() =~= Seq::<MediaView>::empty());
    assert(keys.take(0) =~= Seq::<Seq<char>>::empty());
    let mut i: usize = 0;
    while i < media_keys.len()
        invariant
            i <= media_keys.len(),
            keys == media_keys.deep_view(),
            views == included.deep_view(),
            attached_media(keys.take(i as int), views) == Ok::<Seq<MediaView>, ConvertError>(
                attached.deep_view(),
            ),
        decreases media_keys.len() - i,
    {
        let ghost before = attached.deep_view();
        proof {
            let upto = keys.take(i + 1);
            assert(upto.drop_last() =~= keys.take(i as int));
            assert(upto.last() == media_keys[i as int]@);
            failure_stays(keys, views, i + 1);
        }
        let media = match find_included(included, &media_keys[i]) {
            Some(media) => media,
            None => {
                return Err(ConvertError::MissingMedia);
            },
        };
        let converted = match media.convert() {
            Ok(converted) => converted,
            Err(error) => {
                return Err(error);
            },
        };
        attached.push(converted);
        assert(attached.deep_view() =~= before.push(converted@));
        i += 1;
    }
    assert(keys.take(keys.len() as int) =~= keys);
    Ok(attached)
}

/// A failure among the first keys is the failure of the whole list.
proof fn failure_stays(media_keys: Seq<Seq<char>>, included: Seq<GetTweetsMediaView>, upto: int)
    requires
        0 <= upto <= media_keys.len(),
    ensures
        attached_media(media_keys.take(upto), included) is Err ==> attached_media(
            media_keys,
            included,
        ) == attached_media(media_keys.take(upto), included),
    decreases media_keys.len() - upto,
{
    if upto < media_keys.len() {
        failure_stays(media_keys, included, upto + 1);
        assert(media_keys.take(upto + 1).drop_last() =~= media_keys.take(upto));
    } else {
        assert(media_keys.take(upto) =~= media_keys);
    }
}

/// A failure among the first tweets is the failure of the whole page.
proof fn page_failure_stays(
    tweets: Seq<GetTweetsTweetView>,
    included: Seq<GetTweetsMediaView>,
    upto: int,
)
    requires
        0 <= upto <= tweets.len(),
    ensures
        converted_tweets(tweets.take(upto), included) is Err ==> converted_tweets(tweets, included)
            == converted_tweets(tweets.take(upto), included),
    decreases tweets.len() - upto,
{
    if upto < tweets.len() {
        page_failure_stays(tweets, included, upto + 1);
        assert(tweets.take(upto + 1).drop_last() =~= tweets.take(upto));
    } else {
        assert(tweets.take(upto) =~= tweets);
    }
}

/// Converts one tweet of a page, given the seconds that its time was read as.
pub fn convert_tweet(tweet: GetTweetsTweet, seconds: Option<i64>, included: &Vec<GetTweetsMedia>)
    -> (converted: Result<Tweet, ConvertError>)
    ensures
        tweet_result(converted) == converted_tweet(tweet@, seconds, included.deep_view()),
{
    let id = match parse_decimal(tweet.id.as_str()) {
        Some(id) => id,
        None => {
            return Err(ConvertError::TweetId);
        },
    };
    let timestamp = match seconds {
        Some(timestamp) => timestamp,
        None => {
            return Err(ConvertError::Timestamp);
        },
    };
    let media = match attach_media(&tweet.attachments.media_keys, included) {
        Ok(media) => media,
        Err(error) => {
            return Err(error);
        },
    };
    Ok(Tweet { id, timestamp, text: tweet.text, media })
}

/// Converts the tweets of a page, with the media that the page includes.
///
/// The result is the converted tweets in the order of the page, or the
/// failure of the first tweet that cannot be converted.
pub fn convert_tweets(tweets: Vec<GetTweetsTweet>, media: Vec<GetTweetsMedia>) -> (converted:
    Result<Vec<Tweet>, ConvertError>)
    ensures
        tweets_result(converted) == converted_tweets(tweets.deep_view(), media.deep_view()),
{
    let ghost page = tweets.deep_view();
    let ghost included = media.deep_view();
    let mut converted: Vec<Tweet> = Vec::new();
    assert(converted.deep_view() =~= Seq::<TweetView>::empty());
    assert(page.take(0) =~= Seq::<GetTweetsTweetView>::empty());
    for tweet in it: tweets
        invariant
            it.seq().len() == page.len(),
            forall|i: int| 0 <= i < page.len() ==> page[i] == (#[trigger] it.seq()[i])@,
            page == tweets.deep_view(),
            included == media.deep_view(),
            converted_tweets(page.take(it.index() as int), included) == Ok::<
                Seq<TweetView>,
                ConvertError,
            >(converted.deep_view()),
    {
        let ghost before = converted.deep_view();
        proof {
            let upto = page.take(it.index() + 1);
            assert(upto.drop_last() =~= page.take(it.index() as int));
            assert(upto.last() == tweet@);
            page_failure_stays(page, included, it.index() + 1);
        }
        let seconds = parse_rfc3339(tweet.created_at.as_str());
        let next = match convert_tweet(tweet, seconds, &media) {
            Ok(next) => next,
            Err(error) => {
                return Err(error);
            },
        };
        converted.push(next);
        assert(converted.deep_view() =~= before.push(next@));
    }
    assert(page.take(page.len() as int) =~= page);
    Ok(converted)
}

/// The parameters of the request for a page of a timeline: retweets left
/// out, a hundred tweets to a page, the media and their fields included, then
/// the id to start after and the token of the page, where there is one.
pub open spec fn page_query(since_id: Option<u64>, pagination_token: Option<Seq<char>>) -> Seq<
    (Seq<char>, Seq<char>),
> {
    let fixed = seq![
        ("exclude"@, "retweets"@),
        ("max_results"@, "100"@),
        ("media.fields"@, "url,type,media_key,preview_image_url"@),
        ("tweet.fields"@, "created_at"@),
        ("expansions"@, "attachments.media_keys"@),
    ];
    let since = match since_id {
        Some(id) => seq![("since_id"@, crate::text::decimal(id as nat))],
        None => Seq::empty(),
    };
    let token = match pagination_token {
        Some(token) => seq![("pagination_token"@, token)],
        None => Seq::empty(),
    };
    fixed + since + token
}

/// Builds [`page_query`].
pub fn timeline_query(since_id: Option<u64>, pagination_token: Option<String>) -> (query: Vec<
    (String, String),
>)
    ensures
        query.deep_view() == page_query(since_id, pagination_token.deep_view()),
{
    let mut query: Vec<(String, String)> = Vec::new();
    query.push((String::from_str("exclude"), String::from_str("retweets")));
    query.push((String::from_str("max_results"), String::from_str("100")));
    query.push(
        (
            String::from_str("media.fields"),
            String::from_str("url,type,media_key,preview_image_url"),
        ),
    );
    query.push((String::from_str("tweet.fields"), String::from_str("created_at")));
    query.push((String::from_str("expansions"), String::from_str("attachments.media_keys")));
    match since_id {
        Some(id) => {
            query.push((String::from_str("since_id"), to_decimal(id)));
        },
        None => {},
    }
    match pagination_token {
        Some(token) => {
            query.push((String::from_str("pagination_token"), token));
        },
        None => {},
    }
    assert(query.deep_view() =~= page_query(since_id, pagination_token.deep_view()));
    query
}

} // verus!
