//! Tweets as version 1.1 of the API returns them: each tweet holds its media,
//! and a video or an animated image lists its encodings.

use crate::model::{Media, MediaType, MediaView, Tweet, TweetView};
use crate::source_url::{parse_url, url_parts, UrlParts, UrlPartsView};
use crate::twitter::ConvertError;
use vstd::prelude::*;

verus! {

/// One encoding of a video.
#[derive(Clone, Debug, PartialEq, Eq)]
pub struct VideoVariant {
    /// The bitrate, where the encoding states one.
    pub bitrate: Option<i32>,
    /// Where to fetch the encoding.
    pub url: String,
}

/// The view of a [`VideoVariant`].
pub struct VideoVariantView {
    pub bitrate: Option<i32>,
    pub url: Seq<char>,
}

impl View for VideoVariant {
    type V = VideoVariantView;

    open spec fn view(&self) -> VideoVariantView {
        VideoVariantView { bitrate: self.bitrate, url: self.url@ }
    }
}

impl DeepView for VideoVariant {
    type V = VideoVariantView;

    open spec fn deep_view(&self) -> VideoVariantView {
        self@
    }
}

/// What is known of a video.
#[derive(Clone, Debug, PartialEq, Eq)]
pub struct VideoInfo {
    pub variants: Vec<VideoVariant>,
}

/// A media item as a tweet holds it.
#[derive(Clone, Debug, PartialEq, Eq)]
pub struct MediaEntity {
    pub id: u64,
    pub media_type: MediaType,
    /// The URL of the file; for a video or an animated image, of a still.
    pub media_url_https: String,
    /// The encodings of a video or an animated image.
    pub video_info: Option<VideoInfo>,
}

/// The view of a [`MediaEntity`].
pub struct MediaEntityView {
    pub id: u64,
    pub media_type: MediaType,
    pub media_url_https: Seq<char>,
    pub variants: Option<Seq<VideoVariantView>>,
}

impl View for MediaEntity {
    type V = MediaEntityView;

    open spec fn view(&self) -> MediaEntityView {
        MediaEntityView {
            id: self.id,
            media_type: self.media_type,
            media_url_https: self.media_url_https@,
            variants: match self.video_info {
                Some(info) => Some(info.variants.deep_view()),
                None => None,
            },
        }
    }
}

impl DeepView for MediaEntity {
    type V = MediaEntityView;

    open spec fn deep_view(&self) -> MediaEntityView {
        self@
    }
}

/// A tweet as the API returns it.
#[derive(Clone, Debug, PartialEq, Eq)]
pub struct Status {
    pub id: u64,
    /// When the tweet was made, in seconds since the Unix epoch.
    pub created_at: i64,
    pub text: String,
    /// The media of the tweet, where it has any.
    pub media: Option<Vec<MediaEntity>>,
}

/// The view of a [`Status`].
pub struct StatusView {
    pub id: u64,
    pub created_at: i64,
    pub text: Seq<char>,
    pub media: Seq<MediaEntityView>,
}

impl View for Status {
    type V = StatusView;

    open spec fn view(&self) -> StatusView {
        StatusView {
            id: self.id,
            created_at: self.created_at,
            text: self.text@,
            media: match self.media {
                Some(media) => media.deep_view(),
                None => Seq::empty(),
            },
        }
    }
}

impl DeepView for Status {
    type V = StatusView;

    open spec fn deep_view(&self) -> StatusView {
        self@
    }
}

/// Whether the `at`-th encoding is the best: it states a bitrate, every
/// encoding before it that states one states no greater one, and every
/// encoding after it that states one states a smaller one.
pub open spec fn is_best_variant(variants: Seq<VideoVariantView>, at: int) -> bool {
    &&& 0 <= at < variants.len()
    &&& variants[at].bitrate is Some
    &&& forall|j: int|
        0 <= j < at && (#[trigger] variants[j]).bitrate is Some ==> variants[j].bitrate->0
            <= variants[at].bitrate->0
    &&& forall|j: int|
        at < j < variants.len() && (#[trigger] variants[j]).bitrate is Some
            ==> variants[j].bitrate->0 < variants[at].bitrate->0
}

/// Whether one of the encodings states a bitrate.
pub open spec fn has_bitrate(variants: Seq<VideoVariantView>) -> bool {
    exists|j: int| 0 <= j < variants.len() && (#[trigger] variants[j]).bitrate is Some
}

/// There is at most one best encoding.
pub proof fn best_variant_is_unique(variants: Seq<VideoVariantView>, a: int, b: int)
    requires
        is_best_variant(variants, a),
        is_best_variant(variants, b),
    ensures
        a == b,
{
    if a < b {
        assert(variants[b].bitrate->0 < variants[a].bitrate->0);
        assert(variants[a].bitrate->0 <= variants[b].bitrate->0);
    } else if b < a {
        assert(variants[a].bitrate->0 < variants[b].bitrate->0);
        assert(variants[b].bitrate->0 <= variants[a].bitrate->0);
    }
}

/// The place of the best encoding among `variants`, if one states a bitrate.
pub open spec fn best_variant_of(variants: Seq<VideoVariantView>) -> Option<int> {
    if has_bitrate(variants) {
        Some(choose|at: int| is_best_variant(variants, at))
    } else {
        None
    }
}

/// Finds the best encoding among `variants`: the one with the greatest
/// bitrate, the last of several.
pub fn best_variant(variants: &Vec<VideoVariant>) -> (best: Option<usize>)
    ensures
        match best {
            Some(at) => is_best_variant(variants.deep_view(), at as int) && best_variant_of(
                variants.deep_view(),
            ) == Some(at as int),
            None => best_variant_of(variants.deep_view()) is None,
        },
{
    let ghost views = variants.deep_view();
    let mut best: Option<usize> = None;
    let mut greatest: i32 = 0;
    let mut i: usize = 0;
    while i < variants.len()
        invariant
            i <= variants.len(),
            views == variants.deep_view(),
            match best {
                Some(at) => at < i && views[at as int].bitrate == Some(greatest)
                    && is_best_variant(views.take(i as int), at as int),
                None => forall|j: int| 0 <= j < i ==> (#[trigger] views[j]).bitrate is None,
            },
        decreases variants.len() - i,
    {
        let ghost upto = views.take(i as int);
        let ghost next = views.take(i + 1);
        assert(views[i as int].bitrate == variants[i as int].bitrate);
        assert forall|j: int| 0 <= j < i implies next[j] == upto[j] by {}
        assert(next[i as int] == views[i as int]);
        match variants[i].bitrate {
            Some(bitrate) => {
                if best.is_none() || bitrate >= greatest {
                    best = Some(i);
                    greatest = bitrate;
                    assert(is_best_variant(next, i as int));
                } else {
                    assert(is_best_variant(next, best.unwrap() as int));
                }
            },
            None => {
                assert(best is Some ==> is_best_variant(next, best.unwrap() as int));
            },
        }
        i += 1;
    }
    assert(views.take(views.len() as int) =~= views);
    proof {
        match best {
            Some(at) => {
                assert(views[at as int].bitrate is Some);
                assert(has_bitrate(views));
                let chosen = choose|at: int| is_best_variant(views, at);
                best_variant_is_unique(views, chosen, at as int);
            },
            None => {
                assert(!has_bitrate(views));
            },
        }
    }
    best
}

/// Where the video of `variants` is to be fetched from: the URL of its best
/// encoding. Fails where nothing is known of the video, or where no encoding
/// states a bitrate.
pub open spec fn video_location(variants: Option<Seq<VideoVariantView>>) -> Result<
    Seq<char>,
    ConvertError,
> {
    match variants {
        None => Err(ConvertError::MissingVideoInfo),
        Some(variants) => match best_variant_of(variants) {
            None => Err(ConvertError::MissingVideoVariant),
            Some(at) => Ok(variants[at].url),
        },
    }
}

/// Where the file of a media item is to be fetched from: for a photo its
/// URL, for a video or an animated image the URL of its best encoding.
pub open spec fn entity_location(entity: MediaEntityView) -> Result<Seq<char>, ConvertError> {
    match entity.media_type {
        MediaType::Photo => Ok(entity.media_url_https),
        _ => video_location(entity.variants),
    }
}

/// The view of a location.
pub open spec fn location_view(location: Result<String, ConvertError>) -> Result<
    Seq<char>,
    ConvertError,
> {
    match location {
        Ok(text) => Ok(text@),
        Err(error) => Err(error),
    }
}

/// Computes [`video_location`] for a media item.
pub fn get_video_url(entity: &MediaEntity) -> (url: Result<String, ConvertError>)
    ensures
        location_view(url) == video_location(entity@.variants),
{
    let info = match &entity.video_info {
        Some(info) => info,
        None => {
            return Err(ConvertError::MissingVideoInfo);
        },
    };
    match best_variant(&info.variants) {
        Some(at) => {
            assert(info.variants.deep_view()[at as int].url == info.variants[at as int].url@);
            Ok(info.variants[at].url.clone())
        },
        None => Err(ConvertError::MissingVideoVariant),
    }
}

/// What the URL parser makes of a location.
pub open spec fn location_parts(location: Result<Seq<char>, ConvertError>) -> Option<UrlPartsView> {
    match location {
        Ok(text) => url_parts(text),
        Err(_) => None,
    }
}

/// The media item that a tweet's item stands for, where the URL parser made
/// `parts` of its location: the failure to find the location, or the failure
/// of the parser, or else the item with the location in the parser's normal
/// form.
pub open spec fn media_of_entity(entity: MediaEntityView, parts: Option<UrlPartsView>) -> Result<
    MediaView,
    ConvertError,
> {
    match entity_location(entity) {
        Err(error) => Err(error),
        Ok(_) => match parts {
            None => Err(ConvertError::Url),
            Some(url) => Ok(
                MediaView {
                    id: entity.id,
                    media_type: entity.media_type,
                    file_name: None,
                    url: Some(url.href),
                },
            ),
        },
    }
}

/// The view of a conversion's result.
pub open spec fn entity_result(result: Result<Media, ConvertError>) -> Result<
    MediaView,
    ConvertError,
> {
    match result {
        Ok(media) => Ok(media@),
        Err(error) => Err(error),
    }
}

impl MediaEntity {
    /// Computes [`entity_location`].
    pub fn location(&self) -> (location: Result<String, ConvertError>)
        ensures
            location_view(location) == entity_location(self@),
    {
        match self.media_type {
            MediaType::Photo => Ok(self.media_url_https.clone()),
            MediaType::Video => get_video_url(self),
            MediaType::Gif => get_video_url(self),
        }
    }

    /// Converts the item, given what the URL parser made of its location.
    pub fn convert_with(&self, parts: Option<UrlParts>) -> (converted: Result<Media, ConvertError>)
        ensures
            entity_result(converted) == media_of_entity(self@, parts.deep_view()),
    {
        match self.location() {
            Err(error) => Err(error),
            Ok(_) => match parts {
                None => Err(ConvertError::Url),
                Some(url) => Ok(Media::new(self.id, self.media_type, Some(url.href))),
            },
        }
    }
}

impl Media {
    /// Converts a media item of a tweet into one that has not been
    /// downloaded, to be fetched from the item's location.
    pub fn from_entity(entity: &MediaEntity) -> (converted: Result<Media, ConvertError>)
        ensures
            entity_result(converted) == media_of_entity(
                entity@,
                location_parts(entity_location(entity@)),
            ),
    {
        let parts = match entity.location() {
            Ok(text) => parse_url(text.as_str()),
            Err(_) => None,
        };
        entity.convert_with(parts)
    }
}

/// The media that the items `entities` stand for, or the first failure.
pub open spec fn media_of_entities(entities: Seq<MediaEntityView>) -> Result<
    Seq<MediaView>,
    ConvertError,
>
    decreases entities.len(),
{
    if entities.len() == 0 {
        Ok(Seq::empty())
    } else {
        match media_of_entities(entities.drop_last()) {
            Err(error) => Err(error),
            Ok(front) => match media_of_entity(
                entities.last(),
                location_parts(entity_location(entities.last())),
            ) {
                Err(error) => Err(error),
                Ok(media) => Ok(front.push(media)),
            },
        }
    }
}

/// The tweet that `status` stands for, or the first failure of its media.
pub open spec fn tweet_of_status(status: StatusView) -> Result<TweetView, ConvertError> {
    match media_of_entities(status.media) {
        Err(error) => Err(error),
        Ok(media) => Ok(
            TweetView { id: status.id, timestamp: status.created_at, text: status.text, media },
        ),
    }
}

/// The view of a conversion's result.
pub open spec fn status_result(result: Result<Tweet, ConvertError>) -> Result<
    TweetView,
    ConvertError,
> {
    match result {
        Ok(tweet) => Ok(tweet@),
        Err(error) => Err(error),
    }
}

/// A failure among the first items is the failure of the whole list.
proof fn entity_failure_stays(entities: Seq<MediaEntityView>, upto: int)
    requires
        0 <= upto <= entities.len(),
    ensures
        media_of_entities(entities.take(upto)) is Err ==> media_of_entities(entities)
            == media_of_entities(entities.take(upto)),
    decreases entities.len() - upto,
{
    if upto < entities.len() {
        entity_failure_stays(entities, upto + 1);
        assert(entities.take(upto + 1).drop_last() =~= entities.take(upto));
    } else {
        assert(entities.take(upto) =~= entities);
    }
}

impl Tweet {
    /// Converts a tweet of the API, with its media in their order.
    pub fn from_status(status: Status) -> (converted: Result<Tweet, ConvertError>)
        ensures
            status_result(converted) == tweet_of_status(status@),
    {
        let ghost entities = status@.media;
        let Status { id, created_at, text, media } = status;
        let mut converted: Vec<Media> = Vec::new();
        assert(converted.deep_view() =~= Seq::<MediaView>::empty());
        match media {
            Some(list) => {
                assert(entities.take(0) =~= Seq::<MediaEntityView>::empty());
                let mut i: usize = 0;
                while i < list.len()
                    invariant
                        i <= list.len(),
                        entities == list.deep_view(),
                        entities == status@.media,
                        media_of_entities(entities.take(i as int)) == Ok::<
                            Seq<MediaView>,
                            ConvertError,
                        >(converted.deep_view()),
                    decreases list.len() - i,
                {
                    let ghost before = converted.deep_view();
                    proof {
                        let upto = entities.take(i + 1);
                        assert(upto.drop_last() =~= entities.take(i as int));
                        assert(upto.last() == list[i as int]@);
                        entity_failure_stays(entities, i + 1);
                    }
                    let next = match Media::from_entity(&list[i]) {
                        Ok(next) => next,
                        Err(error) => {
                            return Err(error);
                        },
                    };
                    converted.push(next);
                    assert(converted.deep_view() =~= before.push(next@));
                    i += 1;
                }
                assert(entities.take(entities.len() as int) =~= entities);
            },
            None => {},
        }
        Ok(Tweet { id, timestamp: created_at, text, media: converted })
    }
}

} // verus!
