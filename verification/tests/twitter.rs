use tweet_mirror::model::{Media, MediaType, Tweet};
use tweet_mirror::source_url::UrlParts;
use tweet_mirror::twitter::v1::{
    best_variant, get_video_url, MediaEntity, Status, VideoInfo, VideoVariant,
};
use tweet_mirror::twitter::v2::{
    attach_media, convert_tweet, convert_tweets, parse_media_key, timeline_query, GetTweetsMedia,
    GetTweetsMediaVariant, GetTweetsTweet, GetTweetsTweetAttachment,
};
use tweet_mirror::twitter::{Authentication, ConvertError, Timeline};

fn included(media_key: &str, variant: GetTweetsMediaVariant) -> GetTweetsMedia {
    GetTweetsMedia { media_key: media_key.to_string(), variant }
}

fn photo_at(media_key: &str, url: &str) -> GetTweetsMedia {
    included(media_key, GetTweetsMediaVariant::Photo { url: url.to_string() })
}

fn page_tweet(id: &str, created_at: &str, media_keys: Vec<&str>) -> GetTweetsTweet {
    GetTweetsTweet {
        id: id.to_string(),
        text: format!("text of {id}"),
        created_at: created_at.to_string(),
        attachments: GetTweetsTweetAttachment {
            media_keys: media_keys.into_iter().map(|key| key.to_string()).collect(),
        },
    }
}

fn variant(bitrate: Option<i32>, url: &str) -> VideoVariant {
    VideoVariant { bitrate, url: url.to_string() }
}

fn video(id: u64, media_type: MediaType, variants: Option<Vec<VideoVariant>>) -> MediaEntity {
    MediaEntity {
        id,
        media_type,
        media_url_https: "https://pbs.twimg.com/thumb/still.jpg".to_string(),
        video_info: variants.map(|variants| VideoInfo { variants }),
    }
}

#[test]
fn the_authorization_is_the_bearer_token() {
    let auth = Authentication { bearer_token: "SECRET-REDACTED".to_string() };
    assert_eq!(auth.authorization(), "Bearer SECRET-REDACTED");
}

#[test]
fn a_media_key_holds_the_id_after_the_underscore() {
    assert_eq!(parse_media_key("3_1234567890"), Ok(1234567890));
    assert_eq!(parse_media_key("16_0"), Ok(0));
    assert_eq!(parse_media_key("_5"), Ok(5));
}

#[test]
fn a_media_key_without_underscore_has_a_bad_format() {
    assert_eq!(parse_media_key("31234"), Err(ConvertError::MediaKeyFormat));
    assert_eq!(parse_media_key(""), Err(ConvertError::MediaKeyFormat));
}

#[test]
fn a_media_key_without_number_has_a_bad_id() {
    assert_eq!(parse_media_key("3_"), Err(ConvertError::MediaId));
    assert_eq!(parse_media_key("3_12_34"), Err(ConvertError::MediaId));
    assert_eq!(parse_media_key("3_abc"), Err(ConvertError::MediaId));
    assert_eq!(parse_media_key("3_99999999999999999999"), Err(ConvertError::MediaId));
}

#[test]
fn a_photo_of_a_page_keeps_its_url() {
    let media = photo_at("3_77", "https://pbs.twimg.com/media/abc.jpg").convert();
    assert_eq!(
        media,
        Ok(Media {
            id: 77,
            media_type: MediaType::Photo,
            file_name: None,
            url: Some("https://pbs.twimg.com/media/abc.jpg".to_string()),
        })
    );
}

#[test]
fn the_url_of_a_photo_is_kept_in_the_normal_form_of_the_parser() {
    let media = photo_at("3_77", "HTTPS://PBS.twimg.com:443/media/../abc.jpg").convert().unwrap();
    assert_eq!(media.url, Some("https://pbs.twimg.com/abc.jpg".to_string()));
}

#[test]
fn a_photo_whose_url_does_not_parse_is_refused() {
    assert_eq!(photo_at("3_77", "no url").convert(), Err(ConvertError::Url));
    assert_eq!(photo_at("3_77", "").convert(), Err(ConvertError::Url));
}

#[test]
fn a_video_or_a_gif_of_a_page_has_no_url() {
    assert_eq!(
        included("7_5", GetTweetsMediaVariant::Video).convert(),
        Ok(Media { id: 5, media_type: MediaType::Video, file_name: None, url: None })
    );
    assert_eq!(
        included("16_6", GetTweetsMediaVariant::Gif).convert(),
        Ok(Media { id: 6, media_type: MediaType::Gif, file_name: None, url: None })
    );
}

#[test]
fn the_key_is_looked_at_before_the_url() {
    assert_eq!(photo_at("377", "no url").convert(), Err(ConvertError::MediaKeyFormat));
    assert_eq!(photo_at("3_x", "no url").convert(), Err(ConvertError::MediaId));
}

#[test]
fn convert_with_takes_the_parts_as_they_are_given() {
    let parts = UrlParts { href: "https://x.test/n.jpg".to_string(), path: "/n.jpg".to_string() };
    let media = photo_at("3_9", "whatever").convert_with(Some(parts.clone())).unwrap();
    assert_eq!(media.url, Some("https://x.test/n.jpg".to_string()));
    assert_eq!(photo_at("3_9", "whatever").convert_with(None), Err(ConvertError::Url));
    let video = included("7_9", GetTweetsMediaVariant::Video).convert_with(Some(parts)).unwrap();
    assert_eq!(video.url, None);
}

#[test]
fn the_media_of_a_tweet_are_found_by_their_keys() {
    let page_media = vec![
        photo_at("3_1", "https://pbs.twimg.com/media/one.jpg"),
        photo_at("3_2", "https://pbs.twimg.com/media/two.jpg"),
        photo_at("3_1", "https://pbs.twimg.com/media/other.jpg"),
    ];
    let keys = vec!["3_2".to_string(), "3_1".to_string()];
    let attached = attach_media(&keys, &page_media).unwrap();
    assert_eq!(attached.len(), 2);
    assert_eq!(attached[0].id, 2);
    assert_eq!(attached[1].id, 1);
    assert_eq!(attached[1].url, Some("https://pbs.twimg.com/media/one.jpg".to_string()));
}

#[test]
fn a_key_that_the_page_does_not_include_is_missing_media() {
    let page_media = vec![photo_at("3_1", "https://pbs.twimg.com/media/one.jpg")];
    let keys = vec!["3_1".to_string(), "3_2".to_string()];
    assert_eq!(attach_media(&keys, &page_media), Err(ConvertError::MissingMedia));
    assert_eq!(attach_media(&Vec::new(), &page_media), Ok(Vec::new()));
}

#[test]
fn the_tweets_of_a_page_are_converted_in_order() {
    let page_media = vec![
        photo_at("3_11", "https://pbs.twimg.com/media/a.jpg"),
        included("7_12", GetTweetsMediaVariant::Video),
    ];
    let tweets = vec![
        page_tweet("1500000000000000001", "2022-03-01T12:00:00.000Z", vec!["3_11", "7_12"]),
        page_tweet("1500000000000000000", "1996-12-19T16:39:57-08:00", vec![]),
    ];
    let converted = convert_tweets(tweets, page_media).unwrap();
    assert_eq!(converted.len(), 2);
    assert_eq!(converted[0].id, 1500000000000000001);
    assert_eq!(converted[0].timestamp, 1646136000);
    assert_eq!(converted[0].text, "text of 1500000000000000001");
    assert_eq!(converted[0].media.len(), 2);
    assert_eq!(converted[0].media[0].id, 11);
    assert_eq!(converted[0].media[1].media_type, MediaType::Video);
    assert_eq!(converted[1].id, 1500000000000000000);
    assert_eq!(converted[1].timestamp, 851042397);
    assert!(converted[1].media.is_empty());
}

#[test]
fn an_empty_page_gives_no_tweets() {
    assert_eq!(convert_tweets(Vec::new(), Vec::new()).map(|tweets| tweets.len()), Ok(0));
}

#[test]
fn a_tweet_with_a_bad_id_is_refused() {
    let tweets = vec![page_tweet("12x", "2022-03-01T12:00:00Z", vec![])];
    assert_eq!(convert_tweets(tweets, Vec::new()).err(), Some(ConvertError::TweetId));
}

#[test]
fn a_tweet_with_a_bad_time_is_refused() {
    for created_at in ["", "yesterday", "2022-03-01", "2022-03-01 12:00:00", "2022-13-01T12:00:00Z"] {
        let tweets = vec![page_tweet("12", created_at, vec![])];
        assert_eq!(convert_tweets(tweets, Vec::new()).err(), Some(ConvertError::Timestamp), "{created_at:?}");
    }
}

#[test]
fn the_first_failure_of_a_page_is_reported() {
    let page_media = vec![photo_at("3_1", "no url")];
    let tweets = vec![
        page_tweet("1", "2022-03-01T12:00:00Z", vec![]),
        page_tweet("2", "2022-03-01T12:00:00Z", vec!["3_1"]),
        page_tweet("x", "never", vec!["3_9"]),
    ];
    assert_eq!(convert_tweets(tweets, page_media).err(), Some(ConvertError::Url));
    // In one tweet the id comes before the time, and the time before the media.
    let tweets = vec![page_tweet("x", "never", vec!["3_9"])];
    assert_eq!(convert_tweets(tweets, Vec::new()).err(), Some(ConvertError::TweetId));
    let tweets = vec![page_tweet("3", "never", vec!["3_9"])];
    assert_eq!(convert_tweets(tweets, Vec::new()).err(), Some(ConvertError::Timestamp));
    let tweets = vec![page_tweet("3", "2022-03-01T12:00:00Z", vec!["3_9"])];
    assert_eq!(convert_tweets(tweets, Vec::new()).err(), Some(ConvertError::MissingMedia));
}

#[test]
fn convert_tweet_takes_the_seconds_as_they_are_given() {
    let tweet = page_tweet("42", "ignored", vec![]);
    let converted = convert_tweet(tweet.clone(), Some(-5), &Vec::new()).unwrap();
    assert_eq!(converted.id, 42);
    assert_eq!(converted.timestamp, -5);
    assert_eq!(convert_tweet(tweet, None, &Vec::new()).err(), Some(ConvertError::Timestamp));
}

#[test]
fn the_query_of_a_page_has_its_fixed_parameters() {
    let query = timeline_query(None, None);
    let expected = vec![
        ("exclude", "retweets"),
        ("max_results", "100"),
        ("media.fields", "url,type,media_key,preview_image_url"),
        ("tweet.fields", "created_at"),
        ("expansions", "attachments.media_keys"),
    ];
    let expected: Vec<(String, String)> =
        expected.into_iter().map(|(key, value)| (key.to_string(), value.to_string())).collect();
    assert_eq!(query, expected);
}

#[test]
fn the_query_of_a_page_names_the_cursor_and_the_token() {
    let query = timeline_query(Some(1500000000000000001), Some("7140dibdnow9c7btw3w".to_string()));
    assert_eq!(query.len(), 7);
    assert_eq!(query[5], ("since_id".to_string(), "1500000000000000001".to_string()));
    assert_eq!(query[6], ("pagination_token".to_string(), "7140dibdnow9c7btw3w".to_string()));
    let query = timeline_query(None, Some("t".to_string()));
    assert_eq!(query.len(), 6);
    assert_eq!(query[5], ("pagination_token".to_string(), "t".to_string()));
}

#[test]
fn the_best_encoding_has_the_greatest_bitrate() {
    let variants = vec![
        variant(Some(256_000), "https://video.twimg.com/low.mp4"),
        variant(None, "https://video.twimg.com/playlist.m3u8"),
        variant(Some(2_176_000), "https://video.twimg.com/high.mp4"),
        variant(Some(832_000), "https://video.twimg.com/mid.mp4"),
    ];
    assert_eq!(best_variant(&variants), Some(2));
    let entity = video(1, MediaType::Video, Some(variants));
    assert_eq!(get_video_url(&entity), Ok("https://video.twimg.com/high.mp4".to_string()));
}

#[test]
fn of_equal_bitrates_the_last_is_the_best() {
    let variants = vec![
        variant(Some(0), "https://video.twimg.com/first.mp4"),
        variant(Some(0), "https://video.twimg.com/second.mp4"),
        variant(None, "https://video.twimg.com/third.m3u8"),
    ];
    assert_eq!(best_variant(&variants), Some(1));
    let same = variants.iter().filter(|v| v.bitrate.is_some()).max_by_key(|v| v.bitrate.unwrap());
    assert_eq!(same.map(|v| v.url.clone()), Some(variants[1].url.clone()));
}

#[test]
fn negative_bitrates_are_compared_as_numbers() {
    let variants = vec![
        variant(Some(-5), "https://video.twimg.com/a.mp4"),
        variant(Some(-7), "https://video.twimg.com/b.mp4"),
    ];
    assert_eq!(best_variant(&variants), Some(0));
    assert_eq!(best_variant(&vec![variant(Some(i32::MIN), "https://video.twimg.com/a.mp4")]), Some(0));
}

#[test]
fn a_video_without_information_or_bitrate_has_no_url() {
    assert_eq!(get_video_url(&video(1, MediaType::Video, None)), Err(ConvertError::MissingVideoInfo));
    assert_eq!(
        get_video_url(&video(1, MediaType::Video, Some(Vec::new()))),
        Err(ConvertError::MissingVideoVariant)
    );
    assert_eq!(
        get_video_url(&video(1, MediaType::Gif, Some(vec![variant(None, "https://x.test/a.m3u8")]))),
        Err(ConvertError::MissingVideoVariant)
    );
    assert_eq!(best_variant(&Vec::new()), None);
}

#[test]
fn a_photo_is_fetched_from_its_own_url() {
    let mut entity = video(9, MediaType::Photo, None);
    entity.media_url_https = "https://pbs.twimg.com/media/p.jpg".to_string();
    assert_eq!(entity.location(), Ok("https://pbs.twimg.com/media/p.jpg".to_string()));
    assert_eq!(
        Media::from_entity(&entity),
        Ok(Media {
            id: 9,
            media_type: MediaType::Photo,
            file_name: None,
            url: Some("https://pbs.twimg.com/media/p.jpg".to_string()),
        })
    );
}

#[test]
fn a_video_is_fetched_from_its_best_encoding() {
    let entity = video(
        9,
        MediaType::Gif,
        Some(vec![variant(Some(0), "HTTPS://video.twimg.com/tweet_video/clip.mp4")]),
    );
    let media = Media::from_entity(&entity).unwrap();
    assert_eq!(media.media_type, MediaType::Gif);
    assert_eq!(media.url, Some("https://video.twimg.com/tweet_video/clip.mp4".to_string()));
    assert_eq!(media.file_name, None);
}

#[test]
fn a_media_item_that_cannot_be_located_is_refused() {
    assert_eq!(Media::from_entity(&video(9, MediaType::Video, None)), Err(ConvertError::MissingVideoInfo));
    let mut photo = video(9, MediaType::Photo, None);
    photo.media_url_https = "::".to_string();
    assert_eq!(Media::from_entity(&photo), Err(ConvertError::Url));
    let parts = UrlParts { href: "https://x.test/".to_string(), path: "/".to_string() };
    assert_eq!(
        video(9, MediaType::Video, None).convert_with(Some(parts)),
        Err(ConvertError::MissingVideoInfo)
    );
}

#[test]
fn a_status_becomes_a_tweet_with_its_media() {
    let mut photo = video(1, MediaType::Photo, None);
    photo.media_url_https = "https://pbs.twimg.com/media/p.jpg".to_string();
    let clip = video(2, MediaType::Video, Some(vec![variant(Some(1), "https://video.twimg.com/c.mp4")]));
    let status = Status {
        id: 77,
        created_at: 1_600_000_000,
        text: "hello".to_string(),
        media: Some(vec![photo, clip]),
    };
    let tweet = Tweet::from_status(status).unwrap();
    assert_eq!(tweet.id, 77);
    assert_eq!(tweet.timestamp, 1_600_000_000);
    assert_eq!(tweet.text, "hello");
    assert_eq!(tweet.media.len(), 2);
    assert_eq!(tweet.media[1].url, Some("https://video.twimg.com/c.mp4".to_string()));
    let bare = Status { id: 78, created_at: 0, text: String::new(), media: None };
    assert!(Tweet::from_status(bare).unwrap().media.is_empty());
}

#[test]
fn a_status_with_media_that_cannot_be_located_is_refused() {
    let mut photo = video(1, MediaType::Photo, None);
    photo.media_url_https = "https://pbs.twimg.com/media/p.jpg".to_string();
    let status = Status {
        id: 77,
        created_at: 0,
        text: String::new(),
        media: Some(vec![photo, video(2, MediaType::Video, Some(Vec::new())), video(3, MediaType::Gif, None)]),
    };
    assert_eq!(Tweet::from_status(status).err(), Some(ConvertError::MissingVideoVariant));
}

#[test]
fn a_timeline_is_walked_until_a_page_names_no_next() {
    let tweet = |id: u64| Tweet { id, timestamp: 0, text: String::new(), media: Vec::new() };
    let mut timeline = Timeline::new();
    assert!(timeline.tweets.is_empty());
    assert_eq!(timeline.next_token, None);
    assert!(timeline.add_page(vec![tweet(9), tweet(8)], Some("next".to_string())));
    assert_eq!(timeline.next_token, Some("next".to_string()));
    assert!(timeline.add_page(Vec::new(), Some("more".to_string())));
    assert!(!timeline.add_page(vec![tweet(7)], None));
    assert_eq!(timeline.next_token, None);
    assert_eq!(timeline.tweets.iter().map(|tweet| tweet.id).collect::<Vec<u64>>(), vec![9, 8, 7]);
}

#[test]
fn a_timeline_is_walked_back_until_a_page_is_empty() {
    let tweet = |id: u64| Tweet { id, timestamp: 0, text: String::new(), media: Vec::new() };
    let mut timeline = Timeline::new();
    assert!(timeline.add_older(vec![tweet(9), tweet(8)]));
    assert!(timeline.add_older(vec![tweet(7)]));
    assert!(!timeline.add_older(Vec::new()));
    assert_eq!(timeline.tweets.iter().map(|tweet| tweet.id).collect::<Vec<u64>>(), vec![9, 8, 7]);
}
