use tweet_mirror::model::{DataFile, Media, MediaType, Tweet, MODEL_VERSION};
use tweet_mirror::snapshot::LoadError;

fn photo(id: u64, file_name: Option<&str>) -> Media {
    Media {
        id,
        media_type: MediaType::Photo,
        file_name: file_name.map(|name| name.to_string()),
        url: Some(format!("https://pbs.twimg.com/media/{id}.jpg")),
    }
}

fn tweet(id: u64, media: Vec<Media>) -> Tweet {
    Tweet { id, timestamp: 1_600_000_000 + id as i64, text: format!("tweet {id}"), media }
}

fn ids(data_file: &DataFile) -> Vec<u64> {
    data_file.tweets.iter().map(|tweet| tweet.id).collect()
}

#[test]
fn a_new_media_has_no_file() {
    let media = Media::new(3, MediaType::Gif, Some("https://x.test/a.mp4".to_string()));
    assert_eq!(media.id, 3);
    assert_eq!(media.media_type, MediaType::Gif);
    assert_eq!(media.file_name, None);
    assert_eq!(media.url, Some("https://x.test/a.mp4".to_string()));
}

#[test]
fn a_new_data_file_is_empty_and_current() {
    let data_file = DataFile::new(99);
    assert_eq!(data_file.user_id, 99);
    assert!(data_file.tweets.is_empty());
    assert_eq!(data_file.version, MODEL_VERSION);
    assert_eq!(MODEL_VERSION, 1);
}

#[test]
fn latest_id_of_one_two_five_is_five() {
    let mut data_file = DataFile::new(1);
    data_file.tweets = vec![tweet(1, vec![]), tweet(2, vec![]), tweet(5, vec![])];
    assert_eq!(data_file.latest_tweet_id(), Some(5));
}

#[test]
fn latest_id_of_an_empty_data_file_is_absent() {
    assert_eq!(DataFile::new(1).latest_tweet_id(), None);
}

#[test]
fn latest_id_is_the_greatest_after_a_merge() {
    let mut data_file = DataFile::new(1);
    data_file.merge_tweets(vec![tweet(9, vec![]), tweet(3, vec![]), tweet(12, vec![]), tweet(4, vec![])]);
    assert_eq!(data_file.latest_tweet_id(), Some(12));
}

#[test]
fn since_id_is_the_latest_id() {
    let mut data_file = DataFile::new(1);
    data_file.tweets = vec![tweet(4, vec![]), tweet(8, vec![])];
    assert_eq!(data_file.since_id(false), Some(8));
}

#[test]
fn since_id_is_absent_for_a_rescan() {
    let mut data_file = DataFile::new(1);
    data_file.tweets = vec![tweet(4, vec![]), tweet(8, vec![])];
    assert_eq!(data_file.since_id(true), None);
}

#[test]
fn since_id_is_absent_for_an_older_model_version() {
    let mut data_file = DataFile::new(1);
    data_file.tweets = vec![tweet(4, vec![]), tweet(8, vec![])];
    data_file.version = MODEL_VERSION - 1;
    assert_eq!(data_file.since_id(false), None);
}

#[test]
fn since_id_is_absent_without_tweets() {
    assert_eq!(DataFile::new(1).since_id(false), None);
}

#[test]
fn tweets_are_equal_and_ordered_by_id() {
    let a = tweet(1, vec![photo(1, None)]);
    let mut b = tweet(1, vec![]);
    b.text = "another text".to_string();
    let c = tweet(2, vec![]);
    assert!(a == b);
    assert!(a != c);
    assert!(a < c);
    assert!(c > b);
    assert!(a <= b && a >= b);
    assert_eq!(a.partial_cmp(&c), Some(std::cmp::Ordering::Less));
    assert_eq!(c.partial_cmp(&a), Some(std::cmp::Ordering::Greater));
    assert_eq!(a.partial_cmp(&b), Some(std::cmp::Ordering::Equal));
}

#[test]
fn merge_keeps_the_file_name_of_a_known_media() {
    let mut data_file = DataFile::new(7);
    data_file.tweets.push(tweet(1, vec![photo(11, Some("a.jpg"))]));
    let new = data_file.merge_tweets(vec![tweet(1, vec![photo(11, None)])]);
    assert_eq!(new, 0);
    assert_eq!(data_file.tweets.len(), 1);
    assert_eq!(data_file.tweets[0].media[0].file_name, Some("a.jpg".to_string()));
}

#[test]
fn merge_takes_the_text_of_the_incoming_tweet() {
    let mut data_file = DataFile::new(7);
    data_file.tweets.push(tweet(1, vec![photo(11, Some("a.jpg"))]));
    let mut incoming = tweet(1, vec![photo(11, None)]);
    incoming.text = "edited".to_string();
    incoming.timestamp = 5;
    data_file.merge_tweets(vec![incoming]);
    assert_eq!(data_file.tweets[0].text, "edited");
    assert_eq!(data_file.tweets[0].timestamp, 5);
    assert_eq!(data_file.tweets[0].media[0].file_name, Some("a.jpg".to_string()));
}

#[test]
fn merge_counts_the_ids_that_are_new() {
    let mut data_file = DataFile::new(7);
    data_file.tweets = vec![tweet(1, vec![]), tweet(3, vec![])];
    let new = data_file.merge_tweets(vec![tweet(3, vec![]), tweet(2, vec![]), tweet(9, vec![])]);
    assert_eq!(new, 2);
    assert_eq!(ids(&data_file), vec![1, 2, 3, 9]);
}

#[test]
fn merge_counts_an_id_that_comes_twice_once() {
    let mut data_file = DataFile::new(7);
    let new = data_file.merge_tweets(vec![tweet(4, vec![]), tweet(4, vec![]), tweet(2, vec![])]);
    assert_eq!(new, 2);
    assert_eq!(ids(&data_file), vec![2, 4]);
}

#[test]
fn merge_of_nothing_changes_no_tweet() {
    let mut data_file = DataFile::new(7);
    data_file.tweets = vec![tweet(1, vec![photo(1, Some("x.jpg"))]), tweet(3, vec![])];
    let new = data_file.merge_tweets(vec![]);
    assert_eq!(new, 0);
    assert_eq!(ids(&data_file), vec![1, 3]);
    assert_eq!(data_file.tweets[0].media[0].file_name, Some("x.jpg".to_string()));
}

#[test]
fn merge_sets_the_current_model_version() {
    let mut data_file = DataFile::new(7);
    data_file.version = 0;
    data_file.merge_tweets(vec![]);
    assert_eq!(data_file.version, MODEL_VERSION);
    assert_eq!(data_file.user_id, 7);
}

#[test]
fn merge_puts_unordered_tweets_in_order() {
    let mut data_file = DataFile::new(7);
    data_file.tweets = vec![tweet(5, vec![]), tweet(2, vec![]), tweet(8, vec![])];
    data_file.merge_tweets(vec![tweet(1, vec![]), tweet(6, vec![])]);
    assert_eq!(ids(&data_file), vec![1, 2, 5, 6, 8]);
}

#[test]
fn merge_keeps_the_later_of_two_stored_tweets_with_one_id() {
    let mut data_file = DataFile::new(7);
    let mut first = tweet(5, vec![]);
    first.text = "first".to_string();
    let mut second = tweet(5, vec![]);
    second.text = "second".to_string();
    data_file.tweets = vec![first, second];
    data_file.merge_tweets(vec![]);
    assert_eq!(data_file.tweets.len(), 1);
    assert_eq!(data_file.tweets[0].text, "second");
}

#[test]
fn merge_takes_the_file_name_of_the_first_media_with_the_id() {
    let mut data_file = DataFile::new(7);
    data_file.tweets = vec![tweet(1, vec![photo(4, Some("first.jpg")), photo(4, Some("second.jpg"))])];
    data_file.merge_tweets(vec![tweet(1, vec![photo(4, None), photo(5, None)])]);
    assert_eq!(data_file.tweets[0].media[0].file_name, Some("first.jpg".to_string()));
    assert_eq!(data_file.tweets[0].media[1].file_name, None);
}

#[test]
fn merge_takes_over_that_a_known_media_has_no_file() {
    let mut data_file = DataFile::new(7);
    data_file.tweets = vec![tweet(1, vec![photo(4, None)])];
    data_file.merge_tweets(vec![tweet(1, vec![photo(4, Some("claimed.jpg"))])]);
    assert_eq!(data_file.tweets[0].media[0].file_name, None);
}

#[test]
fn merge_leaves_the_file_name_of_a_media_that_was_not_known() {
    let mut data_file = DataFile::new(7);
    data_file.tweets = vec![tweet(1, vec![photo(4, Some("a.jpg"))])];
    data_file.merge_tweets(vec![tweet(1, vec![photo(5, Some("b.jpg"))]), tweet(2, vec![photo(4, None)])]);
    assert_eq!(data_file.tweets[0].media.len(), 1);
    assert_eq!(data_file.tweets[0].media[0].id, 5);
    assert_eq!(data_file.tweets[0].media[0].file_name, Some("b.jpg".to_string()));
    assert_eq!(data_file.tweets[1].media[0].file_name, None);
}

#[test]
fn merging_twice_is_merging_once() {
    let incoming = || {
        vec![
            tweet(3, vec![photo(1, None), photo(2, None)]),
            tweet(1, vec![photo(7, None)]),
            tweet(10, vec![]),
        ]
    };
    let mut once = DataFile::new(7);
    once.tweets = vec![tweet(1, vec![photo(7, Some("1_7.jpg"))]), tweet(2, vec![photo(9, Some("2_9.jpg"))])];
    let mut twice = once.clone();
    assert_eq!(once.merge_tweets(incoming()), 2);
    assert_eq!(twice.merge_tweets(incoming()), 2);
    assert_eq!(twice.merge_tweets(incoming()), 0);
    assert_eq!(ids(&once), vec![1, 2, 3, 10]);
    assert_eq!(ids(&once), ids(&twice));
    for (a, b) in once.tweets.iter().zip(twice.tweets.iter()) {
        assert_eq!(a.text, b.text);
        assert_eq!(a.timestamp, b.timestamp);
        assert_eq!(a.media, b.media);
    }
    assert_eq!(once.version, twice.version);
    assert_eq!(once.tweets[0].media[0].file_name, Some("1_7.jpg".to_string()));
    assert_eq!(once.tweets[1].media[0].file_name, Some("2_9.jpg".to_string()));
}

#[test]
fn load_of_nothing_is_a_first_run() {
    assert!(matches!(DataFile::load(None, 5), Ok(None)));
}

#[test]
fn load_refuses_the_data_file_of_another_account() {
    let stored = DataFile::new(4);
    assert_eq!(
        DataFile::load(Some(stored), 5).err(),
        Some(LoadError::UserIdMismatch { found: 4, expected: 5 })
    );
}

#[test]
fn load_sorts_the_tweets_by_id() {
    let mut stored = DataFile::new(5);
    stored.version = 0;
    stored.tweets = vec![tweet(9, vec![]), tweet(2, vec![photo(1, Some("2_1.jpg"))]), tweet(4, vec![])];
    let loaded = DataFile::load(Some(stored), 5).unwrap().unwrap();
    assert_eq!(ids(&loaded), vec![2, 4, 9]);
    assert_eq!(loaded.user_id, 5);
    assert_eq!(loaded.version, 0);
    assert_eq!(loaded.tweets[0].media[0].file_name, Some("2_1.jpg".to_string()));
}

#[test]
fn load_keeps_tweets_of_one_id_in_their_order() {
    let mut stored = DataFile::new(5);
    let mut first = tweet(3, vec![]);
    first.text = "first".to_string();
    let mut second = tweet(3, vec![]);
    second.text = "second".to_string();
    stored.tweets = vec![tweet(7, vec![]), first, tweet(1, vec![]), second];
    let loaded = DataFile::load(Some(stored), 5).unwrap().unwrap();
    assert_eq!(ids(&loaded), vec![1, 3, 3, 7]);
    assert_eq!(loaded.tweets[1].text, "first");
    assert_eq!(loaded.tweets[2].text, "second");
}

#[test]
fn load_hands_back_a_sorted_data_file_as_it_is() {
    let mut stored = DataFile::new(5);
    stored.tweets = vec![tweet(1, vec![photo(1, Some("1_1.jpg"))]), tweet(2, vec![]), tweet(5, vec![])];
    let before = stored.clone();
    let loaded = DataFile::load(Some(stored), 5).unwrap().unwrap();
    assert_eq!(ids(&loaded), ids(&before));
    for (a, b) in loaded.tweets.iter().zip(before.tweets.iter()) {
        assert_eq!(a.text, b.text);
        assert_eq!(a.media, b.media);
    }
}

#[test]
fn bind_records_the_file_of_the_media_with_the_ids() {
    let mut data_file = DataFile::new(5);
    data_file.tweets = vec![tweet(1, vec![photo(7, None)]), tweet(2, vec![photo(6, None), photo(7, None)])];
    assert!(data_file.bind_file_name(2, 7, "2_7.jpg".to_string()));
    assert_eq!(data_file.tweets[0].media[0].file_name, None);
    assert_eq!(data_file.tweets[1].media[0].file_name, None);
    assert_eq!(data_file.tweets[1].media[1].file_name, Some("2_7.jpg".to_string()));
}

#[test]
fn bind_changes_nothing_for_ids_that_are_not_there() {
    let mut data_file = DataFile::new(5);
    data_file.tweets = vec![tweet(1, vec![photo(7, None)])];
    assert!(!data_file.bind_file_name(3, 7, "3_7.jpg".to_string()));
    assert!(!data_file.bind_file_name(1, 8, "1_8.jpg".to_string()));
    assert_eq!(data_file.tweets[0].media[0].file_name, None);
}

#[test]
fn merging_twice_is_merging_once_where_an_id_comes_twice() {
    let incoming = || {
        vec![
            tweet(1, vec![photo(7, None), photo(8, Some("claimed.jpg"))]),
            tweet(2, vec![]),
            tweet(1, vec![photo(8, None), photo(9, None)]),
            tweet(1, vec![photo(9, Some("late.jpg")), photo(7, None), photo(8, None)]),
        ]
    };
    let mut once = DataFile::new(7);
    once.tweets = vec![tweet(1, vec![photo(7, Some("1_7.jpg")), photo(9, Some("1_9.jpg"))])];
    let mut twice = once.clone();
    assert_eq!(once.merge_tweets(incoming()), 1);
    assert_eq!(twice.merge_tweets(incoming()), 1);
    assert_eq!(twice.merge_tweets(incoming()), 0);
    assert_eq!(ids(&once), vec![1, 2]);
    assert_eq!(ids(&twice), vec![1, 2]);
    for (a, b) in once.tweets.iter().zip(twice.tweets.iter()) {
        assert_eq!(a.media, b.media);
    }
    // A name goes from tweet to tweet: it is lost with the first tweet of
    // the id that does not hold its media.
    assert_eq!(once.tweets[0].media[0].id, 9);
    assert_eq!(once.tweets[0].media[0].file_name, None);
    assert_eq!(once.tweets[0].media[1].file_name, None);
    assert_eq!(once.tweets[0].media[2].file_name, Some("claimed.jpg".to_string()));
}

#[test]
fn bind_keeps_the_tweets_in_order() {
    let mut data_file = DataFile::new(5);
    data_file.merge_tweets(vec![tweet(3, vec![photo(1, None)]), tweet(1, vec![photo(1, None)])]);
    assert!(data_file.bind_file_name(3, 1, "3_1.jpg".to_string()));
    assert_eq!(ids(&data_file), vec![1, 3]);
    assert_eq!(data_file.latest_tweet_id(), Some(3));
    assert_eq!(data_file.tweets[1].media[0].file_name, Some("3_1.jpg".to_string()));
}
