//! File names do not collide: two media get the same file name only if they
//! are the same media of the same tweet, so that no two downloads of a data
//! file write to one destination.

use crate::candidate::file_name;
use crate::download::{all_tasks, task_for, tweet_tasks};
use crate::model::{ascending, distinct_media_ids, MediaType, MediaView, TweetView};
use crate::text::{decimal, decimal_round_trip, extension, extension_is_in_one_segment, is_digit};
use vstd::prelude::*;

verus! {

/// A text is cut in one way only at the first occurrence of a character:
/// where `a` and `b` do not hold `c`, and `a`, `c`, `after_a` make the same
/// text as `b`, `c`, `after_b`, the parts are the same.
pub proof fn cut_is_unique(
    a: Seq<char>,
    after_a: Seq<char>,
    b: Seq<char>,
    after_b: Seq<char>,
    c: char,
)
    requires
        !a.contains(c),
        !b.contains(c),
        a + seq![c] + after_a == b + seq![c] + after_b,
    ensures
        a == b,
        after_a == after_b,
{
    let left = a + seq![c] + after_a;
    let right = b + seq![c] + after_b;
    if a.len() < b.len() {
        assert(left[a.len() as int] == c);
        assert(right[a.len() as int] == b[a.len() as int]);
        assert(b.contains(c));
    } else if b.len() < a.len() {
        assert(right[b.len() as int] == c);
        assert(left[b.len() as int] == a[b.len() as int]);
        assert(a.contains(c));
    }
    assert forall|i: int| 0 <= i < a.len() implies a[i] == b[i] by {
        assert(left[i] == a[i]);
        assert(right[i] == b[i]);
    }
    assert(a =~= b);
    assert(left.len() == right.len());
    assert(after_a.len() == after_b.len());
    assert forall|i: int| 0 <= i < after_a.len() implies after_a[i] == after_b[i] by {
        assert(left[a.len() + 1 + i] == after_a[i]);
        assert(right[b.len() + 1 + i] == after_b[i]);
    }
    assert(after_a =~= after_b);
}

/// Two numbers with one decimal numeral are one number, and a numeral holds
/// digits only.
pub proof fn decimal_is_unique(a: nat, b: nat)
    ensures
        decimal(a) == decimal(b) ==> a == b,
        !decimal(a).contains('_'),
        !decimal(a).contains('.'),
{
    decimal_round_trip(a);
    decimal_round_trip(b);
    if decimal(a).contains('_') {
        let i = choose|i: int| 0 <= i < decimal(a).len() && decimal(a)[i] == '_';
        assert(is_digit(decimal(a)[i]));
    }
    if decimal(a).contains('.') {
        let i = choose|i: int| 0 <= i < decimal(a).len() && decimal(a)[i] == '.';
        assert(is_digit(decimal(a)[i]));
    }
}

/// A file name is one segment of a path: it begins with a digit and holds
/// no `/`, so that it names a file in the directory that it is joined to.
pub proof fn file_name_is_one_segment(tweet_id: u64, media_id: u64, path: Seq<char>)
    ensures
        !file_name(tweet_id, media_id, path).contains('/'),
        file_name(tweet_id, media_id, path).len() > 0,
        is_digit(file_name(tweet_id, media_id, path)[0]),
{
    let name = file_name(tweet_id, media_id, path);
    let tweet = decimal(tweet_id as nat);
    let media = decimal(media_id as nat);
    let ext = extension(path);
    decimal_round_trip(tweet_id as nat);
    decimal_round_trip(media_id as nat);
    extension_is_in_one_segment(path);
    assert(name[0] == tweet[0]);
    if name.contains('/') {
        let i = choose|i: int| 0 <= i < name.len() && name[i] == '/';
        if i < tweet.len() {
            assert(name[i] == tweet[i]);
            assert(is_digit(tweet[i]));
        } else if i == tweet.len() {
            assert(name[i] == '_');
        } else if i < tweet.len() + 1 + media.len() {
            assert(name[i] == media[i - tweet.len() - 1]);
            assert(is_digit(media[i - tweet.len() - 1]));
        } else if i == tweet.len() + 1 + media.len() {
            assert(name[i] == '.');
        } else {
            assert(name[i] == ext[i - tweet.len() - media.len() - 2]);
            assert(ext.contains('/'));
        }
    }
}

/// Media with the same file name are the same media of the same tweet,
/// whatever the paths of their URLs.
pub proof fn file_name_tells_the_media(
    tweet_a: u64,
    media_a: u64,
    path_a: Seq<char>,
    tweet_b: u64,
    media_b: u64,
    path_b: Seq<char>,
)
    requires
        file_name(tweet_a, media_a, path_a) == file_name(tweet_b, media_b, path_b),
    ensures
        tweet_a == tweet_b,
        media_a == media_b,
{
    let rest_a = decimal(media_a as nat) + seq!['.'] + extension(path_a);
    let rest_b = decimal(media_b as nat) + seq!['.'] + extension(path_b);
    assert(file_name(tweet_a, media_a, path_a) =~= decimal(tweet_a as nat) + seq!['_'] + rest_a);
    assert(file_name(tweet_b, media_b, path_b) =~= decimal(tweet_b as nat) + seq!['_'] + rest_b);
    decimal_is_unique(tweet_a as nat, tweet_b as nat);
    decimal_is_unique(tweet_b as nat, tweet_a as nat);
    cut_is_unique(decimal(tweet_a as nat), rest_a, decimal(tweet_b as nat), rest_b, '_');
    decimal_is_unique(media_a as nat, media_b as nat);
    decimal_is_unique(media_b as nat, media_a as nat);
    cut_is_unique(
        decimal(media_a as nat),
        extension(path_a),
        decimal(media_b as nat),
        extension(path_b),
        '.',
    );
}

/// Each download for a tweet is the download of one of its media.
pub proof fn task_comes_from_media(
    tweet: TweetView,
    wanted: Seq<MediaType>,
    overwrite: bool,
    at: int,
) -> (place: int)
    requires
        0 <= at < tweet_tasks(tweet, wanted, overwrite).len(),
    ensures
        0 <= place < tweet.media.len(),
        task_for(tweet.id, tweet.media[place], wanted, overwrite) == Some(
            tweet_tasks(tweet, wanted, overwrite)[at],
        ),
    decreases tweet.media.len(),
{
    let front = TweetView {
        id: tweet.id,
        timestamp: tweet.timestamp,
        text: tweet.text,
        media: tweet.media.drop_last(),
    };
    if at < tweet_tasks(front, wanted, overwrite).len() {
        let place = task_comes_from_media(front, wanted, overwrite, at);
        assert(front.media[place] == tweet.media[place]);
        place
    } else {
        tweet.media.len() - 1
    }
}

/// A download carries the ids of the tweet and the media that it is for,
/// and its destination is the file name made of them.
pub proof fn task_carries_ids(tweet_id: u64, media: MediaView, wanted: Seq<MediaType>, overwrite: bool)
    requires
        task_for(tweet_id, media, wanted, overwrite) is Some,
    ensures
        task_for(tweet_id, media, wanted, overwrite)->0.context.tweet_id == tweet_id,
        task_for(tweet_id, media, wanted, overwrite)->0.context.media_id == media.id,
        exists|path: Seq<char>|
            task_for(tweet_id, media, wanted, overwrite)->0.destination == #[trigger] file_name(
                tweet_id,
                media.id,
                path,
            ),
{
    let parts = crate::candidate::parsed(media.url);
    assert(task_for(tweet_id, media, wanted, overwrite)->0.destination == file_name(
        tweet_id,
        media.id,
        parts->0.path,
    ));
}

/// Two downloads for a tweet whose media have distinct ids are for different
/// media.
pub proof fn tasks_of_a_tweet_differ(
    tweet: TweetView,
    wanted: Seq<MediaType>,
    overwrite: bool,
    a: int,
    b: int,
)
    requires
        distinct_media_ids(tweet.media),
        0 <= a < b < tweet_tasks(tweet, wanted, overwrite).len(),
    ensures
        tweet_tasks(tweet, wanted, overwrite)[a].context.media_id != tweet_tasks(
            tweet,
            wanted,
            overwrite,
        )[b].context.media_id,
    decreases tweet.media.len(),
{
    let front = TweetView {
        id: tweet.id,
        timestamp: tweet.timestamp,
        text: tweet.text,
        media: tweet.media.drop_last(),
    };
    let front_tasks = tweet_tasks(front, wanted, overwrite);
    if b < front_tasks.len() {
        assert(distinct_media_ids(front.media)) by {
            assert forall|i: int, j: int| 0 <= i < j < front.media.len() implies front.media[i].id
                != front.media[j].id by {
                assert(front.media[i] == tweet.media[i]);
                assert(front.media[j] == tweet.media[j]);
            }
        }
        tasks_of_a_tweet_differ(front, wanted, overwrite, a, b);
    } else {
        let last = tweet.media.last();
        let place = task_comes_from_media(front, wanted, overwrite, a);
        assert(front.media[place] == tweet.media[place]);
        task_carries_ids(tweet.id, front.media[place], wanted, overwrite);
        task_carries_ids(tweet.id, last, wanted, overwrite);
        assert(tweet.media[place].id != tweet.media[tweet.media.len() - 1].id);
    }
}

/// Each download for a list of tweets is a download for one of the tweets.
pub proof fn task_comes_from_tweet(
    tweets: Seq<TweetView>,
    wanted: Seq<MediaType>,
    overwrite: bool,
    at: int,
) -> (place: (int, int))
    requires
        0 <= at < all_tasks(tweets, wanted, overwrite).len(),
    ensures
        0 <= place.0 < tweets.len(),
        0 <= place.1 < tweet_tasks(tweets[place.0], wanted, overwrite).len(),
        tweet_tasks(tweets[place.0], wanted, overwrite)[place.1] == all_tasks(
            tweets,
            wanted,
            overwrite,
        )[at],
    decreases tweets.len(),
{
    let front = tweets.drop_last();
    let front_tasks = all_tasks(front, wanted, overwrite);
    if at < front_tasks.len() {
        let place = task_comes_from_tweet(front, wanted, overwrite, at);
        assert(front[place.0] == tweets[place.0]);
        place
    } else {
        (tweets.len() - 1, at - front_tasks.len())
    }
}

/// No two downloads for a data file are for the same media of the same
/// tweet, where the ids of the tweets ascend and the media of each tweet have
/// distinct ids.
pub proof fn tasks_differ(
    tweets: Seq<TweetView>,
    wanted: Seq<MediaType>,
    overwrite: bool,
    a: int,
    b: int,
)
    requires
        ascending(tweets),
        forall|t: int| 0 <= t < tweets.len() ==> distinct_media_ids((#[trigger] tweets[t]).media),
        0 <= a < b < all_tasks(tweets, wanted, overwrite).len(),
    ensures
        all_tasks(tweets, wanted, overwrite)[a].context.tweet_id != all_tasks(
            tweets,
            wanted,
            overwrite,
        )[b].context.tweet_id || all_tasks(tweets, wanted, overwrite)[a].context.media_id
            != all_tasks(tweets, wanted, overwrite)[b].context.media_id,
    decreases tweets.len(),
{
    let front = tweets.drop_last();
    let last = tweets.last();
    let front_tasks = all_tasks(front, wanted, overwrite);
    let last_tasks = tweet_tasks(last, wanted, overwrite);
    if b < front_tasks.len() {
        assert forall|t: int| 0 <= t < front.len() implies distinct_media_ids(
            (#[trigger] front[t]).media,
        ) by {
            assert(front[t] == tweets[t]);
        }
        tasks_differ(front, wanted, overwrite, a, b);
    } else if a < front_tasks.len() {
        let from = task_comes_from_tweet(front, wanted, overwrite, a);
        let tweet = front[from.0];
        assert(tweet == tweets[from.0]);
        let place_a = task_comes_from_media(tweet, wanted, overwrite, from.1);
        task_carries_ids(tweet.id, tweet.media[place_a], wanted, overwrite);
        let place_b = task_comes_from_media(last, wanted, overwrite, b - front_tasks.len());
        task_carries_ids(last.id, last.media[place_b], wanted, overwrite);
        assert(tweets[from.0].id < tweets[tweets.len() - 1].id);
    } else {
        assert(distinct_media_ids(tweets[tweets.len() - 1].media));
        tasks_of_a_tweet_differ(
            last,
            wanted,
            overwrite,
            a - front_tasks.len(),
            b - front_tasks.len(),
        );
    }
}

/// No two downloads for a data file write to the same destination, where the
/// ids of the tweets ascend and the media of each tweet have distinct ids.
pub proof fn destinations_differ(
    tweets: Seq<TweetView>,
    wanted: Seq<MediaType>,
    overwrite: bool,
    a: int,
    b: int,
)
    requires
        ascending(tweets),
        forall|t: int| 0 <= t < tweets.len() ==> distinct_media_ids((#[trigger] tweets[t]).media),
        0 <= a < b < all_tasks(tweets, wanted, overwrite).len(),
    ensures
        all_tasks(tweets, wanted, overwrite)[a].destination != all_tasks(
            tweets,
            wanted,
            overwrite,
        )[b].destination,
{
    let tasks = all_tasks(tweets, wanted, overwrite);
    tasks_differ(tweets, wanted, overwrite, a, b);
    let from_a = task_comes_from_tweet(tweets, wanted, overwrite, a);
    let place_a = task_comes_from_media(tweets[from_a.0], wanted, overwrite, from_a.1);
    let media_a = tweets[from_a.0].media[place_a];
    task_carries_ids(tweets[from_a.0].id, media_a, wanted, overwrite);
    let from_b = task_comes_from_tweet(tweets, wanted, overwrite, b);
    let place_b = task_comes_from_media(tweets[from_b.0], wanted, overwrite, from_b.1);
    let media_b = tweets[from_b.0].media[place_b];
    task_carries_ids(tweets[from_b.0].id, media_b, wanted, overwrite);
    if tasks[a].destination == tasks[b].destination {
        let path_a = choose|path: Seq<char>|
            tasks[a].destination == #[trigger] file_name(tweets[from_a.0].id, media_a.id, path);
        let path_b = choose|path: Seq<char>|
            tasks[b].destination == #[trigger] file_name(tweets[from_b.0].id, media_b.id, path);
        file_name_tells_the_media(
            tweets[from_a.0].id,
            media_a.id,
            path_a,
            tweets[from_b.0].id,
            media_b.id,
            path_b,
        );
    }
}

} // verus!
