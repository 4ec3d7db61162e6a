//! A merge treats each id on its own: what is stored under an id afterwards
//! comes of what was stored under it and of the incoming tweets with that id,
//! in their order. Taking the same tweets in once more changes nothing.

use crate::merge::{carry_file_name, carry_forward, first_with_id, merge_all};
use crate::merge_laws::first_with_own_id;
use crate::model::{distinct_media_ids, MediaView, TweetView};
use crate::snapshot::{with_id, with_id_unfolds};
use vstd::prelude::*;

verus! {

/// What a store holds under an id, if anything.
pub open spec fn entry(store: Map<u64, TweetView>, id: u64) -> Option<TweetView> {
    if store.contains_key(id) {
        Some(store[id])
    } else {
        None
    }
}

/// What is stored once `tweet` came in where `known` was stored.
pub open spec fn take_in(known: Option<TweetView>, tweet: TweetView) -> TweetView {
    match known {
        Some(existing) => carry_forward(existing, tweet),
        None => tweet,
    }
}

/// What is stored once each of `tweets` came in, first to last, where
/// `known` was stored.
pub open spec fn take_in_all(known: Option<TweetView>, tweets: Seq<TweetView>) -> Option<TweetView>
    decreases tweets.len(),
{
    if tweets.len() == 0 {
        known
    } else {
        Some(take_in(take_in_all(known, tweets.drop_last()), tweets.last()))
    }
}

/// What a merge stores under an id comes of what was stored under it and of
/// the incoming tweets with that id alone.
pub proof fn merge_goes_id_by_id(store: Map<u64, TweetView>, incoming: Seq<TweetView>, id: u64)
    ensures
        entry(merge_all(store, incoming), id) == take_in_all(
            entry(store, id),
            with_id(incoming, id),
        ),
    decreases incoming.len(),
{
    with_id_unfolds(incoming, id);
    if incoming.len() > 0 {
        let front = incoming.drop_last();
        merge_goes_id_by_id(store, front, id);
        if incoming.last().id == id {
            assert(with_id(front, id).push(incoming.last()).drop_last() =~= with_id(front, id));
        }
    }
}

/// The place of the first of `media` with the id `id`, or -1 where none has
/// it.
proof fn first_place(media: Seq<MediaView>, id: u64) -> (place: int)
    ensures
        first_with_id(media, id) is Some ==> 0 <= place < media.len() && media[place].id == id
            && first_with_id(media, id) == Some(media[place]) && forall|k: int|
            0 <= k < place ==> (#[trigger] media[k]).id != id,
        first_with_id(media, id) is None ==> place == -1 && forall|k: int|
            0 <= k < media.len() ==> (#[trigger] media[k]).id != id,
    decreases media.len(),
{
    if media.len() == 0 {
        -1
    } else if media[0].id == id {
        0
    } else {
        let rest = media.drop_first();
        let place = first_place(rest, id);
        if place == -1 {
            assert forall|k: int| 0 <= k < media.len() implies (#[trigger] media[k]).id != id by {
                if k > 0 {
                    assert(rest[k - 1] == media[k]);
                }
            }
            -1
        } else {
            assert(rest[place] == media[place + 1]);
            assert forall|k: int| 0 <= k < place + 1 implies (#[trigger] media[k]).id != id by {
                if k > 0 {
                    assert(rest[k - 1] == media[k]);
                }
            }
            place + 1
        }
    }
}

/// Whether `a` has the media of `b`, but for their file names.
pub open spec fn same_media_but_names(a: Seq<MediaView>, b: Seq<MediaView>) -> bool {
    &&& a.len() == b.len()
    &&& forall|j: int|
        0 <= j < a.len() ==> (#[trigger] a[j]).id == b[j].id && a[j].media_type == b[j].media_type
            && a[j].url == b[j].url
}

/// Whether `a` is the tweet `b`, but for the file names of its media.
pub open spec fn same_tweet_but_names(a: TweetView, b: TweetView) -> bool {
    &&& a.id == b.id
    &&& a.timestamp == b.timestamp
    &&& a.text == b.text
    &&& same_media_but_names(a.media, b.media)
}

/// A tweet that came in is stored as it is, but for the file names of its
/// media.
pub proof fn take_in_keeps_the_tweet(known: Option<TweetView>, tweet: TweetView)
    ensures
        same_tweet_but_names(take_in(known, tweet), tweet),
        distinct_media_ids(tweet.media) ==> distinct_media_ids(take_in(known, tweet).media),
{
}

/// Lists of media with the same ids have the first of an id at one place.
proof fn first_place_agrees(a: Seq<MediaView>, b: Seq<MediaView>, id: u64) -> (place: int)
    requires
        same_media_but_names(a, b),
    ensures
        first_with_id(a, id) is Some <==> first_with_id(b, id) is Some,
        first_with_id(a, id) is Some ==> 0 <= place < a.len() && first_with_id(a, id) == Some(
            a[place],
        ) && first_with_id(b, id) == Some(b[place]) && a[place].id == id,
{
    let in_a = first_place(a, id);
    let in_b = first_place(b, id);
    if in_a >= 0 {
        assert(a[in_a].id == b[in_a].id);
    }
    if in_b >= 0 {
        assert(a[in_b].id == b[in_b].id);
    }
    in_a
}

/// Whether each of the first `upto` of `tweets` has a media item with the id
/// `id`.
pub open spec fn in_all(tweets: Seq<TweetView>, upto: int, id: u64) -> bool {
    forall|k: int| 0 <= k < upto ==> first_with_id((#[trigger] tweets[k]).media, id) is Some
}

/// The file name that a media id has once tweets were taken in a second
/// time, where `stored` was stored after the first and `first` is the first
/// of the tweets.
pub open spec fn settled_name(stored: TweetView, first: TweetView, id: u64) -> Option<Seq<char>> {
    match first_with_id(stored.media, id) {
        Some(known) => known.file_name,
        None => first_with_id(first.media, id)->0.file_name,
    }
}

/// Whether the `upto`-th state of a second taking in, `again`, has settled
/// against that of the first, `before`: each media item is the same in both,
/// or its id runs through all tweets so far and its name is the settled one.
pub open spec fn settling(
    tweets: Seq<TweetView>,
    stored: TweetView,
    upto: int,
    before: TweetView,
    again: TweetView,
) -> bool {
    forall|j: int|
        0 <= j < tweets[upto - 1].media.len() ==> (#[trigger] again.media[j]) == before.media[j]
            || (in_all(tweets, upto, tweets[upto - 1].media[j].id) && again.media[j].file_name
            == settled_name(stored, tweets[0], tweets[upto - 1].media[j].id))
}

/// How a taking in goes on by one tweet.
proof fn take_in_all_steps(known: Option<TweetView>, tweets: Seq<TweetView>, upto: int)
    requires
        0 < upto <= tweets.len(),
    ensures
        take_in_all(known, tweets.take(upto)) == Some(
            take_in(take_in_all(known, tweets.take(upto - 1)), tweets[upto - 1]),
        ),
{
    assert(tweets.take(upto).drop_last() =~= tweets.take(upto - 1));
}

/// The states of a second taking in settle against those of the first.
proof fn second_taking_in_settles(known: Option<TweetView>, tweets: Seq<TweetView>, upto: int)
    requires
        0 < upto <= tweets.len(),
        forall|i: int| 0 <= i < tweets.len() ==> distinct_media_ids((#[trigger] tweets[i]).media),
    ensures
        take_in_all(known, tweets) is Some,
        take_in_all(known, tweets.take(upto)) is Some,
        take_in_all(take_in_all(known, tweets), tweets.take(upto)) is Some,
        settling(
            tweets,
            take_in_all(known, tweets)->0,
            upto,
            take_in_all(known, tweets.take(upto))->0,
            take_in_all(take_in_all(known, tweets), tweets.take(upto))->0,
        ),
    decreases upto,
{
    let stored = take_in_all(known, tweets);
    let tweet = tweets[upto - 1];
    take_in_all_steps(known, tweets, upto);
    take_in_all_steps(stored, tweets, upto);
    let before = take_in_all(known, tweets.take(upto))->0;
    let again = take_in_all(stored, tweets.take(upto))->0;
    assert(distinct_media_ids(tweet.media));
    if upto == 1 {
        assert(tweets.take(0) =~= Seq::<TweetView>::empty());
        assert(again == carry_forward(stored->0, tweet));
        assert forall|j: int| 0 <= j < tweet.media.len() implies (#[trigger] again.media[j])
            == before.media[j] || (in_all(tweets, upto, tweet.media[j].id)
            && again.media[j].file_name == settled_name(stored->0, tweets[0], tweet.media[j].id)) by {
            first_with_own_id(tweet.media, j);
            assert(again.media[j] == carry_file_name(stored->0.media, tweet.media[j]));
        }
    } else {
        second_taking_in_settles(known, tweets, upto - 1);
        let earlier = tweets[upto - 2];
        let before_it = take_in_all(known, tweets.take(upto - 1))->0;
        let again_it = take_in_all(stored, tweets.take(upto - 1))->0;
        take_in_all_steps(known, tweets, upto - 1);
        take_in_all_steps(stored, tweets, upto - 1);
        take_in_keeps_the_tweet(take_in_all(known, tweets.take(upto - 2)), earlier);
        take_in_keeps_the_tweet(take_in_all(stored, tweets.take(upto - 2)), earlier);
        assert(before == carry_forward(before_it, tweet));
        assert(again == carry_forward(again_it, tweet));
        assert(same_media_but_names(again_it.media, before_it.media));
        assert forall|j: int| 0 <= j < tweet.media.len() implies (#[trigger] again.media[j])
            == before.media[j] || (in_all(tweets, upto, tweet.media[j].id)
            && again.media[j].file_name == settled_name(stored->0, tweets[0], tweet.media[j].id)) by {
            let id = tweet.media[j].id;
            assert(again.media[j] == carry_file_name(again_it.media, tweet.media[j]));
            assert(before.media[j] == carry_file_name(before_it.media, tweet.media[j]));
            let place = first_place_agrees(again_it.media, before_it.media, id);
            if first_with_id(again_it.media, id) is Some {
                assert(earlier.media[place].id == id);
                if again_it.media[place] != before_it.media[place] {
                    assert(in_all(tweets, upto - 1, id));
                    first_with_own_id(tweet.media, j);
                    assert(in_all(tweets, upto, id));
                }
            }
        }
    }
}

/// Taking the same tweets in a second time changes nothing, where the media
/// of each tweet have distinct ids.
pub proof fn take_in_all_settles(known: Option<TweetView>, tweets: Seq<TweetView>)
    requires
        forall|i: int| 0 <= i < tweets.len() ==> distinct_media_ids((#[trigger] tweets[i]).media),
    ensures
        take_in_all(take_in_all(known, tweets), tweets) == take_in_all(known, tweets),
{
    if tweets.len() > 0 {
        let count = tweets.len() as int;
        let last = tweets[count - 1];
        second_taking_in_settles(known, tweets, count);
        assert(tweets.take(count) =~= tweets);
        let stored = take_in_all(known, tweets);
        let before = stored->0;
        let again = take_in_all(stored, tweets)->0;
        take_in_all_steps(known, tweets, count);
        take_in_all_steps(stored, tweets, count);
        take_in_keeps_the_tweet(take_in_all(known, tweets.take(count - 1)), last);
        take_in_keeps_the_tweet(take_in_all(stored, tweets.take(count - 1)), last);
        assert forall|j: int| 0 <= j < last.media.len() implies again.media[j]
            == before.media[j] by {
            first_with_own_id(before.media, j);
            assert(again.media[j].id == before.media[j].id);
        }
        assert(again.media =~= before.media);
    }
}

/// The tweets of one id among tweets whose media have distinct ids have
/// media with distinct ids.
proof fn with_id_keeps_distinct_media(tweets: Seq<TweetView>, id: u64)
    requires
        forall|i: int| 0 <= i < tweets.len() ==> distinct_media_ids((#[trigger] tweets[i]).media),
    ensures
        forall|i: int|
            0 <= i < with_id(tweets, id).len() ==> distinct_media_ids(
                (#[trigger] with_id(tweets, id)[i]).media,
            ),
    decreases tweets.len(),
{
    with_id_unfolds(tweets, id);
    if tweets.len() > 0 {
        let front = tweets.drop_last();
        assert forall|i: int| 0 <= i < front.len() implies distinct_media_ids(
            (#[trigger] front[i]).media,
        ) by {
            assert(front[i] == tweets[i]);
        }
        with_id_keeps_distinct_media(front, id);
        assert(distinct_media_ids(tweets[tweets.len() - 1].media));
    }
}

/// Merging the same tweets a second time changes nothing: what is stored
/// under each id after the first merge is stored under it after the second.
///
/// This holds of every store and of every list of incoming tweets, in which
/// an id may come more than once, as long as the media of each incoming
/// tweet have distinct ids.
pub proof fn merge_is_idempotent(store: Map<u64, TweetView>, incoming: Seq<TweetView>)
    requires
        forall|i: int| 0 <= i < incoming.len() ==> distinct_media_ids((#[trigger] incoming[i]).media),
    ensures
        merge_all(merge_all(store, incoming), incoming) == merge_all(store, incoming),
{
    let once = merge_all(store, incoming);
    let twice = merge_all(once, incoming);
    assert forall|id: u64| entry(twice, id) == entry(once, id) by {
        merge_goes_id_by_id(store, incoming, id);
        merge_goes_id_by_id(once, incoming, id);
        with_id_keeps_distinct_media(incoming, id);
        take_in_all_settles(entry(store, id), with_id(incoming, id));
    }
    assert forall|id: u64| twice.contains_key(id) == once.contains_key(id) by {
        assert(entry(twice, id) == entry(once, id));
    }
    assert forall|id: u64| once.contains_key(id) implies twice[id] == once[id] by {
        assert(entry(twice, id) == entry(once, id));
    }
    assert(twice =~= once);
}

} // verus!
