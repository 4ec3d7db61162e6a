//! What holds of a merge of tweets with distinct ids: each is stored as if it
//! had come in alone, what does not come in is left alone, and recorded file
//! names survive.

use crate::merge::{carry_forward, first_with_id, merge_all, merge_one};
use crate::model::{distinct_media_ids, MediaView, TweetView};
use vstd::prelude::*;

verus! {

/// Whether no two tweets of `tweets` share an id.
pub open spec fn distinct_ids(tweets: Seq<TweetView>) -> bool {
    forall|i: int, j: int| 0 <= i < j < tweets.len() ==> tweets[i].id != tweets[j].id
}

/// Whether one of `tweets` has the id `id`.
pub open spec fn has_id(tweets: Seq<TweetView>, id: u64) -> bool {
    exists|i: int| 0 <= i < tweets.len() && (#[trigger] tweets[i]).id == id
}

/// What a store holds for `tweet` once it came in.
pub open spec fn merged_entry(store: Map<u64, TweetView>, tweet: TweetView) -> TweetView {
    if store.contains_key(tweet.id) {
        carry_forward(store[tweet.id], tweet)
    } else {
        tweet
    }
}

/// A merge leaves alone what is stored under an id that does not come in.
pub proof fn merge_frames(store: Map<u64, TweetView>, incoming: Seq<TweetView>, id: u64)
    requires
        !has_id(incoming, id),
    ensures
        merge_all(store, incoming).contains_key(id) == store.contains_key(id),
        store.contains_key(id) ==> merge_all(store, incoming)[id] == store[id],
    decreases incoming.len(),
{
    if incoming.len() > 0 {
        let front = incoming.drop_last();
        assert(incoming[incoming.len() - 1].id != id);
        assert(!has_id(front, id)) by {
            if has_id(front, id) {
                let i = choose|i: int| 0 <= i < front.len() && (#[trigger] front[i]).id == id;
                assert(incoming[i].id == id);
            }
        }
        merge_frames(store, front, id);
    }
}

/// After a merge the store knows the ids that it knew and those that came in.
pub proof fn merge_knows(store: Map<u64, TweetView>, incoming: Seq<TweetView>, id: u64)
    ensures
        merge_all(store, incoming).contains_key(id) == (store.contains_key(id) || has_id(
            incoming,
            id,
        )),
    decreases incoming.len(),
{
    if incoming.len() > 0 {
        let front = incoming.drop_last();
        merge_knows(store, front, id);
        if has_id(front, id) {
            let i = choose|i: int| 0 <= i < front.len() && (#[trigger] front[i]).id == id;
            assert(incoming[i].id == id);
        }
        if has_id(incoming, id) && incoming.last().id != id {
            let i = choose|i: int| 0 <= i < incoming.len() && (#[trigger] incoming[i]).id == id;
            assert(front[i].id == id);
        }
        if incoming.last().id == id {
            assert(incoming[incoming.len() - 1].id == id);
        }
    }
}

/// Where the incoming tweets have distinct ids, each is stored as if it had
/// come in alone.
pub proof fn merge_stores_each(store: Map<u64, TweetView>, incoming: Seq<TweetView>, at: int)
    requires
        distinct_ids(incoming),
        0 <= at < incoming.len(),
    ensures
        merge_all(store, incoming).contains_key(incoming[at].id),
        merge_all(store, incoming)[incoming[at].id] == merged_entry(store, incoming[at]),
    decreases incoming.len(),
{
    let front = incoming.drop_last();
    let last = incoming.last();
    if at == incoming.len() - 1 {
        assert(!has_id(front, last.id)) by {
            if has_id(front, last.id) {
                let i = choose|i: int| 0 <= i < front.len() && (#[trigger] front[i]).id == last.id;
                assert(incoming[i].id == incoming[incoming.len() - 1].id);
            }
        }
        merge_frames(store, front, last.id);
    } else {
        assert(front[at] == incoming[at]);
        assert(incoming[at].id != incoming[incoming.len() - 1].id);
        merge_stores_each(store, front, at);
    }
}

/// In a list of media with distinct ids, each is the first with its id.
pub proof fn first_with_own_id(media: Seq<MediaView>, at: int)
    requires
        distinct_media_ids(media),
        0 <= at < media.len(),
    ensures
        first_with_id(media, media[at].id) == Some(media[at]),
    decreases at,
{
    if at > 0 {
        let rest = media.drop_first();
        assert(media[0].id != media[at].id);
        assert(rest[at - 1] == media[at]);
        assert(distinct_media_ids(rest)) by {
            assert forall|i: int, j: int| 0 <= i < j < rest.len() implies rest[i].id
                != rest[j].id by {
                assert(rest[i] == media[i + 1]);
                assert(rest[j] == media[j + 1]);
            }
        }
        first_with_own_id(rest, at - 1);
    }
}

/// Taking file names over changes no id.
pub proof fn carry_keeps_ids(existing: TweetView, incoming: TweetView)
    ensures
        carry_forward(existing, incoming).media.len() == incoming.media.len(),
        forall|j: int|
            0 <= j < incoming.media.len() ==> (#[trigger] carry_forward(
                existing,
                incoming,
            ).media[j]).id == incoming.media[j].id,
        distinct_media_ids(incoming.media) ==> distinct_media_ids(
            carry_forward(existing, incoming).media,
        ),
{
}

/// A tweet that took file names over takes nothing new from itself: carrying
/// forward twice is carrying forward once.
pub proof fn carry_forward_settles(existing: TweetView, incoming: TweetView)
    requires
        distinct_media_ids(incoming.media),
    ensures
        carry_forward(carry_forward(existing, incoming), incoming) == carry_forward(
            existing,
            incoming,
        ),
        carry_forward(incoming, incoming) == incoming,
{
    let once = carry_forward(existing, incoming);
    let twice = carry_forward(once, incoming);
    carry_keeps_ids(existing, incoming);
    assert forall|j: int| 0 <= j < incoming.media.len() implies twice.media[j]
        == once.media[j] by {
        first_with_own_id(once.media, j);
    }
    assert(twice.media =~= once.media);
    let same = carry_forward(incoming, incoming);
    assert forall|j: int| 0 <= j < incoming.media.len() implies same.media[j]
        == incoming.media[j] by {
        first_with_own_id(incoming.media, j);
    }
    assert(same.media =~= incoming.media);
}

/// A merge loses no file name: where a tweet was stored with distinct media
/// ids, each media of the tweet that is stored under its id afterwards has
/// the file name that was recorded for its media id before.
pub proof fn merge_keeps_file_names(
    store: Map<u64, TweetView>,
    incoming: Seq<TweetView>,
    id: u64,
    at: int,
)
    requires
        distinct_ids(incoming),
        store.contains_key(id),
        distinct_media_ids(store[id].media),
        0 <= at < merge_all(store, incoming)[id].media.len(),
        first_with_id(store[id].media, merge_all(store, incoming)[id].media[at].id) is Some,
    ensures
        merge_all(store, incoming).contains_key(id),
        merge_all(store, incoming)[id].media[at].file_name == first_with_id(
            store[id].media,
            merge_all(store, incoming)[id].media[at].id,
        )->0.file_name,
{
    merge_knows(store, incoming, id);
    if has_id(incoming, id) {
        let i = choose|i: int| 0 <= i < incoming.len() && (#[trigger] incoming[i]).id == id;
        merge_stores_each(store, incoming, i);
        carry_keeps_ids(store[id], incoming[i]);
    } else {
        merge_frames(store, incoming, id);
        first_with_own_id(store[id].media, at);
    }
}

/// One tweet that comes in twice in a row is stored as if it had come in once.
pub proof fn merge_one_is_idempotent(store: Map<u64, TweetView>, tweet: TweetView)
    requires
        distinct_media_ids(tweet.media),
    ensures
        merge_one(merge_one(store, tweet), tweet) == merge_one(store, tweet),
{
    carry_forward_settles(tweet, tweet);
    if store.contains_key(tweet.id) {
        carry_forward_settles(store[tweet.id], tweet);
    }
    assert(merge_one(merge_one(store, tweet), tweet) =~= merge_one(store, tweet));
}

} // verus!
