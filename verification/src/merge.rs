//! Merging freshly fetched tweets into a data file.
//!
//! A data file is read as a map from tweet id to tweet ([`index_tweets`]).
//! Merging replaces or adds one tweet after the other ([`merge_all`]); a
//! tweet that replaces a stored one first takes over the file names that the
//! stored one has for media of the same id ([`carry_forward`]).

use crate::model::{ascending, DataFile, Media, MediaView, Tweet, TweetView, MODEL_VERSION};
use vstd::prelude::*;

verus! {

/// The first of `media` with the id `id`.
pub open spec fn first_with_id(media: Seq<MediaView>, id: u64) -> Option<MediaView>
    decreases media.len(),
{
    if media.len() == 0 {
        None
    } else if media[0].id == id {
        Some(media[0])
    } else {
        first_with_id(media.drop_first(), id)
    }
}

/// `media`, with the file name of the media of `existing` that has the same
/// id, where there is one.
pub open spec fn carry_file_name(existing: Seq<MediaView>, media: MediaView) -> MediaView {
    match first_with_id(existing, media.id) {
        Some(known) => MediaView {
            id: media.id,
            media_type: media.media_type,
            file_name: known.file_name,
            url: media.url,
        },
        None => media,
    }
}

/// `incoming`, with the file names that `existing` has for its media.
pub open spec fn carry_forward(existing: TweetView, incoming: TweetView) -> TweetView {
    TweetView {
        id: incoming.id,
        timestamp: incoming.timestamp,
        text: incoming.text,
        media: incoming.media.map_values(|m: MediaView| carry_file_name(existing.media, m)),
    }
}

/// `store` after `tweet` came in: it is stored under its id, and keeps the file
/// names of the tweet that it replaces.
pub open spec fn merge_one(store: Map<u64, TweetView>, tweet: TweetView) -> Map<u64, TweetView> {
    if store.contains_key(tweet.id) {
        store.insert(tweet.id, carry_forward(store[tweet.id], tweet))
    } else {
        store.insert(tweet.id, tweet)
    }
}

/// `store` after each of `incoming` came in, first to last.
pub open spec fn merge_all(store: Map<u64, TweetView>, incoming: Seq<TweetView>) -> Map<
    u64,
    TweetView,
>
    decreases incoming.len(),
{
    if incoming.len() == 0 {
        store
    } else {
        merge_one(merge_all(store, incoming.drop_last()), incoming.last())
    }
}

/// The tweets of a list by id; of two with one id, the later one.
pub open spec fn index_tweets(tweets: Seq<TweetView>) -> Map<u64, TweetView>
    decreases tweets.len(),
{
    if tweets.len() == 0 {
        Map::empty()
    } else {
        index_tweets(tweets.drop_last()).insert(tweets.last().id, tweets.last())
    }
}

/// Whether `store` holds each of `tweets` under its id, and nothing else.
pub open spec fn holds(tweets: Seq<TweetView>, store: Map<u64, TweetView>) -> bool {
    &&& forall|i: int|
        0 <= i < tweets.len() ==> store.contains_key((#[trigger] tweets[i]).id)
            && store[tweets[i].id] == tweets[i]
    &&& forall|id: u64| #[trigger]
        store.contains_key(id) ==> exists|i: int|
            0 <= i < tweets.len() && (#[trigger] tweets[i]).id == id
}

/// The index of a list is finite.
pub proof fn index_is_finite(tweets: Seq<TweetView>)
    ensures
        index_tweets(tweets).dom().finite(),
    decreases tweets.len(),
{
    if tweets.len() > 0 {
        index_is_finite(tweets.drop_last());
    }
}

/// Merging into a finite store gives a finite store.
pub proof fn merge_is_finite(store: Map<u64, TweetView>, incoming: Seq<TweetView>)
    requires
        store.dom().finite(),
    ensures
        merge_all(store, incoming).dom().finite(),
    decreases incoming.len(),
{
    if incoming.len() > 0 {
        merge_is_finite(store, incoming.drop_last());
    }
}

/// The index of an ascending list holds exactly the tweets of the list.
pub proof fn index_holds(tweets: Seq<TweetView>)
    requires
        ascending(tweets),
    ensures
        holds(tweets, index_tweets(tweets)),
    decreases tweets.len(),
{
    if tweets.len() > 0 {
        let front = tweets.drop_last();
        let last = tweets.last();
        index_holds(front);
        let store = index_tweets(tweets);
        assert forall|i: int| 0 <= i < tweets.len() implies store.contains_key(
            (#[trigger] tweets[i]).id,
        ) && store[tweets[i].id] == tweets[i] by {
            if i < front.len() {
                assert(front[i] == tweets[i]);
                assert(tweets[i].id < last.id);
            }
        }
        assert forall|id: u64| #[trigger] store.contains_key(id) implies exists|i: int|
            0 <= i < tweets.len() && (#[trigger] tweets[i]).id == id by {
            if id == last.id {
                assert(tweets[tweets.len() - 1].id == id);
            } else {
                assert(index_tweets(front).contains_key(id));
                let i = choose|i: int| 0 <= i < front.len() && (#[trigger] front[i]).id == id;
                assert(tweets[i].id == id);
            }
        }
    }
}

/// A list determines the store that holds it.
pub proof fn holds_one_store(
    tweets: Seq<TweetView>,
    a: Map<u64, TweetView>,
    b: Map<u64, TweetView>,
)
    requires
        holds(tweets, a),
        holds(tweets, b),
    ensures
        a == b,
{
    assert forall|id: u64| a.contains_key(id) == b.contains_key(id) by {
        if a.contains_key(id) {
            let i = choose|i: int| 0 <= i < tweets.len() && (#[trigger] tweets[i]).id == id;
            assert(b.contains_key(tweets[i].id));
        }
        if b.contains_key(id) {
            let i = choose|i: int| 0 <= i < tweets.len() && (#[trigger] tweets[i]).id == id;
            assert(a.contains_key(tweets[i].id));
        }
    }
    assert forall|id: u64| a.contains_key(id) implies a[id] == b[id] by {
        let i = choose|i: int| 0 <= i < tweets.len() && (#[trigger] tweets[i]).id == id;
        assert(a[tweets[i].id] == tweets[i]);
        assert(b[tweets[i].id] == tweets[i]);
    }
    assert(a =~= b);
}

/// An ascending list is determined by its index: a data file has one form.
pub proof fn ascending_list_is_unique(a: Seq<TweetView>, b: Seq<TweetView>)
    requires
        ascending(a),
        ascending(b),
        index_tweets(a) == index_tweets(b),
    ensures
        a == b,
    decreases a.len(),
{
    index_holds(a);
    index_holds(b);
    let store = index_tweets(a);
    if a.len() == 0 {
        if b.len() > 0 {
            assert(store.contains_key(b[0].id));
        }
        assert(a =~= b);
    } else {
        let last = a.last();
        assert(store.contains_key(a[a.len() - 1].id));
        let j = choose|j: int| 0 <= j < b.len() && (#[trigger] b[j]).id == last.id;
        // `last` carries the greatest id of the store, and so does the last of `b`.
        assert(store.contains_key(b[b.len() - 1].id));
        let i = choose|i: int| 0 <= i < a.len() && (#[trigger] a[i]).id == b.last().id;
        assert(j == b.len() - 1) by {
            if j < b.len() - 1 {
                assert(b[j].id < b[b.len() - 1].id);
                assert(a[i].id <= a[a.len() - 1].id);
            }
        }
        assert(b.last() == last) by {
            assert(store[b[j].id] == b[j]);
            assert(store[a[a.len() - 1].id] == a[a.len() - 1]);
        }
        let a_front = a.drop_last();
        let b_front = b.drop_last();
        assert(index_tweets(a_front) =~= index_tweets(b_front)) by {
            index_holds(a_front);
            index_holds(b_front);
            assert(holds(b_front, index_tweets(a_front))) by {
                assert forall|k: int| 0 <= k < b_front.len() implies index_tweets(
                    a_front,
                ).contains_key((#[trigger] b_front[k]).id) && index_tweets(a_front)[b_front[k].id]
                    == b_front[k] by {
                    assert(b[k] == b_front[k]);
                    assert(b[k].id < b[b.len() - 1].id);
                    assert(store.contains_key(b[k].id));
                    let m = choose|m: int| 0 <= m < a.len() && (#[trigger] a[m]).id == b[k].id;
                    assert(m < a.len() - 1);
                    assert(a_front[m] == a[m]);
                    assert(store[a[m].id] == a[m]);
                    assert(store[b[k].id] == b[k]);
                }
                assert forall|id: u64| #[trigger]
                    index_tweets(a_front).contains_key(id) implies exists|k: int|
                    0 <= k < b_front.len() && (#[trigger] b_front[k]).id == id by {
                    let m = choose|m: int|
                        0 <= m < a_front.len() && (#[trigger] a_front[m]).id == id;
                    assert(a[m] == a_front[m]);
                    assert(a[m].id < a[a.len() - 1].id);
                    assert(store.contains_key(a[m].id));
                    let k = choose|k: int| 0 <= k < b.len() && (#[trigger] b[k]).id == id;
                    assert(k < b.len() - 1);
                    assert(b_front[k] == b[k]);
                }
            }
            holds_one_store(b_front, index_tweets(a_front), index_tweets(b_front));
        }
        ascending_list_is_unique(a_front, b_front);
        assert(a =~= a_front.push(last));
        assert(b =~= b_front.push(last));
    }
}

/// Putting a tweet with a new id at its place in an ascending list adds it to
/// the index.
proof fn index_after_insert(tweets: Seq<TweetView>, at: int, tweet: TweetView)
    requires
        ascending(tweets),
        0 <= at <= tweets.len(),
        forall|i: int| 0 <= i < at ==> (#[trigger] tweets[i]).id < tweet.id,
        forall|i: int| at <= i < tweets.len() ==> (#[trigger] tweets[i]).id > tweet.id,
    ensures
        ascending(tweets.insert(at, tweet)),
        !index_tweets(tweets).contains_key(tweet.id),
        index_tweets(tweets.insert(at, tweet)) == index_tweets(tweets).insert(tweet.id, tweet),
{
    let after = tweets.insert(at, tweet);
    let before_store = index_tweets(tweets);
    let store = before_store.insert(tweet.id, tweet);
    assert(ascending(after)) by {
        assert forall|i: int, j: int| 0 <= i < j < after.len() implies after[i].id
            < after[j].id by {
            let a = if i < at { tweets[i] } else if i == at { tweet } else { tweets[i - 1] };
            let b = if j < at { tweets[j] } else if j == at { tweet } else { tweets[j - 1] };
            assert(after[i] == a);
            assert(after[j] == b);
        }
    }
    index_holds(tweets);
    index_holds(after);
    if before_store.contains_key(tweet.id) {
        let i = choose|i: int| 0 <= i < tweets.len() && (#[trigger] tweets[i]).id == tweet.id;
        assert(false);
    }
    assert(holds(after, store)) by {
        assert forall|i: int| 0 <= i < after.len() implies store.contains_key(
            (#[trigger] after[i]).id,
        ) && store[after[i].id] == after[i] by {
            if i < at {
                assert(after[i] == tweets[i]);
            } else if i > at {
                assert(after[i] == tweets[i - 1]);
            }
        }
        assert forall|id: u64| #[trigger] store.contains_key(id) implies exists|i: int|
            0 <= i < after.len() && (#[trigger] after[i]).id == id by {
            if id == tweet.id {
                assert(after[at].id == id);
            } else {
                let i = choose|i: int| 0 <= i < tweets.len() && (#[trigger] tweets[i]).id == id;
                if i < at {
                    assert(after[i].id == id);
                } else {
                    assert(after[i + 1].id == id);
                }
            }
        }
    }
    holds_one_store(after, index_tweets(after), store);
}

/// Replacing a tweet of an ascending list by one of the same id replaces it
/// in the index.
proof fn index_after_replace(tweets: Seq<TweetView>, at: int, tweet: TweetView)
    requires
        ascending(tweets),
        0 <= at < tweets.len(),
        tweets[at].id == tweet.id,
    ensures
        ascending(tweets.update(at, tweet)),
        index_tweets(tweets).contains_key(tweet.id),
        index_tweets(tweets)[tweet.id] == tweets[at],
        index_tweets(tweets.update(at, tweet)) == index_tweets(tweets).insert(tweet.id, tweet),
{
    let after = tweets.update(at, tweet);
    let store = index_tweets(tweets).insert(tweet.id, tweet);
    assert(ascending(after)) by {
        assert forall|i: int, j: int| 0 <= i < j < after.len() implies after[i].id
            < after[j].id by {
            assert(after[i].id == tweets[i].id);
            assert(after[j].id == tweets[j].id);
        }
    }
    index_holds(tweets);
    index_holds(after);
    assert(index_tweets(tweets).contains_key(tweets[at].id));
    assert(holds(after, store)) by {
        assert forall|i: int| 0 <= i < after.len() implies store.contains_key(
            (#[trigger] after[i]).id,
        ) && store[after[i].id] == after[i] by {
            if i != at {
                assert(after[i] == tweets[i]);
                if i < at {
                    assert(tweets[i].id < tweets[at].id);
                } else {
                    assert(tweets[at].id < tweets[i].id);
                }
            }
        }
        assert forall|id: u64| #[trigger] store.contains_key(id) implies exists|i: int|
            0 <= i < after.len() && (#[trigger] after[i]).id == id by {
            if id == tweet.id {
                assert(after[at].id == id);
            } else {
                let i = choose|i: int| 0 <= i < tweets.len() && (#[trigger] tweets[i]).id == id;
                assert(after[i].id == id);
            }
        }
    }
    holds_one_store(after, index_tweets(after), store);
}

/// Where the first `upto` media do not have the id, the first that has it is
/// found among the rest.
proof fn first_with_id_skips(media: Seq<MediaView>, id: u64, upto: int)
    requires
        0 <= upto <= media.len(),
        forall|j: int| 0 <= j < upto ==> (#[trigger] media[j]).id != id,
    ensures
        first_with_id(media, id) == first_with_id(media.skip(upto), id),
    decreases upto,
{
    if upto == 0 {
        assert(media.skip(0) =~= media);
    } else {
        first_with_id_skips(media, id, upto - 1);
        let rest = media.skip(upto - 1);
        assert(rest[0] == media[upto - 1]);
        assert(rest.drop_first() =~= media.skip(upto));
    }
}

/// The position of the first of `media` with the id `id`.
fn find_media(media: &Vec<Media>, id: u64) -> (found: Option<usize>)
    ensures
        match found {
            Some(at) => at < media.len() && first_with_id(media.deep_view(), id) == Some(
                media[at as int]@,
            ),
            None => first_with_id(media.deep_view(), id) is None,
        },
{
    let ghost views = media.deep_view();
    let mut i: usize = 0;
    while i < media.len()
        invariant
            i <= media.len(),
            views == media.deep_view(),
            forall|j: int| 0 <= j < i ==> (#[trigger] views[j]).id != id,
        decreases media.len() - i,
    {
        if media[i].id == id {
            proof {
                first_with_id_skips(views, id, i as int);
                assert(views.skip(i as int)[0] == views[i as int]);
            }
            return Some(i);
        }
        assert(views[i as int].id != id);
        i += 1;
    }
    proof {
        first_with_id_skips(views, id, media.len() as int);
        assert(views.skip(media.len() as int).len() == 0);
    }
    None
}

/// Gives `incoming` the file names that `existing` has for its media.
fn carry_file_names(existing: &Tweet, incoming: &mut Tweet)
    ensures
        final(incoming)@ == carry_forward(existing@, old(incoming)@),
{
    let ghost before = incoming@;
    let n: usize = incoming.media.len();
    let mut i: usize = 0;
    while i < n
        invariant
            i <= n,
            n == before.media.len(),
            incoming@.id == before.id,
            incoming@.timestamp == before.timestamp,
            incoming@.text == before.text,
            incoming@.media.len() == n,
            forall|j: int|
                0 <= j < i ==> (#[trigger] incoming@.media[j]) == carry_file_name(
                    existing@.media,
                    before.media[j],
                ),
            forall|j: int| i <= j < n ==> (#[trigger] incoming@.media[j]) == before.media[j],
        decreases n - i,
    {
        let ghost current = incoming@;
        assert(current.media[i as int] == before.media[i as int]);
        match find_media(&existing.media, incoming.media[i].id) {
            Some(at) => {
                incoming.media[i].file_name = existing.media[at].file_name.clone();
            },
            None => {},
        }
        assert(incoming@.media[i as int] == carry_file_name(
            existing@.media,
            before.media[i as int],
        ));
        assert forall|j: int| 0 <= j < n && j != i implies (#[trigger] incoming@.media[j])
            == current.media[j] by {}
        i += 1;
    }
    assert(incoming@.media =~= carry_forward(existing@, before).media);
}

/// Where a tweet with the id `id` stands in `tweets`, or else where it would
/// have to be put.
fn position(tweets: &Vec<Tweet>, id: u64) -> (at: usize)
    requires
        ascending(tweets.deep_view()),
    ensures
        at <= tweets.len(),
        forall|i: int| 0 <= i < at ==> (#[trigger] tweets.deep_view()[i]).id < id,
        forall|i: int| at <= i < tweets.len() ==> (#[trigger] tweets.deep_view()[i]).id >= id,
{
    let ghost views = tweets.deep_view();
    let mut low: usize = 0;
    let mut high: usize = tweets.len();
    while low < high
        invariant
            low <= high <= tweets.len(),
            views == tweets.deep_view(),
            ascending(views),
            forall|i: int| 0 <= i < low ==> (#[trigger] views[i]).id < id,
            forall|i: int| high <= i < tweets.len() ==> (#[trigger] views[i]).id >= id,
        decreases high - low,
    {
        let middle: usize = low + (high - low) / 2;
        assert(views[middle as int].id == tweets[middle as int].id);
        if tweets[middle].id < id {
            assert forall|i: int| 0 <= i < middle + 1 implies (#[trigger] views[i]).id < id by {
                if i < middle {
                    assert(views[i].id < views[middle as int].id);
                }
            }
            low = middle + 1;
        } else {
            assert forall|i: int| middle <= i < tweets.len() implies (#[trigger] views[i]).id
                >= id by {
                if i > middle {
                    assert(views[middle as int].id < views[i].id);
                }
            }
            high = middle;
        }
    }
    low
}

/// Stores `tweet` in the ascending list `tweets`, in place of the tweet of the
/// same id if there is one; with `carry`, it first takes over the file names of
/// the tweet that it replaces. Says whether the id is new.
fn store_tweet(tweets: &mut Vec<Tweet>, tweet: Tweet, carry: bool) -> (is_new: bool)
    requires
        ascending(old(tweets).deep_view()),
    ensures
        ascending(final(tweets).deep_view()),
        is_new == !index_tweets(old(tweets).deep_view()).contains_key(tweet.id),
        index_tweets(final(tweets).deep_view()) == if carry {
            merge_one(index_tweets(old(tweets).deep_view()), tweet@)
        } else {
            index_tweets(old(tweets).deep_view()).insert(tweet.id, tweet@)
        },
{
    let ghost before = tweets.deep_view();
    let mut tweet = tweet;
    let ghost incoming = tweet@;
    let at: usize = position(tweets, tweet.id);
    if at < tweets.len() && tweets[at].id == tweet.id {
        assert(before[at as int].id == tweet.id);
        if carry {
            carry_file_names(&tweets[at], &mut tweet);
        }
        proof {
            index_after_replace(before, at as int, tweet@);
        }
        tweets[at] = tweet;
        assert(tweets.deep_view() =~= before.update(at as int, tweet@));
        false
    } else {
        proof {
            assert forall|i: int| at <= i < before.len() implies (#[trigger] before[i]).id
                > tweet.id by {
                if i > at {
                    assert(before[at as int].id < before[i].id);
                }
            }
            index_after_insert(before, at as int, tweet@);
        }
        tweets.insert(at, tweet);
        assert(tweets.deep_view() =~= before.insert(at as int, incoming));
        true
    }
}

/// The list of a data file that held `tweets`, once `incoming` is merged into
/// it: the one ascending list whose index is the merged index.
pub open spec fn merged(tweets: Seq<TweetView>, incoming: Seq<TweetView>) -> Seq<TweetView> {
    choose|after: Seq<TweetView>|
        ascending(after) && index_tweets(after) == merge_all(index_tweets(tweets), incoming)
}

/// Where a tweet with the id `id` stands in an ascending list, or else where
/// it would have to be put.
proof fn place_exists(tweets: Seq<TweetView>, id: u64) -> (at: int)
    requires
        ascending(tweets),
    ensures
        0 <= at <= tweets.len(),
        forall|i: int| 0 <= i < at ==> (#[trigger] tweets[i]).id < id,
        forall|i: int| at <= i < tweets.len() ==> (#[trigger] tweets[i]).id >= id,
    decreases tweets.len(),
{
    if tweets.len() == 0 {
        0
    } else if tweets.last().id < id {
        assert forall|i: int| 0 <= i < tweets.len() implies (#[trigger] tweets[i]).id < id by {
            if i < tweets.len() - 1 {
                assert(tweets[i].id < tweets[tweets.len() - 1].id);
            }
        }
        tweets.len() as int
    } else {
        let front = tweets.drop_last();
        let at = place_exists(front, id);
        assert forall|i: int| 0 <= i < at implies (#[trigger] tweets[i]).id < id by {
            assert(front[i] == tweets[i]);
        }
        assert forall|i: int| at <= i < tweets.len() implies (#[trigger] tweets[i]).id >= id by {
            if i < front.len() {
                assert(front[i] == tweets[i]);
            }
        }
        at
    }
}

/// An ascending list with `tweet` stored in it, in place of the tweet of the
/// same id if there is one.
proof fn stored_exists(tweets: Seq<TweetView>, tweet: TweetView) -> (after: Seq<TweetView>)
    requires
        ascending(tweets),
    ensures
        ascending(after),
        index_tweets(after) == index_tweets(tweets).insert(tweet.id, tweet),
{
    let at = place_exists(tweets, tweet.id);
    if at < tweets.len() && tweets[at].id == tweet.id {
        index_after_replace(tweets, at, tweet);
        tweets.update(at, tweet)
    } else {
        assert forall|i: int| at <= i < tweets.len() implies (#[trigger] tweets[i]).id
            > tweet.id by {
            if i > at {
                assert(tweets[at].id < tweets[i].id);
            }
        }
        index_after_insert(tweets, at, tweet);
        tweets.insert(at, tweet)
    }
}

/// Every list has an ascending list with the same index.
pub proof fn ascending_list_exists(tweets: Seq<TweetView>) -> (list: Seq<TweetView>)
    ensures
        ascending(list),
        index_tweets(list) == index_tweets(tweets),
    decreases tweets.len(),
{
    if tweets.len() == 0 {
        tweets
    } else {
        let front = ascending_list_exists(tweets.drop_last());
        stored_exists(front, tweets.last())
    }
}

/// There is an ascending list whose index is the merged index.
pub proof fn merged_exists(tweets: Seq<TweetView>, incoming: Seq<TweetView>) -> (after: Seq<
    TweetView,
>)
    ensures
        ascending(after),
        index_tweets(after) == merge_all(index_tweets(tweets), incoming),
    decreases incoming.len(),
{
    if incoming.len() == 0 {
        ascending_list_exists(tweets)
    } else {
        let front = merged_exists(tweets, incoming.drop_last());
        let store = index_tweets(front);
        let last = incoming.last();
        let stored = if store.contains_key(last.id) {
            carry_forward(store[last.id], last)
        } else {
            last
        };
        stored_exists(front, stored)
    }
}

/// What [`merged`] is: the list ascends by id, and its index is the index of
/// the old list with the incoming tweets merged into it. There is one such
/// list.
pub proof fn merged_is_the_merge(tweets: Seq<TweetView>, incoming: Seq<TweetView>)
    ensures
        ascending(merged(tweets, incoming)),
        index_tweets(merged(tweets, incoming)) == merge_all(index_tweets(tweets), incoming),
        newly_seen(tweets, incoming) >= 0,
{
    let witness = merged_exists(tweets, incoming);
    index_is_finite(tweets);
    merge_grows(index_tweets(tweets), incoming);
}

/// A merge takes no id out of the store.
pub proof fn merge_grows(store: Map<u64, TweetView>, incoming: Seq<TweetView>)
    requires
        store.dom().finite(),
    ensures
        merge_all(store, incoming).dom().finite(),
        store.dom().subset_of(merge_all(store, incoming).dom()),
        store.dom().len() <= merge_all(store, incoming).dom().len(),
    decreases incoming.len(),
{
    if incoming.len() > 0 {
        merge_grows(store, incoming.drop_last());
        let front = merge_all(store, incoming.drop_last());
        let after = merge_all(store, incoming);
        assert(front.dom().subset_of(after.dom()));
    }
    merge_is_finite(store, incoming);
    vstd::set_lib::lemma_len_subset(store.dom(), merge_all(store, incoming).dom());
}

/// How many ids a merge of `incoming` adds to a data file that held `tweets`.
pub open spec fn newly_seen(tweets: Seq<TweetView>, incoming: Seq<TweetView>) -> int {
    merge_all(index_tweets(tweets), incoming).dom().len() - index_tweets(tweets).dom().len()
}

impl DataFile {
    /// The tweets of the data file by id.
    pub open spec fn index(&self) -> Map<u64, TweetView> {
        index_tweets(self@.tweets)
    }

    /// Merges `new_tweets` into the data file and returns how many of their
    /// ids were not known before.
    ///
    /// A tweet that is already known is replaced by the incoming one, which
    /// keeps the file names that were recorded for media of the same id. The
    /// data file is then well formed and at the current model version.
    pub fn merge_tweets(&mut self, new_tweets: Vec<Tweet>) -> (new: usize)
        ensures
            final(self).user_id == old(self).user_id,
            final(self).version == MODEL_VERSION,
            final(self).wf(),
            final(self).index() == merge_all(old(self).index(), new_tweets.deep_view()),
            final(self)@.tweets == merged(old(self)@.tweets, new_tweets.deep_view()),
            new == newly_seen(old(self)@.tweets, new_tweets.deep_view()),
    {
        let ghost known = self@.tweets;
        let ghost incoming = new_tweets.deep_view();
        let mut existing: Vec<Tweet> = Vec::new();
        std::mem::swap(&mut existing, &mut self.tweets);
        let mut stored: Vec<Tweet> = Vec::new();
        assert(stored.deep_view() =~= Seq::empty());
        assert(known.take(0) =~= Seq::empty());
        for tweet in it: existing
            invariant
                it.seq().len() == known.len(),
                forall|i: int| 0 <= i < known.len() ==> known[i] == (#[trigger] it.seq()[i])@,
                ascending(stored.deep_view()),
                index_tweets(stored.deep_view()) == index_tweets(known.take(it.index() as int)),
        {
            proof {
                let upto = known.take(it.index() + 1);
                assert(upto.drop_last() =~= known.take(it.index() as int));
                assert(upto.last() == tweet@);
            }
            store_tweet(&mut stored, tweet, false);
        }
        assert(known.take(known.len() as int) =~= known);
        proof {
            index_is_finite(known);
        }
        let ghost start = index_tweets(known);
        let mut new: usize = 0;
        assert(incoming.len() == new_tweets.len());
        assert(incoming.take(0) =~= Seq::empty());
        for tweet in it: new_tweets
            invariant
                it.seq().len() == incoming.len(),
                forall|i: int|
                    0 <= i < incoming.len() ==> incoming[i] == (#[trigger] it.seq()[i])@,
                start.dom().finite(),
                ascending(stored.deep_view()),
                index_tweets(stored.deep_view()) == merge_all(
                    start,
                    incoming.take(it.index() as int),
                ),
                incoming.len() <= usize::MAX,
                new <= it.index(),
                new == index_tweets(stored.deep_view()).dom().len() - start.dom().len(),
        {
            proof {
                let upto = incoming.take(it.index() + 1);
                assert(upto.drop_last() =~= incoming.take(it.index() as int));
                assert(upto.last() == tweet@);
                merge_is_finite(start, incoming.take(it.index() as int));
            }
            if store_tweet(&mut stored, tweet, true) {
                new += 1;
            }
        }
        assert(incoming.take(incoming.len() as int) =~= incoming);
        proof {
            ascending_list_is_unique(stored.deep_view(), merged(known, incoming));
        }
        self.tweets = stored;
        self.version = MODEL_VERSION;
        new
    }
}

} // verus!
