//! Taking over a stored data file, and recording a downloaded file in it.

use crate::model::{ascending, DataFile, Media, MediaView, Tweet, TweetView};
use vstd::prelude::*;

verus! {

/// Why a stored data file is not taken over.
#[derive(Clone, Copy, Debug, PartialEq, Eq, Structural)]
pub enum LoadError {
    /// The data file belongs to the account `found`, not to `expected`: the
    /// user name now names another account than the one downloaded before.
    UserIdMismatch { found: u64, expected: u64 },
}

/// Whether the ids of `tweets` never descend.
pub open spec fn sorted(tweets: Seq<TweetView>) -> bool {
    forall|i: int, j: int| 0 <= i < j < tweets.len() ==> tweets[i].id <= tweets[j].id
}

/// The tweets of `tweets` with the id `id`, in their order.
pub open spec fn with_id(tweets: Seq<TweetView>, id: u64) -> Seq<TweetView> {
    tweets.filter(|tweet: TweetView| tweet.id == id)
}

/// Whether `output` is `input` sorted by id, tweets of one id in the order
/// that they had.
pub open spec fn is_sorted_form(output: Seq<TweetView>, input: Seq<TweetView>) -> bool {
    &&& sorted(output)
    &&& forall|id: u64| with_id(output, id) == with_id(input, id)
}

/// `tweets` sorted by id, tweets of one id in the order that they had.
pub open spec fn sorted_form(tweets: Seq<TweetView>) -> Seq<TweetView> {
    choose|output: Seq<TweetView>| is_sorted_form(output, tweets)
}

/// How [`with_id`] goes through a list from its end.
pub proof fn with_id_unfolds(tweets: Seq<TweetView>, id: u64)
    ensures
        tweets.len() == 0 ==> with_id(tweets, id) == Seq::<TweetView>::empty(),
        tweets.len() > 0 && tweets.last().id == id ==> with_id(tweets, id) == with_id(
            tweets.drop_last(),
            id,
        ).push(tweets.last()),
        tweets.len() > 0 && tweets.last().id != id ==> with_id(tweets, id) == with_id(
            tweets.drop_last(),
            id,
        ),
{
    reveal(Seq::filter);
}

/// A list without the id has no tweets with the id.
proof fn with_id_of_others(tweets: Seq<TweetView>, id: u64)
    requires
        forall|i: int| 0 <= i < tweets.len() ==> (#[trigger] tweets[i]).id != id,
    ensures
        with_id(tweets, id) == Seq::<TweetView>::empty(),
    decreases tweets.len(),
{
    with_id_unfolds(tweets, id);
    if tweets.len() > 0 {
        assert(tweets[tweets.len() - 1].id != id);
        let front = tweets.drop_last();
        assert forall|i: int| 0 <= i < front.len() implies (#[trigger] front[i]).id != id by {
            assert(front[i] == tweets[i]);
        }
        with_id_of_others(front, id);
    }
}

/// A tweet with the id stands in a list exactly if the list has tweets with
/// the id.
proof fn with_id_finds(tweets: Seq<TweetView>, id: u64)
    ensures
        with_id(tweets, id).len() > 0 <==> exists|i: int|
            0 <= i < tweets.len() && (#[trigger] tweets[i]).id == id,
    decreases tweets.len(),
{
    with_id_unfolds(tweets, id);
    if tweets.len() > 0 {
        let front = tweets.drop_last();
        with_id_finds(front, id);
        if with_id(front, id).len() > 0 {
            let i = choose|i: int| 0 <= i < front.len() && (#[trigger] front[i]).id == id;
            assert(tweets[i].id == id);
        }
        if exists|i: int| 0 <= i < tweets.len() && (#[trigger] tweets[i]).id == id {
            let i = choose|i: int| 0 <= i < tweets.len() && (#[trigger] tweets[i]).id == id;
            if i < front.len() {
                assert(front[i].id == id);
            }
        }
        if tweets.last().id == id {
            assert(tweets[tweets.len() - 1].id == id);
        }
    }
}

/// Putting a tweet behind the last tweet of a sorted list that does not
/// exceed it keeps the list sorted, and the tweets of each id in their order.
proof fn insert_keeps_order(
    tweets: Seq<TweetView>,
    input: Seq<TweetView>,
    at: int,
    tweet: TweetView,
)
    requires
        is_sorted_form(tweets, input),
        0 <= at <= tweets.len(),
        forall|i: int| 0 <= i < at ==> (#[trigger] tweets[i]).id <= tweet.id,
        forall|i: int| at <= i < tweets.len() ==> (#[trigger] tweets[i]).id > tweet.id,
    ensures
        is_sorted_form(tweets.insert(at, tweet), input.push(tweet)),
{
    let after = tweets.insert(at, tweet);
    let head = tweets.take(at);
    let tail = tweets.skip(at);
    assert(sorted(after)) by {
        assert forall|i: int, j: int| 0 <= i < j < after.len() implies after[i].id
            <= after[j].id by {
            let a = if i < at { tweets[i] } else if i == at { tweet } else { tweets[i - 1] };
            let b = if j < at { tweets[j] } else if j == at { tweet } else { tweets[j - 1] };
            assert(after[i] == a);
            assert(after[j] == b);
        }
    }
    assert(tweets =~= head + tail);
    assert(after =~= head.push(tweet) + tail);
    assert forall|id: u64| with_id(after, id) == with_id(input.push(tweet), id) by {
        let keep = |t: TweetView| t.id == id;
        Seq::filter_distributes_over_add(head, tail, keep);
        Seq::filter_distributes_over_add(head.push(tweet), tail, keep);
        with_id_unfolds(head.push(tweet), id);
        with_id_unfolds(input.push(tweet), id);
        assert(head.push(tweet).drop_last() =~= head);
        assert(input.push(tweet).drop_last() =~= input);
        assert(with_id(tweets, id) == with_id(input, id));
        if id == tweet.id {
            assert forall|i: int| 0 <= i < tail.len() implies (#[trigger] tail[i]).id != id by {
                assert(tail[i] == tweets[at + i]);
            }
            with_id_of_others(tail, id);
            assert(with_id(head, id) + Seq::<TweetView>::empty() =~= with_id(head, id));
            assert(with_id(head, id).push(tweet) + Seq::<TweetView>::empty() =~= with_id(
                head,
                id,
            ).push(tweet));
        }
    }
}

/// There is one sorted form of a list.
pub proof fn sorted_form_is_unique(a: Seq<TweetView>, b: Seq<TweetView>)
    requires
        sorted(a),
        sorted(b),
        forall|id: u64| with_id(a, id) == with_id(b, id),
    ensures
        a == b,
    decreases a.len(),
{
    if a.len() == 0 {
        if b.len() > 0 {
            with_id_finds(b, b[0].id);
            with_id_unfolds(a, b[0].id);
        }
        assert(a =~= b);
    } else {
        let last = a.last();
        let id = last.id;
        with_id_unfolds(a, id);
        with_id_finds(b, id);
        assert(with_id(b, id) == with_id(a, id));
        assert(b.len() > 0);
        let greatest = b.last().id;
        assert(b[b.len() - 1].id == greatest);
        with_id_finds(b, greatest);
        with_id_finds(a, greatest);
        assert(with_id(a, greatest) == with_id(b, greatest));
        let i = choose|i: int| 0 <= i < a.len() && (#[trigger] a[i]).id == greatest;
        assert(a[i].id <= a[a.len() - 1].id);
        let j = choose|j: int| 0 <= j < b.len() && (#[trigger] b[j]).id == id;
        assert(b[j].id <= b[b.len() - 1].id);
        assert(greatest == id);
        with_id_unfolds(b, id);
        assert(b.last() == last) by {
            assert(with_id(b, id).last() == b.last());
            assert(with_id(a, id).last() == last);
        }
        let a_front = a.drop_last();
        let b_front = b.drop_last();
        assert forall|other: u64| with_id(a_front, other) == with_id(b_front, other) by {
            with_id_unfolds(a, other);
            with_id_unfolds(b, other);
            assert(with_id(a, other) == with_id(b, other));
            if other == id {
                assert(with_id(a_front, id) =~= with_id(a, id).drop_last());
                assert(with_id(b_front, id) =~= with_id(b, id).drop_last());
            }
        }
        sorted_form_is_unique(a_front, b_front);
        assert(a =~= a_front.push(last));
        assert(b =~= b_front.push(last));
    }
}

/// Where a tweet with the id `id` is put into a sorted list: behind the last
/// tweet whose id is not greater.
proof fn sorted_place_exists(tweets: Seq<TweetView>, id: u64) -> (at: int)
    requires
        sorted(tweets),
    ensures
        0 <= at <= tweets.len(),
        forall|i: int| 0 <= i < at ==> (#[trigger] tweets[i]).id <= id,
        forall|i: int| at <= i < tweets.len() ==> (#[trigger] tweets[i]).id > id,
    decreases tweets.len(),
{
    if tweets.len() == 0 {
        0
    } else if tweets.last().id <= id {
        assert forall|i: int| 0 <= i < tweets.len() implies (#[trigger] tweets[i]).id <= id by {
            if i < tweets.len() - 1 {
                assert(tweets[i].id <= tweets[tweets.len() - 1].id);
            }
        }
        tweets.len() as int
    } else {
        let front = tweets.drop_last();
        let at = sorted_place_exists(front, id);
        assert forall|i: int| 0 <= i < at implies (#[trigger] tweets[i]).id <= id by {
            assert(front[i] == tweets[i]);
        }
        assert forall|i: int| at <= i < tweets.len() implies (#[trigger] tweets[i]).id > id by {
            if i < front.len() {
                assert(front[i] == tweets[i]);
            }
        }
        at
    }
}

/// Every list has a sorted form.
pub proof fn sorted_form_exists(tweets: Seq<TweetView>) -> (output: Seq<TweetView>)
    ensures
        is_sorted_form(output, tweets),
        output.len() == tweets.len(),
    decreases tweets.len(),
{
    if tweets.len() == 0 {
        tweets
    } else {
        let front = tweets.drop_last();
        let sorted_front = sorted_form_exists(front);
        let at = sorted_place_exists(sorted_front, tweets.last().id);
        insert_keeps_order(sorted_front, front, at, tweets.last());
        assert(front.push(tweets.last()) =~= tweets);
        sorted_front.insert(at, tweets.last())
    }
}

/// What [`sorted_form`] is: the list is sorted by id and holds the tweets of
/// each id as the input has them, in their order. There is one such list.
pub proof fn sorted_form_is_sorted(tweets: Seq<TweetView>)
    ensures
        is_sorted_form(sorted_form(tweets), tweets),
        sorted_form(tweets).len() == tweets.len(),
{
    let witness = sorted_form_exists(tweets);
    sorted_form_is_unique(sorted_form(tweets), witness);
}

/// A list whose ids ascend is its own sorted form, and has no other.
pub proof fn ascending_is_sorted_form(tweets: Seq<TweetView>, output: Seq<TweetView>)
    requires
        ascending(tweets),
        is_sorted_form(output, tweets),
    ensures
        output == tweets,
{
    sorted_form_is_unique(output, tweets);
}

/// Sorts `tweets` by id. Tweets of one id keep their order.
pub fn sort_tweets(tweets: Vec<Tweet>) -> (output: Vec<Tweet>)
    ensures
        is_sorted_form(output.deep_view(), tweets.deep_view()),
        output.deep_view() == sorted_form(tweets.deep_view()),
{
    let ghost input = tweets.deep_view();
    let mut output: Vec<Tweet> = Vec::new();
    assert(output.deep_view() =~= Seq::<TweetView>::empty());
    assert(input.take(0) =~= Seq::<TweetView>::empty());
    for tweet in it: tweets
        invariant
            it.seq().len() == input.len(),
            forall|i: int| 0 <= i < input.len() ==> input[i] == (#[trigger] it.seq()[i])@,
            is_sorted_form(output.deep_view(), input.take(it.index() as int)),
    {
        let ghost before = output.deep_view();
        let mut at: usize = output.len();
        while at > 0 && output[at - 1].id > tweet.id
            invariant
                at <= output.len(),
                before == output.deep_view(),
                forall|i: int| at <= i < before.len() ==> (#[trigger] before[i]).id > tweet.id,
            decreases at,
        {
            at -= 1;
            assert(before[at as int].id > tweet.id);
        }
        proof {
            assert forall|i: int| 0 <= i < at implies (#[trigger] before[i]).id <= tweet.id by {
                assert(before[at - 1].id <= tweet.id);
                if i < at - 1 {
                    assert(before[i].id <= before[at - 1].id);
                }
            }
            insert_keeps_order(before, input.take(it.index() as int), at as int, tweet@);
            assert(input.take(it.index() as int).push(tweet@) =~= input.take(it.index() + 1));
        }
        output.insert(at, tweet);
        assert(output.deep_view() =~= before.insert(at as int, tweet@));
    }
    assert(input.take(input.len() as int) =~= input);
    proof {
        sorted_form_is_unique(output.deep_view(), sorted_form(input));
    }
    output
}

/// The place of the first tweet with the id `id`.
pub open spec fn place_of_tweet(tweets: Seq<TweetView>, id: u64) -> Option<int> {
    tweets.map_values(|tweet: TweetView| tweet.id).index_of_first(id)
}

/// The place of the first media item with the id `id`.
pub open spec fn place_of_media(media: Seq<MediaView>, id: u64) -> Option<int> {
    media.map_values(|item: MediaView| item.id).index_of_first(id)
}

/// `tweet`, with the `at`-th of its media saved as `file_name`.
pub open spec fn saved_as(tweet: TweetView, at: int, file_name: Seq<char>) -> TweetView {
    TweetView {
        id: tweet.id,
        timestamp: tweet.timestamp,
        text: tweet.text,
        media: tweet.media.update(
            at,
            MediaView {
                id: tweet.media[at].id,
                media_type: tweet.media[at].media_type,
                file_name: Some(file_name),
                url: tweet.media[at].url,
            },
        ),
    }
}

/// `tweets` once the media `media_id` of the tweet `tweet_id` is saved as
/// `file_name`; unchanged where there is no such tweet or no such media.
pub open spec fn bound(
    tweets: Seq<TweetView>,
    tweet_id: u64,
    media_id: u64,
    file_name: Seq<char>,
) -> Seq<TweetView> {
    match place_of_tweet(tweets, tweet_id) {
        Some(t) => match place_of_media(tweets[t].media, media_id) {
            Some(m) => tweets.update(t, saved_as(tweets[t], m, file_name)),
            None => tweets,
        },
        None => tweets,
    }
}

/// Whether `tweets` holds the media `media_id` of the tweet `tweet_id`.
pub open spec fn knows_media(tweets: Seq<TweetView>, tweet_id: u64, media_id: u64) -> bool {
    match place_of_tweet(tweets, tweet_id) {
        Some(t) => place_of_media(tweets[t].media, media_id) is Some,
        None => false,
    }
}

/// The place of the first of `tweets` with the id `id`.
fn find_tweet(tweets: &Vec<Tweet>, id: u64) -> (place: Option<usize>)
    ensures
        match place {
            Some(at) => at < tweets.len() && place_of_tweet(tweets.deep_view(), id) == Some(
                at as int,
            ),
            None => place_of_tweet(tweets.deep_view(), id) is None,
        },
{
    let ghost ids = tweets.deep_view().map_values(|tweet: TweetView| tweet.id);
    let mut at: usize = 0;
    while at < tweets.len()
        invariant
            at <= tweets.len(),
            ids == tweets.deep_view().map_values(|tweet: TweetView| tweet.id),
            forall|i: int| 0 <= i < at ==> (#[trigger] ids[i]) != id,
        decreases tweets.len() - at,
    {
        assert(ids[at as int] == tweets.deep_view()[at as int].id);
        if tweets[at].id == id {
            proof {
                assert(ids.contains(id));
                ids.index_of_first_ensures(id);
            }
            return Some(at);
        }
        at += 1;
    }
    proof {
        ids.index_of_first_ensures(id);
    }
    None
}

/// The place of the first of `media` with the id `id`.
fn find_media(media: &Vec<Media>, id: u64) -> (place: Option<usize>)
    ensures
        match place {
            Some(at) => at < media.len() && place_of_media(media.deep_view(), id) == Some(
                at as int,
            ),
            None => place_of_media(media.deep_view(), id) is None,
        },
{
    let ghost ids = media.deep_view().map_values(|item: MediaView| item.id);
    let mut at: usize = 0;
    while at < media.len()
        invariant
            at <= media.len(),
            ids == media.deep_view().map_values(|item: MediaView| item.id),
            forall|i: int| 0 <= i < at ==> (#[trigger] ids[i]) != id,
        decreases media.len() - at,
    {
        assert(ids[at as int] == media.deep_view()[at as int].id);
        if media[at].id == id {
            proof {
                assert(ids.contains(id));
                ids.index_of_first_ensures(id);
            }
            return Some(at);
        }
        at += 1;
    }
    proof {
        ids.index_of_first_ensures(id);
    }
    None
}

impl DataFile {
    /// Takes over what was read from an account's data file, for the account
    /// `validate_user_id`.
    ///
    /// Nothing stored is a first run and gives nothing. A data file of another
    /// account is refused. Else the data file is handed back with its tweets
    /// sorted by id.
    pub fn load(stored: Option<DataFile>, validate_user_id: u64) -> (loaded: Result<
        Option<DataFile>,
        LoadError,
    >)
        ensures
            match stored {
                None => loaded == Ok::<Option<DataFile>, LoadError>(None),
                Some(data_file) => if data_file.user_id != validate_user_id {
                    loaded == Err::<Option<DataFile>, LoadError>(
                        LoadError::UserIdMismatch {
                            found: data_file.user_id,
                            expected: validate_user_id,
                        },
                    )
                } else {
                    &&& loaded matches Ok(Some(taken))
                    &&& taken.user_id == data_file.user_id
                    &&& taken.version == data_file.version
                    &&& is_sorted_form(taken@.tweets, data_file@.tweets)
                    &&& taken@.tweets == sorted_form(data_file@.tweets)
                },
            },
    {
        match stored {
            None => Ok(None),
            Some(data_file) => {
                if data_file.user_id != validate_user_id {
                    Err(
                        LoadError::UserIdMismatch {
                            found: data_file.user_id,
                            expected: validate_user_id,
                        },
                    )
                } else {
                    let DataFile { user_id, tweets, version } = data_file;
                    Ok(Some(DataFile { user_id, tweets: sort_tweets(tweets), version }))
                }
            },
        }
    }

    /// Records that the media `media_id` of the tweet `tweet_id` is saved as
    /// `file_name`, and says whether the data file holds that media.
    ///
    /// The tweet and the media are found by their ids, the first of each.
    pub fn bind_file_name(&mut self, tweet_id: u64, media_id: u64, file_name: String) -> (found:
        bool)
        ensures
            found == knows_media(old(self)@.tweets, tweet_id, media_id),
            final(self)@.tweets == bound(old(self)@.tweets, tweet_id, media_id, file_name@),
            final(self).user_id == old(self).user_id,
            final(self).version == old(self).version,
            old(self).wf() ==> final(self).wf(),
    {
        let ghost tweets = self@.tweets;
        let t: usize = match find_tweet(&self.tweets, tweet_id) {
            Some(t) => t,
            None => {
                return false;
            },
        };
        let m: usize = match find_media(&self.tweets[t].media, media_id) {
            Some(m) => m,
            None => {
                return false;
            },
        };
        self.tweets[t].media[m].file_name = Some(file_name);
        proof {
            let target = saved_as(tweets[t as int], m as int, file_name@);
            assert(self@.tweets[t as int].media =~= target.media);
            assert(self@.tweets =~= tweets.update(t as int, target));
            assert forall|i: int| 0 <= i < tweets.len() implies (#[trigger] self@.tweets[i]).id
                == tweets[i].id by {}
        }
        true
    }
}

} // verus!
