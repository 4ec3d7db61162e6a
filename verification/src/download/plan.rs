//! What a run is to do: for which accounts, for which kinds of media, and
//! whether it goes on after an account has failed.

use crate::download::FileExistsPolicy;
use crate::lines::{
    comes_before, lines, lines_of, precedes, precedes_is_total, precedes_is_transitive, split,
    split_at,
};
use crate::model::MediaType;
use vstd::prelude::*;

verus! {

/// What the user asks of a run.
#[derive(Clone, Debug, PartialEq, Eq)]
pub struct DownloadArgs {
    /// Username(s) to download from (comma separated)
    pub users: Option<String>,
    /// Download photos
    pub photos: bool,
    /// Download videos
    pub videos: bool,
    /// Download gifs
    pub gifs: bool,
    /// Rescan tweets that have already been loaded
    pub rescan: bool,
    /// Continue even if an account fails to download
    pub continue_on_error: bool,
    /// Use version 2 of the API, which gives no videos and no gifs
    pub api_v2: bool,
    /// Number of downloads to do concurrently
    pub concurrency: usize,
    /// What to do where a file exists already
    pub file_exists_policy: FileExistsPolicy,
}

/// Why a run cannot begin.
#[derive(Clone, Copy, Debug, PartialEq, Eq, Structural)]
pub enum PlanError {
    /// Neither the arguments nor the list name an account.
    NoUsernames,
}

/// What a run does.
#[derive(Clone, Debug, PartialEq, Eq)]
pub struct DownloadPlan {
    /// The accounts, in the order of strings, each once.
    pub usernames: Vec<String>,
    /// The kinds of media to download.
    pub media_types: Vec<MediaType>,
}

/// Whether each of `names` comes before those behind it, so that none occurs
/// twice.
pub open spec fn names_ascend(names: Seq<Seq<char>>) -> bool {
    forall|i: int, j: int| 0 <= i < j < names.len() ==> precedes(names[i], names[j])
}

/// The names that the arguments list, separated by commas, and those that
/// the list file holds, one to a line.
pub open spec fn named(users: Option<Seq<char>>, list: Option<Seq<char>>) -> Set<Seq<char>> {
    let from_users = match users {
        Some(text) => split(text, ',').to_set(),
        None => Set::empty(),
    };
    let from_list = match list {
        Some(text) => lines(text).to_set(),
        None => Set::empty(),
    };
    from_users.union(from_list)
}

/// The kinds of media that the three switches ask for: photos, videos, gifs,
/// in that order.
pub open spec fn chosen_media_types(photos: bool, videos: bool, gifs: bool) -> Seq<MediaType> {
    (if photos {
        seq![MediaType::Photo]
    } else {
        Seq::empty()
    }) + (if videos {
        seq![MediaType::Video]
    } else {
        Seq::empty()
    }) + (if gifs {
        seq![MediaType::Gif]
    } else {
        Seq::empty()
    })
}

/// Computes [`chosen_media_types`].
pub fn media_types(photos: bool, videos: bool, gifs: bool) -> (kinds: Vec<MediaType>)
    ensures
        kinds@ == chosen_media_types(photos, videos, gifs),
{
    let mut kinds: Vec<MediaType> = Vec::new();
    if photos {
        kinds.push(MediaType::Photo);
    }
    if videos {
        kinds.push(MediaType::Video);
    }
    if gifs {
        kinds.push(MediaType::Gif);
    }
    assert(kinds@ =~= chosen_media_types(photos, videos, gifs));
    kinds
}

/// Puts `name` at its place among `names`, unless it is there.
fn insert_name(names: &mut Vec<String>, name: String)
    requires
        names_ascend(old(names).deep_view()),
    ensures
        names_ascend(final(names).deep_view()),
        final(names).deep_view().to_set() == old(names).deep_view().to_set().insert(name@),
{
    let ghost before = names.deep_view();
    let mut at: usize = 0;
    while at < names.len() && comes_before(names[at].as_str(), name.as_str())
        invariant
            at <= names.len(),
            before == names.deep_view(),
            forall|i: int| 0 <= i < at ==> precedes(#[trigger] before[i], name@),
        decreases names.len() - at,
    {
        assert(before[at as int] == names[at as int]@);
        at += 1;
    }
    if at < names.len() {
        assert(before[at as int] == names[at as int]@);
        if names[at] == name {
            assert(before.to_set().insert(name@) =~= before.to_set()) by {
                assert(before.contains(before[at as int]));
            }
            return ;
        }
    }
    proof {
        assert forall|j: int| at <= j < before.len() implies precedes(
            name@,
            #[trigger] before[j],
        ) by {
            precedes_is_total(before[at as int], name@);
            if j > at {
                precedes_is_transitive(name@, before[at as int], before[j]);
            }
        }
    }
    names.insert(at, name);
    proof {
        let after = names.deep_view();
        assert(after =~= before.insert(at as int, name@));
        assert forall|i: int, j: int| 0 <= i < j < after.len() implies precedes(
            after[i],
            after[j],
        ) by {
            let a = if i < at { before[i] } else if i == at { name@ } else { before[i - 1] };
            let b = if j < at { before[j] } else if j == at { name@ } else { before[j - 1] };
            assert(after[i] == a);
            assert(after[j] == b);
        }
        assert forall|text: Seq<char>| after.contains(text) == (before.contains(text) || text
            == name@) by {
            if after.contains(text) {
                let i = choose|i: int| 0 <= i < after.len() && after[i] == text;
                if i < at {
                    assert(before[i] == text);
                } else if i > at {
                    assert(before[i - 1] == text);
                }
            }
            if before.contains(text) {
                let i = choose|i: int| 0 <= i < before.len() && before[i] == text;
                if i < at {
                    assert(after[i] == text);
                } else {
                    assert(after[i + 1] == text);
                }
            }
            if text == name@ {
                assert(after[at as int] == text);
            }
        }
        assert(after.to_set() =~= before.to_set().insert(name@));
    }
}

/// Puts each of `more` at its place among `names`.
fn insert_names(names: &mut Vec<String>, more: Vec<String>)
    requires
        names_ascend(old(names).deep_view()),
    ensures
        names_ascend(final(names).deep_view()),
        final(names).deep_view().to_set() == old(names).deep_view().to_set().union(
            more.deep_view().to_set(),
        ),
{
    let ghost before = names.deep_view().to_set();
    let ghost added = more.deep_view();
    assert(added.take(0).to_set() =~= Set::<Seq<char>>::empty());
    assert(before.union(Set::empty()) =~= before);
    for name in it: more
        invariant
            it.seq().len() == added.len(),
            forall|i: int| 0 <= i < added.len() ==> added[i] == (#[trigger] it.seq()[i])@,
            names_ascend(names.deep_view()),
            names.deep_view().to_set() == before.union(added.take(it.index() as int).to_set()),
    {
        proof {
            let upto = added.take(it.index() as int);
            let next = added.take(it.index() + 1);
            assert(next =~= upto.push(name@));
            assert forall|text: Seq<char>| next.contains(text) == (upto.contains(text) || text
                == name@) by {
                if next.contains(text) {
                    let i = choose|i: int| 0 <= i < next.len() && next[i] == text;
                    if i < upto.len() {
                        assert(upto[i] == text);
                    }
                }
                if upto.contains(text) {
                    let i = choose|i: int| 0 <= i < upto.len() && upto[i] == text;
                    assert(next[i] == text);
                }
                if text == name@ {
                    assert(next[next.len() - 1] == text);
                }
            }
            assert(next.to_set() =~= upto.to_set().insert(name@));
            assert(before.union(upto.to_set()).insert(name@) =~= before.union(next.to_set()));
        }
        insert_name(names, name);
    }
    assert(added.take(added.len() as int) =~= added);
}

/// The accounts of a run: the names in `users`, separated by commas, and the
/// lines of `list`, in the order of strings and each once. Fails where there
/// is none.
pub fn parse_usernames(users: Option<&str>, list: Option<&str>) -> (usernames: Result<
    Vec<String>,
    PlanError,
>)
    ensures
        match usernames {
            Ok(names) => {
                &&& names.len() > 0
                &&& names_ascend(names.deep_view())
                &&& names.deep_view().to_set() == named(users.deep_view(), list.deep_view())
            },
            Err(error) => error == PlanError::NoUsernames && named(
                users.deep_view(),
                list.deep_view(),
            ) == Set::<Seq<char>>::empty(),
        },
{
    let mut names: Vec<String> = Vec::new();
    assert(names.deep_view().to_set() =~= Set::<Seq<char>>::empty());
    match users {
        Some(text) => {
            insert_names(&mut names, split_at(text, ','));
        },
        None => {},
    }
    match list {
        Some(text) => {
            insert_names(&mut names, lines_of(text));
        },
        None => {},
    }
    assert(names.deep_view().to_set() =~= named(users.deep_view(), list.deep_view()));
    if names.len() == 0 {
        assert(names.deep_view().to_set() =~= Set::<Seq<char>>::empty());
        Err(PlanError::NoUsernames)
    } else {
        Ok(names)
    }
}

/// What to do once an account is done with.
#[derive(Clone, Copy, Debug, PartialEq, Eq, Structural)]
pub enum BatchStep {
    /// Go on with the account at this place of the plan.
    Next(usize),
    /// Every account is done with: the run has succeeded.
    Finished,
    /// Give the run up with the failure of the account that failed.
    GiveUp,
}

/// The step of a batch of `accounts` accounts, the first `done` of which are
/// done with, the last of them with a failure if `failed`: a failure ends
/// the batch unless it is to go on after failures.
pub open spec fn batch_step(accounts: nat, done: nat, failed: bool, continue_on_error: bool)
    -> BatchStep {
    if failed && !continue_on_error {
        BatchStep::GiveUp
    } else if done < accounts {
        BatchStep::Next(done as usize)
    } else {
        BatchStep::Finished
    }
}

impl DownloadArgs {
    /// The plan of the run, where the list file, if one is named, holds
    /// `list`.
    pub fn plan(&self, list: Option<&str>) -> (plan: Result<DownloadPlan, PlanError>)
        ensures
            match plan {
                Ok(plan) => {
                    &&& plan.usernames.len() > 0
                    &&& names_ascend(plan.usernames.deep_view())
                    &&& plan.usernames.deep_view().to_set() == named(
                        self.users.deep_view(),
                        list.deep_view(),
                    )
                    &&& plan.media_types@ == chosen_media_types(
                        self.photos,
                        self.videos,
                        self.gifs,
                    )
                },
                Err(error) => error == PlanError::NoUsernames && named(
                    self.users.deep_view(),
                    list.deep_view(),
                ) == Set::<Seq<char>>::empty(),
            },
    {
        let users: Option<&str> = match &self.users {
            Some(text) => Some(text.as_str()),
            None => None,
        };
        match parse_usernames(users, list) {
            Ok(usernames) => Ok(
                DownloadPlan {
                    usernames,
                    media_types: media_types(self.photos, self.videos, self.gifs),
                },
            ),
            Err(error) => Err(error),
        }
    }

    /// Computes [`batch_step`] for a plan of `accounts` accounts.
    pub fn after_account(&self, accounts: usize, done: usize, failed: bool) -> (step: BatchStep)
        ensures
            step == batch_step(accounts as nat, done as nat, failed, self.continue_on_error),
    {
        if failed && !self.continue_on_error {
            BatchStep::GiveUp
        } else if done < accounts {
            BatchStep::Next(done)
        } else {
            BatchStep::Finished
        }
    }
}

} // verus!
