//! What holds of every sequence of reports that is fed to a download: the file
//! is put in place only after the whole body was written, a download that
//! failed puts nothing in place, an existing file is replaced only by a task
//! that overwrites, and a task that keeps files sends no request for a file
//! that is there.

use crate::download::download_task::{
    transition, DownloadErrorView, Route, Transfer, TransferActionView, TransferEventView,
};
use vstd::prelude::*;

verus! {

/// How far a state is on the way from start to end.
pub open spec fn stage(state: Transfer) -> nat {
    match state {
        Transfer::Start => 0,
        Transfer::Looking => 1,
        Transfer::Scratch => 2,
        Transfer::Requesting => 3,
        Transfer::Receiving { .. } => 4,
        Transfer::Writing { .. } => 4,
        Transfer::Flushing { .. } => 5,
        Transfer::Checking { .. } => 6,
        Transfer::Persisting { .. } => 7,
        Transfer::Done => 8,
    }
}

/// The state that `events`, reported one after the other, lead to from `state`.
pub open spec fn run(route: Route, state: Transfer, events: Seq<TransferEventView>) -> Transfer
    decreases events.len(),
{
    if events.len() == 0 {
        state
    } else {
        transition(route, run(route, state, events.drop_last()), events.last()).0
    }
}

/// The step that is asked for when the `at`-th of `events` is reported to a
/// download that began with the first.
pub open spec fn step_at(route: Route, events: Seq<TransferEventView>, at: int) -> TransferActionView {
    transition(route, run(route, Transfer::Start, events.take(at)), events[at]).1
}

/// No report takes a download back to an earlier stage, and none takes an
/// ended download anywhere.
pub proof fn download_never_steps_back(route: Route, state: Transfer, event: TransferEventView)
    ensures
        stage(transition(route, state, event).0) >= stage(state),
        state is Done ==> transition(route, state, event) == (state, TransferActionView::Nothing),
{
}

/// The renaming is asked for exactly when the download enters
/// [`Transfer::Persisting`], and an outcome is handed out exactly when it ends.
pub proof fn steps_mark_the_stages(route: Route, state: Transfer, event: TransferEventView)
    ensures
        transition(route, state, event).1 is Persist <==> stage(state) < 7 && transition(
            route,
            state,
            event,
        ).0 is Persisting,
        transition(route, state, event).1 is Finish <==> !(state is Done) && transition(
            route,
            state,
            event,
        ).0 is Done,
        transition(route, state, event).1 is Persist ==> state is Flushing && route.overwrite
            || state is Checking && event == TransferEventView::Exists(false),
{
}

/// No sequence of reports takes a download back to an earlier stage.
pub proof fn run_never_steps_back(route: Route, state: Transfer, events: Seq<TransferEventView>)
    ensures
        stage(run(route, state, events)) >= stage(state),
    decreases events.len(),
{
    if events.len() > 0 {
        run_never_steps_back(route, state, events.drop_last());
        download_never_steps_back(route, run(route, state, events.drop_last()), events.last());
    }
}

/// Reports can be fed in two parts.
pub proof fn run_in_parts(
    route: Route,
    state: Transfer,
    first: Seq<TransferEventView>,
    second: Seq<TransferEventView>,
)
    ensures
        run(route, state, first + second) == run(route, run(route, state, first), second),
    decreases second.len(),
{
    if second.len() == 0 {
        assert(first + second =~= first);
    } else {
        run_in_parts(route, state, first, second.drop_last());
        assert((first + second).drop_last() =~= first + second.drop_last());
    }
}

/// What a step is depends on the reports up to it alone.
pub proof fn step_of_prefix(route: Route, events: Seq<TransferEventView>, upto: int, at: int)
    requires
        0 <= at < upto <= events.len(),
    ensures
        step_at(route, events.take(upto), at) == step_at(route, events, at),
{
    assert(events.take(upto).take(at) =~= events.take(at));
}

/// While a download has not ended, no outcome was handed out; and once it is
/// past receiving, the end of the body was reported.
proof fn progress(route: Route, events: Seq<TransferEventView>)
    ensures
        !(run(route, Transfer::Start, events) is Done) ==> forall|j: int|
            0 <= j < events.len() ==> !(#[trigger] step_at(route, events, j) is Finish),
        5 <= stage(run(route, Transfer::Start, events)) <= 7 ==> exists|j: int|
            0 <= j < events.len() && #[trigger] events[j] is EndOfBody,
    decreases events.len(),
{
    if events.len() > 0 {
        let front = events.drop_last();
        let before = run(route, Transfer::Start, front);
        let after = run(route, Transfer::Start, events);
        progress(route, front);
        assert(events.take(events.len() - 1) =~= front);
        if !(after is Done) {
            assert forall|j: int| 0 <= j < events.len() implies !(#[trigger] step_at(
                route,
                events,
                j,
            ) is Finish) by {
                if j < events.len() - 1 {
                    step_of_prefix(route, events, events.len() - 1, j);
                }
            }
        }
        if 5 <= stage(after) <= 7 {
            if 5 <= stage(before) <= 7 {
                let j = choose|j: int| 0 <= j < front.len() && #[trigger] front[j] is EndOfBody;
                assert(events[j] is EndOfBody);
            } else {
                assert(events[events.len() - 1] is EndOfBody);
            }
        }
    }
}

/// The scratch file is renamed to the destination only after the end of the
/// body was reported and nothing had failed: a download that was cut short
/// leaves no file at the destination.
pub proof fn persist_only_after_whole_body(route: Route, events: Seq<TransferEventView>, at: int)
    requires
        0 <= at < events.len(),
        step_at(route, events, at) is Persist,
    ensures
        exists|j: int| 0 <= j < at && #[trigger] events[j] is EndOfBody,
        forall|j: int| 0 <= j < at ==> !(#[trigger] step_at(route, events, j) is Finish),
{
    let upto = events.take(at);
    progress(route, upto);
    let j = choose|j: int| 0 <= j < upto.len() && #[trigger] upto[j] is EndOfBody;
    assert(events[j] is EndOfBody);
    assert forall|j: int| 0 <= j < at implies !(#[trigger] step_at(route, events, j) is Finish) by {
        step_of_prefix(route, events, at, j);
    }
}

/// Where a download ends in a failure, the renaming was asked for at most just
/// before, and then it is the renaming that failed: no other failure leaves a
/// file at the destination.
pub proof fn failure_puts_nothing_in_place(
    route: Route,
    events: Seq<TransferEventView>,
    failure: int,
    at: int,
)
    requires
        0 <= failure < events.len(),
        step_at(route, events, failure) matches TransferActionView::Finish(outcome) && outcome is Err,
        0 <= at < events.len(),
        step_at(route, events, at) is Persist,
    ensures
        at < failure,
        run(route, Transfer::Start, events.take(failure)) is Persisting,
        events[failure] is FileFailed,
{
    let state_at = run(route, Transfer::Start, events.take(at));
    let state_failure = run(route, Transfer::Start, events.take(failure));
    if failure < at {
        let between = events.subrange(failure + 1, at);
        assert(events.take(at) =~= events.take(failure + 1) + between);
        run_in_parts(route, Transfer::Start, events.take(failure + 1), between);
        assert(events.take(failure + 1).drop_last() =~= events.take(failure));
        run_never_steps_back(route, run(route, Transfer::Start, events.take(failure + 1)), between);
        assert(false);
    } else {
        let between = events.subrange(at + 1, failure);
        assert(events.take(failure) =~= events.take(at + 1) + between);
        run_in_parts(route, Transfer::Start, events.take(at + 1), between);
        assert(events.take(at + 1).drop_last() =~= events.take(at));
        run_never_steps_back(route, run(route, Transfer::Start, events.take(at + 1)), between);
    }
}

/// A task that does not overwrite never replaces a file that it was told of:
/// once the destination is reported to exist, at the first look or at the
/// second, the download ends with [`DownloadErrorView::DestinationExists`]
/// and the renaming is never asked for.
pub proof fn existing_file_is_kept(route: Route, events: Seq<TransferEventView>, told: int, at: int)
    requires
        !route.overwrite,
        0 <= told < events.len(),
        run(route, Transfer::Start, events.take(told)) is Checking || run(
            route,
            Transfer::Start,
            events.take(told),
        ) is Looking,
        events[told] == TransferEventView::Exists(true),
        0 <= at < events.len(),
    ensures
        step_at(route, events, told) == TransferActionView::Finish(
            Err(DownloadErrorView::DestinationExists(route.destination)),
        ),
        !(step_at(route, events, at) is Persist),
{
    if step_at(route, events, at) is Persist {
        if at < told {
            let between = events.subrange(at + 1, told);
            assert(events.take(told) =~= events.take(at + 1) + between);
            run_in_parts(route, Transfer::Start, events.take(at + 1), between);
            assert(events.take(at + 1).drop_last() =~= events.take(at));
            run_never_steps_back(route, run(route, Transfer::Start, events.take(at + 1)), between);
        } else if at > told {
            let between = events.subrange(told + 1, at);
            assert(events.take(at) =~= events.take(told + 1) + between);
            run_in_parts(route, Transfer::Start, events.take(told + 1), between);
            assert(events.take(told + 1).drop_last() =~= events.take(told));
            run_never_steps_back(route, run(route, Transfer::Start, events.take(told + 1)), between);
        }
    }
}

/// A task that overwrites never asks whether the destination exists, and never
/// fails because it does.
pub proof fn overwrite_asks_nothing(route: Route, events: Seq<TransferEventView>, at: int)
    requires
        route.overwrite,
        0 <= at < events.len(),
    ensures
        !(step_at(route, events, at) is CheckDestination),
        !(run(route, Transfer::Start, events.take(at)) is Checking),
        !(run(route, Transfer::Start, events.take(at)) is Looking),
        !(step_at(route, events, at) matches TransferActionView::Finish(Err(error))
            && error is DestinationExists),
{
    never_checking(route, events.take(at));
}

proof fn never_checking(route: Route, events: Seq<TransferEventView>)
    requires
        route.overwrite,
    ensures
        !(run(route, Transfer::Start, events) is Checking),
        !(run(route, Transfer::Start, events) is Looking),
    decreases events.len(),
{
    if events.len() > 0 {
        never_checking(route, events.drop_last());
    }
}

/// Whether a step fetches or writes: it makes the scratch file, sends the
/// request, reads or writes a chunk, or renames the scratch file.
pub open spec fn transfers(action: TransferActionView) -> bool {
    action is CreateScratch || action is SendRequest || action is ReadChunk
        || action is WriteChunk || action is Flush || action is Persist
}

/// A step that fetches or writes takes the download past the first look at
/// the destination.
pub proof fn transfer_follows_the_look(route: Route, state: Transfer, event: TransferEventView)
    ensures
        transfers(transition(route, state, event).1) ==> stage(transition(route, state, event).0)
            >= 2,
        !route.overwrite && transition(route, state, event).0 is Scratch ==> state is Scratch
            || (state is Looking && event == TransferEventView::Exists(false)),
{
}

/// Once a task that does not overwrite is past the first look, the
/// destination was reported to be free.
proof fn past_the_look(route: Route, events: Seq<TransferEventView>)
    requires
        !route.overwrite,
    ensures
        2 <= stage(run(route, Transfer::Start, events)) <= 7 ==> exists|j: int|
            0 <= j < events.len() && #[trigger] events[j] == TransferEventView::Exists(false),
    decreases events.len(),
{
    if events.len() > 0 {
        let front = events.drop_last();
        let before = run(route, Transfer::Start, front);
        let after = run(route, Transfer::Start, events);
        past_the_look(route, front);
        if 2 <= stage(after) <= 7 {
            if 2 <= stage(before) <= 7 {
                let j = choose|j: int|
                    0 <= j < front.len() && #[trigger] front[j] == TransferEventView::Exists(
                        false,
                    );
                assert(events[j] == TransferEventView::Exists(false));
            } else {
                assert(events[events.len() - 1] == TransferEventView::Exists(false));
            }
        }
    }
}

/// A task that does not overwrite sends the request only after the
/// destination was reported to be free; and so for every step that fetches or
/// writes.
pub proof fn request_follows_a_free_destination(
    route: Route,
    events: Seq<TransferEventView>,
    at: int,
)
    requires
        !route.overwrite,
        0 <= at < events.len(),
        transfers(step_at(route, events, at)),
    ensures
        exists|j: int|
            0 <= j <= at && #[trigger] events[j] == TransferEventView::Exists(false),
        step_at(route, events, at) is SendRequest ==> exists|j: int|
            0 <= j < at && #[trigger] events[j] == TransferEventView::Exists(false),
{
    let upto = events.take(at + 1);
    past_the_look(route, upto);
    assert(upto.drop_last() =~= events.take(at));
    transfer_follows_the_look(route, run(route, Transfer::Start, events.take(at)), events[at]);
    download_never_steps_back(route, run(route, Transfer::Start, events.take(at)), events[at]);
    let j = choose|j: int|
        0 <= j < upto.len() && #[trigger] upto[j] == TransferEventView::Exists(false);
    assert(events[j] == TransferEventView::Exists(false));
    if step_at(route, events, at) is SendRequest {
        assert(events[at] == TransferEventView::FileDone);
        assert(j < at);
    }
}

/// A file that is there costs a task that does not overwrite no transfer:
/// where the first look reports that the destination exists, the download
/// ends with [`DownloadErrorView::DestinationExists`], and no step of it
/// makes a scratch file, sends a request, reads or writes a chunk, or renames.
pub proof fn existing_file_costs_no_transfer(
    route: Route,
    events: Seq<TransferEventView>,
    told: int,
    at: int,
)
    requires
        0 <= told < events.len(),
        run(route, Transfer::Start, events.take(told)) is Looking,
        events[told] == TransferEventView::Exists(true),
        0 <= at < events.len(),
    ensures
        step_at(route, events, told) == TransferActionView::Finish(
            Err(DownloadErrorView::DestinationExists(route.destination)),
        ),
        !transfers(step_at(route, events, at)),
{
    if transfers(step_at(route, events, at)) {
        transfer_follows_the_look(route, run(route, Transfer::Start, events.take(at)), events[at]);
        if at < told {
            let between = events.subrange(at + 1, told);
            assert(events.take(told) =~= events.take(at + 1) + between);
            run_in_parts(route, Transfer::Start, events.take(at + 1), between);
            assert(events.take(at + 1).drop_last() =~= events.take(at));
            run_never_steps_back(route, run(route, Transfer::Start, events.take(at + 1)), between);
        } else if at > told {
            let between = events.subrange(told + 1, at);
            assert(events.take(at) =~= events.take(told + 1) + between);
            run_in_parts(route, Transfer::Start, events.take(told + 1), between);
            assert(events.take(told + 1).drop_last() =~= events.take(told));
            run_never_steps_back(route, run(route, Transfer::Start, events.take(told + 1)), between);
        }
    }
}

} // verus!
