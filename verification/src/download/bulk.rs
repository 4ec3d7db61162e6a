//! The admission of downloads: at most a given number run at a time, in the
//! order in which they were handed in, and each outcome is counted once.
//!
//! The downloader starts nothing itself. The caller asks it for the next task
//! to start, runs the downloads, and reports each that has finished.

use crate::download::download_task::DownloadTask;
use std::collections::VecDeque;
use vstd::prelude::*;

verus! {

/// How many of `waiting` downloads can be started while `running` run and at
/// most `limit` may: as many as there are free slots, if that many wait.
pub open spec fn admitted(waiting: nat, running: nat, limit: nat) -> nat {
    if running >= limit {
        0
    } else if waiting <= limit - running {
        waiting
    } else {
        (limit - running) as nat
    }
}

/// The state of a batch of downloads.
pub struct BulkDownloader<C> {
    concurrency: usize,
    waiting: VecDeque<DownloadTask<C>>,
    in_flight: usize,
    submitted: Ghost<Seq<DownloadTask<C>>>,
    delivered: Ghost<nat>,
    abandoned: Ghost<nat>,
}

impl<C> BulkDownloader<C> {
    /// How many downloads may run at a time.
    pub closed spec fn limit(&self) -> nat {
        self.concurrency as nat
    }

    /// The tasks that have not been started, the next one first.
    pub closed spec fn waiting(&self) -> Seq<DownloadTask<C>> {
        self.waiting@
    }

    /// How many downloads are running.
    pub closed spec fn in_flight(&self) -> nat {
        self.in_flight as nat
    }

    /// Every task that was handed in, in that order.
    pub closed spec fn submitted(&self) -> Seq<DownloadTask<C>> {
        self.submitted@
    }

    /// How many outcomes were reported.
    pub closed spec fn delivered(&self) -> nat {
        self.delivered@
    }

    /// How many tasks were given up, started or not.
    pub closed spec fn abandoned(&self) -> nat {
        self.abandoned@
    }

    /// What holds of every downloader: no more downloads run than the limit
    /// allows; the tasks that wait are the last of those handed in, so that
    /// tasks are started in their order; and every task that was handed in
    /// waits, runs, has reported its outcome, or was given up.
    pub open spec fn wf(&self) -> bool {
        &&& self.in_flight() <= self.limit()
        &&& self.waiting().len() <= self.submitted().len()
        &&& self.waiting() == self.submitted().skip(
            self.submitted().len() - self.waiting().len(),
        )
        &&& self.in_flight() + self.delivered() + self.abandoned() + self.waiting().len()
            == self.submitted().len()
    }

    /// A downloader without tasks that runs at most `concurrency` downloads
    /// at a time. With a `concurrency` of 0 it starts none: tasks that are
    /// handed in wait until they are given up.
    pub fn new(concurrency: usize) -> (downloader: Self)
        ensures
            downloader.wf(),
            downloader.limit() == concurrency,
            downloader.submitted() == Seq::<DownloadTask<C>>::empty(),
            downloader.waiting() == Seq::<DownloadTask<C>>::empty(),
            downloader.in_flight() == 0,
            downloader.delivered() == 0,
            downloader.abandoned() == 0,
    {
        let waiting: VecDeque<DownloadTask<C>> = VecDeque::new();
        assert(waiting@ =~= Seq::<DownloadTask<C>>::empty().skip(0));
        BulkDownloader {
            concurrency,
            waiting,
            in_flight: 0,
            submitted: Ghost(Seq::empty()),
            delivered: Ghost(0),
            abandoned: Ghost(0),
        }
    }

    /// Hands in a task. It waits behind those handed in before.
    pub fn push_task(&mut self, task: DownloadTask<C>)
        requires
            old(self).wf(),
        ensures
            final(self).wf(),
            final(self).limit() == old(self).limit(),
            final(self).submitted() == old(self).submitted().push(task),
            final(self).waiting() == old(self).waiting().push(task),
            final(self).in_flight() == old(self).in_flight(),
            final(self).delivered() == old(self).delivered(),
            final(self).abandoned() == old(self).abandoned(),
    {
        let ghost before = self.submitted@;
        let ghost were_waiting = self.waiting@;
        self.waiting.push_back(task);
        self.submitted = Ghost(before.push(task));
        assert(self.waiting@ =~= before.push(task).skip(
            before.push(task).len() - self.waiting@.len(),
        ));
    }

    /// The next task to start, if one waits and a download may be started;
    /// the task then counts as running.
    pub fn next_task(&mut self) -> (next: Option<DownloadTask<C>>)
        requires
            old(self).wf(),
        ensures
            final(self).wf(),
            final(self).limit() == old(self).limit(),
            final(self).submitted() == old(self).submitted(),
            final(self).delivered() == old(self).delivered(),
            final(self).abandoned() == old(self).abandoned(),
            next is Some <==> old(self).in_flight() < old(self).limit() && old(self).waiting().len() > 0,
            match next {
                Some(task) => {
                    &&& task == old(self).waiting()[0]
                    &&& final(self).waiting() == old(self).waiting().drop_first()
                    &&& final(self).in_flight() == old(self).in_flight() + 1
                },
                None => {
                    &&& final(self).waiting() == old(self).waiting()
                    &&& final(self).in_flight() == old(self).in_flight()
                },
            },
    {
        if self.in_flight >= self.concurrency {
            return None;
        }
        let ghost were_waiting = self.waiting@;
        match self.waiting.pop_front() {
            Some(task) => {
                self.in_flight = self.in_flight + 1;
                assert(self.waiting@ =~= were_waiting.drop_first());
                assert(self.waiting@ =~= self.submitted@.skip(
                    self.submitted@.len() - self.waiting@.len(),
                ));
                Some(task)
            },
            None => None,
        }
    }

    /// Hands in the tasks `tasks`, in their order.
    pub fn push_tasks(&mut self, tasks: Vec<DownloadTask<C>>)
        requires
            old(self).wf(),
        ensures
            final(self).wf(),
            final(self).limit() == old(self).limit(),
            final(self).submitted() == old(self).submitted() + tasks@,
            final(self).waiting() == old(self).waiting() + tasks@,
            final(self).in_flight() == old(self).in_flight(),
            final(self).delivered() == old(self).delivered(),
            final(self).abandoned() == old(self).abandoned(),
    {
        let ghost added = tasks@;
        assert(old(self).submitted() + added.take(0) =~= old(self).submitted());
        assert(old(self).waiting() + added.take(0) =~= old(self).waiting());
        for task in it: tasks
            invariant
                it.seq() == added,
                self.wf(),
                self.limit() == old(self).limit(),
                self.submitted() == old(self).submitted() + added.take(it.index() as int),
                self.waiting() == old(self).waiting() + added.take(it.index() as int),
                self.in_flight() == old(self).in_flight(),
                self.delivered() == old(self).delivered(),
                self.abandoned() == old(self).abandoned(),
        {
            assert(added.take(it.index() + 1) =~= added.take(it.index() as int).push(task));
            assert((old(self).submitted() + added.take(it.index() as int)).push(task) =~= old(self).submitted() + added.take(it.index() + 1));
            assert((old(self).waiting() + added.take(it.index() as int)).push(task) =~= old(self).waiting() + added.take(it.index() + 1));
            self.push_task(task);
        }
        assert(added.take(added.len() as int) =~= added);
    }

    /// The tasks to start now: the first of those that wait, as many as
    /// there are free slots. They then count as running.
    pub fn next_tasks(&mut self) -> (start: Vec<DownloadTask<C>>)
        requires
            old(self).wf(),
        ensures
            final(self).wf(),
            final(self).limit() == old(self).limit(),
            final(self).submitted() == old(self).submitted(),
            final(self).delivered() == old(self).delivered(),
            final(self).abandoned() == old(self).abandoned(),
            start@.len() == admitted(
                old(self).waiting().len(),
                old(self).in_flight(),
                old(self).limit(),
            ),
            start@ == old(self).waiting().take(start@.len() as int),
            final(self).waiting() == old(self).waiting().skip(start@.len() as int),
            final(self).in_flight() == old(self).in_flight() + start@.len(),
    {
        let ghost waiting = self.waiting();
        let mut start: Vec<DownloadTask<C>> = Vec::new();
        assert(start@ =~= waiting.take(0));
        assert(waiting =~= waiting.skip(0));
        loop
            invariant
                self.wf(),
                self.limit() == old(self).limit(),
                self.submitted() == old(self).submitted(),
                self.delivered() == old(self).delivered(),
                self.abandoned() == old(self).abandoned(),
                waiting == old(self).waiting(),
                start@.len() <= waiting.len(),
                start@ == waiting.take(start@.len() as int),
                self.waiting() == waiting.skip(start@.len() as int),
                self.in_flight() == old(self).in_flight() + start@.len(),
            decreases self.waiting().len(),
        {
            let ghost started = start@;
            match self.next_task() {
                Some(task) => {
                    start.push(task);
                    assert(start@ =~= waiting.take(started.len() as int + 1));
                    assert(self.waiting() =~= waiting.skip(started.len() as int + 1));
                },
                None => {
                    return start;
                },
            }
        }
    }

    /// Reports that a running download has finished, whatever its outcome, and
    /// says whether one was running. A slot becomes free for the next task.
    pub fn task_done(&mut self) -> (was_running: bool)
        requires
            old(self).wf(),
        ensures
            final(self).wf(),
            final(self).limit() == old(self).limit(),
            final(self).submitted() == old(self).submitted(),
            final(self).waiting() == old(self).waiting(),
            final(self).abandoned() == old(self).abandoned(),
            was_running == (old(self).in_flight() > 0),
            was_running ==> final(self).in_flight() == old(self).in_flight() - 1 && final(self).delivered() == old(self).delivered() + 1,
            !was_running ==> final(self).in_flight() == old(self).in_flight() && final(self).delivered() == old(self).delivered(),
    {
        if self.in_flight == 0 {
            return false;
        }
        self.in_flight = self.in_flight - 1;
        self.delivered = Ghost((self.delivered@ + 1) as nat);
        true
    }

    /// Gives up the tasks that wait and those that run: nothing is started or
    /// counted for them any more. Returns how many tasks had not been started.
    pub fn abort(&mut self) -> (dropped: usize)
        requires
            old(self).wf(),
        ensures
            final(self).wf(),
            final(self).limit() == old(self).limit(),
            final(self).submitted() == old(self).submitted(),
            final(self).delivered() == old(self).delivered(),
            final(self).waiting() == Seq::<DownloadTask<C>>::empty(),
            final(self).in_flight() == 0,
            final(self).abandoned() == old(self).abandoned() + old(self).in_flight() + old(self).waiting().len(),
            dropped == old(self).waiting().len(),
    {
        let dropped: usize = self.waiting.len();
        let ghost given_up = self.abandoned@ + self.in_flight + self.waiting@.len();
        self.waiting.clear();
        self.in_flight = 0;
        self.abandoned = Ghost(given_up as nat);
        assert(self.waiting@ =~= self.submitted@.skip(self.submitted@.len() as int));
        dropped
    }

    /// Whether nothing waits and nothing runs. Where no task was given up,
    /// every task that was handed in has then reported its outcome.
    pub fn is_finished(&self) -> (finished: bool)
        requires
            self.wf(),
        ensures
            finished == (self.waiting().len() == 0 && self.in_flight() == 0),
            finished && self.abandoned() == 0 ==> self.delivered() == self.submitted().len(),
    {
        self.waiting.len() == 0 && self.in_flight == 0
    }

    /// How many downloads may run at a time.
    pub fn concurrency(&self) -> (limit: usize)
        ensures
            limit == self.limit(),
    {
        self.concurrency
    }

    /// How many downloads are running: never more than the limit.
    pub fn running(&self) -> (count: usize)
        requires
            self.wf(),
        ensures
            count == self.in_flight(),
            count <= self.limit(),
    {
        self.in_flight
    }

    /// How many tasks wait to be started.
    pub fn pending(&self) -> (count: usize)
        ensures
            count == self.waiting().len(),
    {
        self.waiting.len()
    }
}

/// Once nothing waits and nothing runs, and no task was given up, the number
/// of outcomes is the number of tasks: each task has reported once.
pub proof fn every_outcome_is_delivered<C>(downloader: BulkDownloader<C>)
    requires
        downloader.wf(),
        downloader.waiting().len() == 0,
        downloader.in_flight() == 0,
        downloader.abandoned() == 0,
    ensures
        downloader.delivered() == downloader.submitted().len(),
{
}

/// While a task waits, either it can be started or a download runs whose end
/// will free a slot, unless the limit is zero: the batch does not get stuck.
pub proof fn batch_goes_on<C>(downloader: BulkDownloader<C>)
    requires
        downloader.wf(),
        downloader.limit() > 0,
        downloader.waiting().len() > 0,
    ensures
        downloader.in_flight() < downloader.limit() || downloader.in_flight() > 0,
{
}

/// The tasks that have been started are the first of those handed in, and the
/// next to start is the one handed in after them.
pub proof fn tasks_start_in_order<C>(downloader: BulkDownloader<C>)
    requires
        downloader.wf(),
        downloader.waiting().len() > 0,
    ensures
        downloader.waiting()[0] == downloader.submitted()[downloader.submitted().len()
            - downloader.waiting().len()],
{
}

} // verus!
