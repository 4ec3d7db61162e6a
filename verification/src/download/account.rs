//! The run for one account, from the user name to the saved data file.
//!
//! [`AccountSync`] decides what is to be done next; the caller does it (asks
//! the API, reads and writes the data file, runs the downloads) and reports
//! what came of it. The order is fixed: find the account, make its
//! directory, take over its data file, fetch what is new, merge and save,
//! download what is missing while recording each file, and save again.

use crate::download::bulk::{admitted, BulkDownloader};
use crate::download::download_task::{
    outcome_view, CompletedDownload, CompletedDownloadView, DownloadError, DownloadErrorView,
    DownloadTask, DownloadTaskView,
};
use crate::download::{
    all_tasks, records, verdict_on, DownloadContext, DownloadContextView, FileExistsPolicy, Verdict,
    VerdictView,
};
use crate::merge::{merged, newly_seen};
use crate::model::{DataFile, DataFileView, MediaType, Tweet, TweetView, MODEL_VERSION};
use crate::snapshot::{bound, sorted_form, LoadError};
use vstd::prelude::*;

verus! {

/// How the run of an account is to be made.
#[derive(Clone, Debug, PartialEq, Eq)]
pub struct SyncOptions {
    /// Whether to fetch all tweets again, not only those after the latest.
    pub rescan: bool,
    /// The kinds of media to download.
    pub media_types: Vec<MediaType>,
    /// How many downloads may run at a time. With 0 none may run: a run
    /// that finds files to download then ends with
    /// [`SyncError::NoDownloadSlots`].
    pub concurrency: usize,
    /// What to do where a file exists already.
    pub file_exists_policy: FileExistsPolicy,
}

/// Why the run of an account failed.
#[derive(Debug, PartialEq, Eq)]
pub enum SyncError {
    /// The user name names no account; holds the error's text.
    UserNotFound(String),
    /// The directory of the account could not be made; holds the error's text.
    OutputDirectory(String),
    /// The data file could not be read; holds the error's text.
    DataFile(String),
    /// The data file belongs to the account `found`, not to `expected`.
    UserIdMismatch { found: u64, expected: u64 },
    /// The tweets could not be fetched; holds the error's text.
    Fetch(String),
    /// The data file could not be written; holds the error's text.
    Save(String),
    /// A download failed in a way that ends the batch.
    Download(DownloadError),
    /// Files are to be downloaded, but no download may run: the number of
    /// downloads that may run at a time is 0.
    NoDownloadSlots,
}

/// The view of a [`SyncError`].
pub enum SyncErrorView {
    UserNotFound(Seq<char>),
    OutputDirectory(Seq<char>),
    DataFile(Seq<char>),
    UserIdMismatch { found: u64, expected: u64 },
    Fetch(Seq<char>),
    Save(Seq<char>),
    Download(DownloadErrorView),
    NoDownloadSlots,
}

impl View for SyncError {
    type V = SyncErrorView;

    open spec fn view(&self) -> SyncErrorView {
        match self {
            SyncError::UserNotFound(text) => SyncErrorView::UserNotFound(text@),
            SyncError::OutputDirectory(text) => SyncErrorView::OutputDirectory(text@),
            SyncError::DataFile(text) => SyncErrorView::DataFile(text@),
            SyncError::UserIdMismatch { found, expected } => SyncErrorView::UserIdMismatch {
                found: *found,
                expected: *expected,
            },
            SyncError::Fetch(text) => SyncErrorView::Fetch(text@),
            SyncError::Save(text) => SyncErrorView::Save(text@),
            SyncError::Download(error) => SyncErrorView::Download(error@),
            SyncError::NoDownloadSlots => SyncErrorView::NoDownloadSlots,
        }
    }
}

/// What a run has done.
#[derive(Clone, Copy, Debug, PartialEq, Eq, Structural)]
pub struct SyncReport {
    /// How many tweets were not known before.
    pub new_tweets: usize,
    /// How many files were downloaded.
    pub downloaded: usize,
}

/// How far a run has come. Each phase but the last waits for one report.
#[derive(Clone, Copy, Debug, PartialEq, Eq, Structural)]
pub enum SyncPhase {
    /// Waits for the id of the account.
    Resolving,
    /// Waits for the directory of the account.
    CreatingDirectory,
    /// Waits for what the data file of the account holds.
    Loading,
    /// Waits for the tweets of the account.
    Fetching,
    /// Waits for the merged data file to be saved.
    SavingTweets,
    /// Waits for the outcome of a download.
    Downloading,
    /// Waits for the data file to be saved a last time.
    Closing,
    /// The run has ended.
    Done,
}

/// What the caller reports of the step that it performed. A failure comes
/// with the error's text.
#[derive(Debug)]
pub enum SyncEvent {
    /// The id that the user name stands for.
    UserResolved(Result<u64, String>),
    /// The directory of the account is there.
    DirectoryCreated(Result<(), String>),
    /// What was read from the data file; nothing where there is no file.
    Loaded(Result<Option<DataFile>, String>),
    /// The tweets that were fetched.
    Fetched(Result<Vec<Tweet>, String>),
    /// The data file was written.
    Saved(Result<(), String>),
    /// A download has ended; holds what it carried along, and its outcome.
    Downloaded(DownloadContext, Result<CompletedDownload, DownloadError>),
}

/// The view of a [`SyncEvent`].
pub enum SyncEventView {
    UserResolved(Result<u64, Seq<char>>),
    DirectoryCreated(Result<(), Seq<char>>),
    Loaded(Result<Option<DataFileView>, Seq<char>>),
    Fetched(Result<Seq<TweetView>, Seq<char>>),
    Saved(Result<(), Seq<char>>),
    Downloaded(DownloadContextView, Result<CompletedDownloadView, DownloadErrorView>),
}

impl View for SyncEvent {
    type V = SyncEventView;

    open spec fn view(&self) -> SyncEventView {
        match self {
            SyncEvent::UserResolved(Ok(id)) => SyncEventView::UserResolved(Ok(*id)),
            SyncEvent::UserResolved(Err(text)) => SyncEventView::UserResolved(Err(text@)),
            SyncEvent::DirectoryCreated(Ok(_)) => SyncEventView::DirectoryCreated(Ok(())),
            SyncEvent::DirectoryCreated(Err(text)) => SyncEventView::DirectoryCreated(Err(text@)),
            SyncEvent::Loaded(Ok(Some(data_file))) => SyncEventView::Loaded(Ok(Some(data_file@))),
            SyncEvent::Loaded(Ok(None)) => SyncEventView::Loaded(Ok(None)),
            SyncEvent::Loaded(Err(text)) => SyncEventView::Loaded(Err(text@)),
            SyncEvent::Fetched(Ok(tweets)) => SyncEventView::Fetched(Ok(tweets.deep_view())),
            SyncEvent::Fetched(Err(text)) => SyncEventView::Fetched(Err(text@)),
            SyncEvent::Saved(Ok(_)) => SyncEventView::Saved(Ok(())),
            SyncEvent::Saved(Err(text)) => SyncEventView::Saved(Err(text@)),
            SyncEvent::Downloaded(context, outcome) => SyncEventView::Downloaded(
                context@,
                outcome_view(*outcome),
            ),
        }
    }
}

/// What the caller is to do next. After each step but the last two it
/// reports what came of it.
#[derive(Debug, PartialEq, Eq)]
pub enum SyncAction {
    /// Ask the API for the id of the account.
    ResolveUser,
    /// Make the directory of the account.
    CreateDirectory,
    /// Read the data file of the account.
    Load,
    /// Fetch the tweets of the account after `since_id`, or all of them.
    Fetch { user_id: u64, since_id: Option<u64> },
    /// Save the data file, into which `new_tweets` tweets came.
    SaveTweets { new_tweets: usize },
    /// Start the downloads `start`, and report the first that ends.
    Download { start: Vec<DownloadTask<DownloadContext>> },
    /// The download that ended got the verdict `verdict`. Save the data file
    /// if `save` says so, a failure of which does not count; start the
    /// downloads `start`; and report the next download that ends.
    Continue { verdict: Verdict, save: bool, start: Vec<DownloadTask<DownloadContext>> },
    /// No download is left; the last that ended, if there was one, got the
    /// verdict `last`. Save the data file.
    Close { last: Option<Verdict> },
    /// A download failed: give up the downloads that run, and save the data
    /// file.
    GiveUp,
    /// The run has ended, with this result.
    Finish(Result<SyncReport, SyncError>),
    /// The report came out of turn: nothing is to be done for it.
    Nothing,
}

/// The view of a [`SyncAction`].
pub enum SyncActionView {
    ResolveUser,
    CreateDirectory,
    Load,
    Fetch { user_id: u64, since_id: Option<u64> },
    SaveTweets { new_tweets: usize },
    Download { start: Seq<DownloadTaskView<DownloadContextView>> },
    Continue { verdict: VerdictView, save: bool, start: Seq<DownloadTaskView<DownloadContextView>> },
    Close { last: Option<VerdictView> },
    GiveUp,
    Finish(Result<SyncReport, SyncErrorView>),
    Nothing,
}

impl View for SyncAction {
    type V = SyncActionView;

    open spec fn view(&self) -> SyncActionView {
        match self {
            SyncAction::ResolveUser => SyncActionView::ResolveUser,
            SyncAction::CreateDirectory => SyncActionView::CreateDirectory,
            SyncAction::Load => SyncActionView::Load,
            SyncAction::Fetch { user_id, since_id } => SyncActionView::Fetch {
                user_id: *user_id,
                since_id: *since_id,
            },
            SyncAction::SaveTweets { new_tweets } => SyncActionView::SaveTweets {
                new_tweets: *new_tweets,
            },
            SyncAction::Download { start } => SyncActionView::Download { start: start.deep_view() },
            SyncAction::Continue { verdict, save, start } => SyncActionView::Continue {
                verdict: verdict@,
                save: *save,
                start: start.deep_view(),
            },
            SyncAction::Close { last: Some(verdict) } => SyncActionView::Close {
                last: Some(verdict@),
            },
            SyncAction::Close { last: None } => SyncActionView::Close { last: None },
            SyncAction::GiveUp => SyncActionView::GiveUp,
            SyncAction::Finish(Ok(report)) => SyncActionView::Finish(Ok(*report)),
            SyncAction::Finish(Err(error)) => SyncActionView::Finish(Err(error@)),
            SyncAction::Nothing => SyncActionView::Nothing,
        }
    }
}

/// The state of a run, as the contracts see it.
pub struct SyncState {
    pub rescan: bool,
    pub wanted: Seq<MediaType>,
    pub limit: nat,
    pub policy: FileExistsPolicy,
    pub phase: SyncPhase,
    pub user_id: u64,
    pub data_file: DataFileView,
    /// The downloads that have not been started.
    pub waiting: Seq<DownloadTaskView<DownloadContextView>>,
    /// How many downloads run.
    pub running: nat,
    pub new_tweets: usize,
    pub downloaded: usize,
    /// The failure to end with once the data file is saved.
    pub failure: Option<SyncErrorView>,
}

/// The run ends with `result`.
pub open spec fn ended(state: SyncState, result: Result<SyncReport, SyncErrorView>) -> (
    SyncState,
    SyncActionView,
) {
    (SyncState { phase: SyncPhase::Done, ..state }, SyncActionView::Finish(result))
}

/// The run goes on to fetch tweets for the data file `data_file`.
pub open spec fn fetching(state: SyncState, data_file: DataFileView) -> (SyncState, SyncActionView) {
    (
        SyncState { phase: SyncPhase::Fetching, data_file, ..state },
        SyncActionView::Fetch {
            user_id: state.user_id,
            since_id: crate::model::cursor(data_file, state.rescan),
        },
    )
}

/// One more, unless that is more than the greatest number.
pub open spec fn counted(count: usize) -> usize {
    if count < usize::MAX {
        (count + 1) as usize
    } else {
        count
    }
}

/// The state and the step that follow when `event` is reported in `state`.
pub open spec fn sync_transition(state: SyncState, event: SyncEventView) -> (
    SyncState,
    SyncActionView,
) {
    match (state.phase, event) {
        (SyncPhase::Resolving, SyncEventView::UserResolved(Ok(id))) => (
            SyncState { phase: SyncPhase::CreatingDirectory, user_id: id, ..state },
            SyncActionView::CreateDirectory,
        ),
        (SyncPhase::Resolving, SyncEventView::UserResolved(Err(text))) => ended(
            state,
            Err(SyncErrorView::UserNotFound(text)),
        ),
        (SyncPhase::CreatingDirectory, SyncEventView::DirectoryCreated(Ok(_))) => (
            SyncState { phase: SyncPhase::Loading, ..state },
            SyncActionView::Load,
        ),
        (SyncPhase::CreatingDirectory, SyncEventView::DirectoryCreated(Err(text))) => ended(
            state,
            Err(SyncErrorView::OutputDirectory(text)),
        ),
        (SyncPhase::Loading, SyncEventView::Loaded(Ok(None))) => fetching(
            state,
            DataFileView { user_id: state.user_id, tweets: Seq::empty(), version: MODEL_VERSION },
        ),
        (SyncPhase::Loading, SyncEventView::Loaded(Ok(Some(stored)))) => if stored.user_id
            != state.user_id {
            ended(
                state,
                Err(
                    SyncErrorView::UserIdMismatch {
                        found: stored.user_id,
                        expected: state.user_id,
                    },
                ),
            )
        } else {
            fetching(
                state,
                DataFileView {
                    user_id: stored.user_id,
                    tweets: sorted_form(stored.tweets),
                    version: stored.version,
                },
            )
        },
        (SyncPhase::Loading, SyncEventView::Loaded(Err(text))) => ended(
            state,
            Err(SyncErrorView::DataFile(text)),
        ),
        (SyncPhase::Fetching, SyncEventView::Fetched(Ok(tweets))) => {
            let new_tweets = newly_seen(state.data_file.tweets, tweets) as usize;
            (
                SyncState {
                    phase: SyncPhase::SavingTweets,
                    data_file: DataFileView {
                        user_id: state.data_file.user_id,
                        tweets: merged(state.data_file.tweets, tweets),
                        version: MODEL_VERSION,
                    },
                    new_tweets,
                    ..state
                },
                SyncActionView::SaveTweets { new_tweets },
            )
        },
        (SyncPhase::Fetching, SyncEventView::Fetched(Err(text))) => ended(
            state,
            Err(SyncErrorView::Fetch(text)),
        ),
        (SyncPhase::SavingTweets, SyncEventView::Saved(Ok(_))) => {
            let tasks = all_tasks(
                state.data_file.tweets,
                state.wanted,
                state.policy == FileExistsPolicy::Overwrite,
            );
            let start = admitted(tasks.len(), 0, state.limit) as int;
            if tasks.len() == 0 {
                (
                    SyncState {
                        phase: SyncPhase::Closing,
                        waiting: Seq::empty(),
                        running: 0,
                        ..state
                    },
                    SyncActionView::Close { last: None },
                )
            } else if state.limit == 0 {
                ended(state, Err(SyncErrorView::NoDownloadSlots))
            } else {
                (
                    SyncState {
                        phase: SyncPhase::Downloading,
                        waiting: tasks.skip(start),
                        running: start as nat,
                        ..state
                    },
                    SyncActionView::Download { start: tasks.take(start) },
                )
            }
        },
        (SyncPhase::SavingTweets, SyncEventView::Saved(Err(text))) => ended(
            state,
            Err(SyncErrorView::Save(text)),
        ),
        (SyncPhase::Downloading, SyncEventView::Downloaded(context, outcome)) => if state.running
            == 0 {
            (state, SyncActionView::Nothing)
        } else {
            let verdict = verdict_on(outcome, state.policy);
            let data_file = if records(verdict) {
                DataFileView {
                    user_id: state.data_file.user_id,
                    tweets: bound(
                        state.data_file.tweets,
                        context.tweet_id,
                        context.media_id,
                        context.filename,
                    ),
                    version: state.data_file.version,
                }
            } else {
                state.data_file
            };
            let downloaded = if verdict is Downloaded {
                counted(state.downloaded)
            } else {
                state.downloaded
            };
            let running = (state.running - 1) as nat;
            let start = admitted(state.waiting.len(), running, state.limit) as int;
            match verdict {
                VerdictView::Abort(error) => (
                    SyncState {
                        phase: SyncPhase::Closing,
                        waiting: Seq::empty(),
                        running: 0,
                        failure: Some(SyncErrorView::Download(error)),
                        ..state
                    },
                    SyncActionView::GiveUp,
                ),
                _ => if running + start == 0 {
                    (
                        SyncState {
                            phase: SyncPhase::Closing,
                            data_file,
                            downloaded,
                            waiting: Seq::empty(),
                            running: 0,
                            ..state
                        },
                        SyncActionView::Close { last: Some(verdict) },
                    )
                } else {
                    (
                        SyncState {
                            phase: SyncPhase::Downloading,
                            data_file,
                            downloaded,
                            waiting: state.waiting.skip(start),
                            running: (running + start) as nat,
                            ..state
                        },
                        SyncActionView::Continue {
                            verdict,
                            save: records(verdict),
                            start: state.waiting.take(start),
                        },
                    )
                },
            }
        },
        (SyncPhase::Closing, SyncEventView::Saved(saved)) => match state.failure {
            Some(error) => ended(SyncState { failure: None, ..state }, Err(error)),
            None => match saved {
                Ok(_) => ended(
                    state,
                    Ok(SyncReport { new_tweets: state.new_tweets, downloaded: state.downloaded }),
                ),
                Err(text) => ended(state, Err(SyncErrorView::Save(text))),
            },
        },
        _ => (state, SyncActionView::Nothing),
    }
}

/// The views of tasks.
pub open spec fn task_views(tasks: Seq<DownloadTask<DownloadContext>>) -> Seq<
    DownloadTaskView<DownloadContextView>,
> {
    tasks.map_values(|task: DownloadTask<DownloadContext>| task.deep_view())
}

/// The state in which a run begins: it waits for the id of the account.
pub open spec fn initial_state(options: SyncOptions) -> SyncState {
    SyncState {
        rescan: options.rescan,
        wanted: options.media_types@,
        limit: options.concurrency as nat,
        policy: options.file_exists_policy,
        phase: SyncPhase::Resolving,
        user_id: 0,
        data_file: DataFileView { user_id: 0, tweets: Seq::empty(), version: MODEL_VERSION },
        waiting: Seq::empty(),
        running: 0,
        new_tweets: 0,
        downloaded: 0,
        failure: None,
    }
}

/// The run for one account.
pub struct AccountSync {
    options: SyncOptions,
    phase: SyncPhase,
    user_id: u64,
    data_file: DataFile,
    downloader: BulkDownloader<DownloadContext>,
    new_tweets: usize,
    downloaded: usize,
    failure: Option<SyncError>,
}

impl AccountSync {
    /// The state of the run.
    pub closed spec fn state(&self) -> SyncState {
        SyncState {
            rescan: self.options.rescan,
            wanted: self.options.media_types@,
            limit: self.options.concurrency as nat,
            policy: self.options.file_exists_policy,
            phase: self.phase,
            user_id: self.user_id,
            data_file: self.data_file@,
            waiting: task_views(self.downloader.waiting()),
            running: self.downloader.in_flight(),
            new_tweets: self.new_tweets,
            downloaded: self.downloaded,
            failure: match self.failure {
                Some(error) => Some(error@),
                None => None,
            },
        }
    }

    /// What holds of every run: no more downloads run than may.
    pub closed spec fn wf(&self) -> bool {
        &&& self.downloader.wf()
        &&& self.downloader.limit() == self.options.concurrency
    }

    /// No more downloads run than the options allow.
    pub proof fn running_is_bounded(&self)
        requires
            self.wf(),
        ensures
            self.state().running <= self.state().limit,
    {
    }

    /// A run that is made as `options` say. Its first step is
    /// [`SyncAction::ResolveUser`].
    pub fn new(options: SyncOptions) -> (sync: AccountSync)
        ensures
            sync.wf(),
            sync.state() == initial_state(options),
    {
        let downloader: BulkDownloader<DownloadContext> = BulkDownloader::new(options.concurrency);
        let data_file = DataFile::new(0);
        assert(task_views(downloader.waiting()) =~= Seq::empty());
        AccountSync {
            options,
            phase: SyncPhase::Resolving,
            user_id: 0,
            data_file,
            downloader,
            new_tweets: 0,
            downloaded: 0,
            failure: None,
        }
    }

    /// The phase of the run.
    pub fn phase(&self) -> (phase: SyncPhase)
        ensures
            phase == self.state().phase,
    {
        self.phase
    }

    /// The data file as it is to be saved.
    pub fn data_file(&self) -> (data_file: &DataFile)
        ensures
            data_file@ == self.state().data_file,
    {
        &self.data_file
    }

    /// How many downloads run.
    pub fn running(&self) -> (count: usize)
        requires
            self.wf(),
        ensures
            count == self.state().running,
            count <= self.state().limit,
    {
        self.downloader.running()
    }

    /// Ends the run with the failure `error`.
    fn fail(&mut self, error: SyncError) -> (action: SyncAction)
        requires
            old(self).wf(),
        ensures
            final(self).wf(),
            (final(self).state(), action@) == ended(old(self).state(), Err(error@)),
    {
        self.phase = SyncPhase::Done;
        SyncAction::Finish(Err(error))
    }

    /// Goes on to fetch tweets for `data_file`.
    fn fetch(&mut self, data_file: DataFile) -> (action: SyncAction)
        requires
            old(self).wf(),
        ensures
            final(self).wf(),
            (final(self).state(), action@) == fetching(old(self).state(), data_file@),
    {
        let since_id = data_file.since_id(self.options.rescan);
        self.data_file = data_file;
        self.phase = SyncPhase::Fetching;
        SyncAction::Fetch { user_id: self.user_id, since_id }
    }

    /// Gives up what waits and what runs, and goes on to the last saving.
    fn close(&mut self)
        requires
            old(self).wf(),
        ensures
            final(self).wf(),
            final(self).state() == (SyncState {
                phase: SyncPhase::Closing,
                waiting: Seq::empty(),
                running: 0,
                ..old(self).state()
            }),
    {
        self.downloader.abort();
        self.phase = SyncPhase::Closing;
        assert(task_views(self.downloader.waiting()) =~= Seq::empty());
    }

    /// Starts the downloads that may be started.
    fn start(&mut self) -> (start: Vec<DownloadTask<DownloadContext>>)
        requires
            old(self).wf(),
        ensures
            final(self).wf(),
            start.deep_view().len() == admitted(
                old(self).state().waiting.len(),
                old(self).state().running,
                old(self).state().limit,
            ),
            start.deep_view() == old(self).state().waiting.take(start.deep_view().len() as int),
            final(self).state() == (SyncState {
                waiting: old(self).state().waiting.skip(start.deep_view().len() as int),
                running: old(self).state().running + start.deep_view().len(),
                ..old(self).state()
            }),
    {
        let ghost waiting = self.downloader.waiting();
        let start = self.downloader.next_tasks();
        proof {
            let count = start@.len() as int;
            assert(start.deep_view() =~= task_views(waiting).take(count));
            assert(task_views(waiting.skip(count)) =~= task_views(waiting).skip(count));
        }
        start
    }

    /// Takes the run one step further: from the report `event` of the step
    /// that was asked for last to the next step.
    pub fn step(&mut self, event: SyncEvent) -> (action: SyncAction)
        requires
            old(self).wf(),
        ensures
            final(self).wf(),
            (final(self).state(), action@) == sync_transition(old(self).state(), event@),
    {
        match self.phase {
            SyncPhase::Resolving => match event {
                SyncEvent::UserResolved(Ok(id)) => {
                    self.user_id = id;
                    self.phase = SyncPhase::CreatingDirectory;
                    SyncAction::CreateDirectory
                },
                SyncEvent::UserResolved(Err(text)) => self.fail(SyncError::UserNotFound(text)),
                _ => SyncAction::Nothing,
            },
            SyncPhase::CreatingDirectory => match event {
                SyncEvent::DirectoryCreated(Ok(_)) => {
                    self.phase = SyncPhase::Loading;
                    SyncAction::Load
                },
                SyncEvent::DirectoryCreated(Err(text)) => self.fail(
                    SyncError::OutputDirectory(text),
                ),
                _ => SyncAction::Nothing,
            },
            SyncPhase::Loading => match event {
                SyncEvent::Loaded(Ok(stored)) => match DataFile::load(stored, self.user_id) {
                    Ok(Some(data_file)) => self.fetch(data_file),
                    Ok(None) => {
                        let data_file = DataFile::new(self.user_id);
                        self.fetch(data_file)
                    },
                    Err(LoadError::UserIdMismatch { found, expected }) => self.fail(
                        SyncError::UserIdMismatch { found, expected },
                    ),
                },
                SyncEvent::Loaded(Err(text)) => self.fail(SyncError::DataFile(text)),
                _ => SyncAction::Nothing,
            },
            SyncPhase::Fetching => match event {
                SyncEvent::Fetched(Ok(tweets)) => {
                    let new_tweets = self.data_file.merge_tweets(tweets);
                    self.new_tweets = new_tweets;
                    self.phase = SyncPhase::SavingTweets;
                    SyncAction::SaveTweets { new_tweets }
                },
                SyncEvent::Fetched(Err(text)) => self.fail(SyncError::Fetch(text)),
                _ => SyncAction::Nothing,
            },
            SyncPhase::SavingTweets => match event {
                SyncEvent::Saved(Ok(_)) => {
                    let tasks = self.data_file.download_tasks(
                        self.options.media_types.as_slice(),
                        self.options.file_exists_policy,
                    );
                    let ghost all = tasks.deep_view();
                    if tasks.len() == 0 {
                        self.close();
                        SyncAction::Close { last: None }
                    } else if self.options.concurrency == 0 {
                        self.fail(SyncError::NoDownloadSlots)
                    } else {
                        let mut downloader: BulkDownloader<DownloadContext> = BulkDownloader::new(
                            self.options.concurrency,
                        );
                        downloader.push_tasks(tasks);
                        self.downloader = downloader;
                        assert(self.downloader.waiting() =~= tasks@);
                        assert(task_views(self.downloader.waiting()) =~= all);
                        let start = self.start();
                        self.phase = SyncPhase::Downloading;
                        SyncAction::Download { start }
                    }
                },
                SyncEvent::Saved(Err(text)) => self.fail(SyncError::Save(text)),
                _ => SyncAction::Nothing,
            },
            SyncPhase::Downloading => match event {
                SyncEvent::Downloaded(context, outcome) => {
                    if !self.downloader.task_done() {
                        return SyncAction::Nothing;
                    }
                    let verdict = self.data_file.apply_outcome(
                        context,
                        outcome,
                        self.options.file_exists_policy,
                    );
                    match verdict {
                        Verdict::Abort(error) => {
                            self.failure = Some(SyncError::Download(error));
                            self.close();
                            SyncAction::GiveUp
                        },
                        verdict => {
                            let save = match &verdict {
                                Verdict::Downloaded => {
                                    if self.downloaded < usize::MAX {
                                        self.downloaded = self.downloaded + 1;
                                    }
                                    true
                                },
                                Verdict::Adopted => true,
                                _ => false,
                            };
                            let start = self.start();
                            if self.downloader.running() == 0 {
                                self.close();
                                SyncAction::Close { last: Some(verdict) }
                            } else {
                                SyncAction::Continue { verdict, save, start }
                            }
                        },
                    }
                },
                _ => SyncAction::Nothing,
            },
            SyncPhase::Closing => match event {
                SyncEvent::Saved(saved) => {
                    let mut failure: Option<SyncError> = None;
                    std::mem::swap(&mut failure, &mut self.failure);
                    match failure {
                        Some(error) => self.fail(error),
                        None => match saved {
                            Ok(_) => {
                                self.phase = SyncPhase::Done;
                                SyncAction::Finish(
                                    Ok(
                                        SyncReport {
                                            new_tweets: self.new_tweets,
                                            downloaded: self.downloaded,
                                        },
                                    ),
                                )
                            },
                            Err(text) => self.fail(SyncError::Save(text)),
                        },
                    }
                },
                _ => SyncAction::Nothing,
            },
            SyncPhase::Done => SyncAction::Nothing,
        }
    }
}

/// A download that meets a file which the server no longer has does not end
/// the run: the data file and the failure to end with stay as they are, and
/// the run goes on with the downloads that are left, or to its last saving.
pub proof fn missing_file_does_not_end_the_run(
    state: SyncState,
    context: DownloadContextView,
    url: Seq<char>,
)
    requires
        state.phase is Downloading,
        state.running > 0,
    ensures
        ({
            let (next, action) = sync_transition(
                state,
                SyncEventView::Downloaded(context, Err(DownloadErrorView::BadResponse(404, url))),
            );
            &&& next.data_file == state.data_file
            &&& next.failure == state.failure
            &&& next.downloaded == state.downloaded
            &&& action is Continue || action is Close
            &&& next.phase is Downloading || next.phase is Closing
        }),
{
}

/// Where a download fails in a way that ends the batch, what was recorded
/// before is saved: the step is to give up and save, and the run then ends
/// with the failure of the download, whatever comes of the saving.
pub proof fn failed_download_saves_what_was_recorded(
    state: SyncState,
    context: DownloadContextView,
    outcome: Result<CompletedDownloadView, DownloadErrorView>,
    saved: Result<(), Seq<char>>,
)
    requires
        state.phase is Downloading,
        state.running > 0,
        verdict_on(outcome, state.policy) is Abort,
    ensures
        ({
            let (next, action) = sync_transition(state, SyncEventView::Downloaded(context, outcome));
            let (last, end) = sync_transition(next, SyncEventView::Saved(saved));
            &&& action is GiveUp
            &&& next.phase is Closing
            &&& next.data_file == state.data_file
            &&& next.running == 0
            &&& end == SyncActionView::Finish(
                Err(SyncErrorView::Download(verdict_on(outcome, state.policy)->Abort_0)),
            )
            &&& last.phase is Done
        }),
{
}

/// No step starts more downloads than there are free slots: after every
/// report, no more downloads run than may, where no more ran before.
pub proof fn steps_keep_the_limit(state: SyncState, event: SyncEventView)
    requires
        state.running <= state.limit,
    ensures
        sync_transition(state, event).0.running <= state.limit,
        sync_transition(state, event).0.limit == state.limit,
{
}

/// A run gives no download up because it is out of slots: where downloads are
/// found and none may run, it ends with [`SyncErrorView::NoDownloadSlots`];
/// and where a download ends and the run goes to its last saving, no
/// download waits any more.
pub proof fn no_download_is_left_behind(state: SyncState, event: SyncEventView)
    requires
        state.running <= state.limit,
        state.phase is SavingTweets || state.phase is Downloading,
        sync_transition(state, event).1 is Close,
    ensures
        state.phase is SavingTweets ==> all_tasks(
            state.data_file.tweets,
            state.wanted,
            state.policy == FileExistsPolicy::Overwrite,
        ).len() == 0,
        state.phase is Downloading ==> state.waiting.len() == 0 && state.running == 1,
{
}

} // verus!
