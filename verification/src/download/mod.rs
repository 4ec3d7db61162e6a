//! Downloading the media of an account: which files to fetch, and what each
//! outcome means for the data file and for the rest of the batch.

pub mod account;
pub mod bulk;
pub mod download_task;
pub mod plan;
pub mod transfer_laws;

use crate::candidate::{candidate, parsed};
use crate::download::download_task::{
    outcome_view, CompletedDownload, CompletedDownloadView, DownloadError, DownloadErrorView,
    DownloadTask, DownloadTaskView,
};
use crate::model::{DataFile, MediaType, MediaView, TweetView};
use crate::snapshot::bound;
use vstd::prelude::*;

verus! {

/// What to do where the file to download exists already.
#[derive(Clone, Copy, Debug, PartialEq, Eq, Structural)]
pub enum FileExistsPolicy {
    /// Replace the file.
    Overwrite,
    /// Keep the file, report it and go on.
    Warn,
    /// Keep the file and record it as the downloaded one.
    Adopt,
}

/// What a download carries along: the media that it is for, by the ids of the
/// tweet and the media, and the file name to record.
#[derive(Clone, Debug, PartialEq, Eq)]
pub struct DownloadContext {
    pub tweet_id: u64,
    pub media_id: u64,
    pub filename: String,
}

/// The view of a [`DownloadContext`].
pub struct DownloadContextView {
    pub tweet_id: u64,
    pub media_id: u64,
    pub filename: Seq<char>,
}

impl View for DownloadContext {
    type V = DownloadContextView;

    open spec fn view(&self) -> DownloadContextView {
        DownloadContextView {
            tweet_id: self.tweet_id,
            media_id: self.media_id,
            filename: self.filename@,
        }
    }
}

impl DeepView for DownloadContext {
    type V = DownloadContextView;

    open spec fn deep_view(&self) -> DownloadContextView {
        self@
    }
}

/// The download of one media item of the tweet `tweet_id`, if it is a
/// candidate. The destination is the file name, to be taken within the
/// account's directory.
pub open spec fn task_for(tweet_id: u64, media: MediaView, wanted: Seq<MediaType>, overwrite: bool)
    -> Option<DownloadTaskView<DownloadContextView>> {
    match candidate(media, tweet_id, wanted, parsed(media.url)) {
        Some((url, filename)) => Some(
            DownloadTaskView {
                url,
                destination: filename,
                context: DownloadContextView { tweet_id, media_id: media.id, filename },
                overwrite,
            },
        ),
        None => None,
    }
}

/// The downloads for the media of one tweet, in the order of the media.
pub open spec fn tweet_tasks(tweet: TweetView, wanted: Seq<MediaType>, overwrite: bool) -> Seq<
    DownloadTaskView<DownloadContextView>,
> {
    tweet.media.filter_map(|media: MediaView| task_for(tweet.id, media, wanted, overwrite))
}

/// The downloads for the media of `tweets`, tweet after tweet.
pub open spec fn all_tasks(tweets: Seq<TweetView>, wanted: Seq<MediaType>, overwrite: bool) -> Seq<
    DownloadTaskView<DownloadContextView>,
>
    decreases tweets.len(),
{
    if tweets.len() == 0 {
        Seq::empty()
    } else {
        all_tasks(tweets.drop_last(), wanted, overwrite) + tweet_tasks(
            tweets.last(),
            wanted,
            overwrite,
        )
    }
}

/// What an outcome means for the batch.
#[derive(Clone, Debug, PartialEq, Eq)]
pub enum Verdict {
    /// The file was downloaded: it is recorded in the data file, which is to
    /// be saved, and it counts as a new file.
    Downloaded,
    /// The file was there before and is recorded as the downloaded one; the
    /// data file is to be saved.
    Adopted,
    /// The file was there before and is left alone; holds its path.
    SkippedExisting(String),
    /// The server no longer has the file; holds the URL.
    SkippedMissing(String),
    /// The batch is to be given up with this error.
    Abort(DownloadError),
}

/// The view of a [`Verdict`].
pub enum VerdictView {
    Downloaded,
    Adopted,
    SkippedExisting(Seq<char>),
    SkippedMissing(Seq<char>),
    Abort(DownloadErrorView),
}

impl View for Verdict {
    type V = VerdictView;

    open spec fn view(&self) -> VerdictView {
        match self {
            Verdict::Downloaded => VerdictView::Downloaded,
            Verdict::Adopted => VerdictView::Adopted,
            Verdict::SkippedExisting(path) => VerdictView::SkippedExisting(path@),
            Verdict::SkippedMissing(url) => VerdictView::SkippedMissing(url@),
            Verdict::Abort(error) => VerdictView::Abort(error@),
        }
    }
}

/// The verdict on an outcome under a policy.
///
/// A finished download is recorded. An existing destination is adopted or
/// skipped as the policy says, and ends the batch under a policy that
/// overwrites, where it cannot come about. A status of 404 is skipped: the
/// media is gone. Every other failure ends the batch.
pub open spec fn verdict_on(
    outcome: Result<CompletedDownloadView, DownloadErrorView>,
    policy: FileExistsPolicy,
) -> VerdictView {
    match outcome {
        Ok(_) => VerdictView::Downloaded,
        Err(DownloadErrorView::DestinationExists(path)) => match policy {
            FileExistsPolicy::Adopt => VerdictView::Adopted,
            FileExistsPolicy::Warn => VerdictView::SkippedExisting(path),
            FileExistsPolicy::Overwrite => VerdictView::Abort(
                DownloadErrorView::DestinationExists(path),
            ),
        },
        Err(DownloadErrorView::BadResponse(status, url)) => if status == 404 {
            VerdictView::SkippedMissing(url)
        } else {
            VerdictView::Abort(DownloadErrorView::BadResponse(status, url))
        },
        Err(error) => VerdictView::Abort(error),
    }
}

/// Whether a verdict has the file recorded in the data file.
pub open spec fn records(verdict: VerdictView) -> bool {
    verdict is Downloaded || verdict is Adopted
}

/// Decides [`verdict_on`].
pub fn judge(outcome: Result<CompletedDownload, DownloadError>, policy: FileExistsPolicy) -> (verdict:
    Verdict)
    ensures
        verdict@ == verdict_on(outcome_view(outcome), policy),
{
    match outcome {
        Ok(_) => Verdict::Downloaded,
        Err(DownloadError::DestinationExists(path)) => match policy {
            FileExistsPolicy::Adopt => Verdict::Adopted,
            FileExistsPolicy::Warn => Verdict::SkippedExisting(path),
            FileExistsPolicy::Overwrite => Verdict::Abort(DownloadError::DestinationExists(path)),
        },
        Err(DownloadError::BadResponse(status, url)) => {
            if status == 404 {
                Verdict::SkippedMissing(url)
            } else {
                Verdict::Abort(DownloadError::BadResponse(status, url))
            }
        },
        Err(error) => Verdict::Abort(error),
    }
}

impl DataFile {
    /// The downloads that are still to be made for the media of the kinds
    /// `media_types`, in the order of the tweets and of their media.
    pub fn download_tasks(&self, media_types: &[MediaType], policy: FileExistsPolicy) -> (tasks:
        Vec<DownloadTask<DownloadContext>>)
        ensures
            tasks.deep_view() == all_tasks(
                self@.tweets,
                media_types@,
                policy == FileExistsPolicy::Overwrite,
            ),
    {
        let overwrite = match policy {
            FileExistsPolicy::Overwrite => true,
            _ => false,
        };
        let ghost tweets = self@.tweets;
        let ghost wanted = media_types@;
        let mut tasks: Vec<DownloadTask<DownloadContext>> = Vec::new();
        assert(tasks.deep_view() =~= Seq::empty());
        assert(tweets.take(0) =~= Seq::<TweetView>::empty());
        let mut t: usize = 0;
        while t < self.tweets.len()
            invariant
                t <= self.tweets.len(),
                tweets == self@.tweets,
                wanted == media_types@,
                tasks.deep_view() == all_tasks(tweets.take(t as int), wanted, overwrite),
            decreases self.tweets.len() - t,
        {
            let tweet = &self.tweets[t];
            let ghost done = tasks.deep_view();
            let ghost media = tweet@.media;
            let ghost pick = |item: MediaView| task_for(tweet.id, item, wanted, overwrite);
            assert(media.take(0) =~= Seq::<MediaView>::empty());
            assert(done + Seq::empty() =~= done);
            let mut m: usize = 0;
            while m < tweet.media.len()
                invariant
                    m <= tweet.media.len(),
                    media == tweet@.media,
                    wanted == media_types@,
                    pick == |item: MediaView| task_for(tweet.id, item, wanted, overwrite),
                    tasks.deep_view() == done + media.take(m as int).filter_map(pick),
                decreases tweet.media.len() - m,
            {
                let item = &tweet.media[m];
                let ghost before = tasks.deep_view();
                proof {
                    let upto = media.take(m + 1);
                    assert(upto.drop_last() =~= media.take(m as int));
                    assert(upto.last() == item@);
                }
                match item.is_download_candidate(tweet, media_types) {
                    Some((url, filename)) => {
                        let context = DownloadContext {
                            tweet_id: tweet.id,
                            media_id: item.id,
                            filename: filename.clone(),
                        };
                        let task = DownloadTask { url, destination: filename, context, overwrite };
                        tasks.push(task);
                        assert(tasks.deep_view() =~= before.push(task.deep_view()));
                        assert(pick(item@) == Some(task.deep_view()));
                        assert(tasks.deep_view() =~= done + media.take(m + 1).filter_map(pick));
                    },
                    None => {
                        assert(pick(item@) is None);
                    },
                }
                m += 1;
            }
            proof {
                assert(media.take(media.len() as int) =~= media);
                let upto = tweets.take(t + 1);
                assert(upto.drop_last() =~= tweets.take(t as int));
                assert(upto.last() == tweet@);
            }
            t += 1;
        }
        assert(tweets.take(tweets.len() as int) =~= tweets);
        tasks
    }

    /// Takes the outcome of the download that carried `context`: records the
    /// file in the data file where the verdict says so, and hands out the
    /// verdict.
    ///
    /// The media is found by the ids in `context`, whatever the order in
    /// which downloads finish.
    pub fn apply_outcome(
        &mut self,
        context: DownloadContext,
        outcome: Result<CompletedDownload, DownloadError>,
        policy: FileExistsPolicy,
    ) -> (verdict: Verdict)
        ensures
            verdict@ == verdict_on(outcome_view(outcome), policy),
            final(self).user_id == old(self).user_id,
            final(self).version == old(self).version,
            final(self)@.tweets == if records(verdict@) {
                bound(old(self)@.tweets, context.tweet_id, context.media_id, context.filename@)
            } else {
                old(self)@.tweets
            },
            old(self).wf() ==> final(self).wf(),
    {
        let verdict = judge(outcome, policy);
        match verdict {
            Verdict::Downloaded | Verdict::Adopted => {
                self.bind_file_name(context.tweet_id, context.media_id, context.filename);
            },
            _ => {},
        }
        verdict
    }
}

/// A file that the server no longer has is skipped under every policy: it
/// is not recorded, and it does not end the batch.
pub proof fn missing_file_is_skipped(url: Seq<char>, policy: FileExistsPolicy)
    ensures
        verdict_on(Err(DownloadErrorView::BadResponse(404, url)), policy)
            == VerdictView::SkippedMissing(url),
        !records(verdict_on(Err(DownloadErrorView::BadResponse(404, url)), policy)),
{
}

/// An existing file ends the batch under no policy that keeps files: it is
/// skipped under [`FileExistsPolicy::Warn`] and recorded, without a download,
/// under [`FileExistsPolicy::Adopt`].
pub proof fn existing_file_is_skipped_or_adopted(path: Seq<char>, policy: FileExistsPolicy)
    requires
        policy != FileExistsPolicy::Overwrite,
    ensures
        !(verdict_on(Err(DownloadErrorView::DestinationExists(path)), policy) is Abort),
        policy == FileExistsPolicy::Warn ==> verdict_on(
            Err(DownloadErrorView::DestinationExists(path)),
            policy,
        ) == VerdictView::SkippedExisting(path),
        policy == FileExistsPolicy::Adopt ==> records(
            verdict_on(Err(DownloadErrorView::DestinationExists(path)), policy),
        ),
{
}

} // verus!
