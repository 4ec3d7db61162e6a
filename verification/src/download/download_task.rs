//! One download: the task, its outcome, and the order of steps that takes a
//! response body through a scratch file to the destination.
//!
//! The transfer itself is not done here. [`DownloadTask::download`] decides the
//! next step from what the last one gave; the caller performs the step and
//! reports back. A task that keeps existing files looks at the destination
//! before anything else, so that a file that is there costs no transfer, and
//! once more before the rename. The file appears at the destination by one
//! rename of the scratch file, asked for only once the whole body has been
//! written.

use crate::http::{is_success, status_is_success};
use crate::text::{decimal, to_decimal};
use vstd::prelude::*;
use vstd::string::*;

verus! {

/// A finished download.
#[derive(Clone, Debug, PartialEq, Eq)]
pub struct CompletedDownload {
    /// The destination the file was saved at.
    pub saved_at: String,
    /// Number of bytes written.
    pub written: usize,
}

/// The view of a [`CompletedDownload`].
pub struct CompletedDownloadView {
    pub saved_at: Seq<char>,
    pub written: usize,
}

impl View for CompletedDownload {
    type V = CompletedDownloadView;

    open spec fn view(&self) -> CompletedDownloadView {
        CompletedDownloadView { saved_at: self.saved_at@, written: self.written }
    }
}

impl DeepView for CompletedDownload {
    type V = CompletedDownloadView;

    open spec fn deep_view(&self) -> CompletedDownloadView {
        self@
    }
}

/// Why a download failed.
#[derive(Clone, Debug, PartialEq, Eq)]
pub enum DownloadError {
    /// The destination exists and the task does not overwrite; holds the
    /// destination.
    DestinationExists(String),
    /// A file operation failed; holds the error's text.
    FileError(String),
    /// The destination has no parent directory; holds the destination.
    InvalidDestination(String),
    /// The request or the reading of its body failed; holds the error's text.
    RequestError(String),
    /// The server answered with a status that is no success; holds the status
    /// and the URL.
    BadResponse(u16, String),
}

/// The view of a [`DownloadError`].
pub enum DownloadErrorView {
    DestinationExists(Seq<char>),
    FileError(Seq<char>),
    InvalidDestination(Seq<char>),
    RequestError(Seq<char>),
    BadResponse(u16, Seq<char>),
}

impl View for DownloadError {
    type V = DownloadErrorView;

    open spec fn view(&self) -> DownloadErrorView {
        match self {
            DownloadError::DestinationExists(path) => DownloadErrorView::DestinationExists(path@),
            DownloadError::FileError(text) => DownloadErrorView::FileError(text@),
            DownloadError::InvalidDestination(path) => DownloadErrorView::InvalidDestination(
                path@,
            ),
            DownloadError::RequestError(text) => DownloadErrorView::RequestError(text@),
            DownloadError::BadResponse(status, url) => DownloadErrorView::BadResponse(
                *status,
                url@,
            ),
        }
    }
}

impl DeepView for DownloadError {
    type V = DownloadErrorView;

    open spec fn deep_view(&self) -> DownloadErrorView {
        self@
    }
}

/// The view of the outcome of a download.
pub open spec fn outcome_view(outcome: Result<CompletedDownload, DownloadError>) -> Result<
    CompletedDownloadView,
    DownloadErrorView,
> {
    match outcome {
        Ok(done) => Ok(done@),
        Err(error) => Err(error@),
    }
}

/// The text that describes an error.
pub open spec fn error_message(error: DownloadErrorView) -> Seq<char> {
    match error {
        DownloadErrorView::DestinationExists(path) => "Destination already exists: "@ + path,
        DownloadErrorView::FileError(text) => "Error whilst writing to file: "@ + text,
        DownloadErrorView::InvalidDestination(path) => "Destination is not a valid file path: "@
            + path,
        DownloadErrorView::RequestError(text) => "Error performing HTTP request: "@ + text,
        DownloadErrorView::BadResponse(status, _) => "Received unsuccessful response code: "@
            + decimal(status as nat),
    }
}

impl DownloadError {
    /// Describes the error in a line of text.
    pub fn message(&self) -> (text: String)
        ensures
            text@ == error_message(self@),
    {
        match self {
            DownloadError::DestinationExists(path) => String::from_str(
                "Destination already exists: ",
            ).concat(path.as_str()),
            DownloadError::FileError(text) => String::from_str(
                "Error whilst writing to file: ",
            ).concat(text.as_str()),
            DownloadError::InvalidDestination(path) => String::from_str(
                "Destination is not a valid file path: ",
            ).concat(path.as_str()),
            DownloadError::RequestError(text) => String::from_str(
                "Error performing HTTP request: ",
            ).concat(text.as_str()),
            DownloadError::BadResponse(status, _) => {
                let code = to_decimal(*status as u64);
                String::from_str("Received unsuccessful response code: ").concat(code.as_str())
            },
        }
    }
}

/// One file to download.
#[derive(Clone, Debug, PartialEq, Eq)]
pub struct DownloadTask<C> {
    /// Url to download
    pub url: String,
    /// Path to save the file at
    pub destination: String,
    /// Arbitrary data to pass through
    pub context: C,
    /// Whether to overwrite an existing file (will return error otherwise)
    pub overwrite: bool,
}

/// The view of a [`DownloadTask`].
pub struct DownloadTaskView<C> {
    pub url: Seq<char>,
    pub destination: Seq<char>,
    pub context: C,
    pub overwrite: bool,
}

impl<C: DeepView> DeepView for DownloadTask<C> {
    type V = DownloadTaskView<C::V>;

    open spec fn deep_view(&self) -> DownloadTaskView<C::V> {
        DownloadTaskView {
            url: self.url@,
            destination: self.destination@,
            context: self.context.deep_view(),
            overwrite: self.overwrite,
        }
    }
}

/// What a transfer reads of its task.
pub struct Route {
    pub url: Seq<char>,
    pub destination: Seq<char>,
    pub overwrite: bool,
}

/// How far a transfer has come. Each state but the last waits for one report.
#[derive(Clone, Copy, Debug, PartialEq, Eq, Structural)]
pub enum Transfer {
    /// Waits to learn whether the destination has a parent directory.
    Start,
    /// Waits to learn whether a file exists at the destination, before
    /// anything is fetched.
    Looking,
    /// Waits for the scratch file to be created in that directory.
    Scratch,
    /// Waits for the response to the request.
    Requesting,
    /// Waits for the next chunk of the body; `written` bytes were written.
    Receiving { written: usize },
    /// Waits for a chunk to be written; `written` counts it already.
    Writing { written: usize },
    /// Waits for the scratch file to be flushed.
    Flushing { written: usize },
    /// Waits to learn whether a file has come to exist at the destination
    /// while the body was fetched.
    Checking { written: usize },
    /// Waits for the scratch file to be renamed to the destination.
    Persisting { written: usize },
    /// The transfer has ended.
    Done,
}

/// What the caller reports of the step that it performed.
#[derive(Clone, Debug, PartialEq, Eq)]
pub enum TransferEvent {
    /// Whether the destination has a parent directory.
    Parent(bool),
    /// The file operation that was asked for succeeded.
    FileDone,
    /// The file operation that was asked for failed; holds the error's text.
    FileFailed(String),
    /// The response arrived; holds its status code.
    Response(u16),
    /// The request, or reading the body, failed; holds the error's text.
    RequestFailed(String),
    /// A chunk of the body arrived; holds its length in bytes.
    Chunk(usize),
    /// The body has ended.
    EndOfBody,
    /// Whether a file exists at the destination.
    Exists(bool),
}

/// The view of a [`TransferEvent`].
pub enum TransferEventView {
    Parent(bool),
    FileDone,
    FileFailed(Seq<char>),
    Response(u16),
    RequestFailed(Seq<char>),
    Chunk(usize),
    EndOfBody,
    Exists(bool),
}

impl View for TransferEvent {
    type V = TransferEventView;

    open spec fn view(&self) -> TransferEventView {
        match self {
            TransferEvent::Parent(exists) => TransferEventView::Parent(*exists),
            TransferEvent::FileDone => TransferEventView::FileDone,
            TransferEvent::FileFailed(text) => TransferEventView::FileFailed(text@),
            TransferEvent::Response(status) => TransferEventView::Response(*status),
            TransferEvent::RequestFailed(text) => TransferEventView::RequestFailed(text@),
            TransferEvent::Chunk(len) => TransferEventView::Chunk(*len),
            TransferEvent::EndOfBody => TransferEventView::EndOfBody,
            TransferEvent::Exists(exists) => TransferEventView::Exists(*exists),
        }
    }
}

/// What the caller is to do next.
#[derive(Debug, PartialEq, Eq)]
pub enum TransferAction {
    /// Create the scratch file in the parent directory of the destination.
    CreateScratch,
    /// Send the request for the URL.
    SendRequest,
    /// Read the next chunk of the body.
    ReadChunk,
    /// Write the chunk that was read to the scratch file.
    WriteChunk,
    /// Flush the scratch file.
    Flush,
    /// Look whether a file exists at the destination.
    CheckDestination,
    /// Rename the scratch file to the destination.
    Persist,
    /// Discard the scratch file if it is still there, and hand out the outcome.
    Finish(Result<CompletedDownload, DownloadError>),
    /// The report came out of turn: nothing is to be done for it.
    Nothing,
}

/// The view of a [`TransferAction`].
pub enum TransferActionView {
    CreateScratch,
    SendRequest,
    ReadChunk,
    WriteChunk,
    Flush,
    CheckDestination,
    Persist,
    Finish(Result<CompletedDownloadView, DownloadErrorView>),
    Nothing,
}

impl View for TransferAction {
    type V = TransferActionView;

    open spec fn view(&self) -> TransferActionView {
        match self {
            TransferAction::CreateScratch => TransferActionView::CreateScratch,
            TransferAction::SendRequest => TransferActionView::SendRequest,
            TransferAction::ReadChunk => TransferActionView::ReadChunk,
            TransferAction::WriteChunk => TransferActionView::WriteChunk,
            TransferAction::Flush => TransferActionView::Flush,
            TransferAction::CheckDestination => TransferActionView::CheckDestination,
            TransferAction::Persist => TransferActionView::Persist,
            TransferAction::Finish(outcome) => TransferActionView::Finish(outcome_view(*outcome)),
            TransferAction::Nothing => TransferActionView::Nothing,
        }
    }
}

/// `written` and `len` added, or the greatest number where the sum is greater.
pub open spec fn count_bytes(written: usize, len: usize) -> usize {
    if written + len > usize::MAX {
        usize::MAX
    } else {
        (written + len) as usize
    }
}

/// The transfer ends with the error `error`.
pub open spec fn fails(error: DownloadErrorView) -> (Transfer, TransferActionView) {
    (Transfer::Done, TransferActionView::Finish(Err(error)))
}

/// The state and the step that follow when `event` is reported in `state`.
pub open spec fn transition(route: Route, state: Transfer, event: TransferEventView) -> (
    Transfer,
    TransferActionView,
) {
    match (state, event) {
        (Transfer::Start, TransferEventView::Parent(true)) => if route.overwrite {
            (Transfer::Scratch, TransferActionView::CreateScratch)
        } else {
            (Transfer::Looking, TransferActionView::CheckDestination)
        },
        (Transfer::Start, TransferEventView::Parent(false)) => fails(
            DownloadErrorView::InvalidDestination(route.destination),
        ),
        (Transfer::Looking, TransferEventView::Exists(true)) => fails(
            DownloadErrorView::DestinationExists(route.destination),
        ),
        (Transfer::Looking, TransferEventView::Exists(false)) => (
            Transfer::Scratch,
            TransferActionView::CreateScratch,
        ),
        (Transfer::Scratch, TransferEventView::FileDone) => (
            Transfer::Requesting,
            TransferActionView::SendRequest,
        ),
        (Transfer::Scratch, TransferEventView::FileFailed(text)) => fails(
            DownloadErrorView::FileError(text),
        ),
        (Transfer::Requesting, TransferEventView::Response(status)) => if is_success(status) {
            (Transfer::Receiving { written: 0 }, TransferActionView::ReadChunk)
        } else {
            fails(DownloadErrorView::BadResponse(status, route.url))
        },
        (Transfer::Requesting, TransferEventView::RequestFailed(text)) => fails(
            DownloadErrorView::RequestError(text),
        ),
        (Transfer::Receiving { written }, TransferEventView::Chunk(len)) => (
            Transfer::Writing { written: count_bytes(written, len) },
            TransferActionView::WriteChunk,
        ),
        (Transfer::Receiving { written }, TransferEventView::EndOfBody) => (
            Transfer::Flushing { written },
            TransferActionView::Flush,
        ),
        (Transfer::Receiving { written }, TransferEventView::RequestFailed(text)) => fails(
            DownloadErrorView::RequestError(text),
        ),
        (Transfer::Writing { written }, TransferEventView::FileDone) => (
            Transfer::Receiving { written },
            TransferActionView::ReadChunk,
        ),
        (Transfer::Writing { written }, TransferEventView::FileFailed(text)) => fails(
            DownloadErrorView::FileError(text),
        ),
        (Transfer::Flushing { written }, TransferEventView::FileDone) => if route.overwrite {
            (Transfer::Persisting { written }, TransferActionView::Persist)
        } else {
            (Transfer::Checking { written }, TransferActionView::CheckDestination)
        },
        (Transfer::Flushing { written }, TransferEventView::FileFailed(text)) => fails(
            DownloadErrorView::FileError(text),
        ),
        (Transfer::Checking { written }, TransferEventView::Exists(true)) => fails(
            DownloadErrorView::DestinationExists(route.destination),
        ),
        (Transfer::Checking { written }, TransferEventView::Exists(false)) => (
            Transfer::Persisting { written },
            TransferActionView::Persist,
        ),
        (Transfer::Persisting { written }, TransferEventView::FileDone) => (
            Transfer::Done,
            TransferActionView::Finish(
                Ok(CompletedDownloadView { saved_at: route.destination, written }),
            ),
        ),
        (Transfer::Persisting { written }, TransferEventView::FileFailed(text)) => fails(
            DownloadErrorView::FileError(text),
        ),
        _ => (state, TransferActionView::Nothing),
    }
}

impl<C> DownloadTask<C> {
    /// What a transfer reads of the task.
    pub open spec fn route(&self) -> Route {
        Route { url: self.url@, destination: self.destination@, overwrite: self.overwrite }
    }

    /// Takes the download one step further: from the state `progress` and the
    /// report `event` to the next state and the step to perform.
    ///
    /// A download begins in [`Transfer::Start`], with the report whether the
    /// destination has a parent directory, and has ended once the step is
    /// [`TransferAction::Finish`]. A task that does not overwrite asks first
    /// whether the destination exists, and ends with
    /// [`DownloadError::DestinationExists`] where it does: no scratch file is
    /// made and no request is sent for it.
    pub fn download(&self, progress: Transfer, event: TransferEvent) -> (next: (
        Transfer,
        TransferAction,
    ))
        ensures
            (next.0, next.1@) == transition(self.route(), progress, event@),
    {
        match (progress, event) {
            (Transfer::Start, TransferEvent::Parent(true)) => {
                if self.overwrite {
                    (Transfer::Scratch, TransferAction::CreateScratch)
                } else {
                    (Transfer::Looking, TransferAction::CheckDestination)
                }
            },
            (Transfer::Start, TransferEvent::Parent(false)) => failed(
                DownloadError::InvalidDestination(self.destination.clone()),
            ),
            (Transfer::Looking, TransferEvent::Exists(true)) => failed(
                DownloadError::DestinationExists(self.destination.clone()),
            ),
            (Transfer::Looking, TransferEvent::Exists(false)) => (
                Transfer::Scratch,
                TransferAction::CreateScratch,
            ),
            (Transfer::Scratch, TransferEvent::FileDone) => (
                Transfer::Requesting,
                TransferAction::SendRequest,
            ),
            (Transfer::Scratch, TransferEvent::FileFailed(text)) => failed(
                DownloadError::FileError(text),
            ),
            (Transfer::Requesting, TransferEvent::Response(status)) => {
                if status_is_success(status) {
                    (Transfer::Receiving { written: 0 }, TransferAction::ReadChunk)
                } else {
                    failed(DownloadError::BadResponse(status, self.url.clone()))
                }
            },
            (Transfer::Requesting, TransferEvent::RequestFailed(text)) => failed(
                DownloadError::RequestError(text),
            ),
            (Transfer::Receiving { written }, TransferEvent::Chunk(len)) => {
                let total: usize = if len > usize::MAX - written {
                    usize::MAX
                } else {
                    written + len
                };
                (Transfer::Writing { written: total }, TransferAction::WriteChunk)
            },
            (Transfer::Receiving { written }, TransferEvent::EndOfBody) => (
                Transfer::Flushing { written },
                TransferAction::Flush,
            ),
            (Transfer::Receiving { written }, TransferEvent::RequestFailed(text)) => failed(
                DownloadError::RequestError(text),
            ),
            (Transfer::Writing { written }, TransferEvent::FileDone) => (
                Transfer::Receiving { written },
                TransferAction::ReadChunk,
            ),
            (Transfer::Writing { written }, TransferEvent::FileFailed(text)) => failed(
                DownloadError::FileError(text),
            ),
            (Transfer::Flushing { written }, TransferEvent::FileDone) => {
                if self.overwrite {
                    (Transfer::Persisting { written }, TransferAction::Persist)
                } else {
                    (Transfer::Checking { written }, TransferAction::CheckDestination)
                }
            },
            (Transfer::Flushing { written }, TransferEvent::FileFailed(text)) => failed(
                DownloadError::FileError(text),
            ),
            (Transfer::Checking { written }, TransferEvent::Exists(true)) => failed(
                DownloadError::DestinationExists(self.destination.clone()),
            ),
            (Transfer::Checking { written }, TransferEvent::Exists(false)) => (
                Transfer::Persisting { written },
                TransferAction::Persist,
            ),
            (Transfer::Persisting { written }, TransferEvent::FileDone) => (
                Transfer::Done,
                TransferAction::Finish(
                    Ok(CompletedDownload { saved_at: self.destination.clone(), written }),
                ),
            ),
            (Transfer::Persisting { written }, TransferEvent::FileFailed(text)) => failed(
                DownloadError::FileError(text),
            ),
            (state, _) => (state, TransferAction::Nothing),
        }
    }
}

fn failed(error: DownloadError) -> (next: (Transfer, TransferAction))
    ensures
        (next.0, next.1@) == fails(error@),
{
    (Transfer::Done, TransferAction::Finish(Err(error)))
}

} // verus!
