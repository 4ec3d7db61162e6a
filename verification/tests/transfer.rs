use tweet_mirror::download::download_task::{
    CompletedDownload, DownloadError, DownloadTask, Transfer, TransferAction, TransferEvent,
};

fn task(overwrite: bool) -> DownloadTask<u32> {
    DownloadTask {
        url: "https://pbs.twimg.com/media/abc.jpg".to_string(),
        destination: "out/alice/1_2.jpg".to_string(),
        context: 17,
        overwrite,
    }
}

/// Feeds the events to a download from its start, and returns the steps.
fn steps(task: &DownloadTask<u32>, events: Vec<TransferEvent>) -> (Transfer, Vec<TransferAction>) {
    let mut state = Transfer::Start;
    let mut actions = Vec::new();
    for event in events {
        let (next, action) = task.download(state, event);
        state = next;
        actions.push(action);
    }
    (state, actions)
}

/// The reports of a download up to the flushed scratch file. A task that
/// does not overwrite is first told that the destination is free.
fn whole_body(overwrite: bool) -> Vec<TransferEvent> {
    let mut events = vec![TransferEvent::Parent(true)];
    if !overwrite {
        events.push(TransferEvent::Exists(false));
    }
    events.extend(body());
    events
}

fn body() -> Vec<TransferEvent> {
    vec![
        TransferEvent::FileDone,
        TransferEvent::Response(200),
        TransferEvent::Chunk(1000),
        TransferEvent::FileDone,
        TransferEvent::Chunk(24),
        TransferEvent::FileDone,
        TransferEvent::EndOfBody,
        TransferEvent::FileDone,
    ]
}

#[test]
fn a_download_goes_through_its_steps_in_order() {
    let mut events = whole_body(false);
    events.push(TransferEvent::Exists(false));
    events.push(TransferEvent::FileDone);
    let (state, actions) = steps(&task(false), events);
    assert_eq!(state, Transfer::Done);
    assert_eq!(
        actions,
        vec![
            TransferAction::CheckDestination,
            TransferAction::CreateScratch,
            TransferAction::SendRequest,
            TransferAction::ReadChunk,
            TransferAction::WriteChunk,
            TransferAction::ReadChunk,
            TransferAction::WriteChunk,
            TransferAction::ReadChunk,
            TransferAction::Flush,
            TransferAction::CheckDestination,
            TransferAction::Persist,
            TransferAction::Finish(Ok(CompletedDownload {
                saved_at: "out/alice/1_2.jpg".to_string(),
                written: 1024,
            })),
        ]
    );
}

#[test]
fn an_empty_body_gives_an_empty_file() {
    let events = vec![
        TransferEvent::Parent(true),
        TransferEvent::FileDone,
        TransferEvent::Response(204),
        TransferEvent::EndOfBody,
        TransferEvent::FileDone,
        TransferEvent::FileDone,
    ];
    let (_, actions) = steps(&task(true), events);
    assert_eq!(
        actions.last(),
        Some(&TransferAction::Finish(Ok(CompletedDownload {
            saved_at: "out/alice/1_2.jpg".to_string(),
            written: 0,
        })))
    );
}

#[test]
fn a_destination_without_parent_is_invalid() {
    let (state, action) = task(false).download(Transfer::Start, TransferEvent::Parent(false));
    assert_eq!(state, Transfer::Done);
    assert_eq!(
        action,
        TransferAction::Finish(Err(DownloadError::InvalidDestination("out/alice/1_2.jpg".to_string())))
    );
}

#[test]
fn a_scratch_file_that_cannot_be_made_is_a_file_error() {
    let (state, action) =
        task(false).download(Transfer::Scratch, TransferEvent::FileFailed("disk full".to_string()));
    assert_eq!(state, Transfer::Done);
    assert_eq!(action, TransferAction::Finish(Err(DownloadError::FileError("disk full".to_string()))));
}

#[test]
fn a_request_that_fails_is_a_request_error() {
    let (state, action) = task(false)
        .download(Transfer::Requesting, TransferEvent::RequestFailed("timed out".to_string()));
    assert_eq!(state, Transfer::Done);
    assert_eq!(action, TransferAction::Finish(Err(DownloadError::RequestError("timed out".to_string()))));
}

#[test]
fn a_status_that_is_no_success_is_a_bad_response() {
    for status in [100u16, 199, 300, 301, 404, 500] {
        let (state, action) = task(false).download(Transfer::Requesting, TransferEvent::Response(status));
        assert_eq!(state, Transfer::Done);
        assert_eq!(
            action,
            TransferAction::Finish(Err(DownloadError::BadResponse(
                status,
                "https://pbs.twimg.com/media/abc.jpg".to_string()
            )))
        );
    }
}

#[test]
fn a_status_from_200_to_299_is_a_success() {
    for status in [200u16, 201, 206, 299] {
        let (state, action) = task(false).download(Transfer::Requesting, TransferEvent::Response(status));
        assert_eq!(state, Transfer::Receiving { written: 0 });
        assert_eq!(action, TransferAction::ReadChunk);
    }
}

#[test]
fn the_count_of_bytes_stops_at_the_greatest_number() {
    let (state, action) = task(false).download(
        Transfer::Receiving { written: usize::MAX - 5 },
        TransferEvent::Chunk(10),
    );
    assert_eq!(state, Transfer::Writing { written: usize::MAX });
    assert_eq!(action, TransferAction::WriteChunk);
}

#[test]
fn a_destination_that_comes_to_exist_during_the_download_is_kept() {
    let mut events = whole_body(false);
    events.push(TransferEvent::Exists(true));
    let (state, actions) = steps(&task(false), events);
    assert_eq!(state, Transfer::Done);
    assert_eq!(
        actions.last(),
        Some(&TransferAction::Finish(Err(DownloadError::DestinationExists(
            "out/alice/1_2.jpg".to_string()
        ))))
    );
    assert!(!actions.contains(&TransferAction::Persist));
}

#[test]
fn an_existing_destination_is_replaced_by_a_download_that_overwrites() {
    let mut events = whole_body(true);
    events.push(TransferEvent::FileDone);
    let (state, actions) = steps(&task(true), events);
    assert_eq!(state, Transfer::Done);
    assert!(!actions.contains(&TransferAction::CheckDestination));
    assert_eq!(actions[actions.len() - 2], TransferAction::Persist);
    assert!(matches!(actions.last(), Some(TransferAction::Finish(Ok(_)))));
}

#[test]
fn a_download_that_is_cut_short_puts_nothing_in_place() {
    for overwrite in [false, true] {
        let mut events = vec![TransferEvent::Parent(true)];
        if !overwrite {
            events.push(TransferEvent::Exists(false));
        }
        events.extend(vec![
            TransferEvent::FileDone,
            TransferEvent::Response(200),
            TransferEvent::Chunk(1000),
            TransferEvent::FileDone,
            TransferEvent::RequestFailed("connection reset".to_string()),
            TransferEvent::FileDone,
            TransferEvent::Exists(false),
            TransferEvent::FileDone,
        ]);
        let (state, actions) = steps(&task(overwrite), events);
        assert_eq!(state, Transfer::Done);
        assert!(!actions.contains(&TransferAction::Persist));
        let failed = actions.len() - 4;
        assert_eq!(
            actions[failed],
            TransferAction::Finish(Err(DownloadError::RequestError("connection reset".to_string())))
        );
        assert_eq!(
            actions[failed + 1..],
            [TransferAction::Nothing, TransferAction::Nothing, TransferAction::Nothing]
        );
    }
}

#[test]
fn an_existing_destination_costs_no_transfer() {
    // Whatever the server would answer, it is not asked.
    let events = vec![
        TransferEvent::Parent(true),
        TransferEvent::Exists(true),
        TransferEvent::FileDone,
        TransferEvent::Response(500),
        TransferEvent::Chunk(10),
    ];
    let (state, actions) = steps(&task(false), events);
    assert_eq!(state, Transfer::Done);
    assert_eq!(
        actions,
        vec![
            TransferAction::CheckDestination,
            TransferAction::Finish(Err(DownloadError::DestinationExists(
                "out/alice/1_2.jpg".to_string()
            ))),
            TransferAction::Nothing,
            TransferAction::Nothing,
            TransferAction::Nothing,
        ]
    );
}

#[test]
fn a_download_that_keeps_files_looks_before_it_fetches() {
    let (state, action) = task(false).download(Transfer::Start, TransferEvent::Parent(true));
    assert_eq!((state, action), (Transfer::Looking, TransferAction::CheckDestination));
    let (state, action) = task(false).download(Transfer::Looking, TransferEvent::Exists(false));
    assert_eq!((state, action), (Transfer::Scratch, TransferAction::CreateScratch));
    let (state, action) = task(true).download(Transfer::Start, TransferEvent::Parent(true));
    assert_eq!((state, action), (Transfer::Scratch, TransferAction::CreateScratch));
}

#[test]
fn a_chunk_that_cannot_be_written_ends_the_download() {
    let events = vec![
        TransferEvent::Parent(true),
        TransferEvent::FileDone,
        TransferEvent::Response(200),
        TransferEvent::Chunk(1000),
        TransferEvent::FileFailed("no space".to_string()),
    ];
    let (state, actions) = steps(&task(true), events);
    assert_eq!(state, Transfer::Done);
    assert_eq!(
        actions.last(),
        Some(&TransferAction::Finish(Err(DownloadError::FileError("no space".to_string()))))
    );
    assert!(!actions.contains(&TransferAction::Persist));
}

#[test]
fn a_flush_or_a_rename_that_fails_is_a_file_error() {
    let (_, action) =
        task(true).download(Transfer::Flushing { written: 3 }, TransferEvent::FileFailed("flush".to_string()));
    assert_eq!(action, TransferAction::Finish(Err(DownloadError::FileError("flush".to_string()))));
    let (_, action) = task(true)
        .download(Transfer::Persisting { written: 3 }, TransferEvent::FileFailed("rename".to_string()));
    assert_eq!(action, TransferAction::Finish(Err(DownloadError::FileError("rename".to_string()))));
}

#[test]
fn a_report_out_of_turn_changes_nothing() {
    let task = task(false);
    for state in [
        Transfer::Start,
        Transfer::Looking,
        Transfer::Scratch,
        Transfer::Requesting,
        Transfer::Flushing { written: 1 },
        Transfer::Persisting { written: 1 },
        Transfer::Done,
    ] {
        let (next, action) = task.download(state, TransferEvent::Chunk(5));
        assert_eq!(next, state);
        assert_eq!(action, TransferAction::Nothing);
    }
    let (next, action) = task.download(Transfer::Done, TransferEvent::Parent(true));
    assert_eq!((next, action), (Transfer::Done, TransferAction::Nothing));
}

#[test]
fn errors_are_described_in_a_line() {
    assert_eq!(
        DownloadError::DestinationExists("out/1_2.jpg".to_string()).message(),
        "Destination already exists: out/1_2.jpg"
    );
    assert_eq!(
        DownloadError::FileError("disk full".to_string()).message(),
        "Error whilst writing to file: disk full"
    );
    assert_eq!(
        DownloadError::InvalidDestination("/".to_string()).message(),
        "Destination is not a valid file path: /"
    );
    assert_eq!(
        DownloadError::RequestError("timed out".to_string()).message(),
        "Error performing HTTP request: timed out"
    );
    assert_eq!(
        DownloadError::BadResponse(404, "https://x.test/a".to_string()).message(),
        "Received unsuccessful response code: 404"
    );
}
