use tweet_mirror::download::bulk::BulkDownloader;
use tweet_mirror::download::download_task::{CompletedDownload, DownloadError, DownloadTask};
use tweet_mirror::download::{judge, DownloadContext, FileExistsPolicy, Verdict};
use tweet_mirror::model::{DataFile, Media, MediaType, Tweet};

fn item(id: u64, media_type: MediaType, url: Option<&str>, file_name: Option<&str>) -> Media {
    Media {
        id,
        media_type,
        file_name: file_name.map(|name| name.to_string()),
        url: url.map(|text| text.to_string()),
    }
}

fn post(id: u64, media: Vec<Media>) -> Tweet {
    Tweet { id, timestamp: 0, text: String::new(), media }
}

fn archive() -> DataFile {
    let mut data_file = DataFile::new(1);
    data_file.tweets = vec![
        post(10, vec![
            item(1, MediaType::Photo, Some("https://pbs.twimg.com/media/a.jpg"), None),
            item(2, MediaType::Video, Some("https://video.twimg.com/v/b.mp4"), None),
        ]),
        post(20, vec![
            item(1, MediaType::Photo, Some("https://pbs.twimg.com/media/c.png"), Some("20_1.png")),
            item(3, MediaType::Gif, None, None),
            item(4, MediaType::Photo, Some("https://pbs.twimg.com/media/d.jpg?name=orig"), None),
        ]),
        post(30, vec![]),
    ];
    data_file
}

fn context(tweet_id: u64, media_id: u64, filename: &str) -> DownloadContext {
    DownloadContext { tweet_id, media_id, filename: filename.to_string() }
}

fn done(path: &str) -> Result<CompletedDownload, DownloadError> {
    Ok(CompletedDownload { saved_at: path.to_string(), written: 10 })
}

fn job(n: u64) -> DownloadTask<u64> {
    DownloadTask {
        url: format!("https://x.test/{n}.jpg"),
        destination: format!("{n}.jpg"),
        context: n,
        overwrite: false,
    }
}

#[test]
fn tasks_are_made_for_the_media_that_are_asked_for_and_missing() {
    let tasks = archive().download_tasks(&[MediaType::Photo, MediaType::Gif], FileExistsPolicy::Warn);
    assert_eq!(tasks.len(), 2);
    assert_eq!(tasks[0].url, "https://pbs.twimg.com/media/a.jpg");
    assert_eq!(tasks[0].destination, "10_1.jpg");
    assert_eq!(tasks[0].context, context(10, 1, "10_1.jpg"));
    assert!(!tasks[0].overwrite);
    assert_eq!(tasks[1].url, "https://pbs.twimg.com/media/d.jpg?name=orig");
    assert_eq!(tasks[1].destination, "20_4.jpg");
    assert_eq!(tasks[1].context, context(20, 4, "20_4.jpg"));
}

#[test]
fn tasks_overwrite_only_under_the_policy_that_overwrites() {
    for (policy, overwrite) in [
        (FileExistsPolicy::Overwrite, true),
        (FileExistsPolicy::Warn, false),
        (FileExistsPolicy::Adopt, false),
    ] {
        let tasks = archive().download_tasks(&[MediaType::Video], policy);
        assert_eq!(tasks.len(), 1);
        assert_eq!(tasks[0].destination, "10_2.mp4");
        assert_eq!(tasks[0].overwrite, overwrite);
    }
}

#[test]
fn no_tasks_are_made_where_no_kind_is_asked_for() {
    assert!(archive().download_tasks(&[], FileExistsPolicy::Warn).is_empty());
    assert!(DataFile::new(1).download_tasks(&[MediaType::Photo], FileExistsPolicy::Warn).is_empty());
}

#[test]
fn tasks_are_the_same_on_a_second_look() {
    let data_file = archive();
    let all = [MediaType::Photo, MediaType::Video, MediaType::Gif];
    let first = data_file.download_tasks(&all, FileExistsPolicy::Adopt);
    let second = data_file.download_tasks(&all, FileExistsPolicy::Adopt);
    let names = |tasks: &Vec<DownloadTask<DownloadContext>>| -> Vec<String> {
        tasks.iter().map(|task| task.destination.clone()).collect()
    };
    assert_eq!(names(&first), vec!["10_1.jpg", "10_2.mp4", "20_4.jpg"]);
    assert_eq!(names(&first), names(&second));
}

#[test]
fn the_destinations_of_the_tasks_differ() {
    let tasks = archive().download_tasks(
        &[MediaType::Photo, MediaType::Video, MediaType::Gif],
        FileExistsPolicy::Warn,
    );
    for a in 0..tasks.len() {
        for b in a + 1..tasks.len() {
            assert_ne!(tasks[a].destination, tasks[b].destination);
        }
    }
}

#[test]
fn a_finished_download_is_recorded() {
    for policy in [FileExistsPolicy::Overwrite, FileExistsPolicy::Warn, FileExistsPolicy::Adopt] {
        assert_eq!(judge(done("10_1.jpg"), policy), Verdict::Downloaded);
    }
}

#[test]
fn an_existing_file_is_skipped_under_warn() {
    let outcome = Err(DownloadError::DestinationExists("out/10_1.jpg".to_string()));
    assert_eq!(
        judge(outcome, FileExistsPolicy::Warn),
        Verdict::SkippedExisting("out/10_1.jpg".to_string())
    );
}

#[test]
fn an_existing_file_is_adopted_under_adopt() {
    let outcome = Err(DownloadError::DestinationExists("out/10_1.jpg".to_string()));
    assert_eq!(judge(outcome, FileExistsPolicy::Adopt), Verdict::Adopted);
}

#[test]
fn an_existing_file_ends_the_batch_under_overwrite() {
    let error = DownloadError::DestinationExists("out/10_1.jpg".to_string());
    assert_eq!(judge(Err(error.clone()), FileExistsPolicy::Overwrite), Verdict::Abort(error));
}

#[test]
fn a_status_of_404_is_skipped_under_every_policy() {
    for policy in [FileExistsPolicy::Overwrite, FileExistsPolicy::Warn, FileExistsPolicy::Adopt] {
        let outcome = Err(DownloadError::BadResponse(404, "https://x.test/a".to_string()));
        assert_eq!(judge(outcome, policy), Verdict::SkippedMissing("https://x.test/a".to_string()));
    }
}

#[test]
fn every_other_failure_ends_the_batch() {
    for error in [
        DownloadError::BadResponse(403, "https://x.test/a".to_string()),
        DownloadError::BadResponse(500, "https://x.test/a".to_string()),
        DownloadError::FileError("disk full".to_string()),
        DownloadError::InvalidDestination("/".to_string()),
        DownloadError::RequestError("timed out".to_string()),
    ] {
        for policy in [FileExistsPolicy::Overwrite, FileExistsPolicy::Warn, FileExistsPolicy::Adopt] {
            assert_eq!(judge(Err(error.clone()), policy), Verdict::Abort(error.clone()));
        }
    }
}

#[test]
fn an_outcome_is_recorded_by_the_ids_it_carries() {
    let mut data_file = archive();
    // The download for the second tweet ends before that for the first.
    let verdict = data_file.apply_outcome(context(20, 4, "20_4.jpg"), done("20_4.jpg"), FileExistsPolicy::Warn);
    assert_eq!(verdict, Verdict::Downloaded);
    let verdict = data_file.apply_outcome(context(10, 1, "10_1.jpg"), done("10_1.jpg"), FileExistsPolicy::Warn);
    assert_eq!(verdict, Verdict::Downloaded);
    assert_eq!(data_file.tweets[0].media[0].file_name, Some("10_1.jpg".to_string()));
    assert_eq!(data_file.tweets[0].media[1].file_name, None);
    assert_eq!(data_file.tweets[1].media[0].file_name, Some("20_1.png".to_string()));
    assert_eq!(data_file.tweets[1].media[2].file_name, Some("20_4.jpg".to_string()));
}

#[test]
fn an_adopted_file_is_recorded_without_a_download() {
    let mut data_file = archive();
    let verdict = data_file.apply_outcome(
        context(10, 2, "10_2.mp4"),
        Err(DownloadError::DestinationExists("out/10_2.mp4".to_string())),
        FileExistsPolicy::Adopt,
    );
    assert_eq!(verdict, Verdict::Adopted);
    assert_eq!(data_file.tweets[0].media[1].file_name, Some("10_2.mp4".to_string()));
}

#[test]
fn a_skipped_or_failed_download_is_not_recorded() {
    let mut data_file = archive();
    let outcomes = vec![
        (Err(DownloadError::DestinationExists("out/10_2.mp4".to_string())), FileExistsPolicy::Warn),
        (Err(DownloadError::BadResponse(404, "https://x.test".to_string())), FileExistsPolicy::Adopt),
        (Err(DownloadError::RequestError("reset".to_string())), FileExistsPolicy::Adopt),
    ];
    for (outcome, policy) in outcomes {
        data_file.apply_outcome(context(10, 2, "10_2.mp4"), outcome, policy);
        assert_eq!(data_file.tweets[0].media[1].file_name, None);
    }
}

#[test]
fn twenty_jobs_never_run_more_than_three_at_a_time() {
    let mut downloader = BulkDownloader::new(3);
    for n in 0..20 {
        downloader.push_task(job(n));
    }
    let mut started = Vec::new();
    let mut running: Vec<u64> = Vec::new();
    let mut delivered = Vec::new();
    let mut turn = 0usize;
    while !downloader.is_finished() {
        while let Some(task) = downloader.next_task() {
            started.push(task.context);
            running.push(task.context);
        }
        assert!(running.len() <= 3);
        assert_eq!(downloader.running(), running.len());
        assert!(downloader.running() <= downloader.concurrency());
        // Downloads end in an order of their own.
        let which = (turn * 7 + 1) % running.len();
        delivered.push(running.remove(which));
        assert!(downloader.task_done());
        turn += 1;
    }
    assert_eq!(started, (0..20).collect::<Vec<u64>>());
    assert_eq!(delivered.len(), 20);
    let mut sorted = delivered.clone();
    sorted.sort();
    assert_eq!(sorted, (0..20).collect::<Vec<u64>>());
    assert_ne!(delivered, sorted);
    assert_eq!(downloader.pending(), 0);
    assert_eq!(downloader.running(), 0);
}

#[test]
fn a_job_that_meets_a_404_does_not_hold_back_the_others() {
    let mut downloader = BulkDownloader::new(3);
    for n in 0..20 {
        downloader.push_task(job(n));
    }
    let mut running: Vec<u64> = Vec::new();
    let mut verdicts = Vec::new();
    while !downloader.is_finished() {
        while let Some(task) = downloader.next_task() {
            running.push(task.context);
        }
        let n = running.remove(0);
        let outcome = if n == 7 {
            Err(DownloadError::BadResponse(404, format!("https://x.test/{n}.jpg")))
        } else {
            Ok(CompletedDownload { saved_at: format!("{n}.jpg"), written: 1 })
        };
        assert!(downloader.task_done());
        verdicts.push((n, judge(outcome, FileExistsPolicy::Warn)));
    }
    assert_eq!(verdicts.len(), 20);
    for (n, verdict) in verdicts {
        if n == 7 {
            assert_eq!(verdict, Verdict::SkippedMissing("https://x.test/7.jpg".to_string()));
        } else {
            assert_eq!(verdict, Verdict::Downloaded);
        }
    }
}

#[test]
fn a_free_slot_is_filled_from_the_tasks_that_wait() {
    let mut downloader = BulkDownloader::new(2);
    downloader.push_tasks(vec![job(1), job(2), job(3)]);
    let first = downloader.next_tasks();
    assert_eq!(first.iter().map(|task| task.context).collect::<Vec<u64>>(), vec![1, 2]);
    assert!(downloader.next_task().is_none());
    assert!(downloader.next_tasks().is_empty());
    assert!(downloader.task_done());
    let second = downloader.next_tasks();
    assert_eq!(second.iter().map(|task| task.context).collect::<Vec<u64>>(), vec![3]);
    assert_eq!(downloader.pending(), 0);
    assert_eq!(downloader.running(), 2);
}

#[test]
fn a_downloader_without_slots_starts_nothing() {
    let mut downloader = BulkDownloader::new(0);
    downloader.push_task(job(1));
    assert!(downloader.next_task().is_none());
    assert!(!downloader.is_finished());
    assert_eq!(downloader.pending(), 1);
}

#[test]
fn a_report_without_a_running_download_counts_nothing() {
    let mut downloader: BulkDownloader<u64> = BulkDownloader::new(2);
    assert!(!downloader.task_done());
    assert!(downloader.is_finished());
    assert_eq!(downloader.running(), 0);
}

#[test]
fn an_aborted_batch_starts_nothing_more() {
    let mut downloader = BulkDownloader::new(2);
    downloader.push_tasks(vec![job(1), job(2), job(3), job(4)]);
    assert_eq!(downloader.next_tasks().len(), 2);
    assert_eq!(downloader.abort(), 2);
    assert!(downloader.is_finished());
    assert!(downloader.next_task().is_none());
    assert!(!downloader.task_done());
}
