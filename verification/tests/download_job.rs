use tharsis::config::{MAX_REDIRECTS, USER_AGENT};
use tharsis::job::{summarize, Action, DownloadJob, Event, HeadResponse, Summary};
use tharsis::progress::ChunkOutcome;
use tharsis::text::Platform;

fn head(status: u16, url: &str, length: Option<&[u8]>, ranges: Option<&[u8]>) -> HeadResponse {
    HeadResponse {
        status,
        final_url: url.to_string(),
        content_length: length.map(|b| b.to_vec()),
        accept_ranges: ranges.map(|b| b.to_vec()),
    }
}

fn step(job: DownloadJob, event: Event) -> (DownloadJob, Action) {
    assert!(job.accepts_event(&event));
    job.step(event)
}

fn error_of(action: Action) -> String {
    match action {
        Action::Finish { result: Err(e) } => e,
        _ => panic!("expected the download to end with an error"),
    }
}

/// Runs a job up to the fetch of its chunks.
fn run_to_fetch(length: &[u8], ranges: &[u8]) -> (DownloadJob, Action) {
    let (job, action) = DownloadJob::start(Platform::Linux, "dl".to_string(), "http://h/x".to_string(), "/save".to_string());
    assert!(matches!(action, Action::CreateDir { ref path } if path == "/save"));
    let (job, action) = step(job, Event::Succeeded);
    match action {
        Action::BuildClient { user_agent, max_redirects } => {
            assert_eq!(user_agent, USER_AGENT);
            assert_eq!(max_redirects, MAX_REDIRECTS);
        }
        _ => panic!("expected the client to be built"),
    }
    let (job, action) = step(job, Event::Succeeded);
    assert!(matches!(action, Action::SendHead { ref url } if url == "http://h/x"));
    let probed = head(200, "https://mirror.example/files/big.iso", Some(length), Some(ranges));
    let (job, action) = step(job, Event::Probed(probed));
    match action {
        Action::InsertDownload { id, url, filename, save_path, total_bytes } => {
            assert_eq!(id, "dl");
            assert_eq!(url, "http://h/x");
            assert_eq!(filename, "big.iso");
            assert_eq!(save_path, "/save/big.iso");
            assert_eq!(total_bytes, std::str::from_utf8(length).unwrap().parse::<i64>().unwrap_or(0));
        }
        _ => panic!("expected the record to be stored"),
    }
    let (job, action) = step(job, Event::Succeeded);
    assert!(matches!(action, Action::InsertChunks { .. }));
    let (job, action) = step(job, Event::Succeeded);
    assert!(matches!(action, Action::MarkDownloading { ref id } if id == "dl"));
    step(job, Event::Succeeded)
}

#[test]
fn a_ranged_download_runs_to_completion() {
    let (job, action) = run_to_fetch(b"100", b"bytes");
    let tasks = match action {
        Action::FetchChunks { url, tasks } => {
            assert_eq!(url, "https://mirror.example/files/big.iso");
            tasks
        }
        _ => panic!("expected the chunks to be fetched"),
    };
    assert_eq!(tasks.len(), 4);
    let ranges: Vec<Option<String>> = tasks.iter().map(|t| t.range.clone()).collect();
    assert_eq!(
        ranges,
        vec![
            Some("bytes=0-24".to_string()),
            Some("bytes=25-49".to_string()),
            Some("bytes=50-74".to_string()),
            Some("bytes=75-99".to_string()),
        ]
    );
    for t in &tasks {
        assert_eq!(t.part_path, format!("/save/big.iso.part_{}", t.chunk.id));
    }
    let outcomes: Vec<ChunkOutcome> = tasks
        .iter()
        .map(|t| ChunkOutcome::Finished { part_path: t.part_path.clone(), bytes: 25 })
        .collect();
    let (job, action) = step(job, Event::ChunksDone(outcomes));
    match action {
        Action::Stitch { final_path, part_paths } => {
            assert_eq!(final_path, "/save/big.iso");
            assert_eq!(part_paths, tasks.iter().map(|t| t.part_path.clone()).collect::<Vec<_>>());
        }
        _ => panic!("expected the parts to be stitched"),
    }
    let (job, action) = step(job, Event::Succeeded);
    match action {
        Action::MarkCompleted { id, total_bytes, downloaded_bytes } => {
            assert_eq!(id, "dl");
            assert_eq!(total_bytes, 100);
            assert_eq!(downloaded_bytes, 100);
        }
        _ => panic!("expected the record to be completed"),
    }
    let (job, action) = step(job, Event::Succeeded);
    assert!(matches!(action, Action::Finish { result: Ok(()) }));
    assert!(job.is_finished());
    assert!(!job.accepts_event(&Event::Succeeded));
}

#[test]
fn an_unsized_download_is_one_chunk_and_counts_what_arrived() {
    let (job, action) = run_to_fetch(b"unknown", b"bytes");
    let tasks = match action {
        Action::FetchChunks { tasks, .. } => tasks,
        _ => panic!("expected the chunks to be fetched"),
    };
    assert_eq!(tasks.len(), 1);
    assert_eq!(tasks[0].range, None);
    let outcomes = vec![ChunkOutcome::Finished { part_path: tasks[0].part_path.clone(), bytes: 777 }];
    let (job, _) = step(job, Event::ChunksDone(outcomes));
    let (_, action) = step(job, Event::Succeeded);
    match action {
        Action::MarkCompleted { total_bytes, downloaded_bytes, .. } => {
            assert_eq!(total_bytes, 777);
            assert_eq!(downloaded_bytes, 777);
        }
        _ => panic!("expected the record to be completed"),
    }
}

#[test]
fn a_failed_chunk_abandons_every_part() {
    let (job, action) = run_to_fetch(b"100", b"bytes");
    let tasks = match action {
        Action::FetchChunks { tasks, .. } => tasks,
        _ => panic!("expected the chunks to be fetched"),
    };
    let outcomes = vec![
        ChunkOutcome::Finished { part_path: tasks[0].part_path.clone(), bytes: 25 },
        ChunkOutcome::Failed { error: "HTTP 500 — Internal Server Error".to_string() },
        ChunkOutcome::Panicked,
        ChunkOutcome::Failed { error: "later".to_string() },
    ];
    let (job, action) = step(job, Event::ChunksDone(outcomes));
    match action {
        Action::Abandon { id, part_paths, error } => {
            assert_eq!(id, "dl");
            assert_eq!(error, "HTTP 500 — Internal Server Error");
            assert_eq!(part_paths, tasks.iter().map(|t| t.part_path.clone()).collect::<Vec<_>>());
        }
        _ => panic!("expected the download to be abandoned"),
    }
    assert!(job.is_finished());
}

#[test]
fn a_panicked_chunk_ends_without_cleanup() {
    let (job, _) = run_to_fetch(b"100", b"bytes");
    let outcomes = vec![
        ChunkOutcome::Panicked,
        ChunkOutcome::Failed { error: "x".to_string() },
        ChunkOutcome::Panicked,
        ChunkOutcome::Panicked,
    ];
    let (job, action) = step(job, Event::ChunksDone(outcomes));
    assert_eq!(error_of(action), "Worker thread panicked");
    assert!(job.is_finished());
}

#[test]
fn probe_failures_end_the_download() {
    let start = || {
        let (job, _) = DownloadJob::start(Platform::Linux, "dl".to_string(), "http://h/x".to_string(), "/save".to_string());
        let (job, _) = step(job, Event::Succeeded);
        let (job, _) = step(job, Event::Succeeded);
        job
    };
    let (_, action) = step(start(), Event::Failed("connection refused".to_string()));
    assert_eq!(error_of(action), "HEAD request failed: connection refused");
    let (_, action) = step(start(), Event::Probed(head(403, "http://h/x", None, None)));
    assert_eq!(error_of(action), "Server rejected HEAD with HTTP 403");
    let (_, action) = step(start(), Event::Probed(head(200, "::", None, None)));
    assert_eq!(error_of(action), "relative URL without a base");
    let (job, _) = DownloadJob::start(Platform::Linux, "dl".to_string(), "u".to_string(), "/s".to_string());
    let (job, action) = step(job, Event::Failed("permission denied".to_string()));
    assert_eq!(error_of(action), "permission denied");
    assert!(job.is_finished());
}

#[test]
fn a_step_only_takes_the_events_its_stage_waits_for() {
    let (job, _) = DownloadJob::start(Platform::Linux, "dl".to_string(), "u".to_string(), "/s".to_string());
    assert!(!job.accepts_event(&Event::ChunksDone(vec![])));
    assert!(!job.accepts_event(&Event::Probed(head(200, "u", None, None))));
    let (job, action) = run_to_fetch(b"100", b"bytes");
    let paths: Vec<String> = match action {
        Action::FetchChunks { tasks, .. } => tasks.iter().map(|t| t.part_path.clone()).collect(),
        _ => panic!("expected the chunks to be fetched"),
    };
    assert!(!job.accepts_event(&Event::Succeeded));
    assert!(!job.accepts_event(&Event::ChunksDone(vec![])));
    assert!(job.accepts_event(&Event::ChunksDone(vec![ChunkOutcome::Panicked])));
    let too_big = vec![
        ChunkOutcome::Finished { part_path: paths[0].clone(), bytes: i64::MAX },
        ChunkOutcome::Finished { part_path: paths[1].clone(), bytes: 1 },
        ChunkOutcome::Panicked,
        ChunkOutcome::Panicked,
    ];
    assert!(!job.accepts_event(&Event::ChunksDone(too_big)));
    let unfinished = vec![
        ChunkOutcome::Finished { part_path: paths[0].clone(), bytes: 1 },
        ChunkOutcome::Finished { part_path: paths[1].clone(), bytes: 1 },
    ];
    assert!(!job.accepts_event(&Event::ChunksDone(unfinished)));
    let stopped = vec![
        ChunkOutcome::Finished { part_path: paths[0].clone(), bytes: 1 },
        ChunkOutcome::Failed { error: "e".to_string() },
    ];
    assert!(job.accepts_event(&Event::ChunksDone(stopped)));
    let wrong_file = vec![ChunkOutcome::Finished { part_path: "/elsewhere".to_string(), bytes: 1 }];
    assert!(!job.accepts_event(&Event::ChunksDone(wrong_file)));
}

#[test]
fn windows_downloads_use_backslashes() {
    let (job, _) = DownloadJob::start(Platform::Windows, "dl".to_string(), "u".to_string(), "C:\\dl".to_string());
    let (job, _) = step(job, Event::Succeeded);
    let (job, _) = step(job, Event::Succeeded);
    let (job, action) = step(job, Event::Probed(head(200, "https://h/f.bin", Some(b"8"), Some(b"bytes"))));
    assert!(matches!(action, Action::InsertDownload { ref save_path, .. } if save_path == "C:\\dl\\f.bin"));
    let (job, _) = step(job, Event::Succeeded);
    let (job, _) = step(job, Event::Succeeded);
    let (_, action) = step(job, Event::Succeeded);
    match action {
        Action::FetchChunks { tasks, .. } => {
            assert_eq!(tasks.len(), 4);
            for t in &tasks {
                assert_eq!(t.part_path, format!("C:\\dl\\f.bin.part_{}", t.chunk.id));
            }
        }
        _ => panic!("expected the chunks to be fetched"),
    }
}

#[test]
fn summarize_takes_the_first_unfinished_chunk() {
    let done = |p: &str, b: i64| ChunkOutcome::Finished { part_path: p.to_string(), bytes: b };
    match summarize(&vec![done("a", 1), done("b", 2)]) {
        Summary::Complete { part_paths, downloaded } => {
            assert_eq!(part_paths, vec!["a".to_string(), "b".to_string()]);
            assert_eq!(downloaded, 3);
        }
        _ => panic!("expected all chunks to finish"),
    }
    match summarize(&vec![done("a", 1), ChunkOutcome::Failed { error: "e".to_string() }, ChunkOutcome::Panicked]) {
        Summary::ChunkFailed { error } => assert_eq!(error, "e"),
        _ => panic!("expected a failed chunk"),
    }
    assert!(matches!(summarize(&vec![ChunkOutcome::Panicked, ChunkOutcome::Failed { error: "e".to_string() }]), Summary::WorkerPanicked));
    assert!(matches!(summarize(&vec![]), Summary::Complete { downloaded: 0, .. }));
}
