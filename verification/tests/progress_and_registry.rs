use tharsis::progress::{ChunkOutcome, ChunkProgress};
use tharsis::registry::TaskRegistry;

#[test]
fn progress_reports_are_throttled() {
    let mut p = ChunkProgress::new();
    let s = p.on_bytes(10, 50, 50);
    assert!(s.report.is_none());
    assert!(s.persist.is_none());
    let s = p.on_bytes(5, 100, 999);
    let report = s.report.unwrap();
    assert_eq!(report.downloaded_bytes, 15);
    assert_eq!(report.bytes_since_last_report, 15);
    assert!(s.persist.is_none());
    let s = p.on_bytes(7, 20, 1000);
    assert!(s.report.is_none());
    assert_eq!(s.persist, Some(22));
    let s = p.on_bytes(1, 150, 0);
    assert_eq!(s.report.unwrap().bytes_since_last_report, 8);
    assert_eq!(p.downloaded, 23);
    assert_eq!(p.since_report, 0);
}

#[test]
fn progress_counts_every_byte() {
    let mut p = ChunkProgress::new();
    let pieces = [3usize, 0, 1000, 17, 4096];
    for (i, n) in pieces.iter().enumerate() {
        assert!(p.can_count(*n));
        p.on_bytes(*n, (i as u128) * 60, 0);
    }
    assert_eq!(p.downloaded, pieces.iter().sum::<usize>() as i64);
    let mut full = ChunkProgress { downloaded: i64::MAX - 1, since_report: 0 };
    assert!(full.can_count(1));
    assert!(!full.can_count(2));
    full.on_bytes(1, 0, 0);
    assert_eq!(full.downloaded, i64::MAX);
}

#[test]
fn reports_account_for_every_byte_over_a_stream() {
    // (length, ms since last report, ms since last store)
    let pieces = [(10usize, 0u128, 0u128), (20, 120, 400), (5, 30, 1200), (7, 100, 10), (1, 0, 0)];
    let mut p = ChunkProgress::new();
    let mut reported = 0i64;
    let mut last_report = 0i64;
    let mut stores = Vec::new();
    for (len, since_report, since_store) in pieces {
        let step = p.on_bytes(len, since_report, since_store);
        if let Some(r) = step.report {
            assert!(since_report >= 100);
            assert!(r.downloaded_bytes >= last_report);
            last_report = r.downloaded_bytes;
            reported += r.bytes_since_last_report;
        }
        if let Some(d) = step.persist {
            assert!(since_store >= 1000);
            stores.push(d);
        }
    }
    assert_eq!(p.downloaded, 43);
    assert_eq!(reported + p.since_report, 43);
    assert_eq!(reported, 42);
    assert_eq!(stores, vec![35]);
}

#[test]
fn empty_chunks_fail() {
    let p = ChunkProgress::new();
    match p.outcome("/tmp/x.part_1".to_string()) {
        ChunkOutcome::Failed { error } => assert_eq!(error, "Server returned empty response"),
        _ => panic!("expected a failure"),
    }
    let mut p = ChunkProgress::new();
    p.on_bytes(9, 0, 0);
    match p.outcome("/tmp/x.part_1".to_string()) {
        ChunkOutcome::Finished { part_path, bytes } => {
            assert_eq!(part_path, "/tmp/x.part_1");
            assert_eq!(bytes, 9);
        }
        _ => panic!("expected a finished chunk"),
    }
}

#[test]
fn registry_hands_back_what_was_registered() {
    let mut r: TaskRegistry<u32> = TaskRegistry::new();
    assert!(!r.contains("a"));
    assert_eq!(r.insert("a".to_string(), 1), None);
    assert_eq!(r.insert("b".to_string(), 2), None);
    assert!(r.contains("a"));
    assert_eq!(r.insert("a".to_string(), 3), Some(1));
    assert_eq!(r.remove("a"), Some(3));
    assert!(!r.contains("a"));
    assert_eq!(r.remove("a"), None);
    assert!(r.contains("b"));
    assert_eq!(r.remove("b"), Some(2));
}
