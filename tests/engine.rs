use dwrs::batch::BatchScheduler;
use dwrs::cli::{file_name_from_url, parse_line, Args};
use dwrs::config::{Config, ConfigFile, DownloadConfig};
use dwrs::error::DownloadError;
use dwrs::fetch::{part_path, range_header, status_error, FetchStep};
use dwrs::merge::ChunkAssembly;
use dwrs::plan::{plan_chunks, Chunk, MIN_CHUNK_SIZE};
use dwrs::probe::{parse_u64, Capability};
use dwrs::progress::Progress;
use dwrs::retry::{backoff, Action, Event, Phase, RetryController};

fn assert_tiles(chunks: &[Chunk], total: u64) {
    assert_eq!(chunks[0].start, 0);
    assert_eq!(chunks[chunks.len() - 1].end, total - 1);
    for (i, c) in chunks.iter().enumerate() {
        assert_eq!(c.index, i);
        assert!(c.start <= c.end);
        if i + 1 < chunks.len() {
            assert_eq!(c.end + 1, chunks[i + 1].start);
        }
    }
}

#[test]
fn plan_covers_every_byte_once() {
    for &(total, workers) in &[
        (10 * MIN_CHUNK_SIZE + 5, 3usize),
        (10 * MIN_CHUNK_SIZE + 5, 16),
        (7 * MIN_CHUNK_SIZE - 1, 7),
        (3 * MIN_CHUNK_SIZE, 2),
        (MIN_CHUNK_SIZE + 1, 4),
        (1, 1),
        (12345, 9),
    ] {
        let plan = plan_chunks(total, true, workers, 0);
        assert!(plan.chunks.len() <= workers);
        assert_tiles(&plan.chunks, total);
    }
}

#[test]
fn plan_splits_ten_million_bytes_four_ways() {
    let plan = plan_chunks(10_000_000, true, 4, 5_000_000);
    assert!(plan.parallel);
    let expect = [(0u64, 2_499_999u64), (2_500_000, 4_999_999), (5_000_000, 7_499_999), (7_500_000, 9_999_999)];
    assert_eq!(plan.chunks.len(), 4);
    for (i, &(s, e)) in expect.iter().enumerate() {
        assert_eq!(plan.chunks[i], Chunk { index: i, start: s, end: e });
    }
    let headers: Vec<String> = (0..4)
        .map(|i| match plan.fetch_step(i, false, None) {
            FetchStep::Request { from, to, ranged, append } => {
                assert!(ranged);
                assert!(!append);
                range_header(from, to)
            }
            FetchStep::Complete => panic!("nothing fetched yet"),
        })
        .collect();
    assert_eq!(headers, vec!["bytes=0-2499999", "bytes=2500000-4999999", "bytes=5000000-7499999", "bytes=7500000-9999999"]);
    let last = plan.chunks[3];
    assert_eq!(last.end + 1, 10_000_000);

    let mut assembly = ChunkAssembly::new(4);
    for &i in &[2usize, 0, 3] {
        assert!(assembly.record(i, plan.target_path("out.bin", i)));
        assert!(assembly.merge_order().is_none());
    }
    assert!(assembly.record(1, plan.target_path("out.bin", 1)));
    assert!(assembly.is_complete());
    assert_eq!(
        assembly.merge_order().unwrap(),
        vec!["out.bin.part0", "out.bin.part1", "out.bin.part2", "out.bin.part3"]
    );
}

#[test]
fn small_file_is_one_sequential_chunk() {
    let cap = Capability::from_headers(Some(b"11"), None);
    assert_eq!(cap, Capability { total_size: 11, size_known: true, supports_ranges: false });
    for &(ranges, workers) in &[(false, 4usize), (true, 1), (true, 4)] {
        let plan = plan_chunks(11, ranges, workers, 5 * 1024 * 1024);
        assert!(!plan.parallel);
        assert_eq!(plan.chunks, vec![Chunk { index: 0, start: 0, end: 10 }]);
        assert_eq!(
            plan.fetch_step(0, false, None),
            FetchStep::Request { from: 0, to: 10, ranged: false, append: false }
        );
        assert_eq!(plan.target_path("hello.txt", 0), "hello.txt");
    }
    let mut progress = Progress::new(11);
    progress.advance(5);
    progress.advance(6);
    assert_eq!((progress.position(), progress.length()), (11, 11));
    assert!(progress.is_complete());
}

#[test]
fn unknown_size_is_one_chunk_without_range() {
    let plan = plan_chunks(0, true, 8, 0);
    assert!(!plan.parallel);
    assert_eq!(plan.chunks, vec![Chunk { index: 0, start: 0, end: 0 }]);
    assert_eq!(
        plan.fetch_step(0, true, Some(500)),
        FetchStep::Request { from: 0, to: 0, ranged: false, append: false }
    );
}

#[test]
fn resume_requests_only_missing_bytes() {
    let plan = plan_chunks(10_000_000, true, 4, 5_000_000);
    match plan.fetch_step(1, true, Some(1000)) {
        FetchStep::Request { from, to, ranged, append } => {
            assert_eq!((from, to), (2_501_000, 4_999_999));
            assert_eq!(to - from + 1, 2_500_000 - 1000);
            assert!(ranged && append);
            assert_eq!(range_header(from, to), "bytes=2501000-4999999");
        }
        FetchStep::Complete => panic!("chunk is not complete"),
    }
    assert_eq!(plan.fetch_step(1, true, Some(2_500_000)), FetchStep::Complete);
    assert_eq!(plan.fetch_step(1, true, Some(3_000_000)), FetchStep::Complete);
    assert_eq!(
        plan.fetch_step(1, true, Some(0)),
        FetchStep::Request { from: 2_500_000, to: 4_999_999, ranged: true, append: false }
    );
    assert_eq!(
        plan.fetch_step(1, false, Some(1000)),
        FetchStep::Request { from: 2_500_000, to: 4_999_999, ranged: true, append: false }
    );
}

#[test]
fn resume_whole_file_needs_range_support() {
    let with = plan_chunks(100, true, 1, 0);
    assert_eq!(
        with.fetch_step(0, true, Some(40)),
        FetchStep::Request { from: 40, to: 99, ranged: true, append: true }
    );
    assert_eq!(with.fetch_step(0, true, Some(100)), FetchStep::Complete);
    let without = plan_chunks(100, false, 1, 0);
    assert_eq!(
        without.fetch_step(0, true, Some(40)),
        FetchStep::Request { from: 0, to: 99, ranged: false, append: false }
    );
}

#[test]
fn assembly_refuses_duplicates_and_strays() {
    let mut a = ChunkAssembly::new(2);
    assert!(a.record(1, "b".to_string()));
    assert!(!a.record(1, "c".to_string()));
    assert!(!a.record(2, "d".to_string()));
    assert!(!a.is_complete());
    assert!(a.record(0, "a".to_string()));
    assert_eq!(a.merge_order().unwrap(), vec!["a", "b"]);
}

#[test]
fn names_and_headers() {
    assert_eq!(part_path("a.zip", 12), "a.zip.part12");
    assert_eq!(part_path("", 0), ".part0");
    assert_eq!(range_header(0, 0), "bytes=0-0");
    assert_eq!(range_header(7, u64::MAX), "bytes=7-18446744073709551615");
}

#[test]
fn header_numbers() {
    assert_eq!(parse_u64(b"123"), Some(123));
    assert_eq!(parse_u64(b"+5"), Some(5));
    assert_eq!(parse_u64(b"007"), Some(7));
    assert_eq!(parse_u64(b""), None);
    assert_eq!(parse_u64(b"+"), None);
    assert_eq!(parse_u64(b"-1"), None);
    assert_eq!(parse_u64(b"12a"), None);
    assert_eq!(parse_u64(b" 12"), None);
    assert_eq!(parse_u64(b"18446744073709551615"), Some(u64::MAX));
    assert_eq!(parse_u64(b"18446744073709551616"), None);
    assert_eq!(parse_u64(b"99999999999999999999x"), None);
}

#[test]
fn capability_from_headers() {
    assert_eq!(
        Capability::from_headers(Some(b"2048"), Some(b"bytes")),
        Capability { total_size: 2048, size_known: true, supports_ranges: true }
    );
    assert_eq!(
        Capability::from_headers(None, Some(b"none")),
        Capability { total_size: 0, size_known: false, supports_ranges: false }
    );
    assert_eq!(
        Capability::from_headers(Some(b"lots"), Some(b"Bytes")),
        Capability { total_size: 0, size_known: false, supports_ranges: false }
    );
    assert_eq!(
        Capability::from_headers(Some(b"0"), None),
        Capability { total_size: 0, size_known: true, supports_ranges: false }
    );
}

fn probed(total: u64, ranges: bool, existing: Option<u64>) -> Event {
    Event::Probed {
        capability: Capability { total_size: total, size_known: true, supports_ranges: ranges },
        existing_len: existing,
    }
}

#[test]
fn complete_output_ends_after_one_probe() {
    let mut c = RetryController::new(3, 4, 5_000_000);
    assert!(matches!(c.step(Event::Start), Some(Action::Probe)));
    assert!(matches!(c.step(probed(11, false, Some(11))), Some(Action::Finish(Ok(())))));
    assert_eq!(c.phase, Phase::Succeeded);
    assert!(c.step(Event::WaitOver).is_none());
}

#[test]
fn recheck_after_failure_finds_complete_output() {
    let mut c = RetryController::new(3, 4, 0);
    assert!(matches!(c.step(Event::Start), Some(Action::Probe)));
    assert!(matches!(c.step(probed(50, true, None)), Some(Action::Fetch(_))));
    assert!(matches!(c.step(Event::Failed(DownloadError::Io("disk".to_string()))), Some(Action::Probe)));
    assert!(matches!(c.step(probed(50, true, Some(50))), Some(Action::Finish(Ok(())))));
}

#[test]
fn failing_chunk_retries_with_backoff_then_exhausts() {
    let mut c = RetryController::new(3, 4, 5_000_000);
    assert!(matches!(c.step(Event::Start), Some(Action::Probe)));
    let mut sleeps = Vec::new();
    for attempt in 0..3usize {
        assert_eq!(c.phase, Phase::Probing { attempt });
        match c.step(probed(10_000_000, true, None)) {
            Some(Action::Fetch(plan)) => {
                assert!(plan.parallel);
                assert_eq!(plan.chunks.len(), 4);
            }
            other => panic!("expected a fetch, got {:?}", other),
        }
        let err = DownloadError::Transport(format!("chunk 2 broke off, attempt {}", attempt));
        match c.step(Event::Failed(err)) {
            Some(Action::Probe) => {
                match c.step(probed(10_000_000, true, Some(2_500_000))) {
                    Some(Action::Sleep { secs }) => sleeps.push(secs),
                    other => panic!("expected a wait, got {:?}", other),
                }
                assert!(matches!(c.step(Event::WaitOver), Some(Action::Probe)));
            }
            Some(Action::Finish(Err(e))) => {
                assert_eq!(attempt, 2);
                assert_eq!(e.message(), "transfer failed: chunk 2 broke off, attempt 2");
            }
            other => panic!("unexpected {:?}", other),
        }
    }
    assert_eq!(sleeps, vec![1, 2]);
    assert_eq!(c.phase, Phase::Exhausted);
}

#[test]
fn success_on_a_later_attempt() {
    let mut c = RetryController::new(3, 1, 0);
    c.step(Event::Start);
    c.step(probed(5, false, None));
    assert!(matches!(c.step(Event::Failed(DownloadError::HttpStatus(503))), Some(Action::Probe)));
    assert!(matches!(c.step(Event::Failed(DownloadError::Connection("refused".to_string()))), Some(Action::Sleep { secs: 1 })));
    assert!(matches!(c.step(Event::WaitOver), Some(Action::Probe)));
    assert!(matches!(c.step(probed(5, false, None)), Some(Action::Fetch(_))));
    assert!(matches!(c.step(Event::Fetched), Some(Action::Finish(Ok(())))));
    assert_eq!(c.phase, Phase::Succeeded);
}

#[test]
fn zero_attempts_fail_at_once() {
    let mut c = RetryController::new(0, 4, 0);
    match c.step(Event::Start) {
        Some(Action::Finish(Err(e))) => assert_eq!(e.message(), "Unknown error"),
        other => panic!("unexpected {:?}", other),
    }
}

#[test]
fn backoff_doubles() {
    assert_eq!(backoff(0), 1);
    assert_eq!(backoff(1), 2);
    assert_eq!(backoff(2), 4);
    assert_eq!(backoff(10), 1024);
    assert_eq!(backoff(63), 1 << 63);
    assert_eq!(backoff(64), u64::MAX);
}

#[test]
fn error_messages() {
    assert_eq!(DownloadError::HttpStatus(404).message(), "HTTP error: 404");
    assert_eq!(DownloadError::Connection("dns".to_string()).message(), "connection failed: dns");
    assert_eq!(DownloadError::Io("full".to_string()).message(), "I/O error: full");
    assert_eq!(DownloadError::Merge("gone".to_string()).message(), "merge failed: gone");
}

#[test]
fn batch_bounds_running_files_and_reports_failures() {
    let urls = vec!["http://a".to_string(), "http://b".to_string(), "http://c".to_string()];
    let mut s = BatchScheduler::new(urls, 2);
    assert_eq!(s.start_next(), Some(0));
    assert_eq!(s.start_next(), Some(1));
    assert_eq!(s.start_next(), None);
    assert!(s.finish(0, Ok(())));
    assert!(!s.finish(0, Ok(())));
    assert_eq!(s.start_next(), Some(2));
    assert_eq!(s.start_next(), None);
    assert!(s.finish(2, Err("HTTP error: 404".to_string())));
    assert!(!s.is_done());
    assert!(s.finish(1, Err("boom".to_string())));
    assert!(s.is_done());
    assert_eq!(s.report(), Err("2/3 downloads failed:\nhttp://c: HTTP error: 404\nhttp://b: boom".to_string()));
}

#[test]
fn batch_all_succeed_and_zero_limit() {
    let mut s = BatchScheduler::new(vec!["u".to_string()], 0);
    assert_eq!(s.start_next(), Some(0));
    assert!(s.finish(0, Ok(())));
    assert!(s.is_done());
    assert_eq!(s.report(), Ok(()));
    let empty = BatchScheduler::new(Vec::new(), 3);
    assert!(empty.is_done());
    assert_eq!(empty.report(), Ok(()));
}

#[test]
fn concurrent_files_limit() {
    let mut cfg = DownloadConfig::default();
    assert_eq!(cfg.max_concurrent(), 4);
    cfg.workers = 1;
    assert_eq!(cfg.max_concurrent(), 8);
    cfg.workers = 0;
    assert_eq!(cfg.max_concurrent(), 8);
    cfg.workers = 32;
    assert_eq!(cfg.max_concurrent(), 1);
    cfg.workers = 5;
    assert_eq!(cfg.max_concurrent(), 3);
    cfg.max_concurrent_files = Some(6);
    assert_eq!(cfg.max_concurrent(), 6);
}

#[test]
fn defaults() {
    let d = DownloadConfig::default();
    assert_eq!(d.workers, 4);
    assert_eq!(d.buffer_size, 256 * 1024);
    assert_eq!(d.pool_size, 100);
    assert_eq!(d.retries, 3);
    assert_eq!(d.min_parallel_size, 5 * 1024 * 1024);
    assert_eq!(d.chars, "█▌░");
    assert_eq!(d.msg_template, "{download} {url} → {output}");
    assert!(!d.continue_download && !d.notify && d.max_concurrent_files.is_none());
    let c = Config::default();
    assert_eq!(c.template, d.template);
}

#[test]
fn config_file_overrides_defaults() {
    let file = ConfigFile {
        msg_template: None,
        template: Some("{bar}".to_string()),
        bar_chars: None,
        workers: Some(9),
        buffer_size: None,
        pool_size: Some(7),
        retries: Some(0),
        min_parallel_size: None,
    };
    let c = Config::from_file(file);
    assert_eq!(c.template, "{bar}");
    assert_eq!(c.bar_chars, "█▌░");
    assert_eq!((c.workers, c.pool_size, c.retries), (9, 7, 0));
    assert_eq!((c.buffer_size, c.min_parallel_size), (262144, 5242880));
}

fn args(urls: &[&str], outputs: &[&str], workers: usize) -> Args {
    Args {
        notify: false,
        background: false,
        continue_: true,
        url: urls.iter().map(|s| s.to_string()).collect(),
        output: outputs.iter().map(|s| s.to_string()).collect(),
        workers,
        file: None,
    }
}

#[test]
fn command_line_pairs() {
    let a = args(&["https://x.org/a/file.zip", "https://x.org/dir/"], &[], 1);
    assert_eq!(
        a.download_pairs().unwrap(),
        vec![
            ("https://x.org/a/file.zip".to_string(), "file.zip".to_string()),
            ("https://x.org/dir/".to_string(), "".to_string()),
        ]
    );
    let b = args(&["u1", "u2"], &["o1", "o2"], 1);
    assert_eq!(b.download_pairs().unwrap(), vec![("u1".to_string(), "o1".to_string()), ("u2".to_string(), "o2".to_string())]);
    assert!(args(&["u1", "u2"], &["o1"], 1).download_pairs().is_none());
    assert_eq!(file_name_from_url("noslash"), "noslash");
}

#[test]
fn command_line_settings() {
    let cfg = Config::default();
    let d = args(&["u"], &[], 1).download_config(&cfg);
    assert_eq!(d.workers, 4);
    assert!(d.continue_download);
    let d = args(&["u"], &[], 300).download_config(&cfg);
    assert_eq!(d.workers, 300);
}

#[test]
fn url_list_lines() {
    assert_eq!(
        parse_line("https://e.com/f1.zip out1.zip"),
        Some(("https://e.com/f1.zip".to_string(), "out1.zip".to_string()))
    );
    assert_eq!(
        parse_line("  https://e.com/f2.zip\t"),
        Some(("https://e.com/f2.zip".to_string(), "f2.zip".to_string()))
    );
    assert_eq!(parse_line(""), None);
    assert_eq!(parse_line("   "), None);
    assert_eq!(parse_line("a b c"), None);
}

#[test]
fn progress_never_decreases() {
    let mut p = Progress::starting_at(100, 40);
    p.advance(0);
    assert_eq!(p.position(), 40);
    p.advance(60);
    assert!(p.is_complete());
    p.advance(u64::MAX);
    assert_eq!(p.position(), u64::MAX);
    p.set_length(7);
    assert_eq!((p.position(), p.length()), (u64::MAX, 7));
    assert!(!Progress::new(0).is_complete());
}

#[test]
fn empty_resource_already_downloaded_ends_after_one_probe() {
    let mut c = RetryController::new(3, 4, 0);
    assert!(matches!(c.step(Event::Start), Some(Action::Probe)));
    let cap = Capability::from_headers(Some(b"0"), Some(b"bytes"));
    let ev = Event::Probed { capability: cap, existing_len: Some(0) };
    assert!(matches!(c.step(ev), Some(Action::Finish(Ok(())))));
}

#[test]
fn unknown_size_is_never_taken_as_complete() {
    let mut c = RetryController::new(3, 4, 0);
    c.step(Event::Start);
    let cap = Capability::from_headers(None, None);
    let ev = Event::Probed { capability: cap, existing_len: Some(0) };
    assert!(matches!(c.step(ev), Some(Action::Fetch(_))));
}

#[test]
fn response_status_errors() {
    assert!(status_error(200).is_none());
    assert!(status_error(206).is_none());
    assert!(status_error(299).is_none());
    assert_eq!(status_error(404).unwrap().message(), "HTTP error: 404");
    assert_eq!(status_error(301).unwrap().message(), "HTTP error: 301");
    assert_eq!(status_error(199).unwrap().message(), "HTTP error: 199");
}

#[test]
fn short_body_is_a_transport_error() {
    let plan = plan_chunks(10_000_000, true, 4, 5_000_000);
    assert!(plan.check_received(0, 2_499_999, 2_500_000).is_ok());
    assert!(plan.check_received(0, 2_499_999, 3_000_000).is_ok());
    match plan.check_received(100, 2_499_999, 5) {
        Err(e) => assert_eq!(e.message(), "transfer failed: body ended after 5 of 2499900 bytes"),
        Ok(()) => panic!("short body accepted"),
    }
    let unknown = plan_chunks(0, false, 1, 0);
    assert!(unknown.check_received(0, 0, 0).is_ok());
}

#[test]
fn progress_seed_only_on_sequential_resume() {
    let seq = plan_chunks(100, true, 1, 0);
    let step = seq.fetch_step(0, true, Some(40));
    assert_eq!(seq.progress_seed(0, step), 40);
    assert_eq!(seq.progress_seed(0, FetchStep::Complete), 100);
    assert_eq!(seq.progress_seed(0, seq.fetch_step(0, false, Some(40))), 0);
    let split = plan_chunks(10_000_000, true, 4, 5_000_000);
    let step = split.fetch_step(1, true, Some(1000));
    assert_eq!(split.progress_seed(1, step), 0);
    assert_eq!(split.progress_seed(1, FetchStep::Complete), 0);
}

#[test]
fn settle_reports_first_failure_after_all_chunks() {
    let mut a = ChunkAssembly::new(3);
    a.record(2, "c".to_string());
    a.record_failure(DownloadError::HttpStatus(500));
    a.record(0, "a".to_string());
    a.record_failure(DownloadError::Io("second".to_string()));
    match a.settle() {
        Err(e) => assert_eq!(e.message(), "HTTP error: 500"),
        Ok(_) => panic!("failure lost"),
    }
    let mut b = ChunkAssembly::new(2);
    b.record(1, "y".to_string());
    match b.settle() {
        Err(DownloadError::Merge(_)) => {}
        other => panic!("unexpected {:?}", other),
    }
    let mut c = ChunkAssembly::new(2);
    c.record(1, "y".to_string());
    c.record(0, "x".to_string());
    assert_eq!(c.settle().unwrap(), vec!["x", "y"]);
}
