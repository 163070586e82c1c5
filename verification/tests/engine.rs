use std::path::PathBuf;

use reina_download::control::ControlFile;
use reina_download::engine::backoff::{
    backoff, backoff_at, clock_noise, probe_pause, worker_delay,
};
use reina_download::engine::disk::{Commit, CommitStep};
use reina_download::engine::fetch::{BodyEvent, BodyStep, PieceFetch, WorkerFail};
use reina_download::engine::probe::{probe_range, read_probe, ProbeResult, ProbeRetry};
use reina_download::engine::resume::{discard_reason, reconcile, Discard};
use reina_download::engine::run::{Run, Step};
use reina_download::engine::segmented::{Poll, Scheduler};
use reina_download::engine::stream::{SingleStream, StreamPass, StreamStep, Turn};
use reina_download::engine::worker::{PieceWorker, WorkerReport, WorkerStep};
use reina_download::http::ResponseHead;
use reina_download::pieces::PieceTable;
use reina_download::progress::Shared;
use reina_download::time::{Duration, Instant};
use reina_download::{DownloadError, DownloadOptions, DownloadRequest, Outcome, Phase};

fn head(status: u16) -> ResponseHead {
    ResponseHead {
        status,
        etag: Some("\"v1\"".to_string()),
        last_modified: None,
        content_encoding: None,
        content_range: None,
        content_length: None,
        retry_after: None,
    }
}

fn request(identity: Option<&str>) -> DownloadRequest {
    DownloadRequest {
        url: "http://example.com/a".to_string(),
        target: PathBuf::from("a.zip"),
        expected_size: 10,
        identity: identity.map(|text| text.to_string()),
    }
}

fn options() -> DownloadOptions {
    DownloadOptions { piece_size: 4, ..Default::default() }
}

fn probe(range_supported: bool, etag: Option<&str>, last_modified: Option<&str>) -> ProbeResult {
    ProbeResult {
        total: Some(10),
        range_supported,
        etag: etag.map(|text| text.to_string()),
        last_modified: last_modified.map(|text| text.to_string()),
    }
}

fn partial(identity: Option<&str>, etag: Option<&str>, last_modified: Option<&str>) -> ControlFile {
    let mut control = ControlFile::new(
        10,
        4,
        identity.map(|text| text.to_string()),
        etag.map(|text| text.to_string()),
        last_modified.map(|text| text.to_string()),
    );
    control.pieces = vec![4, 1, 0];
    control
}

fn table(written: Vec<u64>) -> PieceTable {
    PieceTable { size: 10, piece_size: 4, written }
}

const AT: Instant = Instant { nanos: 7 };

// Backoff.

#[test]
fn backoff_doubles_up_to_its_limit() {
    let millis: Vec<u128> = (0..9).map(|attempt| backoff_at(attempt, 0).nanos / 1_000_000).collect();
    assert_eq!(millis, vec![0, 500, 1000, 2000, 4000, 8000, 16000, 30000, 30000]);
    assert_eq!(backoff_at(1, 749), Duration::from_millis(749));
    assert_eq!(backoff_at(1, 250), Duration::from_millis(500));
    assert_eq!(backoff_at(0, 749), Duration::from_millis(0));
    assert_eq!(backoff_at(u32::MAX, 1), Duration::from_millis(30001));
}

#[test]
fn backoff_is_jittered_by_the_clock() {
    assert!(clock_noise() < 1_000_000_000);
    assert!(backoff(0).is_zero());
    let pause = backoff(2).nanos;
    assert!(pause >= 1_000_000_000 && pause < 1_250_000_000);
    assert_eq!(probe_pause(5, Duration::from_millis(10)), Duration::from_millis(10));
    assert_eq!(worker_delay(1, Duration::from_secs(60)), Duration::from_secs(60));
    assert_eq!(worker_delay(0, Duration::from_millis(0)), Duration::from_millis(0));
}

// Probe.

#[test]
fn a_partial_answer_shows_ranges() {
    assert_eq!(probe_range(), "bytes=0-0");
    let answer = ResponseHead { content_range: Some(b"bytes 0-0/10".to_vec()), ..head(206) };
    let result = read_probe(&answer).unwrap();
    assert_eq!(result.total, Some(10));
    assert!(result.range_supported);
    assert_eq!(result.etag.as_deref(), Some("\"v1\""));
    assert_eq!(result.last_modified, None);
}

#[test]
fn a_full_answer_shows_no_ranges() {
    let answer = ResponseHead { content_length: Some(b"10".to_vec()), ..head(200) };
    let result = read_probe(&answer).unwrap();
    assert_eq!(result.total, Some(10));
    assert!(!result.range_supported);
    assert_eq!(read_probe(&head(200)).unwrap().total, None);
}

#[test]
fn an_empty_file_answers_unsatisfied() {
    let answer = ResponseHead { content_range: Some(b"bytes */0".to_vec()), ..head(416) };
    let result = read_probe(&answer).unwrap();
    assert_eq!(result.total, Some(0));
    assert!(result.range_supported);
}

#[test]
fn bad_probe_answers_are_errors() {
    assert_eq!(
        read_probe(&head(206)).unwrap_err().message(),
        "HTTP protocol violation: 206 without Content-Range"
    );
    assert_eq!(
        read_probe(&head(416)).unwrap_err().message(),
        "HTTP protocol violation: 416 without Content-Range"
    );
    let opaque = ResponseHead { content_range: Some(vec![0xff]), ..head(416) };
    assert_eq!(
        read_probe(&opaque).unwrap_err().message(),
        "HTTP protocol violation: 416 without Content-Range"
    );
    let odd = ResponseHead { content_range: Some(b"bytes 1".to_vec()), ..head(416) };
    assert_eq!(
        read_probe(&odd).unwrap_err().message(),
        "HTTP protocol violation: invalid Content-Range"
    );
    let gzip = ResponseHead { content_encoding: Some(b"gzip".to_vec()), ..head(206) };
    assert!(read_probe(&gzip).is_err());
    let gzip = ResponseHead { content_encoding: Some(b"gzip".to_vec()), ..head(200) };
    assert!(read_probe(&gzip).is_err());
    assert_eq!(read_probe(&head(404)).unwrap_err().message(), "HTTP status 404");
    assert_eq!(read_probe(&head(503)).unwrap_err().message(), "retryable HTTP status 503");
}

#[test]
fn a_probe_is_sent_five_times_at_most() {
    let mut shared = Shared::new();
    let mut retry = ProbeRetry::new();
    for attempt in 1..5 {
        let error = DownloadError::Network("reset".to_string());
        assert!(retry.on_failure(error, &mut shared).is_ok());
        assert_eq!(retry.attempt, attempt);
    }
    let error = DownloadError::Network("last".to_string());
    let last = retry.on_failure(error, &mut shared).unwrap_err();
    assert_eq!(last.message(), "network error: last");
    assert_eq!(shared.retries, 4);
    let mut retry = ProbeRetry::new();
    let error = DownloadError::Http { status: 404, retryable: false };
    assert!(retry.on_failure(error, &mut shared).is_err());
    assert_eq!(shared.retries, 4);
}

// Resume.

fn kept(existing: ControlFile, request: &DownloadRequest, probe: &ProbeResult) -> bool {
    let control = reconcile(Some(existing), request, probe, 4, 10);
    if control.pieces == vec![4, 1, 0] {
        return true;
    }
    assert_eq!(control.pieces, vec![0, 0, 0]);
    assert_eq!(control.identity, request.identity);
    assert_eq!(control.etag, probe.etag);
    assert_eq!(control.last_modified, probe.last_modified);
    false
}

#[test]
fn declared_content_outranks_validators() {
    let server = probe(true, Some("new"), Some("today"));
    let stored = partial(Some("sha256:a"), Some("old"), Some("yesterday"));
    assert!(kept(stored, &request(Some("sha256:a")), &server));
    let stored = partial(Some("sha256:a"), Some("new"), Some("today"));
    assert!(!kept(stored, &request(Some("sha256:b")), &server));
}

#[test]
fn validators_decide_without_declared_content() {
    let server = probe(true, Some("new"), Some("today"));
    assert!(kept(partial(None, Some("new"), Some("today")), &request(None), &server));
    assert!(!kept(partial(None, Some("old"), Some("today")), &request(None), &server));
    assert!(!kept(partial(None, Some("new"), Some("yesterday")), &request(None), &server));
    assert!(kept(partial(None, None, None), &request(None), &server));
    assert!(kept(partial(None, Some("old"), None), &request(None), &probe(true, None, None)));
    assert!(!kept(partial(Some("sha256:a"), Some("old"), None), &request(None), &server));
    assert!(!kept(partial(None, Some("old"), None), &request(Some("sha256:a")), &server));
}

#[test]
fn changed_geometry_starts_over() {
    let request = request(Some("sha256:a"));
    let server = probe(true, None, None);
    let stored = partial(Some("sha256:a"), None, None);
    let control = reconcile(Some(stored), &request, &server, 5, 10);
    assert_eq!(control.pieces, vec![0, 0]);
    let stored = partial(Some("sha256:a"), None, None);
    let control = reconcile(Some(stored), &request, &server, 4, 11);
    assert_eq!(control.pieces, vec![0, 0, 0]);
    assert_eq!(control.size, 11);
    let control = reconcile(None, &request, &server, 4, 10);
    assert_eq!(control.pieces, vec![0, 0, 0]);
}

#[test]
fn a_discarded_state_has_a_reason() {
    let server = probe(true, Some("new"), None);
    let ours = request(Some("sha256:a"));
    let same = partial(Some("sha256:a"), Some("old"), None);
    assert_eq!(discard_reason(&same, &ours, &server, 4, 10), None);
    assert_eq!(discard_reason(&same, &ours, &server, 5, 10), Some(Discard::Geometry));
    assert_eq!(discard_reason(&same, &ours, &server, 4, 11), Some(Discard::Geometry));
    let other = partial(Some("sha256:b"), Some("new"), None);
    assert_eq!(discard_reason(&other, &ours, &server, 4, 10), Some(Discard::Identity));
    let unnamed = partial(None, Some("old"), None);
    assert_eq!(discard_reason(&unnamed, &ours, &server, 4, 10), Some(Discard::Validators));
}

#[test]
fn a_refreshed_url_resumes() {
    let server = probe(true, None, None);
    let mut other = request(Some("sha256:a"));
    other.url = "http://elsewhere.example.com/b?signature=1".to_string();
    assert!(kept(partial(Some("sha256:a"), None, None), &other, &server));
}

// One piece.

fn fetch() -> PieceFetch {
    PieceFetch::begin(10, 4, 1, 1, AT).unwrap()
}

#[test]
fn a_piece_asks_for_what_is_missing() {
    assert_eq!(fetch().range_header(), "bytes=5-7");
    assert_eq!(PieceFetch::begin(10, 4, 2, 0, AT).unwrap().range_header(), "bytes=8-9");
    assert!(PieceFetch::begin(10, 4, 2, 2, AT).is_none());
}

fn judge(head: &ResponseHead) -> String {
    match fetch().on_head(head, 0) {
        Ok(()) => "ok".to_string(),
        Err(fail) => {
            assert_eq!(fail.attempt_started, AT);
            fail.error.message()
        }
    }
}

#[test]
fn the_answer_has_to_be_the_range() {
    let good = ResponseHead {
        content_range: Some(b"bytes 5-7/10".to_vec()),
        content_length: Some(b"3".to_vec()),
        ..head(206)
    };
    assert_eq!(judge(&good), "ok");
    let short = ResponseHead { content_length: Some(b"2".to_vec()), ..good };
    assert_eq!(
        judge(&short),
        "HTTP protocol violation: Content-Length mismatch for piece 1: expected 3, got 2"
    );
    let shifted = ResponseHead { content_range: Some(b"bytes 4-7/10".to_vec()), ..head(206) };
    assert_eq!(
        judge(&shifted),
        "HTTP protocol violation: Content-Range mismatch: asked 5-7, got 4-7"
    );
    assert_eq!(judge(&head(206)), "HTTP protocol violation: 206 without Content-Range");
    assert_eq!(
        judge(&head(200)),
        "HTTP protocol violation: server stopped honoring range requests"
    );
    assert_eq!(judge(&head(404)), "HTTP status 404");
}

#[test]
fn a_rate_limit_carries_its_pause() {
    let limited = ResponseHead { retry_after: Some(b"3".to_vec()), ..head(429) };
    let fail = fetch().on_head(&limited, 0).unwrap_err();
    assert!(fail.rate_limited);
    assert_eq!(fail.retry_after, Some(Duration::from_secs(3)));
    assert!(fail.error.is_retryable());
    let busy = fetch().on_head(&head(503), 0).unwrap_err();
    assert!(!busy.rate_limited);
    assert_eq!(busy.retry_after, None);
}

#[test]
fn chunks_land_behind_each_other() {
    let mut fetch = fetch();
    let mut counters = table(vec![4, 1, 0]);
    let mut shared = Shared::new();
    shared.resume_from(5);
    let stall = Duration::from_secs(20);
    assert!(matches!(fetch.on_event(BodyEvent::Chunk(0), stall), BodyStep::Continue));
    assert!(matches!(fetch.on_event(BodyEvent::Chunk(2), stall), BodyStep::WriteAt(5)));
    fetch.on_written(2, &mut counters, &mut shared);
    assert_eq!(counters.written, vec![4, 3, 0]);
    assert_eq!(shared.written, 7);
    assert!(matches!(fetch.on_event(BodyEvent::Chunk(1), stall), BodyStep::WriteAt(7)));
    fetch.on_written(1, &mut counters, &mut shared);
    assert!(matches!(fetch.on_event(BodyEvent::End, stall), BodyStep::Finished(Ok(()))));
    assert_eq!(counters.total(), shared.written);
}

fn failure(event: BodyEvent) -> String {
    match fetch().on_event(event, Duration::from_secs(20)) {
        BodyStep::Finished(Err(fail)) => fail.error.message(),
        _ => panic!("no failure"),
    }
}

#[test]
fn a_body_can_fail_in_these_ways() {
    assert_eq!(failure(BodyEvent::Cancelled), "network error: cancelled");
    assert_eq!(failure(BodyEvent::Stalled), "network error: no data for 20 s on piece 1");
    assert_eq!(
        failure(BodyEvent::Broken(DownloadError::Network("reset".to_string()))),
        "network error: reset"
    );
    assert_eq!(
        failure(BodyEvent::Chunk(4)),
        "HTTP protocol violation: piece 1 body exceeded 4 bytes"
    );
    assert_eq!(failure(BodyEvent::Chunk(u64::MAX)), failure(BodyEvent::Chunk(4)));
    assert_eq!(failure(BodyEvent::End), "network error: piece 1 ended early: 1 of 4 bytes");
    let other = fetch().failed(DownloadError::from(std::io::Error::other("full")));
    assert_eq!(other.error.message(), "disk error: full");
    assert!(!other.rate_limited);
}

#[test]
fn a_worker_rests_then_takes_a_slot() {
    let worker = PieceWorker { index: 2, attempt: 1, budgeted: true };
    let pause = Duration::from_millis(500);
    assert_eq!(worker.begin(pause), WorkerStep::Sleep(pause));
    assert_eq!(worker.after_sleep(), WorkerStep::Acquire);
    assert_eq!(worker.begin(Duration::from_millis(0)), WorkerStep::Acquire);
    let alone = PieceWorker { budgeted: false, ..worker };
    assert_eq!(alone.begin(Duration::from_millis(0)), WorkerStep::Fetch);
    let report = worker.cancelled(AT);
    assert_eq!((report.index, report.attempt), (2, 1));
    let fail = report.result.unwrap_err();
    assert_eq!(fail.error.message(), "network error: cancelled");
    assert_eq!(fail.attempt_started, AT);
    assert!(worker.report(Ok(())).result.is_ok());
}

// Segmented mode.

fn failed(index: u64, attempt: u32, error: DownloadError, rate_limited: bool) -> WorkerReport {
    WorkerReport {
        index,
        attempt,
        result: Err(WorkerFail { error, rate_limited, retry_after: None, attempt_started: AT }),
    }
}

fn reset() -> DownloadError {
    DownloadError::Network("reset".to_string())
}

#[test]
fn unfinished_pieces_are_fetched_in_order() {
    let options = DownloadOptions { initial_connections: 1, ..options() };
    let mut shared = Shared::new();
    let mut scheduler = Scheduler::new(&options, &table(vec![4, 1, 0]));
    assert_eq!(scheduler.next_spawn(false), Some((1, 0)));
    assert_eq!(scheduler.next_spawn(false), None);
    assert_eq!(scheduler.after_fill(false, &mut shared), Poll::Await);
    assert_eq!(shared.connections, 1);
    let report = WorkerReport { index: 1, attempt: 0, result: Ok(()) };
    assert!(scheduler.on_report(report, AT, false, &mut shared).is_none());
    assert_eq!(scheduler.next_spawn(false), Some((2, 0)));
    let report = WorkerReport { index: 2, attempt: 0, result: Ok(()) };
    assert!(scheduler.on_report(report, AT, false, &mut shared).is_none());
    assert_eq!(scheduler.next_spawn(false), None);
    assert_eq!(scheduler.after_fill(false, &mut shared), Poll::Ended(Outcome::Completed));
    assert_eq!(shared.retries, 0);
}

#[test]
fn a_full_file_has_nothing_to_fetch() {
    let mut shared = Shared::new();
    let mut scheduler = Scheduler::new(&options(), &table(vec![4, 4, 2]));
    assert_eq!(scheduler.next_spawn(false), None);
    assert_eq!(scheduler.after_fill(false, &mut shared), Poll::Ended(Outcome::Completed));
}

#[test]
fn work_that_was_not_started_is_waited_for() {
    let mut shared = Shared::new();
    let scheduler = Scheduler::new(&options(), &table(vec![0, 0, 0]));
    assert_eq!(scheduler.after_fill(false, &mut shared), Poll::Yield(Duration::from_millis(10)));
    assert_eq!(shared.connections, 4);
}

#[test]
fn a_failed_piece_goes_to_the_back() {
    let mut shared = Shared::new();
    let mut scheduler = Scheduler::new(&options(), &table(vec![0, 0, 0]));
    assert_eq!(scheduler.next_spawn(false), Some((0, 0)));
    let report = failed(0, 0, reset(), false);
    assert!(scheduler.on_report(report, AT, false, &mut shared).is_none());
    assert_eq!(shared.retries, 1);
    assert_eq!(scheduler.consecutive_failures, 1);
    assert_eq!(scheduler.next_spawn(false), Some((1, 0)));
    assert_eq!(scheduler.next_spawn(false), Some((2, 0)));
    assert_eq!(scheduler.next_spawn(false), Some((0, 1)));
    let report = WorkerReport { index: 2, attempt: 0, result: Ok(()) };
    assert!(scheduler.on_report(report, AT, false, &mut shared).is_none());
    assert_eq!(scheduler.consecutive_failures, 0);
}

#[test]
fn a_rate_limit_halves_the_connections() {
    let options = DownloadOptions { initial_connections: 8, ..options() };
    let mut shared = Shared::new();
    let mut scheduler = Scheduler::new(&options, &table(vec![0, 0, 0]));
    scheduler.next_spawn(false);
    let error = DownloadError::Http { status: 429, retryable: true };
    let now = Instant { nanos: 1000 };
    assert!(scheduler.on_report(failed(0, 0, error, true), now, false, &mut shared).is_none());
    assert_eq!(scheduler.adaptive.current(), 4);
    assert_eq!(
        scheduler.adaptive.remaining_pause_at(now),
        Duration::from_millis(500)
    );
}

#[test]
fn the_download_gives_up_beyond_the_limit() {
    let options = DownloadOptions { max_consecutive_failures: 1, ..options() };
    let mut shared = Shared::new();
    let mut scheduler = Scheduler::new(&options, &table(vec![0, 0, 0]));
    scheduler.next_spawn(false);
    scheduler.next_spawn(false);
    assert!(scheduler.on_report(failed(0, 0, reset(), false), AT, false, &mut shared).is_none());
    match scheduler.on_report(failed(1, 0, reset(), false), AT, false, &mut shared) {
        Some(Err(DownloadError::RetriesExhausted { attempts: 2, last })) => {
            assert_eq!(last.message(), "network error: reset")
        }
        _ => panic!("no end"),
    }
    assert_eq!(shared.retries, 2);
}

#[test]
fn an_unrecoverable_error_ends_the_download() {
    let mut shared = Shared::new();
    let mut scheduler = Scheduler::new(&options(), &table(vec![0, 0, 0]));
    scheduler.next_spawn(false);
    let error = DownloadError::Http { status: 404, retryable: false };
    match scheduler.on_report(failed(0, 0, error, false), AT, false, &mut shared) {
        Some(Err(error)) => assert_eq!(error.http_status(), Some(404)),
        _ => panic!("no end"),
    }
    assert_eq!(shared.retries, 0);
}

#[test]
fn a_cancelled_download_is_no_error() {
    let options = DownloadOptions { max_consecutive_failures: 0, ..options() };
    let mut shared = Shared::new();
    let mut scheduler = Scheduler::new(&options, &table(vec![0, 0, 0]));
    scheduler.next_spawn(false);
    let end = scheduler.on_report(failed(0, 0, reset(), false), AT, true, &mut shared);
    assert!(matches!(end, Some(Ok(Outcome::Cancelled))));
    assert_eq!(shared.retries, 1);
    assert!(matches!(scheduler.on_cancelled(), Ok(Outcome::Cancelled)));
}

#[test]
fn a_cancelled_download_starts_nothing() {
    let mut shared = Shared::new();
    let mut scheduler = Scheduler::new(&options(), &table(vec![0, 0, 0]));
    assert_eq!(scheduler.next_spawn(true), None);
    assert_eq!(scheduler.after_fill(true, &mut shared), Poll::Ended(Outcome::Cancelled));
    assert_eq!(shared.connections, 0);
}

#[test]
fn connections_stay_below_the_limit() {
    let options = DownloadOptions { initial_connections: 9, max_connections: 2, ..options() };
    let mut scheduler = Scheduler::new(&options, &table(vec![0, 0, 0]));
    assert_eq!(scheduler.next_spawn(false), Some((0, 0)));
    assert_eq!(scheduler.next_spawn(false), Some((1, 0)));
    assert_eq!(scheduler.next_spawn(false), None);
    assert_eq!(scheduler.running, vec![(0, 0), (1, 0)]);
}

#[test]
fn a_cancelled_stream_is_no_error() {
    let mut shared = Shared::new();
    let mut counters = table(vec![4, 1, 0]);
    let mut stream = SingleStream::new(0, &mut shared);
    assert_eq!(stream.next_pass(false), Turn::Send);
    let end = stream.on_pass(Err(reset()), true, &mut counters, &mut shared);
    assert!(matches!(end, Some(Ok(Outcome::Cancelled))));
    assert_eq!(shared.retries, 1);
    assert_eq!(counters.written, vec![4, 1, 0]);
    assert_eq!(stream.attempt, 0);
    assert_eq!(stream.next_pass(true), Turn::Ended(Outcome::Cancelled));
    assert!(matches!(stream.on_cancelled(), Ok(Outcome::Cancelled)));
    let later = SingleStream { attempt: 1, max_failures: 5 };
    match later.next_pass(false) {
        Turn::Pause(pause) => assert!(pause.nanos >= 500_000_000 && pause.nanos < 750_000_000),
        _ => panic!("no pause"),
    }
}

// Single stream.

#[test]
fn a_stream_fills_the_file() {
    let mut shared = Shared::new();
    let mut counters = table(vec![0, 0, 0]);
    let mut pass = StreamPass::begin(10);
    assert!(pass.on_head(&head(200)).is_ok());
    assert!(matches!(pass.on_event(BodyEvent::Chunk(0)), StreamStep::Continue));
    assert!(matches!(pass.on_event(BodyEvent::Chunk(9)), StreamStep::WriteAt(0)));
    pass.on_written(9, &mut counters, &mut shared);
    assert_eq!(counters.written, vec![4, 4, 1]);
    assert_eq!(shared.written, 9);
    match pass.on_event(BodyEvent::End) {
        StreamStep::Finished(Err(error)) => assert_eq!(
            error.message(),
            "network error: single stream ended early: 9 of 10 bytes"
        ),
        _ => panic!("no end"),
    }
    match pass.on_event(BodyEvent::Chunk(2)) {
        StreamStep::Finished(Err(error)) => assert_eq!(
            error.message(),
            "HTTP protocol violation: body exceeded expected size"
        ),
        _ => panic!("no end"),
    }
    assert!(matches!(pass.on_event(BodyEvent::Chunk(1)), StreamStep::WriteAt(9)));
    pass.on_written(1, &mut counters, &mut shared);
    assert!(matches!(pass.on_event(BodyEvent::End), StreamStep::Finished(Ok(true))));
    assert!(matches!(pass.on_event(BodyEvent::Cancelled), StreamStep::Finished(Ok(false))));
    assert_eq!(counters.written, vec![4, 4, 2]);
}

#[test]
fn a_stream_checks_its_answer() {
    let pass = StreamPass::begin(10);
    assert_eq!(pass.on_head(&head(206)).unwrap_err().message(), "HTTP status 206");
    let long = ResponseHead { content_length: Some(b"11".to_vec()), ..head(200) };
    assert_eq!(
        pass.on_head(&long).unwrap_err().message(),
        "size mismatch: expected 10 bytes, server reports 11"
    );
    let exact = ResponseHead { content_length: Some(b"10".to_vec()), ..head(200) };
    assert!(pass.on_head(&exact).is_ok());
    match pass.on_event(BodyEvent::Stalled) {
        StreamStep::Finished(Err(error)) => {
            assert_eq!(error.message(), "network error: single stream stalled")
        }
        _ => panic!("no end"),
    }
    assert!(matches!(pass.on_event(BodyEvent::Broken(reset())), StreamStep::Finished(Err(_))));
}

#[test]
fn a_cancelled_stream_with_retries_left_counts_nothing() {
    let mut shared = Shared::new();
    let mut counters = table(vec![4, 1, 0]);
    let mut stream = SingleStream::new(3, &mut shared);
    let end = stream.on_pass(Err(reset()), true, &mut counters, &mut shared);
    assert!(matches!(end, Some(Ok(Outcome::Cancelled))));
    assert_eq!(counters.written, vec![0, 0, 0]);
    assert_eq!(stream.attempt, 1);
    assert_eq!(shared.retries, 1);
}

#[test]
fn a_stream_lands_in_order() {
    let body = b"0123456789";
    let mut file = vec![b'-'; 10];
    let mut shared = Shared::new();
    let mut counters = table(vec![0, 0, 0]);
    let mut pass = StreamPass::begin(10);
    let mut taken = 0;
    for count in vec![3usize, 0, 5, 2] {
        let chunk = &body[taken..taken + count];
        match pass.on_event(BodyEvent::Chunk(count as u64)) {
            StreamStep::WriteAt(offset) => {
                let offset = offset as usize;
                file[offset..offset + count].copy_from_slice(chunk);
                pass.on_written(count as u64, &mut counters, &mut shared);
            }
            StreamStep::Continue => assert_eq!(count, 0),
            StreamStep::Finished(_) => panic!("refused"),
        }
        taken += count;
        assert_eq!(&file[..taken], &body[..taken]);
        assert!(file[taken..].iter().all(|byte| *byte == b'-'));
    }
    assert!(matches!(pass.on_event(BodyEvent::End), StreamStep::Finished(Ok(true))));
}

#[test]
fn a_stream_starts_over_from_zero() {
    let mut shared = Shared::new();
    let mut counters = table(vec![4, 1, 0]);
    let mut stream = SingleStream::new(1, &mut shared);
    shared.reach(5);
    assert_eq!(shared.connections, 1);
    assert!(stream.on_pass(Err(reset()), false, &mut counters, &mut shared).is_none());
    assert_eq!(counters.written, vec![0, 0, 0]);
    assert_eq!(stream.attempt, 1);
    assert_eq!(shared.retries, 1);
    // What a viewer sees never goes back.
    assert_eq!(shared.written, 5);
    match stream.on_pass(Err(reset()), false, &mut counters, &mut shared) {
        Some(Err(DownloadError::RetriesExhausted { attempts: 2, .. })) => {}
        _ => panic!("no end"),
    }
    assert!(matches!(
        stream.on_pass(Ok(true), false, &mut counters, &mut shared),
        Some(Ok(Outcome::Completed))
    ));
    assert!(matches!(
        stream.on_pass(Ok(false), true, &mut counters, &mut shared),
        Some(Ok(Outcome::Cancelled))
    ));
    let error = DownloadError::SizeMismatch { expected: 1, actual: 2 };
    assert!(matches!(
        stream.on_pass(Err(error), false, &mut counters, &mut shared),
        Some(Err(DownloadError::SizeMismatch { .. }))
    ));
}

// Commits and the whole course.

#[test]
fn a_commit_syncs_before_it_records() {
    let mut shared = Shared::new();
    let mut counters = table(vec![4, 1, 0]);
    let (mut commit, step) = Commit::begin(&partial(None, Some("e"), None), &counters);
    assert!(matches!(step, CommitStep::SyncData));
    // What is written after the snapshot is not recorded by it.
    counters.record(2, 2);
    assert!(matches!(commit.on_done(Ok(()), &mut shared), CommitStep::SaveControl));
    assert_eq!(commit.control.pieces, vec![4, 1, 0]);
    assert_eq!(commit.control.etag.as_deref(), Some("e"));
    assert_eq!(shared.committed, 0);
    assert!(matches!(commit.on_done(Ok(()), &mut shared), CommitStep::Done(Ok(()))));
    assert_eq!(shared.committed, 5);
}

#[test]
fn a_failed_sync_records_nothing() {
    let mut shared = Shared::new();
    let (mut commit, _) = Commit::begin(&partial(None, None, None), &table(vec![4, 1, 0]));
    let error = DownloadError::from(std::io::Error::other("full"));
    assert!(matches!(commit.on_done(Err(error), &mut shared), CommitStep::Done(Err(_))));
    assert_eq!(shared.committed, 0);
}

#[test]
fn a_download_runs_its_course() {
    let mut shared = Shared::new();
    let (mut run, step) = Run::begin(&mut shared);
    assert!(matches!(step, Step::Probe));
    assert_eq!(shared.total, 0);
    let existing = partial(Some("sha256:a"), None, None);
    let step = run.on_probe(
        Ok(probe(true, None, None)),
        Some(existing),
        &request(Some("sha256:a")),
        &options(),
        &mut shared,
    );
    assert!(matches!(step, Step::SaveControl));
    assert_eq!(shared.total, 10);
    assert!(matches!(run.on_done(Ok(()), &mut shared), Step::OpenTarget));
    assert!(matches!(run.on_done(Ok(()), &mut shared), Step::RunSegmented));
    assert_eq!((shared.written, shared.committed), (5, 5));
    assert_eq!(shared.snapshot().phase, Phase::Downloading);
    assert_eq!(run.table().written, vec![4, 1, 0]);
    assert!(matches!(run.on_transfer(Ok(Outcome::Completed)), Step::Commit));
    assert!(matches!(run.on_done(Ok(()), &mut shared), Step::SyncAll));
    assert_eq!(shared.snapshot().phase, Phase::Finalizing);
    assert!(matches!(run.on_done(Ok(()), &mut shared), Step::RemoveControl));
    assert!(matches!(run.on_done(Ok(()), &mut shared), Step::End(Ok(Outcome::Completed))));
}

#[test]
fn a_complete_or_empty_file_is_only_finalized() {
    let mut shared = Shared::new();
    let (mut run, _) = Run::begin(&mut shared);
    let mut existing = partial(Some("sha256:a"), None, None);
    existing.pieces = vec![4, 4, 2];
    let request = request(Some("sha256:a"));
    run.on_probe(Ok(probe(true, None, None)), Some(existing), &request, &options(), &mut shared);
    assert!(matches!(run.on_done(Ok(()), &mut shared), Step::OpenTarget));
    assert!(matches!(run.on_done(Ok(()), &mut shared), Step::SyncAll));
    assert_eq!(shared.snapshot().phase, Phase::Finalizing);
    assert_eq!(shared.written, 10);

    let (mut run, _) = Run::begin(&mut shared);
    let empty = DownloadRequest { expected_size: 0, ..request };
    let server = ProbeResult { total: Some(0), ..probe(false, None, None) };
    run.on_probe(Ok(server), None, &empty, &options(), &mut shared);
    assert!(matches!(run.on_done(Ok(()), &mut shared), Step::OpenTarget));
    assert!(matches!(run.on_done(Ok(()), &mut shared), Step::SyncAll));
}

#[test]
fn a_server_without_ranges_starts_from_zero() {
    let mut shared = Shared::new();
    let (mut run, _) = Run::begin(&mut shared);
    let existing = partial(Some("sha256:a"), None, None);
    run.on_probe(
        Ok(probe(false, None, None)),
        Some(existing),
        &request(Some("sha256:a")),
        &options(),
        &mut shared,
    );
    run.on_done(Ok(()), &mut shared);
    assert!(matches!(run.on_done(Ok(()), &mut shared), Step::RunSingleStream));
    assert_eq!(shared.written, 0);
    assert_eq!(shared.snapshot().phase, Phase::SingleStream);
    assert_eq!(run.table().written, vec![0, 0, 0]);
}

#[test]
fn a_wrong_size_ends_the_download() {
    let mut shared = Shared::new();
    let (mut run, _) = Run::begin(&mut shared);
    let server = ProbeResult { total: Some(11), ..probe(true, None, None) };
    match run.on_probe(Ok(server), None, &request(None), &options(), &mut shared) {
        Step::End(Err(DownloadError::SizeMismatch { expected: 10, actual: 11 })) => {}
        _ => panic!("no end"),
    }
    let (mut run, _) = Run::begin(&mut shared);
    let step = run.on_probe(Err(reset()), None, &request(None), &options(), &mut shared);
    assert!(matches!(step, Step::End(Err(DownloadError::Network(_)))));
    let (mut run, _) = Run::begin(&mut shared);
    assert!(matches!(run.on_cancelled(), Step::End(Ok(Outcome::Cancelled))));
}

fn transferring(shared: &mut Shared) -> Run {
    let (mut run, _) = Run::begin(shared);
    run.on_probe(Ok(probe(true, None, None)), None, &request(None), &options(), shared);
    run.on_done(Ok(()), shared);
    run.on_done(Ok(()), shared);
    run
}

#[test]
fn every_end_of_a_transfer_is_committed() {
    let mut shared = Shared::new();
    let full = || DownloadError::from(std::io::Error::other("full"));

    let mut run = transferring(&mut shared);
    assert!(matches!(run.on_transfer(Ok(Outcome::Cancelled)), Step::Commit));
    assert!(matches!(run.on_done(Ok(()), &mut shared), Step::End(Ok(Outcome::Cancelled))));

    let mut run = transferring(&mut shared);
    run.on_transfer(Ok(Outcome::Cancelled));
    assert!(matches!(run.on_done(Err(full()), &mut shared), Step::End(Err(DownloadError::Disk(_)))));

    let mut run = transferring(&mut shared);
    assert!(matches!(run.on_transfer(Err(reset())), Step::Commit));
    assert!(matches!(
        run.on_done(Ok(()), &mut shared),
        Step::End(Err(DownloadError::Network(_)))
    ));

    let mut run = transferring(&mut shared);
    run.on_transfer(Err(reset()));
    assert!(matches!(
        run.on_done(Err(full()), &mut shared),
        Step::End(Err(DownloadError::Network(_)))
    ));

    let mut run = transferring(&mut shared);
    run.on_transfer(Ok(Outcome::Completed));
    assert!(matches!(run.on_done(Err(full()), &mut shared), Step::End(Err(DownloadError::Disk(_)))));
}
