use std::path::PathBuf;

use reina_download::engine::run::preflight;
use reina_download::limiter::Acquire;
use reina_download::progress::Shared;
use reina_download::time::Duration;
use reina_download::{
    DownloadError, DownloadOptions, DownloadRequest, Outcome, Phase, Progress, SharedBudget,
    DEFAULT_PIECE_SIZE,
};

#[test]
fn defaults_are_as_documented() {
    let options = DownloadOptions::default();
    assert_eq!(options.piece_size, DEFAULT_PIECE_SIZE);
    assert_eq!(options.piece_size, 4 * 1024 * 1024);
    assert_eq!(options.connections(), 1..=8);
    assert_eq!(options.clamped_initial(), 4);
    assert_eq!(options.stall_timeout, Duration::from_secs(20));
    assert_eq!(options.commit_interval, Duration::from_secs(2));
    assert_eq!(options.progress_interval, Duration::from_millis(250));
    assert_eq!(options.grow_after_successes, 8);
    assert_eq!(options.max_consecutive_failures, 20);
    assert!(options.validate().is_ok());
}

#[test]
fn invalid_options_are_refused() {
    let options = DownloadOptions { piece_size: 0, min_connections: 0, ..Default::default() };
    assert_eq!(
        options.validate().unwrap_err().message(),
        "invalid configuration: piece_size must be positive"
    );
    let options = DownloadOptions { min_connections: 0, ..Default::default() };
    assert_eq!(
        options.validate().unwrap_err().message(),
        "invalid configuration: min_connections must be >= 1"
    );
    let options = DownloadOptions { min_connections: 9, ..Default::default() };
    assert_eq!(
        options.validate().unwrap_err().message(),
        "invalid configuration: max_connections must be >= min_connections"
    );
}

#[test]
fn the_first_connection_count_is_clamped() {
    let options = DownloadOptions { initial_connections: 0, ..Default::default() };
    assert_eq!(options.clamped_initial(), 1);
    let options = DownloadOptions { initial_connections: 99, ..Default::default() };
    assert_eq!(options.clamped_initial(), 8);
}

#[test]
fn periods_have_a_floor() {
    let options = DownloadOptions {
        commit_interval: Duration::from_millis(1),
        progress_interval: Duration::from_millis(1),
        ..Default::default()
    };
    assert_eq!(options.commit_period(), Duration::from_millis(100));
    assert_eq!(options.progress_period(), Duration::from_millis(50));
    assert_eq!(DownloadOptions::default().commit_period(), Duration::from_secs(2));
    assert_eq!(DownloadOptions::default().progress_period(), Duration::from_millis(250));
}

#[test]
fn a_budget_is_shared() {
    let mut budget = SharedBudget::new(1);
    assert_eq!(budget.0.acquire(false), Acquire::Granted);
    assert_eq!(budget.0.acquire(false), Acquire::Wait);
}

fn request() -> DownloadRequest {
    DownloadRequest {
        url: "http://example.com/a".to_string(),
        target: PathBuf::from("a.zip"),
        expected_size: 10,
        identity: Some("sha256:abc".to_string()),
    }
}

#[test]
fn a_request_clones_whole() {
    let copy = request().clone();
    assert_eq!(copy.url, "http://example.com/a");
    assert_eq!(copy.target, PathBuf::from("a.zip"));
    assert_eq!(copy.expected_size, 10);
    assert_eq!(copy.identity.as_deref(), Some("sha256:abc"));
}

#[test]
fn a_target_without_control_file_is_done_or_foreign() {
    let options = DownloadOptions::default();
    let request = request();
    assert_eq!(
        preflight(&options, &request, false, Some(10)).unwrap(),
        Some(Outcome::Completed)
    );
    assert_eq!(preflight(&options, &request, false, None).unwrap(), None);
    assert_eq!(preflight(&options, &request, true, Some(3)).unwrap(), None);
    assert_eq!(preflight(&options, &request, true, Some(10)).unwrap(), None);
    match preflight(&options, &request, false, Some(3)) {
        Err(DownloadError::TargetConflict(path)) => assert_eq!(path, PathBuf::from("a.zip")),
        _ => panic!("no conflict"),
    }
    let invalid = DownloadOptions { piece_size: 0, ..options };
    assert!(preflight(&invalid, &request, false, Some(10)).is_err());
}

#[test]
fn phases_round_trip() {
    let phases = vec![
        Phase::Probing,
        Phase::Downloading,
        Phase::SingleStream,
        Phase::Finalizing,
        Phase::Done,
        Phase::Cancelled,
    ];
    for (number, phase) in phases.iter().enumerate() {
        assert_eq!(phase.to_u8(), number as u8);
        assert_eq!(Phase::from_u8(number as u8), *phase);
    }
    assert_eq!(Phase::from_u8(6), Phase::Done);
    assert_eq!(Phase::from_u8(255), Phase::Done);
}

#[test]
fn a_snapshot_shows_the_shared_state() {
    let mut shared = Shared::new();
    assert_eq!(shared.snapshot(), Progress::initial());
    shared.set_total(10);
    shared.resume_from(4);
    shared.add_written(3);
    shared.set_connections(2);
    shared.count_retry();
    shared.set_phase(Phase::Downloading);
    assert_eq!(
        shared.snapshot(),
        Progress {
            phase: Phase::Downloading,
            total: 10,
            committed: 4,
            written: 7,
            connections: 2,
            retries: 1,
        }
    );
    shared.reach(5);
    assert_eq!(shared.written, 7);
    shared.reach(9);
    assert_eq!(shared.written, 9);
    shared.set_committed(9);
    assert_eq!(shared.committed, 9);
}

#[test]
fn the_last_phase_tells_the_outcome() {
    let mut shared = Shared::new();
    shared.set_phase(Phase::Downloading);
    shared.close(&Err(DownloadError::Network("x".to_string())));
    assert_eq!(shared.snapshot().phase, Phase::Downloading);
    shared.close(&Ok(Outcome::Cancelled));
    assert_eq!(shared.snapshot().phase, Phase::Cancelled);
    shared.close(&Ok(Outcome::Completed));
    assert_eq!(shared.snapshot().phase, Phase::Done);
}

#[test]
fn counts_wrap_around() {
    let mut shared = Shared::new();
    shared.retries = u32::MAX;
    shared.count_retry();
    assert_eq!(shared.retries, 0);
    shared.written = u64::MAX;
    shared.add_written(2);
    assert_eq!(shared.written, 1);
}
