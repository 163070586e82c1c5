use std::path::PathBuf;

use reina_download::error::{join_error, map_reqwest, transport_error, ErrorSource, TransportFault};
use reina_download::DownloadError;

fn all() -> Vec<DownloadError> {
    vec![
        DownloadError::Http { status: 503, retryable: true },
        DownloadError::SizeMismatch { expected: 10, actual: 9 },
        DownloadError::RemoteChanged("etag".to_string()),
        DownloadError::Protocol("bad range".to_string()),
        DownloadError::Network("reset".to_string()),
        DownloadError::from(std::io::Error::other("full")),
        DownloadError::TargetConflict(PathBuf::from("dir/file.zip")),
        DownloadError::RetriesExhausted {
            attempts: 21,
            last: Box::new(DownloadError::Http { status: 429, retryable: true }),
        },
        DownloadError::InvalidConfig("piece_size".to_string()),
    ]
}

#[test]
fn kinds_are_stable() {
    let kinds: Vec<&str> = all().iter().map(|error| error.kind()).collect();
    assert_eq!(
        kinds,
        vec![
            "http",
            "size_mismatch",
            "remote_changed",
            "protocol",
            "network",
            "disk",
            "target_conflict",
            "retries_exhausted",
            "invalid_config",
        ]
    );
}

#[test]
fn only_transient_errors_are_retryable() {
    let retryable: Vec<bool> = all().iter().map(|error| error.is_retryable()).collect();
    assert_eq!(retryable, vec![true, false, false, true, true, false, false, false, false]);
    assert!(!DownloadError::Http { status: 404, retryable: false }.is_retryable());
}

#[test]
fn status_is_read_through_exhausted_retries() {
    let statuses: Vec<Option<u16>> = all().iter().map(|error| error.http_status()).collect();
    assert_eq!(statuses[0], Some(503));
    assert_eq!(statuses[7], Some(429));
    assert_eq!(statuses.iter().filter(|status| status.is_some()).count(), 2);
}

#[test]
fn messages_read_as_sentences() {
    let messages: Vec<String> = all().iter().map(|error| error.message()).collect();
    assert_eq!(
        messages,
        vec![
            "retryable HTTP status 503",
            "size mismatch: expected 10 bytes, server reports 9",
            "remote resource changed: etag",
            "HTTP protocol violation: bad range",
            "network error: reset",
            "disk error: full",
            "target already exists without a control file: dir/file.zip",
            "gave up after 21 consecutive failures; last error: retryable HTTP status 429",
            "invalid configuration: piece_size",
        ]
    );
    assert_eq!(
        DownloadError::Http { status: 404, retryable: false }.message(),
        "HTTP status 404"
    );
}

#[test]
fn sources_are_the_wrapped_errors() {
    let errors = all();
    assert!(matches!(errors[0].source(), None));
    assert!(matches!(errors[5].source(), Some(ErrorSource::Io(error)) if error.to_string() == "full"));
    assert!(matches!(
        errors[7].source(),
        Some(ErrorSource::Download(DownloadError::Http { status: 429, .. }))
    ));
}

fn fault() -> TransportFault {
    TransportFault {
        timeout: false,
        connect: false,
        redirect: false,
        body: false,
        decode: false,
        builder: false,
        text: "x".to_string(),
    }
}

#[test]
fn the_first_condition_of_a_fault_decides() {
    assert_eq!(transport_error(fault()).message(), "network error: x");
    let f = TransportFault { builder: true, ..fault() };
    assert_eq!(transport_error(f).message(), "invalid configuration: x");
    let f = TransportFault { decode: true, builder: true, ..fault() };
    assert_eq!(transport_error(f).message(), "network error: body transfer failed: x");
    let f = TransportFault { body: true, ..fault() };
    assert_eq!(transport_error(f).message(), "network error: body transfer failed: x");
    let f = TransportFault { redirect: true, body: true, ..fault() };
    assert_eq!(
        transport_error(f).message(),
        "HTTP protocol violation: redirect policy violated: x"
    );
    let f = TransportFault { connect: true, redirect: true, ..fault() };
    assert_eq!(transport_error(f).message(), "network error: connection failed: x");
    let f = TransportFault { timeout: true, connect: true, ..fault() };
    assert_eq!(transport_error(f).message(), "network error: request timed out: x");
}

#[test]
fn a_bad_url_is_a_bad_request() {
    let error = reqwest::Client::new().get("not a url").build().unwrap_err();
    match map_reqwest(&error) {
        DownloadError::InvalidConfig(text) => assert_eq!(text, error.to_string()),
        other => panic!("{}", other.kind()),
    }
}

#[test]
fn a_refused_connection_is_a_network_error() {
    let runtime = tokio::runtime::Builder::new_current_thread().enable_all().build().unwrap();
    let error = runtime.block_on(async {
        reqwest::Client::new().get("http://127.0.0.1:1/").send().await.unwrap_err()
    });
    let mapped = map_reqwest(&error);
    assert!(mapped.is_retryable());
    assert_eq!(
        mapped.message(),
        format!("network error: connection failed: {error}")
    );
}

#[test]
fn a_lost_task_is_a_disk_error() {
    let runtime = tokio::runtime::Builder::new_current_thread().enable_all().build().unwrap();
    let error = runtime.block_on(async {
        let task = tokio::spawn(std::future::pending::<()>());
        task.abort();
        task.await.unwrap_err()
    });
    let text = format!("disk error: worker task failed: {error}");
    let mapped = join_error(error);
    assert!(!mapped.is_retryable());
    assert_eq!(mapped.message(), text);
}

#[test]
fn a_reset_before_the_answer_is_a_network_error() {
    // What a client reports of a request that failed under way has none of the
    // conditions.
    let error = transport_error(fault());
    assert!(error.is_retryable());
    assert_eq!(error.kind(), "network");
}
