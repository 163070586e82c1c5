use reina_download::http::{
    content_length, content_range, ensure_identity, parse_number, parse_unsatisfied_total,
    retry_after, status_error, visible, ContentRange, ResponseHead,
};
use reina_download::time::Duration;

fn head(status: u16) -> ResponseHead {
    ResponseHead {
        status,
        etag: None,
        last_modified: None,
        content_encoding: None,
        content_range: None,
        content_length: None,
        retry_after: None,
    }
}

fn range(value: &str) -> Option<ContentRange> {
    let head = ResponseHead { content_range: Some(value.as_bytes().to_vec()), ..head(206) };
    content_range(&head).ok().map(|range| range.unwrap())
}

#[test]
fn numbers_have_only_digits() {
    assert_eq!(parse_number(b"0"), Some(0));
    assert_eq!(parse_number(b"18446744073709551615"), Some(u64::MAX));
    assert_eq!(parse_number(b"18446744073709551616"), None);
    assert_eq!(parse_number(b"99999999999999999999"), None);
    assert_eq!(parse_number(b""), None);
    assert_eq!(parse_number(b"+1"), None);
    assert_eq!(parse_number(b"1 "), None);
}

#[test]
fn ranges_are_read() {
    assert_eq!(range("bytes 0-0/10"), Some(ContentRange { start: 0, end: 0, total: Some(10) }));
    assert_eq!(range("bytes 4-7/*"), Some(ContentRange { start: 4, end: 7, total: None }));
    assert_eq!(range("bytes 7-4/10"), None);
    assert_eq!(range("bytes 0-10/10"), None);
    assert_eq!(range("bytes */10"), None);
    assert_eq!(range("bytes 0-1"), None);
    assert_eq!(range("items 0-1/10"), None);
    assert!(content_range(&head(206)).unwrap().is_none());
}

#[test]
fn a_bad_range_is_a_protocol_error() {
    let head = ResponseHead { content_range: Some(b"bytes x".to_vec()), ..head(206) };
    let error = content_range(&head).unwrap_err();
    assert_eq!(error.message(), "HTTP protocol violation: invalid Content-Range");
}

#[test]
fn lengths_are_read() {
    let good = ResponseHead { content_length: Some(b"42".to_vec()), ..head(200) };
    assert_eq!(content_length(&good).unwrap(), Some(42));
    let bad = ResponseHead { content_length: Some(b"-1".to_vec()), ..head(200) };
    assert_eq!(
        content_length(&bad).unwrap_err().message(),
        "HTTP protocol violation: invalid Content-Length"
    );
    assert_eq!(content_length(&head(200)).unwrap(), None);
}

#[test]
fn compressed_bodies_are_refused() {
    assert!(ensure_identity(&head(200)).is_ok());
    let plain = ResponseHead { content_encoding: Some(b"Identity".to_vec()), ..head(200) };
    assert!(ensure_identity(&plain).is_ok());
    let gzip = ResponseHead { content_encoding: Some(b"gzip".to_vec()), ..head(200) };
    assert!(ensure_identity(&gzip).unwrap_err().is_retryable());
}

#[test]
fn unsatisfied_ranges_tell_the_size() {
    assert_eq!(parse_unsatisfied_total(b"bytes */77").unwrap(), 77);
    assert!(parse_unsatisfied_total(b"bytes 0-1/77").is_err());
    assert!(visible(b"bytes */77\t"));
    assert!(!visible(b"\x7f"));
}

#[test]
fn overload_and_server_errors_are_transient() {
    let retryable: Vec<bool> = vec![404, 416, 429, 499, 500, 503, 599, 600]
        .iter()
        .map(|status| status_error(*status).is_retryable())
        .collect();
    assert_eq!(retryable, vec![false, false, true, false, true, true, true, false]);
    assert_eq!(status_error(404).http_status(), Some(404));
}

fn pause(value: &str, now: u64) -> Option<Duration> {
    let head = ResponseHead { retry_after: Some(value.as_bytes().to_vec()), ..head(429) };
    retry_after(&head, now)
}

#[test]
fn pauses_are_seconds_or_dates() {
    assert_eq!(pause("120", 0), Some(Duration::from_secs(120)));
    assert_eq!(
        pause("Sun, 06 Nov 1994 08:49:37 GMT", 784_111_777 - 5),
        Some(Duration::from_secs(5))
    );
    assert_eq!(pause("Sun, 06 Nov 1994 08:49:37 GMT", 784_111_778), Some(Duration::from_secs(0)));
    assert_eq!(
        pause("Thu, 29 Feb 2024 00:00:00 GMT", 0),
        Some(Duration::from_secs(1_709_164_800))
    );
    assert_eq!(
        pause("Fri, 01 Mar 2024 00:00:00 GMT", 0),
        Some(Duration::from_secs(1_709_251_200))
    );
    assert_eq!(pause("Thu, 01 Jan 1970 00:00:00 GMT", 0), Some(Duration::from_secs(0)));
    assert_eq!(pause("Wed, 31 Dec 1969 23:59:59 GMT", 0), Some(Duration::from_secs(0)));
    assert_eq!(pause("soon", 0), None);
    assert_eq!(pause("Sun, 06 Nov 1994 24:49:37 GMT", 0), None);
    assert_eq!(pause("Sun, 06 Foo 1994 08:49:37 GMT", 0), None);
    assert_eq!(retry_after(&head(429), 0), None);
}
