//! What the head of an HTTP response says about ranges, lengths and pauses.

use vstd::prelude::*;
use vstd::slice::slice_subrange;
use vstd::string::*;

use crate::error::{outcome_view, DownloadError, ErrorView};
use crate::text::{dec, digit_char};
use crate::time::Duration;

verus! {

/// 200 OK.
pub const OK: u16 = 200;

/// 206 Partial Content.
pub const PARTIAL_CONTENT: u16 = 206;

/// 416 Range Not Satisfiable.
pub const RANGE_NOT_SATISFIABLE: u16 = 416;

/// 429 Too Many Requests.
pub const TOO_MANY_REQUESTS: u16 = 429;

/// The status of a response and the header values that a download reads, each
/// as it came, or `None` where the response has no such header. The validators
/// are kept only where they are visible ASCII.
#[derive(Debug)]
pub struct ResponseHead {
    pub status: u16,
    pub etag: Option<String>,
    pub last_modified: Option<String>,
    pub content_encoding: Option<Vec<u8>>,
    pub content_range: Option<Vec<u8>>,
    pub content_length: Option<Vec<u8>>,
    pub retry_after: Option<Vec<u8>>,
}

/// The range that a response carries, both ends included.
#[derive(Debug, Clone, Copy, PartialEq, Eq, Structural)]
pub struct ContentRange {
    pub start: u64,
    pub end: u64,
    pub total: Option<u64>,
}

pub open spec fn is_digit(byte: u8) -> bool {
    48 <= byte <= 57
}

/// The value of a text of digits.
pub open spec fn digits_value(text: Seq<u8>) -> int
    decreases text.len(),
{
    if text.len() == 0 {
        0
    } else {
        digits_value(text.drop_last()) * 10 + (text.last() - 48)
    }
}

/// The number that `text` writes in decimal, where it is one that fits.
pub open spec fn number(text: Seq<u8>) -> Option<u64> {
    if text.len() > 0 && (forall|i: int| 0 <= i < text.len() ==> is_digit(#[trigger] text[i]))
        && digits_value(text) <= u64::MAX {
        Some(digits_value(text) as u64)
    } else {
        None
    }
}

/// `bytes` holds the ASCII text `text` at position `at`.
pub open spec fn holds_at(bytes: Seq<u8>, at: int, text: Seq<char>) -> bool {
    &&& at + text.len() <= bytes.len()
    &&& forall|i: int| 0 <= i < text.len() ==> bytes[at + i] == #[trigger] text[i] as u8
}

/// The position of the first `byte` in `bytes`, or their length.
pub open spec fn first_of(bytes: Seq<u8>, byte: u8) -> int
    decreases bytes.len(),
{
    if bytes.len() == 0 || bytes[0] == byte {
        0
    } else {
        1 + first_of(bytes.skip(1), byte)
    }
}

proof fn lemma_first_of(bytes: Seq<u8>, byte: u8, at: int)
    requires
        0 <= at <= bytes.len(),
        forall|i: int| 0 <= i < at ==> #[trigger] bytes[i] != byte,
        at == bytes.len() || bytes[at] == byte,
    ensures
        first_of(bytes, byte) == at,
    decreases bytes.len(),
{
    if at > 0 {
        assert(bytes[0] != byte);
        let rest = bytes.skip(1);
        assert forall|i: int| 0 <= i < at - 1 implies #[trigger] rest[i] != byte by {
            assert(rest[i] == bytes[i + 1]);
        }
        lemma_first_of(rest, byte, at - 1);
    }
}

proof fn lemma_digits_grow(text: Seq<u8>, k: int)
    requires
        forall|i: int| 0 <= i < text.len() ==> is_digit(#[trigger] text[i]),
        0 <= k <= text.len(),
    ensures
        0 <= digits_value(text.take(k)) <= digits_value(text),
    decreases text.len(),
{
    if k == text.len() {
        assert(text.take(k) =~= text);
        if text.len() > 0 {
            lemma_digits_grow(text.drop_last(), k - 1);
        }
    } else {
        assert(text.take(k) =~= text.drop_last().take(k));
        assert(is_digit(text[text.len() - 1]));
        lemma_digits_grow(text.drop_last(), k);
    }
}

fn holds(bytes: &[u8], at: usize, text: &str) -> (r: bool)
    requires
        text.is_ascii(),
    ensures
        r == holds_at(bytes@, at as int, text@),
{
    broadcast use is_ascii_spec_bytes;

    let wanted = text.as_bytes();
    if at > bytes.len() || wanted.len() > bytes.len() - at {
        return false;
    }
    let mut i: usize = 0;
    while i < wanted.len()
        invariant
            i <= wanted.len(),
            wanted@ == Seq::new(text@.len(), |i: int| text@[i] as u8),
            at + wanted.len() <= bytes.len(),
            forall|j: int| 0 <= j < i ==> bytes@[at + j] == #[trigger] text@[j] as u8,
        decreases wanted.len() - i,
    {
        if bytes[at + i] != wanted[i] {
            assert(text@[i as int] as u8 == wanted@[i as int]);
            return false;
        }
        i = i + 1;
    }
    true
}

fn find(bytes: &[u8], byte: u8) -> (r: usize)
    ensures
        r == first_of(bytes@, byte),
        r <= bytes@.len(),
{
    let mut i: usize = 0;
    while i < bytes.len() && bytes[i] != byte
        invariant
            i <= bytes.len(),
            forall|j: int| 0 <= j < i ==> #[trigger] bytes@[j] != byte,
        decreases bytes.len() - i,
    {
        i = i + 1;
    }
    proof {
        lemma_first_of(bytes@, byte, i as int);
    }
    i
}

/// Reads a decimal number.
pub fn parse_number(text: &[u8]) -> (r: Option<u64>)
    ensures
        r == number(text@),
{
    if text.len() == 0 {
        return None;
    }
    let mut i: usize = 0;
    while i < text.len()
        invariant
            i <= text.len(),
            forall|j: int| 0 <= j < i ==> is_digit(#[trigger] text@[j]),
        decreases text.len() - i,
    {
        let byte: u8 = text[i];
        if byte < 48 || byte > 57 {
            assert(!is_digit(text@[i as int]));
            return None;
        }
        i = i + 1;
    }
    let mut value: u64 = 0;
    let mut k: usize = 0;
    while k < text.len()
        invariant
            k <= text.len(),
            forall|j: int| 0 <= j < text@.len() ==> is_digit(#[trigger] text@[j]),
            value == digits_value(text@.take(k as int)),
        decreases text.len() - k,
    {
        let digit: u64 = (text[k] - 48) as u64;
        proof {
            assert(text@.take(k + 1).drop_last() =~= text@.take(k as int));
            assert(text@.take(k + 1).last() == text@[k as int]);
            lemma_digits_grow(text@, k + 1);
        }
        match value.checked_mul(10) {
            Some(tens) => {
                match tens.checked_add(digit) {
                    Some(sum) => {
                        value = sum;
                    },
                    None => {
                        return None;
                    },
                }
            },
            None => {
                return None;
            },
        }
        k = k + 1;
    }
    assert(text@.take(k as int) =~= text@);
    Some(value)
}

/// The range that a `Content-Range` value writes: `bytes first-last/total`,
/// where the total may be `*`. The ends are in order, and inside the total.
pub open spec fn range_of(value: Seq<u8>) -> Option<ContentRange> {
    let body = value.skip(6);
    let dash = first_of(body, 45);
    let rest = body.skip(dash + 1);
    let slash = first_of(rest, 47);
    let tail = rest.skip(slash + 1);
    if !holds_at(value, 0, "bytes "@) || dash >= body.len() || slash >= rest.len() {
        None
    } else {
        match (number(body.take(dash)), number(rest.take(slash))) {
            (Some(start), Some(end)) => {
                if start > end {
                    None
                } else if tail == seq![42u8] {
                    Some(ContentRange { start, end, total: None })
                } else {
                    match number(tail) {
                        Some(total) => if end < total {
                            Some(ContentRange { start, end, total: Some(total) })
                        } else {
                            None
                        },
                        None => None,
                    }
                }
            },
            _ => None,
        }
    }
}

fn parse_range(value: &[u8]) -> (r: Option<ContentRange>)
    ensures
        r == range_of(value@),
{
    proof {
        reveal_strlit("bytes ");
    }
    if !holds(value, 0, "bytes ") {
        return None;
    }
    let body = slice_subrange(value, 6, value.len());
    assert(body@ =~= value@.skip(6));
    let dash: usize = find(body, 45);
    if dash >= body.len() {
        return None;
    }
    let rest = slice_subrange(body, dash + 1, body.len());
    assert(rest@ =~= body@.skip(dash + 1));
    let slash: usize = find(rest, 47);
    if slash >= rest.len() {
        return None;
    }
    let tail = slice_subrange(rest, slash + 1, rest.len());
    assert(tail@ =~= rest@.skip(slash + 1));
    let first = slice_subrange(body, 0, dash);
    assert(first@ =~= body@.take(dash as int));
    let last = slice_subrange(rest, 0, slash);
    assert(last@ =~= rest@.take(slash as int));
    match (parse_number(first), parse_number(last)) {
        (Some(start), Some(end)) => {
            if start > end {
                return None;
            }
            if tail.len() == 1 && tail[0] == 42 {
                assert(tail@ =~= seq![42u8]);
                return Some(ContentRange { start, end, total: None });
            }
            match parse_number(tail) {
                Some(total) => {
                    if end < total {
                        Some(ContentRange { start, end, total: Some(total) })
                    } else {
                        None
                    }
                },
                None => None,
            }
        },
        _ => None,
    }
}

/// Whether a body coded like this is the plain content.
pub open spec fn is_identity(coding: Seq<u8>) -> bool {
    let name = "identity"@;
    &&& coding.len() == name.len()
    &&& forall|i: int|
        0 <= i < name.len() ==> (coding[i] == #[trigger] name[i] as u8 || coding[i] == name[i] as u8
            - 32)
}

fn names_identity(coding: &[u8]) -> (r: bool)
    ensures
        r == is_identity(coding@),
{
    broadcast use is_ascii_spec_bytes;

    let name = "identity";
    proof {
        reveal_strlit("identity");
    }
    assert(is_ascii(name));
    let wanted = name.as_bytes();
    if coding.len() != wanted.len() {
        return false;
    }
    let mut i: usize = 0;
    while i < wanted.len()
        invariant
            i <= wanted.len() == coding.len(),
            name@ == "identity"@,
            wanted@ == Seq::new(name@.len(), |i: int| name@[i] as u8),
            forall|j: int| 0 <= j < name@.len() ==> 32 <= #[trigger] name@[j] as u8,
            forall|j: int|
                0 <= j < i ==> (coding@[j] == #[trigger] name@[j] as u8 || coding@[j]
                    == name@[j] as u8 - 32),
        decreases wanted.len() - i,
    {
        assert(name@[i as int] as u8 == wanted@[i as int]);
        if coding[i] != wanted[i] && coding[i] != wanted[i] - 32 {
            return false;
        }
        i = i + 1;
    }
    true
}

impl ResponseHead {
    /// Whether the body comes as it is, without a coding.
    pub open spec fn plain_body(self) -> bool {
        match self.content_encoding {
            Some(coding) => is_identity(coding@),
            None => true,
        }
    }

    /// What [`content_range`] returns.
    pub open spec fn stated_range(self) -> Result<Option<ContentRange>, ErrorView> {
        match self.content_range {
            None => Ok(None),
            Some(value) => match range_of(value@) {
                Some(range) => Ok(Some(range)),
                None => Err(ErrorView::Protocol("invalid Content-Range"@)),
            },
        }
    }

    /// What [`retry_after`] returns: a number of seconds, or the time left until
    /// a date.
    pub open spec fn stated_pause(self, now: u64) -> Option<Duration> {
        match self.retry_after {
            None => None,
            Some(value) => match number(value@) {
                Some(secs) => Some(Duration::secs(secs)),
                None => match date_of(value@) {
                    Some(date) => Some(
                        Duration::secs(
                            if date > now {
                                (date - now) as u64
                            } else {
                                0
                            },
                        ),
                    ),
                    None => None,
                },
            },
        }
    }

    /// What [`content_length`] returns.
    pub open spec fn stated_length(self) -> Result<Option<u64>, ErrorView> {
        match self.content_length {
            None => Ok(None),
            Some(value) => match number(value@) {
                Some(length) => Ok(Some(length)),
                None => Err(ErrorView::Protocol("invalid Content-Length"@)),
            },
        }
    }
}

/// Rejects a compressed body: its bytes have no place in the file.
pub fn ensure_identity(head: &ResponseHead) -> (r: Result<(), DownloadError>)
    ensures
        outcome_view(r) == (if head.plain_body() {
            Ok(())
        } else {
            Err(ErrorView::Protocol("compressed response body"@))
        }),
{
    match &head.content_encoding {
        Some(coding) => {
            if names_identity(coding.as_slice()) {
                Ok(())
            } else {
                Err(DownloadError::Protocol("compressed response body".to_string()))
            }
        },
        None => Ok(()),
    }
}

/// The range that a response says it carries.
pub fn content_range(head: &ResponseHead) -> (r: Result<Option<ContentRange>, DownloadError>)
    ensures
        outcome_view(r) == head.stated_range(),
{
    match &head.content_range {
        None => Ok(None),
        Some(value) => match parse_range(value.as_slice()) {
            Some(range) => Ok(Some(range)),
            None => Err(DownloadError::Protocol("invalid Content-Range".to_string())),
        },
    }
}

/// The body length that a response states.
pub fn content_length(head: &ResponseHead) -> (r: Result<Option<u64>, DownloadError>)
    ensures
        outcome_view(r) == head.stated_length(),
{
    match &head.content_length {
        None => Ok(None),
        Some(value) => match parse_number(value.as_slice()) {
            Some(length) => Ok(Some(length)),
            None => Err(DownloadError::Protocol("invalid Content-Length".to_string())),
        },
    }
}

/// A value made of visible ASCII characters, blanks and tabs.
pub open spec fn is_visible(value: Seq<u8>) -> bool {
    forall|i: int|
        0 <= i < value.len() ==> (32 <= #[trigger] value[i] < 127 || value[i] == 9)
}

/// Whether a header value can be read as text.
pub fn visible(value: &[u8]) -> (r: bool)
    ensures
        r == is_visible(value@),
{
    let mut i: usize = 0;
    while i < value.len()
        invariant
            i <= value.len(),
            forall|j: int| 0 <= j < i ==> (32 <= #[trigger] value@[j] < 127 || value@[j] == 9),
        decreases value.len() - i,
    {
        if (value[i] < 32 || value[i] >= 127) && value[i] != 9 {
            return false;
        }
        i = i + 1;
    }
    true
}

/// The size that a `Content-Range` value of an unsatisfied range writes:
/// `bytes */total`.
pub open spec fn unsatisfied_total(value: Seq<u8>) -> Option<u64> {
    if holds_at(value, 0, "bytes */"@) {
        number(value.skip(8))
    } else {
        None
    }
}

/// Reads the size out of the answer to a range that could not be satisfied.
pub fn parse_unsatisfied_total(value: &[u8]) -> (r: Result<u64, DownloadError>)
    ensures
        outcome_view(r) == (match unsatisfied_total(value@) {
            Some(total) => Ok(total),
            None => Err(ErrorView::Protocol("invalid Content-Range"@)),
        }),
{
    proof {
        reveal_strlit("bytes */");
    }
    if holds(value, 0, "bytes */") {
        let tail = slice_subrange(value, 8, value.len());
        assert(tail@ =~= value@.skip(8));
        if let Some(total) = parse_number(tail) {
            return Ok(total);
        }
    }
    Err(DownloadError::Protocol("invalid Content-Range".to_string()))
}

/// A status that may go away: rate limiting, and the server's own failures.
pub open spec fn is_transient(status: u16) -> bool {
    status == TOO_MANY_REQUESTS || 500 <= status < 600
}

/// The error for a response whose status is of no use.
pub fn status_error(status: u16) -> (r: DownloadError)
    ensures
        r@ == (ErrorView::Http { status, retryable: is_transient(status) }),
{
    DownloadError::Http {
        status,
        retryable: status == TOO_MANY_REQUESTS || (500 <= status && status < 600),
    }
}

/// The number that `value` writes between two positions, where it is one.
pub open spec fn field(value: Seq<u8>, from: int, to: int) -> Option<u64> {
    number(value.subrange(from, to))
}

/// The month whose name stands at position 8 of a date.
pub open spec fn month_at(value: Seq<u8>) -> Option<u64> {
    if holds_at(value, 8, "Jan"@) {
        Some(1)
    } else if holds_at(value, 8, "Feb"@) {
        Some(2)
    } else if holds_at(value, 8, "Mar"@) {
        Some(3)
    } else if holds_at(value, 8, "Apr"@) {
        Some(4)
    } else if holds_at(value, 8, "May"@) {
        Some(5)
    } else if holds_at(value, 8, "Jun"@) {
        Some(6)
    } else if holds_at(value, 8, "Jul"@) {
        Some(7)
    } else if holds_at(value, 8, "Aug"@) {
        Some(8)
    } else if holds_at(value, 8, "Sep"@) {
        Some(9)
    } else if holds_at(value, 8, "Oct"@) {
        Some(10)
    } else if holds_at(value, 8, "Nov"@) {
        Some(11)
    } else if holds_at(value, 8, "Dec"@) {
        Some(12)
    } else {
        None
    }
}

/// The leap days up to the end of `year`.
pub open spec fn leap_days(year: int) -> int {
    year / 4 - year / 100 + year / 400
}

pub open spec fn is_leap(year: int) -> bool {
    year % 4 == 0 && (year % 100 != 0 || year % 400 == 0)
}

/// The days of a common year before `month`.
pub open spec fn days_before(month: int) -> int {
    if month == 1 {
        0
    } else if month == 2 {
        31
    } else if month == 3 {
        59
    } else if month == 4 {
        90
    } else if month == 5 {
        120
    } else if month == 6 {
        151
    } else if month == 7 {
        181
    } else if month == 8 {
        212
    } else if month == 9 {
        243
    } else if month == 10 {
        273
    } else if month == 11 {
        304
    } else {
        334
    }
}

/// The seconds from the start of 1970 to a date of the Gregorian calendar.
pub open spec fn epoch_secs(year: int, month: int, day: int, secs: int) -> int {
    (365 * (year - 1970) + leap_days(year - 1) - leap_days(1969) + days_before(month) + (if month
        > 2 && is_leap(year) {
        1int
    } else {
        0
    }) + day - 1) * 86_400 + secs
}

/// The punctuation of a date such as `Sun, 06 Nov 1994 08:49:37 GMT`.
pub open spec fn has_date_shape(value: Seq<u8>) -> bool {
    &&& value.len() == 29
    &&& value[3] == 44 && value[4] == 32
    &&& value[7] == 32 && value[11] == 32 && value[16] == 32
    &&& value[19] == 58 && value[22] == 58
    &&& holds_at(value, 25, " GMT"@)
}

/// The seconds since the Unix epoch of an HTTP date. A date before the epoch
/// counts as the epoch; the name of the weekday is not looked at.
pub open spec fn date_of(value: Seq<u8>) -> Option<int> {
    if !has_date_shape(value) {
        None
    } else {
        match (
            field(value, 5, 7),
            month_at(value),
            field(value, 12, 16),
            field(value, 17, 19),
            field(value, 20, 22),
            field(value, 23, 25),
        ) {
            (Some(day), Some(month), Some(year), Some(hour), Some(minute), Some(second)) => {
                if day < 1 || day > 31 || hour > 23 || minute > 59 || second > 60 {
                    None
                } else if year < 1970 {
                    Some(0)
                } else {
                    Some(
                        epoch_secs(
                            year as int,
                            month as int,
                            day as int,
                            hour * 3600 + minute * 60 + second,
                        ),
                    )
                }
            },
            _ => None,
        }
    }
}

fn parse_field(value: &[u8], from: usize, to: usize) -> (r: Option<u64>)
    requires
        from <= to <= value@.len(),
    ensures
        r == field(value@, from as int, to as int),
{
    parse_number(slice_subrange(value, from, to))
}

fn parse_month(value: &[u8]) -> (r: Option<u64>)
    ensures
        r == month_at(value@),
        r matches Some(month) ==> 1 <= month <= 12,
{
    proof {
        reveal_strlit("Jan");
        reveal_strlit("Feb");
        reveal_strlit("Mar");
        reveal_strlit("Apr");
        reveal_strlit("May");
        reveal_strlit("Jun");
        reveal_strlit("Jul");
        reveal_strlit("Aug");
        reveal_strlit("Sep");
        reveal_strlit("Oct");
        reveal_strlit("Nov");
        reveal_strlit("Dec");
    }
    if holds(value, 8, "Jan") {
        Some(1)
    } else if holds(value, 8, "Feb") {
        Some(2)
    } else if holds(value, 8, "Mar") {
        Some(3)
    } else if holds(value, 8, "Apr") {
        Some(4)
    } else if holds(value, 8, "May") {
        Some(5)
    } else if holds(value, 8, "Jun") {
        Some(6)
    } else if holds(value, 8, "Jul") {
        Some(7)
    } else if holds(value, 8, "Aug") {
        Some(8)
    } else if holds(value, 8, "Sep") {
        Some(9)
    } else if holds(value, 8, "Oct") {
        Some(10)
    } else if holds(value, 8, "Nov") {
        Some(11)
    } else if holds(value, 8, "Dec") {
        Some(12)
    } else {
        None
    }
}

fn date_shape(value: &[u8]) -> (r: bool)
    ensures
        r == has_date_shape(value@),
{
    proof {
        reveal_strlit(" GMT");
    }
    value.len() == 29 && value[3] == 44 && value[4] == 32 && value[7] == 32 && value[11] == 32
        && value[16] == 32 && value[19] == 58 && value[22] == 58 && holds(value, 25, " GMT")
}

proof fn lemma_four_digits(text: Seq<u8>)
    requires
        text.len() == 4,
        forall|i: int| 0 <= i < text.len() ==> is_digit(#[trigger] text[i]),
    ensures
        0 <= digits_value(text) <= 9999,
{
    reveal_with_fuel(digits_value, 5);
    assert(is_digit(text[0]) && is_digit(text[1]) && is_digit(text[2]) && is_digit(text[3]));
}

fn parse_date(value: &[u8]) -> (r: Option<u64>)
    ensures
        match r {
            Some(date) => date_of(value@) == Some(date as int),
            None => date_of(value@) is None,
        },
{
    if !date_shape(value) {
        return None;
    }
    match (
        parse_field(value, 5, 7),
        parse_month(value),
        parse_field(value, 12, 16),
        parse_field(value, 17, 19),
        parse_field(value, 20, 22),
        parse_field(value, 23, 25),
    ) {
        (Some(day), Some(month), Some(year), Some(hour), Some(minute), Some(second)) => {
            if day < 1 || day > 31 || hour > 23 || minute > 59 || second > 60 {
                return None;
            }
            if year < 1970 {
                return Some(0);
            }
            proof {
                lemma_four_digits(value@.subrange(12, 16));
            }
            let last: u64 = year - 1;
            let leaps: u64 = last / 4 - last / 100 + last / 400 - 477;
            let leap: bool = year % 4 == 0 && (year % 100 != 0 || year % 400 == 0);
            let months: u64 = match month {
                1 => 0,
                2 => 31,
                3 => 59,
                4 => 90,
                5 => 120,
                6 => 151,
                7 => 181,
                8 => 212,
                9 => 243,
                10 => 273,
                11 => 304,
                _ => 334,
            };
            let extra: u64 = if month > 2 && leap {
                1
            } else {
                0
            };
            let days: u64 = 365 * (year - 1970) + leaps + months + extra + (day - 1);
            Some(days * 86_400 + (hour * 3600 + minute * 60 + second))
        },
        _ => None,
    }
}

/// The pause that a response asks for, `now` being the seconds since the Unix
/// epoch.
pub fn retry_after(head: &ResponseHead, now: u64) -> (r: Option<Duration>)
    ensures
        r == head.stated_pause(now),
{
    match &head.retry_after {
        None => None,
        Some(value) => match parse_number(value.as_slice()) {
            Some(secs) => Some(Duration::from_secs(secs)),
            None => match parse_date(value.as_slice()) {
                Some(date) => Some(Duration::from_secs(date.saturating_sub(now))),
                None => None,
            },
        },
    }
}

/// The bytes of an ASCII text.
pub open spec fn ascii(text: Seq<char>) -> Seq<u8> {
    Seq::new(text.len(), |i: int| text[i] as u8)
}

proof fn lemma_decimal_digits(n: nat)
    ensures
        dec(n).len() > 0,
        forall|i: int| 0 <= i < dec(n).len() ==> is_digit(#[trigger] ascii(dec(n))[i]),
        digits_value(ascii(dec(n))) == n,
    decreases n,
{
    let text = ascii(dec(n));
    let last = digit_char((n % 10) as nat);
    assert(last as u8 == 48 + n % 10);
    if n < 10 {
        assert(text.drop_last() =~= Seq::<u8>::empty());
        assert(digits_value(text.drop_last()) == 0);
    } else {
        lemma_decimal_digits(n / 10);
        assert(text.drop_last() =~= ascii(dec(n / 10)));
        assert forall|i: int| 0 <= i < dec(n).len() implies is_digit(#[trigger] text[i]) by {
            if i < dec(n / 10).len() {
                assert(text[i] == ascii(dec(n / 10))[i]);
            }
        }
    }
}

/// A number reads back as what was written.
pub proof fn law_numbers_read_back(n: u64)
    ensures
        number(ascii(dec(n as nat))) == Some(n),
{
    lemma_decimal_digits(n as nat);
}

/// Nothing but digits is a number, and each digit counts for ten of the next.
pub proof fn law_numbers_are_digits(text: Seq<u8>, digit: u8)
    ensures
        number(Seq::<u8>::empty()) is None,
        number(text) is Some ==> forall|i: int| 0 <= i < text.len() ==> 48 <= #[trigger] text[i] <= 57,
        !(48 <= digit <= 57) ==> number(text.push(digit)) is None,
        48 <= digit <= 57 && text.len() == 0 ==> number(text.push(digit)) == Some(
            (digit - 48) as u64,
        ),
        48 <= digit <= 57 ==> (number(text) matches Some(n) ==> number(text.push(digit)) == (if n
            * 10 + (digit - 48) <= u64::MAX {
            Some((n * 10 + (digit - 48)) as u64)
        } else {
            None
        })),
{
    let longer = text.push(digit);
    assert(longer.drop_last() =~= text);
    assert(longer[text.len() as int] == digit);
    if text.len() == 0 {
        assert(digits_value(text) == 0);
    }
    if is_digit(digit) && number(text) is Some {
        assert forall|i: int| 0 <= i < longer.len() implies is_digit(#[trigger] longer[i]) by {
            if i < text.len() {
                assert(longer[i] == text[i]);
            }
        }
        lemma_digits_grow(text, text.len() as int);
    }
}

proof fn lemma_no_separator(n: nat, byte: u8)
    requires
        byte < 48,
    ensures
        forall|i: int| 0 <= i < dec(n).len() ==> #[trigger] ascii(dec(n))[i] != byte,
{
    lemma_decimal_digits(n);
}

/// The value of a `Content-Range` header, with what stands behind the slash.
pub open spec fn range_value(start: u64, end: u64, tail: Seq<char>) -> Seq<u8> {
    ascii("bytes "@ + dec(start as nat) + "-"@ + dec(end as nat) + "/"@ + tail)
}

proof fn lemma_range_parts(start: u64, end: u64, tail: Seq<char>)
    ensures
        ({
            let value = range_value(start, end, tail);
            let body = value.skip(6);
            let dash = first_of(body, 45);
            let rest = body.skip(dash + 1);
            let slash = first_of(rest, 47);
            &&& holds_at(value, 0, "bytes "@)
            &&& dash < body.len()
            &&& slash < rest.len()
            &&& number(body.take(dash)) == Some(start)
            &&& number(rest.take(slash)) == Some(end)
            &&& rest.skip(slash + 1) == ascii(tail)
        }),
{
    reveal_strlit("bytes ");
    reveal_strlit("-");
    reveal_strlit("/");
    let value = range_value(start, end, tail);
    let first = dec(start as nat);
    let last = dec(end as nat);
    let body = value.skip(6);
    assert(body =~= ascii(first) + ascii("-"@) + ascii(last) + ascii("/"@) + ascii(tail));
    lemma_decimal_digits(start as nat);
    lemma_decimal_digits(end as nat);
    lemma_no_separator(start as nat, 45);
    lemma_no_separator(end as nat, 47);
    assert forall|i: int| 0 <= i < first.len() implies #[trigger] body[i] != 45 by {
        assert(body[i] == ascii(first)[i]);
    }
    assert(body[first.len() as int] == 45);
    lemma_first_of(body, 45, first.len() as int);
    let rest = body.skip(first.len() as int + 1);
    assert(rest =~= ascii(last) + ascii("/"@) + ascii(tail));
    assert forall|i: int| 0 <= i < last.len() implies #[trigger] rest[i] != 47 by {
        assert(rest[i] == ascii(last)[i]);
    }
    assert(rest[last.len() as int] == 47);
    lemma_first_of(rest, 47, last.len() as int);
    assert(body.take(first.len() as int) =~= ascii(first));
    assert(rest.take(last.len() as int) =~= ascii(last));
    assert(rest.skip(last.len() as int + 1) =~= ascii(tail));
    law_numbers_read_back(start);
    law_numbers_read_back(end);
}

/// A range reads back as what was written, if its ends are in order and inside
/// the file; if not, it is none.
pub proof fn law_ranges_read_back(start: u64, end: u64, total: u64)
    ensures
        range_of(range_value(start, end, dec(total as nat))) == (if start <= end < total {
            Some(ContentRange { start, end, total: Some(total) })
        } else {
            None
        }),
        range_of(range_value(start, end, "*"@)) == (if start <= end {
            Some(ContentRange { start, end, total: None })
        } else {
            None
        }),
{
    reveal_strlit("*");
    lemma_range_parts(start, end, dec(total as nat));
    lemma_range_parts(start, end, "*"@);
    law_numbers_read_back(total);
    lemma_decimal_digits(total as nat);
    assert(ascii("*"@) =~= seq![42u8]);
    let digits = ascii(dec(total as nat));
    assert(is_digit(digits[0]));
    assert(digits != seq![42u8]);
}

/// A range that was read makes sense: its ends are in order and inside the
/// total.
pub proof fn law_ranges_make_sense(value: Seq<u8>)
    ensures
        range_of(value) matches Some(range) ==> range.start <= range.end && (range.total matches Some(
            total,
        ) ==> range.end < total),
{
}

/// The size in an answer to an unsatisfied range reads back as what was
/// written, and anything else is none.
pub proof fn law_unsatisfied_totals_read_back(total: u64, value: Seq<u8>)
    ensures
        unsatisfied_total(ascii("bytes */"@ + dec(total as nat))) == Some(total),
        !ascii("bytes */"@).is_prefix_of(value) ==> unsatisfied_total(value) is None,
{
    reveal_strlit("bytes */");
    law_numbers_read_back(total);
    let written = ascii("bytes */"@ + dec(total as nat));
    assert(written.skip(8) =~= ascii(dec(total as nat)));
    if holds_at(value, 0, "bytes */"@) {
        assert forall|i: int| 0 <= i < 8 implies ascii("bytes */"@)[i] == value[i] by {
            assert(value[0 + i] == "bytes */"@[i] as u8);
        }
        assert(ascii("bytes */"@).is_prefix_of(value));
    }
}

/// What a response says of its body. Without a header it says nothing; a range
/// or a length is the one that the header writes, and a header that writes none
/// breaks the protocol.
pub proof fn law_headers_are_read_as_written(head: ResponseHead)
    ensures
        head.content_range is None ==> head.stated_range() == Ok::<
            Option<ContentRange>,
            ErrorView,
        >(None),
        head.content_range matches Some(value) ==> match range_of(value@) {
            Some(range) => head.stated_range() == Ok::<Option<ContentRange>, ErrorView>(
                Some(range),
            ),
            None => head.stated_range() matches Err(error) && error is Protocol,
        },
        head.content_length is None ==> head.stated_length() == Ok::<Option<u64>, ErrorView>(None),
        head.content_length matches Some(value) ==> match number(value@) {
            Some(length) => head.stated_length() == Ok::<Option<u64>, ErrorView>(Some(length)),
            None => head.stated_length() matches Err(error) && error is Protocol,
        },
{
}

/// A body is plain without a coding, and with the one that is none, in capital
/// letters or small; with no other.
pub proof fn law_only_identity_is_plain(head: ResponseHead)
    ensures
        head.content_encoding is None ==> head.plain_body(),
        head.content_encoding matches Some(coding) ==> (head.plain_body() <==> {
            &&& coding@.len() == 8
            &&& forall|i: int|
                0 <= i < 8 ==> (#[trigger] coding@[i] == "identity"@[i] as u8 || coding@[i] + 32
                    == "identity"@[i] as u8)
        }),
{
    reveal_strlit("identity");
    if let Some(coding) = head.content_encoding {
        let name = "identity"@;
        if head.plain_body() {
            assert forall|i: int| 0 <= i < 8 implies (#[trigger] coding@[i] == name[i] as u8
                || coding@[i] + 32 == name[i] as u8) by {
                assert(coding@[i] == name[i] as u8 || coding@[i] == name[i] as u8 - 32);
            }
        } else if coding@.len() == 8 && forall|i: int|
            0 <= i < 8 ==> (#[trigger] coding@[i] == name[i] as u8 || coding@[i] + 32
                == name[i] as u8) {
            assert forall|i: int| 0 <= i < name.len() implies (coding@[i] == #[trigger] name[i] as u8
                || coding@[i] == name[i] as u8 - 32) by {
                assert(coding@[i] == name[i] as u8 || coding@[i] + 32 == name[i] as u8);
            }
        }
    }
}

/// Which statuses may go away: too many requests, and the failures of the
/// server.
pub proof fn law_overload_and_server_errors_pass(status: u16)
    ensures
        is_transient(status) <==> status == 429 || 500 <= status <= 599,
{
}

/// The pause that a response asks for: the seconds that it writes, or the time
/// until the date that it writes, which is none once the date has come.
pub proof fn law_pause_is_what_the_server_wrote(head: ResponseHead, now: u64, secs: u64)
    requires
        head.retry_after is Some,
    ensures
        ({
            let value = (head.retry_after->0)@;
            let pause = head.stated_pause(now);
            &&& value == ascii(dec(secs as nat)) ==> pause is Some && pause->0.nanos == secs
                * 1_000_000_000
            &&& number(value) is None && date_of(value) is None ==> pause is None
            &&& number(value) is None ==> (date_of(value) matches Some(date) ==> pause is Some && (
            date <= now ==> pause->0.nanos == 0) && (now < date <= now + u64::MAX
                ==> pause->0.nanos == (date - now) * 1_000_000_000))
        }),
{
    law_numbers_read_back(secs);
}

/// Without the header no pause is asked for.
pub proof fn law_no_header_no_pause(head: ResponseHead, now: u64)
    requires
        head.retry_after is None,
    ensures
        head.stated_pause(now) is None,
{
}

/// The calendar: a day is 86,400 seconds, the days of a month follow each
/// other, and each month follows the one before it, which has its own length.
/// The count starts with 1970.
pub proof fn law_days_follow_each_other(year: int, month: int, day: int, secs: int)
    requires
        year >= 1970,
        1 <= month <= 12,
    ensures
        epoch_secs(1970, 1, 1, secs) == secs,
        epoch_secs(year, month, day + 1, secs) == epoch_secs(year, month, day, secs) + 86_400,
        epoch_secs(year, month, day, secs + 1) == epoch_secs(year, month, day, secs) + 1,
        ({
            let leap = year % 4 == 0 && (year % 100 != 0 || year % 400 == 0);
            let length = if month == 2 {
                if leap {
                    29int
                } else {
                    28
                }
            } else if month == 4 || month == 6 || month == 9 || month == 11 {
                30
            } else {
                31
            };
            let next = if month < 12 {
                epoch_secs(year, month + 1, 1, secs)
            } else {
                epoch_secs(year + 1, 1, 1, secs)
            };
            next == epoch_secs(year, month, length, secs) + 86_400
        }),
{
}

/// A date is read from its fields: the day, the name of the month, the year,
/// and the time of the day. A day or a time that no calendar has is no date.
pub proof fn law_dates_are_read_from_their_fields(
    value: Seq<u8>,
    day: u64,
    month: u64,
    year: u64,
    hour: u64,
    minute: u64,
    second: u64,
)
    requires
        has_date_shape(value),
        number(value.subrange(5, 7)) == Some(day),
        month_at(value) == Some(month),
        number(value.subrange(12, 16)) == Some(year),
        number(value.subrange(17, 19)) == Some(hour),
        number(value.subrange(20, 22)) == Some(minute),
        number(value.subrange(23, 25)) == Some(second),
    ensures
        ({
            let on_calendar = 1 <= day <= 31 && hour < 24 && minute < 60 && second <= 60;
            &&& !on_calendar ==> date_of(value) is None
            &&& on_calendar && year >= 1970 ==> date_of(value) == Some(
                epoch_secs(
                    year as int,
                    month as int,
                    day as int,
                    (hour * 60 + minute) * 60 + second,
                ),
            )
            &&& on_calendar && year < 1970 ==> date_of(value) == Some(0int)
        }),
{
}

/// The names of the months in their order.
pub proof fn law_months_by_their_names(value: Seq<u8>)
    ensures
        month_at(value) == Some(1u64) <==> holds_at(value, 8, "Jan"@),
        month_at(value) == Some(2u64) <==> holds_at(value, 8, "Feb"@),
        month_at(value) == Some(3u64) <==> holds_at(value, 8, "Mar"@),
        month_at(value) == Some(4u64) <==> holds_at(value, 8, "Apr"@),
        month_at(value) == Some(5u64) <==> holds_at(value, 8, "May"@),
        month_at(value) == Some(6u64) <==> holds_at(value, 8, "Jun"@),
        month_at(value) == Some(7u64) <==> holds_at(value, 8, "Jul"@),
        month_at(value) == Some(8u64) <==> holds_at(value, 8, "Aug"@),
        month_at(value) == Some(9u64) <==> holds_at(value, 8, "Sep"@),
        month_at(value) == Some(10u64) <==> holds_at(value, 8, "Oct"@),
        month_at(value) == Some(11u64) <==> holds_at(value, 8, "Nov"@),
        month_at(value) == Some(12u64) <==> holds_at(value, 8, "Dec"@),
{
    reveal_strlit("Jan");
    reveal_strlit("Feb");
    reveal_strlit("Mar");
    reveal_strlit("Apr");
    reveal_strlit("May");
    reveal_strlit("Jun");
    reveal_strlit("Jul");
    reveal_strlit("Aug");
    reveal_strlit("Sep");
    reveal_strlit("Oct");
    reveal_strlit("Nov");
    reveal_strlit("Dec");
    assert forall|name: Seq<char>| name.len() == 3 && #[trigger] holds_at(value, 8, name) implies
        value[8] == name[0] as u8 && value[9] == name[1] as u8 && value[10] == name[2] as u8 by {
        assert(value[8int + 0] == name[0] as u8);
        assert(value[8int + 1] == name[1] as u8);
        assert(value[8int + 2] == name[2] as u8);
    }
}

/// A text that can be read holds no control characters and nothing beyond
/// ASCII.
pub proof fn law_visible_values_are_text(value: Seq<u8>)
    ensures
        is_visible(value) <==> forall|i: int|
            0 <= i < value.len() ==> #[trigger] value[i] == 9 || 32 <= value[i] <= 126,
{
}

} // verus!
