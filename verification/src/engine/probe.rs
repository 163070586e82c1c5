//! The range probe: one byte is asked for, and the answer shows what the
//! server can do.

use vstd::prelude::*;
use vstd::string::*;

use crate::error::{DownloadError, ErrorView};
use crate::http;
use crate::http::{
    ascii, content_length, content_range, ensure_identity, is_visible, law_ranges_read_back,
    law_unsatisfied_totals_read_back, parse_unsatisfied_total, range_value, status_error,
    unsatisfied_total, visible, ResponseHead,
};
use crate::progress::Shared;
use crate::text::{copy_text, dec, text_view};

verus! {

/// A probe is sent at most this often.
pub const PROBE_ATTEMPTS: u32 = 5;

/// What a server says about a resource.
#[derive(Debug)]
pub struct ProbeResult {
    pub total: Option<u64>,
    pub range_supported: bool,
    pub etag: Option<String>,
    pub last_modified: Option<String>,
}

/// What a [`ProbeResult`] says.
pub struct ProbeView {
    pub total: Option<u64>,
    pub range_supported: bool,
    pub etag: Option<Seq<char>>,
    pub last_modified: Option<Seq<char>>,
}

impl View for ProbeResult {
    type V = ProbeView;

    open spec fn view(&self) -> ProbeView {
        ProbeView {
            total: self.total,
            range_supported: self.range_supported,
            etag: text_view(self.etag),
            last_modified: text_view(self.last_modified),
        }
    }
}

/// The `Range` value of a probe.
#[must_use]
pub fn probe_range() -> (r: &'static str)
    ensures
        r@ == "bytes=0-0"@,
{
    "bytes=0-0"
}

/// What the answer to a probe shows.
pub open spec fn probed(head: ResponseHead) -> Result<ProbeView, ErrorView> {
    let found = |total: Option<u64>, range_supported: bool|
        ProbeView {
            total,
            range_supported,
            etag: text_view(head.etag),
            last_modified: text_view(head.last_modified),
        };
    if head.status == http::PARTIAL_CONTENT {
        if !head.plain_body() {
            Err(ErrorView::Protocol("compressed response body"@))
        } else {
            match head.stated_range() {
                Err(error) => Err(error),
                Ok(None) => Err(ErrorView::Protocol("206 without Content-Range"@)),
                Ok(Some(range)) => Ok(found(range.total, true)),
            }
        }
    } else if head.status == http::OK {
        if !head.plain_body() {
            Err(ErrorView::Protocol("compressed response body"@))
        } else {
            match head.stated_length() {
                Err(error) => Err(error),
                Ok(total) => Ok(found(total, false)),
            }
        }
    } else if head.status == http::RANGE_NOT_SATISFIABLE {
        match head.content_range {
            Some(value) => if !is_visible(value@) {
                Err(ErrorView::Protocol("416 without Content-Range"@))
            } else {
                match unsatisfied_total(value@) {
                    Some(total) => Ok(found(Some(total), true)),
                    None => Err(ErrorView::Protocol("invalid Content-Range"@)),
                }
            },
            None => Err(ErrorView::Protocol("416 without Content-Range"@)),
        }
    } else {
        Err(ErrorView::Http { status: head.status, retryable: http::is_transient(head.status) })
    }
}

/// The outcome of a probe, with the result and the error taken by their views.
pub open spec fn probe_outcome(r: Result<ProbeResult, DownloadError>) -> Result<
    ProbeView,
    ErrorView,
> {
    match r {
        Ok(result) => Ok(result@),
        Err(error) => Err(error@),
    }
}

/// Reads the answer to a probe.
pub fn read_probe(head: &ResponseHead) -> (r: Result<ProbeResult, DownloadError>)
    ensures
        probe_outcome(r) == probed(*head),
{
    let etag = copy_text(&head.etag);
    let last_modified = copy_text(&head.last_modified);

    if head.status == http::PARTIAL_CONTENT {
        if let Err(error) = ensure_identity(head) {
            return Err(error);
        }
        return match content_range(head) {
            Err(error) => Err(error),
            Ok(None) => Err(DownloadError::Protocol("206 without Content-Range".to_string())),
            Ok(Some(range)) => Ok(
                ProbeResult { total: range.total, range_supported: true, etag, last_modified },
            ),
        };
    }
    if head.status == http::OK {
        // Server ignored the range: fall back to a single stream.
        if let Err(error) = ensure_identity(head) {
            return Err(error);
        }
        return match content_length(head) {
            Err(error) => Err(error),
            Ok(total) => Ok(ProbeResult { total, range_supported: false, etag, last_modified }),
        };
    }
    if head.status == http::RANGE_NOT_SATISFIABLE {
        if let Some(value) = &head.content_range {
            if visible(value.as_slice()) {
                return match parse_unsatisfied_total(value.as_slice()) {
                    Err(error) => Err(error),
                    Ok(total) => Ok(
                        ProbeResult {
                            total: Some(total),
                            range_supported: true,
                            etag,
                            last_modified,
                        },
                    ),
                };
            }
        }
        return Err(DownloadError::Protocol("416 without Content-Range".to_string()));
    }
    Err(status_error(head.status))
}

/// Retries the probe on retryable failures (429, 5xx, transport errors) with
/// the same backoff policy as piece requests.
#[derive(Debug)]
pub struct ProbeRetry {
    /// The failures so far, all of them retryable.
    pub attempt: u32,
}

impl ProbeRetry {
    pub open spec fn wf(self) -> bool {
        self.attempt < PROBE_ATTEMPTS
    }

    /// Whether a probe that failed like this is sent again.
    pub open spec fn again(self, error: ErrorView) -> bool {
        error.is_retryable() && self.attempt + 1 < PROBE_ATTEMPTS
    }

    #[must_use]
    pub fn new() -> (r: Self)
        ensures
            r.wf(),
            r.attempt == 0,
    {
        Self { attempt: 0 }
    }

    /// Decides on a failed probe: `Ok` asks for another one after the pause
    /// that belongs to [`Self::attempt`], `Err` ends the download.
    pub fn on_failure(&mut self, error: DownloadError, shared: &mut Shared) -> (r: Result<
        (),
        DownloadError,
    >)
        requires
            old(self).wf(),
        ensures
            final(self).wf(),
            r is Ok <==> error@.is_retryable() && old(self).attempt + 1 < PROBE_ATTEMPTS,
            r is Ok <==> old(self).again(error@),
            r is Ok ==> final(self).attempt == old(self).attempt + 1 && *final(shared) == old(
                shared,
            ).after_retry(),
            r is Err ==> *final(self) == *old(self) && *final(shared) == *old(shared),
            r matches Err(last) ==> last == error,
    {
        if error.is_retryable() && self.attempt + 1 < PROBE_ATTEMPTS {
            self.attempt = self.attempt + 1;
            shared.count_retry();
            Ok(())
        } else {
            Err(error)
        }
    }
}

/// What each answer shows. A partial one shows that the server takes ranges,
/// and the total that its range names; a full one that it does not, and the
/// length that it states; an unsatisfied one the total alone. The validators
/// come along as they are. No other answer shows anything.
pub proof fn law_answers_show_what_the_server_can(head: ResponseHead)
    ensures
        probed(head) matches Ok(found) ==> {
            &&& head.status == 206 || head.status == 200 || head.status == 416
            &&& found.range_supported <==> head.status != 200
            &&& found.etag == text_view(head.etag)
            &&& found.last_modified == text_view(head.last_modified)
            &&& head.status != 416 ==> head.plain_body()
            &&& head.status == 206 ==> (head.stated_range() matches Ok(Some(range)) && found.total
                == range.total)
            &&& head.status == 200 ==> head.stated_length() == Ok::<Option<u64>, ErrorView>(
                found.total,
            )
            &&& head.status == 416 ==> {
                &&& head.content_range is Some
                &&& is_visible((head.content_range->0)@)
                &&& found.total is Some
                &&& found.total == unsatisfied_total((head.content_range->0)@)
            }
        },
{
}

/// When an answer shows something: one of the three that say what they should.
/// Any other status is told as it is, and what is wrong with an answer of the
/// right status breaks the protocol.
pub proof fn law_answers_that_say_enough_are_taken(head: ResponseHead)
    ensures
        head.status == 206 ==> (probed(head) is Ok <==> head.plain_body()
            && head.stated_range() matches Ok(Some(_))),
        head.status == 200 ==> (probed(head) is Ok <==> head.plain_body() && head.stated_length()
            is Ok),
        head.status == 416 ==> (probed(head) is Ok <==> head.content_range is Some && is_visible(
            (head.content_range->0)@,
        ) && unsatisfied_total((head.content_range->0)@) is Some),
        head.status == 206 || head.status == 200 || head.status == 416 ==> (probed(head) matches Err(
            error,
        ) ==> error is Protocol),
        head.status != 206 && head.status != 200 && head.status != 416 ==> probed(head) == Err::<
            ProbeView,
            ErrorView,
        >(
            ErrorView::Http {
                status: head.status,
                retryable: head.status == 429 || 500 <= head.status <= 599,
            },
        ),
{
}

/// The total that a server names is found: in the range of a partial answer and
/// in that of an unsatisfied one.
pub proof fn law_named_totals_are_found(head: ResponseHead, total: u64)
    requires
        head.content_range is Some,
    ensures
        head.status == 206 && head.plain_body() && total > 0 && (head.content_range->0)@
            == range_value(0, 0, dec(total as nat)) ==> (probed(head) matches Ok(found)
            && found.total == Some(total)),
        head.status == 416 && is_visible((head.content_range->0)@) && (head.content_range->0)@
            == ascii("bytes */"@ + dec(total as nat)) ==> (probed(head) matches Ok(found)
            && found.total == Some(total)),
{
    law_ranges_read_back(0, 0, total);
    law_unsatisfied_totals_read_back(total, (head.content_range->0)@);
}

/// A probe is sent again only after a failure that another attempt can mend,
/// and five times at most.
pub proof fn law_probes_are_limited(retry: ProbeRetry, error: ErrorView)
    requires
        retry.wf(),
    ensures
        !error.is_retryable() ==> !retry.again(error),
        error.is_retryable() ==> (retry.again(error) <==> retry.attempt < 4),
{
}

} // verus!
