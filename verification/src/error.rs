//! The errors a download can end with.

use std::path::PathBuf;

use vstd::prelude::*;
use vstd::std_specs::convert::FromSpecImpl;
use vstd::string::*;

use crate::text::{dec, decimal, join};

verus! {

/// `std::io::Error`, carried as it came.
#[verifier::external_type_specification]
#[verifier::external_body]
pub struct ExIoError(std::io::Error);

/// `std::path::PathBuf`, carried as it came.
#[verifier::external_type_specification]
#[verifier::external_body]
pub struct ExPathBuf(std::path::PathBuf);

/// `PathBuf::clone` returns an equal path.
pub assume_specification[ <PathBuf as Clone>::clone ](path: &PathBuf) -> (r: PathBuf)
    ensures
        r == *path,
;

/// `reqwest::Error`, read only through its predicates and its `Display` text.
#[verifier::external_type_specification]
#[verifier::external_body]
pub struct ExReqwestError(reqwest::Error);

/// `tokio::task::JoinError`, read only through its `Display` text.
#[verifier::external_type_specification]
#[verifier::external_body]
pub struct ExJoinError(tokio::task::JoinError);

/// Errors a download returns.
///
/// Cancellation is not an error: a cancelled download ends with
/// [`crate::types::Outcome::Cancelled`] after persisting its state.
#[derive(Debug)]
pub enum DownloadError {
    /// The server answered with a status the downloader cannot recover from,
    /// or a retryable status whose retry budget has been exhausted.
    Http { status: u16, retryable: bool },
    /// The server's reported size does not match the size the caller expects.
    SizeMismatch { expected: u64, actual: u64 },
    /// The remote resource changed identity while downloading and no checksum
    /// was available to justify continuing.
    RemoteChanged(String),
    /// A response violated the HTTP range contract (bad `Content-Range`,
    /// unexpected body length, compressed body, and so on).
    Protocol(String),
    /// Transport failure: connect, TLS, reset, stall.
    Network(String),
    /// Local filesystem failure while writing data or control state.
    Disk(std::io::Error),
    /// The target path already exists, is not a completed download, and there
    /// is no control file describing it.
    TargetConflict(PathBuf),
    /// Consecutive retryable failures exceeded the configured budget.
    RetriesExhausted { attempts: u32, last: Box<DownloadError> },
    /// The caller supplied an invalid request or option.
    InvalidConfig(String),
}

/// What a [`DownloadError`] says, with every text as a sequence of characters.
pub enum ErrorView {
    Http { status: u16, retryable: bool },
    SizeMismatch { expected: u64, actual: u64 },
    RemoteChanged(Seq<char>),
    Protocol(Seq<char>),
    Network(Seq<char>),
    Disk(std::io::Error),
    TargetConflict(PathBuf),
    RetriesExhausted { attempts: u32, last: Box<ErrorView> },
    InvalidConfig(Seq<char>),
}

pub open spec fn error_view(error: DownloadError) -> ErrorView
    decreases error,
{
    match error {
        DownloadError::Http { status, retryable } => ErrorView::Http { status, retryable },
        DownloadError::SizeMismatch { expected, actual } => ErrorView::SizeMismatch {
            expected,
            actual,
        },
        DownloadError::RemoteChanged(detail) => ErrorView::RemoteChanged(detail@),
        DownloadError::Protocol(detail) => ErrorView::Protocol(detail@),
        DownloadError::Network(detail) => ErrorView::Network(detail@),
        DownloadError::Disk(error) => ErrorView::Disk(error),
        DownloadError::TargetConflict(path) => ErrorView::TargetConflict(path),
        DownloadError::RetriesExhausted { attempts, last } => ErrorView::RetriesExhausted {
            attempts,
            last: Box::new(error_view(*last)),
        },
        DownloadError::InvalidConfig(detail) => ErrorView::InvalidConfig(detail@),
    }
}

impl View for DownloadError {
    type V = ErrorView;

    open spec fn view(&self) -> ErrorView {
        error_view(*self)
    }
}

/// What a failing operation returns, with the error taken by its view.
pub open spec fn outcome_view<T>(result: Result<T, DownloadError>) -> Result<T, ErrorView> {
    match result {
        Ok(value) => Ok(value),
        Err(error) => Err(error@),
    }
}

/// Renders `path` for messages: the outcome of `Path::display`.
pub uninterp spec fn path_display(path: PathBuf) -> Seq<char>;

/// Calls `Path::display` and turns the result into a `String`. The claim is
/// only that the text is a function of the path.
#[verifier::external_body]
fn path_text(path: &PathBuf) -> (text: String)
    ensures
        text@ == path_display(*path),
{
    path.display().to_string()
}

/// The I/O error that carries a text of ours: the outcome of
/// `std::io::Error::other`.
pub uninterp spec fn other_io_error(text: Seq<char>) -> std::io::Error;

/// Calls `std::io::Error::other`. The claim is only that the error is a
/// function of the text.
#[verifier::external_body]
fn other_error(text: String) -> (error: std::io::Error)
    ensures
        error == other_io_error(text@),
{
    std::io::Error::other(text)
}

/// `text` is what `Display` writes for `value`.
pub open spec fn displays<T: std::fmt::Display>(value: T, text: Seq<char>) -> bool {
    exists|s: String| #[trigger] to_string_from_display_ensures::<T>(&value, s) && s@ == text
}

impl ErrorView {
    /// Whether another attempt at the same operation could reasonably succeed.
    pub open spec fn is_retryable(self) -> bool {
        match self {
            ErrorView::Http { retryable, .. } => retryable,
            ErrorView::Protocol(_) => true,
            ErrorView::Network(_) => true,
            _ => false,
        }
    }

    /// The HTTP status at the bottom of the chain of exhausted retries.
    pub open spec fn http_status(self) -> Option<u16>
        decreases self,
    {
        match self {
            ErrorView::Http { status, .. } => Some(status),
            ErrorView::RetriesExhausted { last, .. } => last.http_status(),
            _ => None,
        }
    }

    /// The machine-readable name of the variant.
    pub open spec fn kind(self) -> Seq<char> {
        match self {
            ErrorView::Http { .. } => "http"@,
            ErrorView::SizeMismatch { .. } => "size_mismatch"@,
            ErrorView::RemoteChanged(_) => "remote_changed"@,
            ErrorView::Protocol(_) => "protocol"@,
            ErrorView::Network(_) => "network"@,
            ErrorView::Disk(_) => "disk"@,
            ErrorView::TargetConflict(_) => "target_conflict"@,
            ErrorView::RetriesExhausted { .. } => "retries_exhausted"@,
            ErrorView::InvalidConfig(_) => "invalid_config"@,
        }
    }

    /// `text` is the sentence shown for this error.
    pub open spec fn reads(self, text: Seq<char>) -> bool
        decreases self,
    {
        match self {
            ErrorView::Http { status, retryable } => text == (if retryable {
                "retryable HTTP status "@
            } else {
                "HTTP status "@
            }) + dec(status as nat),
            ErrorView::SizeMismatch { expected, actual } => text == "size mismatch: expected "@
                + dec(expected as nat) + " bytes, server reports "@
                + dec(actual as nat),
            ErrorView::RemoteChanged(detail) => text == "remote resource changed: "@ + detail,
            ErrorView::Protocol(detail) => text == "HTTP protocol violation: "@ + detail,
            ErrorView::Network(detail) => text == "network error: "@ + detail,
            ErrorView::Disk(error) => {
                let head = "disk error: "@;
                &&& head.is_prefix_of(text)
                &&& displays(error, text.skip(head.len() as int))
            },
            ErrorView::TargetConflict(path) => text
                == "target already exists without a control file: "@ + path_display(path),
            ErrorView::RetriesExhausted { attempts, last } => {
                let head = "gave up after "@ + dec(attempts as nat)
                    + " consecutive failures; last error: "@;
                &&& head.is_prefix_of(text)
                &&& last.reads(text.skip(head.len() as int))
            },
            ErrorView::InvalidConfig(detail) => text == "invalid configuration: "@ + detail,
        }
    }
}

/// The error behind an error.
#[derive(Debug)]
pub enum ErrorSource<'a> {
    Io(&'a std::io::Error),
    Download(&'a DownloadError),
}

impl DownloadError {
    /// Whether another attempt at the same operation could reasonably succeed.
    #[must_use]
    pub fn is_retryable(&self) -> (r: bool)
        ensures
            r == self@.is_retryable(),
    {
        match self {
            Self::Http { retryable, .. } => *retryable,
            Self::Protocol(_) | Self::Network(_) => true,
            Self::SizeMismatch { .. }
            | Self::RemoteChanged(_)
            | Self::Disk(_)
            | Self::TargetConflict(_)
            | Self::RetriesExhausted { .. }
            | Self::InvalidConfig(_) => false,
        }
    }

    /// The HTTP status associated with this failure, looking through
    /// [`Self::RetriesExhausted`].
    #[must_use]
    pub fn http_status(&self) -> (r: Option<u16>)
        ensures
            r == self@.http_status(),
        decreases self,
    {
        match self {
            Self::Http { status, .. } => Some(*status),
            Self::RetriesExhausted { last, .. } => last.http_status(),
            _ => None,
        }
    }

    /// Stable machine-readable name for logging and UI mapping.
    #[must_use]
    pub fn kind(&self) -> (r: &'static str)
        ensures
            r@ == self@.kind(),
    {
        match self {
            Self::Http { .. } => "http",
            Self::SizeMismatch { .. } => "size_mismatch",
            Self::RemoteChanged(_) => "remote_changed",
            Self::Protocol(_) => "protocol",
            Self::Network(_) => "network",
            Self::Disk(_) => "disk",
            Self::TargetConflict(_) => "target_conflict",
            Self::RetriesExhausted { .. } => "retries_exhausted",
            Self::InvalidConfig(_) => "invalid_config",
        }
    }

    /// The sentence to show for this error.
    #[must_use]
    pub fn message(&self) -> (r: String)
        ensures
            self@.reads(r@),
        decreases self,
    {
        match self {
            Self::Http { status, retryable } => {
                let number = decimal(*status as u128);
                if *retryable {
                    join("retryable HTTP status ", number.as_str())
                } else {
                    join("HTTP status ", number.as_str())
                }
            },
            Self::SizeMismatch { expected, actual } => {
                join("size mismatch: expected ", decimal(*expected as u128).as_str()).concat(
                    " bytes, server reports ",
                ).concat(decimal(*actual as u128).as_str())
            },
            Self::RemoteChanged(detail) => join("remote resource changed: ", detail.as_str()),
            Self::Protocol(detail) => join("HTTP protocol violation: ", detail.as_str()),
            Self::Network(detail) => join("network error: ", detail.as_str()),
            Self::Disk(error) => {
                let detail = error.to_string();
                let text = join("disk error: ", detail.as_str());
                assert(text@.skip("disk error: "@.len() as int) =~= detail@);
                text
            },
            Self::TargetConflict(path) => {
                join("target already exists without a control file: ", path_text(path).as_str())
            },
            Self::RetriesExhausted { attempts, last } => {
                let detail = last.message();
                let head = join("gave up after ", decimal(*attempts as u128).as_str()).concat(
                    " consecutive failures; last error: ",
                );
                let text = join(head.as_str(), detail.as_str());
                assert(text@.skip(head@.len() as int) =~= detail@);
                text
            },
            Self::InvalidConfig(detail) => join("invalid configuration: ", detail.as_str()),
        }
    }

    /// The error this one was caused by.
    #[must_use]
    pub fn source(&self) -> (r: Option<ErrorSource<'_>>)
        ensures
            match *self {
                DownloadError::Disk(error) => r == Some(ErrorSource::Io(&error)),
                DownloadError::RetriesExhausted { last, .. } => r == Some(
                    ErrorSource::Download(&*last),
                ),
                _ => r is None,
            },
    {
        match self {
            Self::Disk(error) => Some(ErrorSource::Io(error)),
            Self::RetriesExhausted { last, .. } => Some(ErrorSource::Download(last)),
            _ => None,
        }
    }
}

impl From<std::io::Error> for DownloadError {
    fn from(error: std::io::Error) -> (r: Self) {
        Self::Disk(error)
    }
}

impl FromSpecImpl<std::io::Error> for DownloadError {
    open spec fn obeys_from_spec() -> bool {
        true
    }

    open spec fn from_spec(error: std::io::Error) -> Self {
        DownloadError::Disk(error)
    }
}

/// What a transport reports about a failed exchange.
#[derive(Debug)]
pub struct TransportFault {
    pub timeout: bool,
    pub connect: bool,
    pub redirect: bool,
    pub body: bool,
    pub decode: bool,
    pub builder: bool,
    pub text: String,
}

impl TransportFault {
    /// The error that stands for this fault. The first of the conditions that
    /// holds decides. Only a request that could not be built is a mistake of
    /// the caller: one that was under way, such as on a connection that was
    /// reset before the answer came, failed in transport.
    pub open spec fn error(self) -> ErrorView {
        if self.timeout {
            ErrorView::Network("request timed out: "@ + self.text@)
        } else if self.connect {
            ErrorView::Network("connection failed: "@ + self.text@)
        } else if self.redirect {
            ErrorView::Protocol("redirect policy violated: "@ + self.text@)
        } else if self.body || self.decode {
            ErrorView::Network("body transfer failed: "@ + self.text@)
        } else if self.builder {
            ErrorView::InvalidConfig(self.text@)
        } else {
            ErrorView::Network(self.text@)
        }
    }
}

/// Turns a transport fault into the error a download reports for it.
pub fn transport_error(fault: TransportFault) -> (r: DownloadError)
    ensures
        r@ == fault.error(),
{
    if fault.timeout {
        return DownloadError::Network(join("request timed out: ", fault.text.as_str()));
    }
    if fault.connect {
        return DownloadError::Network(join("connection failed: ", fault.text.as_str()));
    }
    if fault.redirect {
        return DownloadError::Protocol(join("redirect policy violated: ", fault.text.as_str()));
    }
    if fault.body || fault.decode {
        return DownloadError::Network(join("body transfer failed: ", fault.text.as_str()));
    }
    if fault.builder {
        return DownloadError::InvalidConfig(fault.text);
    }
    DownloadError::Network(fault.text)
}

/// The outcome of `reqwest::Error::is_timeout`.
pub uninterp spec fn reqwest_is_timeout(error: reqwest::Error) -> bool;

/// The outcome of `reqwest::Error::is_connect`.
pub uninterp spec fn reqwest_is_connect(error: reqwest::Error) -> bool;

/// The outcome of `reqwest::Error::is_redirect`.
pub uninterp spec fn reqwest_is_redirect(error: reqwest::Error) -> bool;

/// The outcome of `reqwest::Error::is_body`.
pub uninterp spec fn reqwest_is_body(error: reqwest::Error) -> bool;

/// The outcome of `reqwest::Error::is_decode`.
pub uninterp spec fn reqwest_is_decode(error: reqwest::Error) -> bool;

/// The outcome of `reqwest::Error::is_builder`.
pub uninterp spec fn reqwest_is_builder(error: reqwest::Error) -> bool;

/// `reqwest::Error::is_timeout` looks for a timeout among the causes of the
/// error: its answer is a function of the error.
pub assume_specification[ reqwest::Error::is_timeout ](error: &reqwest::Error) -> (r: bool)
    ensures
        r == reqwest_is_timeout(*error),
;

/// `reqwest::Error::is_connect` looks for a failed connection among the causes
/// of the error: its answer is a function of the error.
pub assume_specification[ reqwest::Error::is_connect ](error: &reqwest::Error) -> (r: bool)
    ensures
        r == reqwest_is_connect(*error),
;

/// `reqwest::Error::is_redirect` tells whether a redirect policy made the
/// error: its answer is a function of the error.
pub assume_specification[ reqwest::Error::is_redirect ](error: &reqwest::Error) -> (r: bool)
    ensures
        r == reqwest_is_redirect(*error),
;

/// `reqwest::Error::is_body` tells whether the error concerns a body: its
/// answer is a function of the error.
pub assume_specification[ reqwest::Error::is_body ](error: &reqwest::Error) -> (r: bool)
    ensures
        r == reqwest_is_body(*error),
;

/// `reqwest::Error::is_decode` tells whether the error concerns the decoding
/// of a body: its answer is a function of the error.
pub assume_specification[ reqwest::Error::is_decode ](error: &reqwest::Error) -> (r: bool)
    ensures
        r == reqwest_is_decode(*error),
;

/// `reqwest::Error::is_builder` tells whether the error comes from building a
/// request: its answer is a function of the error.
pub assume_specification[ reqwest::Error::is_builder ](error: &reqwest::Error) -> (r: bool)
    ensures
        r == reqwest_is_builder(*error),
;

/// `fault` holds what the predicates and the `Display` text of `error` say.
pub open spec fn describes(fault: TransportFault, error: reqwest::Error) -> bool {
    &&& fault.timeout == reqwest_is_timeout(error)
    &&& fault.connect == reqwest_is_connect(error)
    &&& fault.redirect == reqwest_is_redirect(error)
    &&& fault.body == reqwest_is_body(error)
    &&& fault.decode == reqwest_is_decode(error)
    &&& fault.builder == reqwest_is_builder(error)
    &&& displays(error, fault.text@)
}

/// Turns an error of the HTTP client into the error a download reports for it.
pub fn map_reqwest(error: &reqwest::Error) -> (r: DownloadError)
    ensures
        exists|fault: TransportFault| #[trigger] describes(fault, *error) && r@ == fault.error(),
{
    let fault = TransportFault {
        timeout: error.is_timeout(),
        connect: error.is_connect(),
        redirect: error.is_redirect(),
        body: error.is_body(),
        decode: error.is_decode(),
        builder: error.is_builder(),
        text: error.to_string(),
    };
    assert(describes(fault, *error));
    transport_error(fault)
}

/// Reports a blocking task that did not run to its end as a disk failure.
pub fn join_error(error: tokio::task::JoinError) -> (r: DownloadError)
    ensures
        exists|detail: Seq<char>| #[trigger]
            displays(error, detail) && r == DownloadError::Disk(
                other_io_error("worker task failed: "@ + detail),
            ),
{
    let detail = error.to_string();
    assert(displays(error, detail@));
    DownloadError::Disk(other_error(join("worker task failed: ", detail.as_str())))
}

/// A fault that is no mistake of the caller is worth another attempt.
pub proof fn law_transport_faults_are_retryable(fault: TransportFault)
    ensures
        fault.error().is_retryable() || fault.error() is InvalidConfig,
        !fault.builder ==> fault.error().is_retryable(),
{
}

/// The names of two errors agree exactly when the errors are of one variant.
pub proof fn law_kind_names_the_variant(a: ErrorView, b: ErrorView)
    ensures
        a.kind() == b.kind() <==> {
            ||| a is Http && b is Http
            ||| a is SizeMismatch && b is SizeMismatch
            ||| a is RemoteChanged && b is RemoteChanged
            ||| a is Protocol && b is Protocol
            ||| a is Network && b is Network
            ||| a is Disk && b is Disk
            ||| a is TargetConflict && b is TargetConflict
            ||| a is RetriesExhausted && b is RetriesExhausted
            ||| a is InvalidConfig && b is InvalidConfig
        },
{
    reveal_strlit("http");
    reveal_strlit("size_mismatch");
    reveal_strlit("remote_changed");
    reveal_strlit("protocol");
    reveal_strlit("network");
    reveal_strlit("disk");
    reveal_strlit("target_conflict");
    reveal_strlit("retries_exhausted");
    reveal_strlit("invalid_config");
    assert("http"@.len() == 4 && "size_mismatch"@.len() == 13 && "remote_changed"@.len() == 14);
    assert("protocol"@.len() == 8 && "network"@.len() == 7 && "disk"@.len() == 4);
    assert("target_conflict"@.len() == 15 && "retries_exhausted"@.len() == 17);
    assert("invalid_config"@.len() == 14);
    assert("http"@[0] == 'h');
    assert("disk"@[0] == 'd');
    assert("remote_changed"@[0] == 'r');
    assert("invalid_config"@[0] == 'i');
}

/// Giving up wraps the last failure: the wrapper is final, and the status of
/// what it wraps stays readable through any number of wrappers.
pub proof fn law_giving_up_is_final(attempts: u32, last: ErrorView)
    ensures
        !(ErrorView::RetriesExhausted { attempts, last: Box::new(last) }).is_retryable(),
        (ErrorView::RetriesExhausted { attempts, last: Box::new(last) }).http_status()
            == last.http_status(),
{
}

/// Which errors another attempt can mend: a status that says so of itself, a
/// protocol violation and a transport failure, and no others.
pub proof fn law_what_is_worth_a_retry(
    status: u16,
    flag: bool,
    text: Seq<char>,
    expected: u64,
    actual: u64,
    io: std::io::Error,
    path: PathBuf,
)
    ensures
        (ErrorView::Http { status, retryable: flag }).is_retryable() == flag,
        ErrorView::Protocol(text).is_retryable(),
        ErrorView::Network(text).is_retryable(),
        !(ErrorView::SizeMismatch { expected, actual }).is_retryable(),
        !ErrorView::RemoteChanged(text).is_retryable(),
        !ErrorView::Disk(io).is_retryable(),
        !ErrorView::TargetConflict(path).is_retryable(),
        !ErrorView::InvalidConfig(text).is_retryable(),
{
}

/// Only an error of the server has a status of its own.
pub proof fn law_status_is_the_servers(
    status: u16,
    flag: bool,
    text: Seq<char>,
    expected: u64,
    actual: u64,
    io: std::io::Error,
    path: PathBuf,
)
    ensures
        (ErrorView::Http { status, retryable: flag }).http_status() == Some(status),
        ErrorView::Protocol(text).http_status() is None,
        ErrorView::Network(text).http_status() is None,
        (ErrorView::SizeMismatch { expected, actual }).http_status() is None,
        ErrorView::RemoteChanged(text).http_status() is None,
        ErrorView::Disk(io).http_status() is None,
        ErrorView::TargetConflict(path).http_status() is None,
        ErrorView::InvalidConfig(text).http_status() is None,
{
}

/// A fault keeps the words of the transport at the end of its own, and is of
/// the network unless a redirect or the caller is to blame.
pub proof fn law_fault_keeps_its_words(fault: TransportFault)
    ensures
        match fault.error() {
            ErrorView::Network(detail) => {
                &&& fault.text@.is_suffix_of(detail)
                &&& fault.timeout || fault.connect || fault.body || fault.decode || (!fault.redirect
                    && !fault.builder)
            },
            ErrorView::Protocol(detail) => {
                &&& fault.text@.is_suffix_of(detail)
                &&& fault.redirect && !fault.timeout && !fault.connect
            },
            ErrorView::InvalidConfig(detail) => {
                &&& detail == fault.text@
                &&& fault.builder && !fault.timeout && !fault.connect && !fault.redirect
                    && !fault.body && !fault.decode
            },
            _ => false,
        },
{
    let text = fault.text@;
    assert(("request timed out: "@ + text).skip("request timed out: "@.len() as int) =~= text);
    assert(("connection failed: "@ + text).skip("connection failed: "@.len() as int) =~= text);
    assert(("redirect policy violated: "@ + text).skip("redirect policy violated: "@.len() as int)
        =~= text);
    assert(("body transfer failed: "@ + text).skip("body transfer failed: "@.len() as int)
        =~= text);
    assert(text.is_suffix_of("request timed out: "@ + text));
    assert(text.is_suffix_of("connection failed: "@ + text));
    assert(text.is_suffix_of("redirect policy violated: "@ + text));
    assert(text.is_suffix_of("body transfer failed: "@ + text));
    assert(text.is_suffix_of(text));
}

/// A sentence ends with what the error carries: the detail, the number, the
/// path, or the sentence of the last failure.
pub proof fn law_sentence_ends_with_the_detail(error: ErrorView, text: Seq<char>)
    requires
        error.reads(text),
    ensures
        match error {
            ErrorView::Http { status, .. } => dec(status as nat).is_suffix_of(text),
            ErrorView::SizeMismatch { expected, actual } => {
                &&& dec(actual as nat).is_suffix_of(text)
                &&& ("size mismatch: expected "@ + dec(expected as nat) + " bytes"@).is_prefix_of(
                    text,
                )
            },
            ErrorView::RemoteChanged(detail) => detail.is_suffix_of(text),
            ErrorView::Protocol(detail) => detail.is_suffix_of(text),
            ErrorView::Network(detail) => detail.is_suffix_of(text),
            ErrorView::Disk(io) => exists|k: int|
                0 <= k <= text.len() && displays(io, #[trigger] text.skip(k)),
            ErrorView::TargetConflict(path) => path_display(path).is_suffix_of(text),
            ErrorView::RetriesExhausted { attempts, last } => {
                &&& ("gave up after "@ + dec(attempts as nat)).is_prefix_of(text)
                &&& exists|k: int| 0 <= k <= text.len() && last.reads(#[trigger] text.skip(k))
            },
            ErrorView::InvalidConfig(detail) => detail.is_suffix_of(text),
        },
{
    match error {
        ErrorView::SizeMismatch { expected, actual } => {
            reveal_strlit(" bytes");
            reveal_strlit(" bytes, server reports ");
            let head = "size mismatch: expected "@ + dec(expected as nat) + " bytes"@;
            assert(head.is_prefix_of(text));
        },
        ErrorView::Disk(io) => {
            assert(displays(io, text.skip("disk error: "@.len() as int)));
        },
        ErrorView::RetriesExhausted { attempts, last } => {
            let start = "gave up after "@ + dec(attempts as nat);
            let head = start + " consecutive failures; last error: "@;
            assert(last.reads(text.skip(head.len() as int)));
            assert forall|i: int| 0 <= i < start.len() implies start[i] == text[i] by {
                assert(head[i] == start[i]);
            }
            assert(start.is_prefix_of(text));
        },
        _ => {},
    }
}

/// A fault that describes an error of the HTTP client has each condition of
/// that error under its own name, and the client's words.
pub proof fn law_faults_describe_their_error(fault: TransportFault, error: reqwest::Error)
    requires
        describes(fault, error),
    ensures
        fault.timeout == reqwest_is_timeout(error),
        fault.connect == reqwest_is_connect(error),
        fault.redirect == reqwest_is_redirect(error),
        fault.body == reqwest_is_body(error),
        fault.decode == reqwest_is_decode(error),
        fault.builder == reqwest_is_builder(error),
        displays(error, fault.text@),
{
}

} // verus!
