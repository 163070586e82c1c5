//! Segmented, resumable HTTP downloads: every decision of one transfer.
//!
//! One run transfers one file. Multi-task queueing, ordering, and the "how many
//! installs at once" policy belong to the caller; a [`SharedBudget`] caps total
//! connections across concurrent runs. The modules decide and do no I/O of
//! their own: whoever drives them performs what a decision asks for and hands
//! back what came of it. When a cancellation is noticed, that no worker is left
//! when a transfer returns, and the smoothed speed are the driver's part.
//!
//! # Contract
//!
//! - The file is split into fixed-size pieces (default 4 MiB). Progress within
//!   each piece is tracked as a contiguous byte count, so an interruption loses
//!   at most the unflushed page cache, not whole pieces.
//! - State lives in a sidecar control file, replaced atomically about every 2
//!   seconds after the data was made durable, and only ever *under*-reporting
//!   what is durable. Target present with no control file means the download is
//!   complete.
//! - Resume identity is `expected_size` plus the caller's `identity` checksum
//!   string. The URL is not part of the identity: a refreshed signed link
//!   resumes where the old one stopped. Without an identity, changed
//!   `ETag`/`Last-Modified` validators discard the partial file.
//! - Cancellation (pause and cancel look the same here) flushes state and ends
//!   with [`Outcome::Cancelled`]; it is never an error. If the state cannot be
//!   flushed, the download ends with that failure instead.
//! - Servers that ignore `Range` get a single-stream fallback that restarts
//!   from zero on interruption.
//!
//! The caller owns final content verification: this crate guarantees byte
//! placement, not content.

pub mod codec;
pub mod control;
pub mod engine;
pub mod error;
pub mod http;
pub mod limiter;
pub mod pieces;
pub mod progress;
pub mod text;
pub mod time;
pub mod types;

pub use error::DownloadError;
pub use progress::{Phase, Progress};
pub use types::{DownloadOptions, DownloadRequest, Outcome, SharedBudget, DEFAULT_PIECE_SIZE};
