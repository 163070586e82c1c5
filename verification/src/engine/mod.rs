//! Download orchestration: probe, piece scheduling, committer, finalize.
//!
//! Each module decides; none of them waits, sends, or touches the disk. The
//! caller performs what a decision asks for and hands back what came of it.

pub mod backoff;
pub mod course;
pub mod disk;
pub mod fetch;
pub mod probe;
pub mod resume;
pub mod run;
pub mod segmented;
pub mod stream;
pub mod worker;
