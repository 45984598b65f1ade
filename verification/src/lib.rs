//! Verified core of a frame-streaming video encoder front end.
//!
//! The library models the pipeline that feeds numbered image files, in
//! strictly ascending frame order, into an external encoder process:
//! building the ordered frame index, the runner state machine that pumps
//! frames and emits lifecycle events, the bounded event mailbox, and the
//! watchdog that persists progress snapshots.  All I/O stays with the
//! caller; the library computes every decision and every byte of output.

pub mod ffmpeg;
pub mod framelist;
pub mod framename;
pub mod json;
pub mod mailbox;
pub mod numerals;
pub mod options;
pub mod quirks;
pub mod runner;
pub mod x264;

pub use options::DebugLevel;
