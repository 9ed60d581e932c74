//! Capture-to-container pipeline for a block-structured audio recorder.
//!
//! The crate holds the device-independent core of a small audio recorder:
//! the container header layout and its size patch-up, the partition-table
//! reader, the session file namer, the capture loop's warm-up and stop
//! bookkeeping, and the lifecycle state machine that sequences them.

pub mod capture;
pub mod civil;
pub mod container;
pub mod datetime;
pub mod http;
pub mod lifecycle;
pub mod namer;
pub mod partition;
pub mod sd;
pub mod wav;
