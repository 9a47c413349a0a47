//! The persistent import queue's rules: job statuses and their wire names,
//! the decoding of stored job rows, crash recovery, the retry policy and the
//! concurrency setting.

pub mod config;
pub mod records;
pub mod retry;
pub mod status;
pub mod text;
