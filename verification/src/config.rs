//! The configuration surface the daemon runs under.
//!
//! All of it is supplied and validated externally, before the core runs:
//! argument parsing happens outside the library and hands over either a
//! ready configuration or the usage text to print.

use vstd::prelude::*;

verus! {

/// Everything the daemon needs for one run: where to poll, how often, what
/// to log, which namespace to report under, and how many records the queue
/// may hold between cycles.
#[derive(Debug, PartialEq)]
pub struct Configuration {
    pub base_url: String,
    pub interval: core::time::Duration,
    pub log_level: usize,
    pub namespace: String,
    pub queue_size: usize,
}

/// What an argument list asks for: a normal run under a configuration, or
/// the usage text.
pub enum RunMode {
    Normal(Configuration),
    Help(String),
}

} // verus!
