//! Collector pager
//!
//! The pager tick asks the collector for drained pages and forwards each
//! to the alert sink as a stream event whose text carries the token the
//! sink's paging integration triggers on. Timers and the HTTP delivery
//! live in the embedding binary; the cadence and the event text are fixed
//! here.

use crate::config;
use crate::error::Error;
use vstd::prelude::*;

verus! {

/// Default interval between pager ticks, in milliseconds.
pub const DEFAULT_PAGER_INTERVAL_MS: u64 = 1000;

/// The collector's pager: collects pageable events and forwards them.
#[derive(Debug)]
pub struct Pager {
    /// Interval at which to poll, in milliseconds
    pub poll_interval: u64,
}

impl Pager {
    /// Initialize the pager from the config.
    pub fn new(config: &config::collector::Config) -> (r: Result<Pager, Error>)
        ensures
            r matches Ok(p) && p.poll_interval == DEFAULT_PAGER_INTERVAL_MS,
    {
        Ok(Pager { poll_interval: DEFAULT_PAGER_INTERVAL_MS })
    }

    /// The text of the stream event for one page. It begins with the
    /// `@pagerduty` token: that token is what makes the alert sink page.
    pub fn stream_event_text(event: &str) -> (r: String)
        ensures
            r@ == "@pagerduty cosmon event: "@ + event@,
    {
        "@pagerduty cosmon event: ".to_owned().concat(event)
    }
}

} // verus!
