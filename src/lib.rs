//! Building blocks for small services: health checks that roll up into one
//! verdict, a registry of named metrics with point-in-time reports, and the
//! helpers around them.

use vstd::prelude::*;

pub mod config;
pub mod healthcheck;
pub mod http;
pub mod keyed;
pub mod logging;
pub mod metrics;
mod outside;
pub mod report;

verus! {

/// Seconds since the Unix epoch, kept as an `i64` as modern time libraries do.
#[derive(Debug, PartialOrd, PartialEq, Clone, Copy, Hash)]
pub struct TimeStamp(i64);

impl TimeStamp {
    /// The number of seconds this time stamp holds.
    pub closed spec fn spec_seconds(&self) -> i64 {
        self.0
    }

    /// A time stamp of `ts` seconds since the epoch.
    pub fn new(ts: i64) -> (r: TimeStamp)
        ensures
            r.spec_seconds() == ts,
    {
        TimeStamp(ts)
    }

    /// The number of seconds since the epoch.
    pub fn seconds(&self) -> (r: i64)
        ensures
            r == self.spec_seconds(),
    {
        self.0
    }
}

impl std::ops::Deref for TimeStamp {
    type Target = i64;

    fn deref(&self) -> (r: &i64)
        ensures
            *r == self.spec_seconds(),
    {
        &self.0
    }
}

} // verus!
