//! The profiler resource. Timing is recorded nowhere: recording does nothing.
use std::time::Duration;
use vstd::prelude::*;

verus! {

/// Receives stage timings, and keeps none of them.
#[derive(Default)]
pub struct Profiler;

impl Profiler {
    /// Records that `_name` took `_duration`: does nothing.
    pub fn record_timing(&mut self, _name: &str, _duration: Duration)
        ensures
            *final(self) == *old(self),
    {
    }

    /// Records that `_name` took `_duration`: does nothing.
    pub fn record_timing_owned(&mut self, _name: &str, _duration: Duration)
        ensures
            *final(self) == *old(self),
    {
    }
}

} // verus!
