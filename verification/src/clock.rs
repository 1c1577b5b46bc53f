//! Readings of the system clock.  A `Reading` can only be made by reading the
//! clock, so a decision that takes one rests on what the clock said.
use vstd::prelude::*;
use std::time::SystemTime;

use crate::spawn_policy::elapsed_since;
use crate::spawn_policy::total_nanos;
use crate::spawn_policy::whole_secs;

verus! {

/// The time the clock said had passed since `start`, in nanoseconds and in
/// whole seconds; neither where the clock read earlier than `start`.
pub struct Reading {
    start: SystemTime,
    nanos: Option<u128>,
    secs: Option<u64>,
}

impl Reading {
    /// The time the reading was taken from.
    pub closed spec fn start(&self) -> SystemTime {
        self.start
    }

    /// The nanoseconds that had passed since `start()`.
    pub closed spec fn nanos(&self) -> Option<u128> {
        self.nanos
    }

    /// The whole seconds that had passed since `start()`.
    pub closed spec fn secs(&self) -> Option<u64> {
        self.secs
    }

    /// Reads the clock: how much time has passed since `start`.
    pub fn since(start: &SystemTime) -> (r: Reading)
        ensures
            r.start() == *start,
            r.nanos() is Some <==> r.secs() is Some,
    {
        match elapsed_since(start) {
            Some(d) => Reading {
                start: *start,
                nanos: Some(total_nanos(&d)),
                secs: Some(whole_secs(&d)),
            },
            None => Reading { start: *start, nanos: None, secs: None },
        }
    }

    /// The nanoseconds that had passed since `start()`.
    pub fn elapsed_nanos(&self) -> (r: Option<u128>)
        ensures
            r == self.nanos(),
    {
        self.nanos
    }

    /// The whole seconds that had passed since `start()`.
    pub fn elapsed_secs(&self) -> (r: Option<u64>)
        ensures
            r == self.secs(),
    {
        self.secs
    }
}

} // verus!
