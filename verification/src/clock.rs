//! The wall clock, read through chrono.

use vstd::prelude::*;

verus! {

/// One reading of the wall clock: whole seconds and milliseconds since the Unix epoch.
#[derive(Clone, Copy, Debug)]
pub struct WallClock {
    pub secs: i64,
    pub millis: i64,
}

/// Reads the clock once through `chrono::Utc::now()` and returns its `timestamp()` and
/// `timestamp_millis()`. Nothing is stated of the values: they come from the machine's clock,
/// and two calls may return different readings.
#[verifier::external_body]
pub(crate) fn read_clock() -> (t: WallClock) {
    let now = chrono::Utc::now();
    WallClock { secs: now.timestamp(), millis: now.timestamp_millis() }
}

} // verus!
