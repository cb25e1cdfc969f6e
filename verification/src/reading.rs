//! Readings of the system clock.

use vstd::prelude::*;

verus! {

/// The system clock can show this many seconds since 1970 and nanoseconds past them. The definition
/// stays within this module: elsewhere a time is known to be a reading only because it was read.
pub closed spec fn is_clock_reading(secs: i64, nanos: u32) -> bool {
    0 <= secs && nanos < 1_000_000_000
}

} // verus!
