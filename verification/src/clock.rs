//! The clock that gravity goes by, and how fast gravity is.

use vstd::prelude::*;
use stopwatch::Stopwatch;

verus! {

/// The stopwatch of the `stopwatch` crate. The rules never look inside it:
/// they read it through the three functions below.
#[verifier::external_type_specification]
#[verifier::external_body]
pub struct ExStopwatch(Stopwatch);

/// `Stopwatch::start_new` makes a stopwatch that is running from now on.
///
/// Trusted, and nothing is claimed of the watch that comes back.
pub assume_specification[ Stopwatch::start_new ]() -> (timer: Stopwatch);

/// `Stopwatch::elapsed_ms` reads the milliseconds that the watch has counted
/// and leaves the watch as it is.
///
/// Trusted, and nothing is claimed of the reading: it depends on the time at
/// which it is taken, and two readings need not agree.
pub assume_specification[ Stopwatch::elapsed_ms ](timer: &Stopwatch) -> (ms: i64);

/// `Stopwatch::restart` sets the watch back to zero and lets it run from now
/// on.
///
/// Trusted, and nothing is claimed of the watch afterwards.
pub assume_specification[ Stopwatch::restart ](timer: &mut Stopwatch);

/// Milliseconds between two steps of gravity before any line is cleared.
pub const DROP_BASE_MS: i64 = 1000;

/// Milliseconds by which each cleared line shortens the interval.
pub const DROP_STEP_MS: i64 = 5;

/// The shortest interval between two steps of gravity. The ramp alone would
/// reach zero at two hundred cleared lines and go below it afterwards; one
/// millisecond is the shortest interval that is still positive, so that from
/// there on a piece falls on every tick that comes at least two milliseconds
/// after the last step.
pub const DROP_FLOOR_MS: i64 = 1;

/// The interval between two steps of gravity once `lines` lines are cleared.
pub open spec fn drop_interval(lines: int) -> int {
    if DROP_BASE_MS - DROP_STEP_MS * lines > DROP_FLOOR_MS {
        DROP_BASE_MS - DROP_STEP_MS * lines
    } else {
        DROP_FLOOR_MS as int
    }
}

/// The interval between two steps of gravity once `lines` lines are cleared.
pub fn drop_interval_ms(lines: i16) -> (ms: i64)
    ensures
        ms == drop_interval(lines as int),
{
    let ramp: i64 = DROP_BASE_MS - DROP_STEP_MS * (lines as i64);
    if ramp > DROP_FLOOR_MS {
        ramp
    } else {
        DROP_FLOOR_MS
    }
}

} // verus!
