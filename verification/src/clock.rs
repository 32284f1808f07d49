//! The time of day.

use vstd::prelude::*;

verus! {

/// `SystemTime::elapsed`, asked of the epoch: the whole seconds of the time that has passed
/// since, or nothing where the system clock stands before it. The answer is the clock's, so
/// nothing is claimed of it.
#[verifier::external_body]
fn elapsed_since_epoch() -> (secs: Option<u64>) {
    match std::time::UNIX_EPOCH.elapsed() {
        Ok(passed) => Some(passed.as_secs()),
        Err(_) => None,
    }
}

/// The time that stands for a reading of the clock: a clock that stands before the epoch counts
/// as standing at it.
pub fn secs_of_reading(reading: Option<u64>) -> (secs: u64)
    ensures
        reading matches Some(passed) ==> secs == passed,
        reading is None ==> secs == 0,
{
    match reading {
        Some(passed) => passed,
        None => 0,
    }
}

/// Whether a look at the clock can give this reading.
pub closed spec fn clock_gives(reading: Option<u64>) -> bool {
    call_ensures(elapsed_since_epoch, (), reading)
}

/// The time of day, in whole seconds since the epoch; 0 where the system clock stands before it.
/// Which reading the clock gives is not said: that is the clock's.
pub fn now_secs() -> (secs: u64)
    ensures
        exists|reading: Option<u64>| #[trigger]
            clock_gives(reading) && secs == (match reading {
                Some(passed) => passed,
                None => 0u64,
            }),
{
    let reading = elapsed_since_epoch();
    assert(clock_gives(reading));
    secs_of_reading(reading)
}

} // verus!
