use vstd::prelude::*;

verus! {

/// The timing decision of the event loop, given the tick interval and the time elapsed
/// since the last tick (both in nanoseconds): how long to wait for input before the
/// next tick is due (none once it is due), and whether a tick is due.
pub fn tick_step(tick_rate_nanos: u64, elapsed_nanos: u64) -> (res: (u64, bool))
    ensures
        res.0 == (if elapsed_nanos < tick_rate_nanos { (tick_rate_nanos - elapsed_nanos) as u64 } else { 0 }),
        res.1 == (elapsed_nanos >= tick_rate_nanos),
{
    let timeout = if elapsed_nanos < tick_rate_nanos { tick_rate_nanos - elapsed_nanos } else { 0 };
    (timeout, elapsed_nanos >= tick_rate_nanos)
}

} // verus!
