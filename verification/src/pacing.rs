use rand::Rng;
use vstd::prelude::*;

verus! {

/// One step of a plan handed to a HID gadget: write a report, or wait.
pub enum HidStep {
    /// Write these bytes to the gadget device as one report.
    Report(Vec<u8>),
    /// Wait this many milliseconds before the next step.
    Pause(u64),
}

/// `step` writes exactly the report `bytes`.
pub open spec fn is_report(step: HidStep, bytes: Seq<u8>) -> bool {
    step matches HidStep::Report(r) && r@ == bytes
}

/// `step` waits a number of milliseconds between `lo` and `hi`, both included.
pub open spec fn is_pause_within(step: HidStep, lo: int, hi: int) -> bool {
    step matches HidStep::Pause(ms) && lo <= ms <= hi
}

/// Draws a delay uniformly from `min_ms..=max_ms` with `rand::rng().random_range`.
/// rand panics only on an empty range, which `requires` rules out; the contract
/// states that the value lies in the range and nothing of its distribution.
/// (The thread-local generator panics if the operating system cannot seed it
/// on first use; that does not depend on the arguments and is not stated.)
#[verifier::external_body]
pub(crate) fn random_delay_ms(min_ms: u64, max_ms: u64) -> (ms: u64)
    requires
        min_ms <= max_ms,
    ensures
        min_ms <= ms <= max_ms,
{
    rand::rng().random_range(min_ms..=max_ms)
}

/// A random delay of `min_delay` to `max_delay` milliseconds, both included,
/// that makes the bot's timing less regular. The caller waits it out.
pub fn random_delay(min_delay: u64, max_delay: u64) -> (ms: u64)
    requires
        min_delay <= max_delay,
    ensures
        min_delay <= ms <= max_delay,
{
    random_delay_ms(min_delay, max_delay)
}

} // verus!
