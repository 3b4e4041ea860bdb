//! How long each image stays on display, and how the two user controls
//! change that.

use vstd::prelude::*;

verus! {

/// The display time per image at startup, in milliseconds.
pub const DEFAULT_INTERVAL_MS: u64 = 5000;

/// What one press of "faster" or "slower" changes, in milliseconds.
pub const INTERVAL_STEP_MS: u64 = 500;

/// The shortest display time that "faster" leads to, in milliseconds.
pub const INTERVAL_FLOOR_MS: u64 = 500;

/// The interval after one "faster": a step shorter, but not below the floor.
pub open spec fn faster(interval_ms: u64) -> u64 {
    if interval_ms - INTERVAL_STEP_MS >= INTERVAL_FLOOR_MS {
        (interval_ms - INTERVAL_STEP_MS) as u64
    } else {
        INTERVAL_FLOOR_MS
    }
}

/// The interval after one "slower": a step longer, as far as 64 bits hold it.
pub open spec fn slower(interval_ms: u64) -> u64 {
    if interval_ms + INTERVAL_STEP_MS <= u64::MAX {
        (interval_ms + INTERVAL_STEP_MS) as u64
    } else {
        u64::MAX
    }
}

/// The interval after `presses` times "faster".
pub open spec fn faster_times(interval_ms: u64, presses: nat) -> u64
    decreases presses,
{
    if presses == 0 {
        interval_ms
    } else {
        faster(faster_times(interval_ms, (presses - 1) as nat))
    }
}

/// The interval after `presses` times "slower".
pub open spec fn slower_times(interval_ms: u64, presses: nat) -> u64
    decreases presses,
{
    if presses == 0 {
        interval_ms
    } else {
        slower(slower_times(interval_ms, (presses - 1) as nat))
    }
}

/// However often "faster" is pressed, the interval does not fall below the
/// floor: after the first press it is at or above it, and an interval that
/// starts there stays there.
pub proof fn lemma_faster_keeps_floor(interval_ms: u64, presses: nat)
    ensures
        presses >= 1 ==> faster_times(interval_ms, presses) >= INTERVAL_FLOOR_MS,
        interval_ms >= INTERVAL_FLOOR_MS ==> faster_times(interval_ms, presses)
            >= INTERVAL_FLOOR_MS,
        faster_times(interval_ms, presses) <= interval_ms || faster_times(interval_ms, presses)
            == INTERVAL_FLOOR_MS,
    decreases presses,
{
    if presses > 0 {
        lemma_faster_keeps_floor(interval_ms, (presses - 1) as nat);
    }
}

/// While the floor is out of reach every "faster" takes off a whole step;
/// once the presses cover the distance to the floor the interval is the floor
/// exactly, and rests there.
pub proof fn lemma_faster_exact(interval_ms: u64, presses: nat)
    ensures
        interval_ms >= INTERVAL_FLOOR_MS + presses * INTERVAL_STEP_MS ==> faster_times(
            interval_ms,
            presses,
        ) == interval_ms - presses * INTERVAL_STEP_MS,
        interval_ms <= INTERVAL_FLOOR_MS + presses * INTERVAL_STEP_MS && presses >= 1
            ==> faster_times(interval_ms, presses) == INTERVAL_FLOOR_MS,
    decreases presses,
{
    if presses > 0 {
        lemma_faster_exact(interval_ms, (presses - 1) as nat);
        lemma_faster_keeps_floor(interval_ms, (presses - 1) as nat);
    }
}

/// "Slower" has no bound of its own: every press adds a whole step, and only
/// the width of the counter ends that.
pub proof fn lemma_slower_unbounded(interval_ms: u64, presses: nat)
    ensures
        interval_ms + presses * INTERVAL_STEP_MS <= u64::MAX ==> slower_times(interval_ms, presses)
            == interval_ms + presses * INTERVAL_STEP_MS,
        interval_ms + presses * INTERVAL_STEP_MS > u64::MAX ==> slower_times(interval_ms, presses)
            == u64::MAX,
        slower_times(interval_ms, presses) >= interval_ms,
    decreases presses,
{
    if presses > 0 {
        lemma_slower_unbounded(interval_ms, (presses - 1) as nat);
    }
}

/// One press of "faster".
pub fn decrease_interval(interval_ms: u64) -> (shorter: u64)
    ensures
        shorter == faster(interval_ms),
        shorter >= INTERVAL_FLOOR_MS,
{
    if interval_ms >= INTERVAL_STEP_MS + INTERVAL_FLOOR_MS {
        interval_ms - INTERVAL_STEP_MS
    } else {
        INTERVAL_FLOOR_MS
    }
}

/// One press of "slower".
pub fn increase_interval(interval_ms: u64) -> (longer: u64)
    ensures
        longer == slower(interval_ms),
        longer >= interval_ms,
{
    if interval_ms <= u64::MAX - INTERVAL_STEP_MS {
        interval_ms + INTERVAL_STEP_MS
    } else {
        u64::MAX
    }
}

} // verus!
