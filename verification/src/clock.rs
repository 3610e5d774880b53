//! The pace of the simulation: a fixed number of ticks each second, a sleep
//! that fills what a tick left of its share, and a warning when a second's
//! worth of ticks took too long. Ticks are never skipped to catch up.

use vstd::prelude::*;

verus! {

/// Ticks per second.
pub const TPS: u32 = 60;

/// Nanoseconds in a second.
pub const SECOND: u64 = 1_000_000_000;

/// Milliseconds that a second's worth of ticks may run over before a warning
/// is due.
pub const TOLERANCE_MILLIS: u128 = 100;

/// The share of one tick in nanoseconds: a second split evenly, rounded down.
pub open spec fn budget() -> nat {
    (SECOND / (TPS as u64)) as nat
}

/// What is left of a tick's share after the work took `elapsed`, or nothing
/// where the work used it up.
pub open spec fn rest(elapsed: nat) -> Option<nat> {
    if budget() > elapsed {
        Some((budget() - elapsed) as nat)
    } else {
        None
    }
}

/// The whole milliseconds by which a second's worth of ticks ran over the
/// second, where they are more than the tolerance.
pub open spec fn lag(elapsed: nat) -> Option<nat> {
    if elapsed >= SECOND && (elapsed - SECOND) / 1_000_000 > TOLERANCE_MILLIS {
        Some(((elapsed - SECOND) / 1_000_000) as nat)
    } else {
        None
    }
}

/// The share of one tick in nanoseconds.
pub fn tick_budget() -> (nanos: u64)
    ensures
        nanos == budget(),
        nanos == 16_666_666,
{
    proof {
        lemma_budget_fits_second();
    }
    SECOND / (TPS as u64)
}

/// How long to sleep, in nanoseconds, after a tick whose work took
/// `elapsed` nanoseconds: the rest of its share, or not at all.
pub fn sleep_after(elapsed: u128) -> (nanos: Option<u64>)
    ensures
        match nanos {
            Some(n) => rest(elapsed as nat) == Some(n as nat),
            None => rest(elapsed as nat) is None,
        },
{
    let share = tick_budget();
    if (share as u128) > elapsed {
        Some(share - (elapsed as u64))
    } else {
        None
    }
}

/// The milliseconds to warn about after a second's worth of ticks took
/// `elapsed` nanoseconds, or nothing where they kept within the tolerance.
pub fn lag_warning(elapsed: u128) -> (millis: Option<u128>)
    ensures
        match millis {
            Some(m) => lag(elapsed as nat) == Some(m as nat),
            None => lag(elapsed as nat) is None,
        },
{
    if elapsed >= SECOND as u128 {
        let extra: u128 = (elapsed - SECOND as u128) / 1_000_000;
        if extra > TOLERANCE_MILLIS {
            Some(extra)
        } else {
            None
        }
    } else {
        None
    }
}

/// The shares of a second's ticks fill the second but for less than one
/// nanosecond each: sleeping out every share never takes more than a second.
pub proof fn lemma_budget_fits_second()
    ensures
        budget() == 16_666_666,
        budget() * TPS <= SECOND,
        SECOND - budget() * TPS < TPS,
{
    assert(1_000_000_000int / 60 == 16_666_666) by (nonlinear_arith);
}

} // verus!
