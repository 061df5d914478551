//! The arithmetic of breaking progress.
//!
//! Time is counted in microseconds and progress in millionths of a whole
//! block, so that every step is exact integer arithmetic.

use vstd::prelude::*;

verus! {

/// Progress of a block that is broken through.
pub const PROGRESS_FULL: u32 = 1_000_000;

/// Progress between one visual stage and the next: a tenth of the whole.
pub const STAGE_STEP: u32 = 100_000;

/// Hits that follow the last one within this many microseconds belong to the
/// same burst of events and add no progress.
pub const BURST_WINDOW: u64 = 50_000;

/// An entry that was not hit for more than this many microseconds is dropped.
pub const IDLE_TIMEOUT: u64 = 500_000;

/// Time from `last` to `now`; zero where the clock went backwards.
pub open spec fn elapsed(last: int, now: int) -> int {
    if now >= last {
        now - last
    } else {
        0
    }
}

/// The progress that `gap` microseconds of hitting add to a block of the
/// given hardness (milliseconds to break bare-handed) with a tool of the
/// given efficiency (thousandths): `gap * efficiency / hardness` millionths,
/// rounded down, and the whole at once where the hardness is zero.
pub open spec fn gain(gap: int, hardness: int, efficiency: int) -> int {
    if hardness <= 0 {
        PROGRESS_FULL as int
    } else if gap * efficiency / hardness >= PROGRESS_FULL {
        PROGRESS_FULL as int
    } else {
        gap * efficiency / hardness
    }
}

/// Progress after `step` is added to `progress`, capped at the whole.
pub open spec fn advanced(progress: int, step: int) -> int {
    if progress + step >= PROGRESS_FULL {
        PROGRESS_FULL as int
    } else {
        progress + step
    }
}

/// The number of tenths that `progress` has reached.
pub open spec fn stage_of(progress: int) -> int {
    if progress >= PROGRESS_FULL {
        10
    } else if progress <= 0 {
        0
    } else {
        progress / (STAGE_STEP as int)
    }
}

/// The stage to show after progress went from `before` to `after`: the
/// highest tenth reached, where that is a new one and the block still stands.
pub open spec fn stage_change(before: int, after: int) -> Option<u8> {
    if after < PROGRESS_FULL && stage_of(after) > stage_of(before) {
        Some(stage_of(after) as u8)
    } else {
        None
    }
}

/// Measures the time from `last` to `now`.
pub fn elapsed_since(last: u64, now: u64) -> (r: u64)
    ensures
        r == elapsed(last as int, now as int),
{
    if now >= last {
        now - last
    } else {
        0
    }
}

/// Computes the progress that one hit adds after `gap` microseconds.
pub fn progress_gain(gap: u64, hardness: u32, efficiency: u32) -> (r: u32)
    ensures
        r == gain(gap as int, hardness as int, efficiency as int),
        r <= PROGRESS_FULL,
{
    if hardness == 0 {
        return PROGRESS_FULL;
    }
    assert((gap as int) * (efficiency as int) <= 0xffff_ffff_ffff_ffff * 0xffff_ffff)
        by (nonlinear_arith)
        requires
            0 <= gap <= 0xffff_ffff_ffff_ffff,
            0 <= efficiency <= 0xffff_ffff,
    ;
    let product: u128 = (gap as u128) * (efficiency as u128);
    let quotient: u128 = product / (hardness as u128);
    if quotient >= PROGRESS_FULL as u128 {
        PROGRESS_FULL
    } else {
        quotient as u32
    }
}

/// Adds `step` to `progress`, stopping at the whole.
pub fn advance(progress: u32, step: u32) -> (r: u32)
    ensures
        r == advanced(progress as int, step as int),
        r >= progress || r == PROGRESS_FULL,
        r <= PROGRESS_FULL,
{
    let sum: u64 = progress as u64 + step as u64;
    if sum >= PROGRESS_FULL as u64 {
        PROGRESS_FULL
    } else {
        sum as u32
    }
}

/// The number of tenths that `progress` has reached, ten for a broken block.
pub fn stage(progress: u32) -> (r: u8)
    ensures
        r == stage_of(progress as int),
        r <= 10,
{
    if progress >= PROGRESS_FULL {
        10
    } else {
        (progress / STAGE_STEP) as u8
    }
}

/// Decides which stage, if any, a proxy is to show after its entry went from
/// `before` to `after`.
pub fn next_stage(before: u32, after: u32) -> (r: Option<u8>)
    ensures
        r == stage_change(before as int, after as int),
        r matches Some(k) ==> 1 <= k <= 9,
{
    let reached: u8 = stage(after);
    if after < PROGRESS_FULL && reached > stage(before) {
        Some(reached)
    } else {
        None
    }
}

} // verus!
