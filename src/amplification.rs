//! Amplification ramp of a stable pool: linear between two blocks, clamped
//! outside them, evaluated afresh for every operation.
use vstd::prelude::*;

verus! {

/// Effective amplification at block `current` of a ramp from `initial` at
/// `initial_block` to `target` at `final_block`.
pub open spec fn amplification_at(
    initial: int,
    target: int,
    initial_block: int,
    final_block: int,
    current: int,
) -> int {
    if current >= final_block {
        target
    } else if current <= initial_block {
        initial
    } else if target >= initial {
        initial + (target - initial) * (current - initial_block) / (final_block - initial_block)
    } else {
        initial - (initial - target) * (current - initial_block) / (final_block - initial_block)
    }
}

/// Effective amplification of a ramp at block `current`: `initial` up to
/// `initial_block`, `target` from `final_block` on, linear (rounded toward
/// `initial`) in between.
pub fn calculate_amplification(
    initial: u16,
    target: u16,
    initial_block: u64,
    final_block: u64,
    current: u64,
) -> (r: u16)
    ensures
        r == amplification_at(initial as int, target as int, initial_block as int, final_block as int, current as int),
{
    if current >= final_block {
        return target;
    }
    if current <= initial_block {
        return initial;
    }
    let step: u128 = (current - initial_block) as u128;
    let span: u128 = (final_block - initial_block) as u128;
    if target >= initial {
        let diff: u128 = (target - initial) as u128;
        proof {
            assert(diff * step <= 0xffff * 0xffff_ffff_ffff_ffff) by (nonlinear_arith)
                requires
                    diff <= 0xffff,
                    step <= 0xffff_ffff_ffff_ffff,
            ;
            assert(diff * step / (span as int) <= diff) by (nonlinear_arith)
                requires
                    step < span,
                    0 <= diff,
                    0 < step,
            ;
        }
        let add: u128 = diff * step / span;
        (initial as u128 + add) as u16
    } else {
        let diff: u128 = (initial - target) as u128;
        proof {
            assert(diff * step <= 0xffff * 0xffff_ffff_ffff_ffff) by (nonlinear_arith)
                requires
                    diff <= 0xffff,
                    step <= 0xffff_ffff_ffff_ffff,
            ;
            assert(diff * step / (span as int) <= diff) by (nonlinear_arith)
                requires
                    step < span,
                    0 <= diff,
                    0 < step,
            ;
        }
        let sub: u128 = diff * step / span;
        (initial as u128 - sub) as u16
    }
}

/// The effective amplification always lies between the two ends of the ramp.
pub proof fn lemma_amplification_within_ramp(
    initial: u16,
    target: u16,
    initial_block: u64,
    final_block: u64,
    current: u64,
)
    ensures
        ({
            let a = amplification_at(initial as int, target as int, initial_block as int, final_block as int, current as int);
            (initial <= target ==> initial <= a <= target) && (target <= initial ==> target <= a <= initial)
        }),
{
    let step = current - initial_block;
    let span = final_block - initial_block;
    if initial_block < current < final_block {
        if target >= initial {
            let diff = target - initial;
            assert(0 <= diff * step / span <= diff) by (nonlinear_arith)
                requires
                    0 < step < span,
                    0 <= diff,
            ;
        } else {
            let diff = initial - target;
            assert(0 <= diff * step / span <= diff) by (nonlinear_arith)
                requires
                    0 < step < span,
                    0 <= diff,
            ;
        }
    }
}

/// Along a rising ramp the effective amplification never falls as blocks
/// pass, and along a falling ramp it never rises.
pub proof fn lemma_amplification_monotone(
    initial: u16,
    target: u16,
    initial_block: u64,
    final_block: u64,
    earlier: u64,
    later: u64,
)
    requires
        earlier <= later,
    ensures
        ({
            let a1 = amplification_at(initial as int, target as int, initial_block as int, final_block as int, earlier as int);
            let a2 = amplification_at(initial as int, target as int, initial_block as int, final_block as int, later as int);
            (initial <= target ==> a1 <= a2) && (target <= initial ==> a2 <= a1)
        }),
{
    lemma_amplification_within_ramp(initial, target, initial_block, final_block, earlier);
    lemma_amplification_within_ramp(initial, target, initial_block, final_block, later);
    let span = final_block - initial_block;
    if initial_block < earlier && later < final_block {
        let s1 = earlier - initial_block;
        let s2 = later - initial_block;
        if target >= initial {
            let diff = target - initial;
            assert(diff * s1 / span <= diff * s2 / span) by (nonlinear_arith)
                requires
                    0 < s1 <= s2,
                    0 < span,
                    0 <= diff,
            ;
        } else {
            let diff = initial - target;
            assert(diff * s1 / span <= diff * s2 / span) by (nonlinear_arith)
                requires
                    0 < s1 <= s2,
                    0 < span,
                    0 <= diff,
            ;
        }
    }
}

} // verus!
