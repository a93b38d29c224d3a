//! Stable-pool invariant solver: the curve invariant `D`, the balance that
//! keeps a given `D`, and the share and withdrawal amounts derived from them.
//!
//! All Newton iterations stop when two successive estimates differ by at most
//! one unit, and fail (`None`) when the iteration cap is reached first or an
//! intermediate value does not fit the balance type.
use vstd::prelude::*;
use crate::math::{lift, fit, mul_div_spec, mul_div_ceil_spec, mul_div, mul_div_ceil, mul_div_rem, MAX_BALANCE};
use vstd::arithmetic::div_mod::{lemma_fundamental_div_mod_converse, lemma_hoist_over_denominator};

verus! {

/// Iteration cap of the invariant (`D`) solver.
pub const MAX_D_ITERATIONS: u32 = 64;

/// Iteration cap of the single-balance (`Y`) solver.
pub const MAX_Y_ITERATIONS: u32 = 128;

/// Sum of the first `i` balances.
pub open spec fn sum_to(xp: Seq<u128>, i: nat) -> int
    decreases i,
{
    if i == 0 || i > xp.len() {
        0
    } else {
        sum_to(xp, (i - 1) as nat) + xp[i - 1]
    }
}

/// Sum of all balances.
pub open spec fn sum(xp: Seq<u128>) -> int {
    sum_to(xp, xp.len())
}

/// `amplification * n^i`, failing on overflow.
pub open spec fn ann_to(amplification: int, n: int, i: nat) -> Option<int>
    decreases i,
{
    if i == 0 {
        fit(amplification)
    } else {
        match ann_to(amplification, n, (i - 1) as nat) {
            Some(v) => fit(v * n),
            None => None,
        }
    }
}

/// Amplification scaled by `n^n` for an `n`-asset pool.
pub open spec fn ann_of(amplification: int, n: nat) -> Option<int> {
    ann_to(amplification, n as int, n)
}

/// `D^(i+1) / (n^i * x_0 * ... * x_(i-1))`, evaluated left to right with
/// floor division, as the Newton step for `D` uses it.
pub open spec fn d_prod_to(xp: Seq<u128>, d: int, i: nat) -> Option<int>
    decreases i,
{
    if i == 0 || i > xp.len() {
        Some(d)
    } else {
        match d_prod_to(xp, d, (i - 1) as nat) {
            Some(v) => if xp[i - 1] * xp.len() > u128::MAX {
                None
            } else {
                mul_div_spec(v, d, xp[i - 1] * xp.len())
            },
            None => None,
        }
    }
}

/// One Newton step for the invariant:
/// `D' = (ann*S + n*D_P) * D / ((ann - 1) * D + (n + 1) * D_P)`.
pub open spec fn d_next(xp: Seq<u128>, ann: int, d: int) -> Option<int> {
    let n = xp.len() as int;
    match d_prod_to(xp, d, xp.len()) {
        Some(dp) => {
            let num = ann * sum(xp) + n * dp;
            let den = (ann - 1) * d + (n + 1) * dp;
            if num > u128::MAX || den > u128::MAX {
                None
            } else {
                mul_div_spec(num, d, den)
            }
        },
        None => None,
    }
}

/// Whether two successive estimates are within one unit.
pub open spec fn converged(a: int, b: int) -> bool {
    -1 <= a - b <= 1
}

/// Newton iteration for `D` from estimate `d` at step `k`.
pub open spec fn d_search(xp: Seq<u128>, ann: int, d: int, k: nat) -> Option<int>
    decreases MAX_D_ITERATIONS - k,
{
    if k >= MAX_D_ITERATIONS {
        None
    } else {
        match d_next(xp, ann, d) {
            Some(d1) => if converged(d1, d) {
                Some(d1)
            } else {
                d_search(xp, ann, d1, k + 1)
            },
            None => None,
        }
    }
}

/// The curve invariant `D` of balances `xp` under amplification
/// `amplification`: zero for an empty pool, otherwise the Newton iterate
/// started from the sum of the balances.
pub open spec fn invariant_d(xp: Seq<u128>, amplification: int) -> Option<int> {
    if sum(xp) > u128::MAX {
        None
    } else if sum(xp) == 0 {
        Some(0)
    } else {
        match ann_of(amplification, xp.len()) {
            Some(ann) => if ann < 1 {
                None
            } else {
                d_search(xp, ann, sum(xp), 0)
            },
            None => None,
        }
    }
}

proof fn lemma_sum_to_monotone(xp: Seq<u128>, i: nat, j: nat)
    requires
        i <= j <= xp.len(),
    ensures
        0 <= sum_to(xp, i) <= sum_to(xp, j),
    decreases j,
{
    if i < j {
        lemma_sum_to_monotone(xp, i, (j - 1) as nat);
    } else if j > 0 {
        lemma_sum_to_monotone(xp, 0, (j - 1) as nat);
    }
}

proof fn lemma_ann_none(amplification: int, n: int, i: nat, j: nat)
    requires
        i <= j,
        ann_to(amplification, n, i) is None,
    ensures
        ann_to(amplification, n, j) is None,
    decreases j,
{
    if i < j {
        lemma_ann_none(amplification, n, i, (j - 1) as nat);
    }
}

proof fn lemma_d_prod_none(xp: Seq<u128>, d: int, i: nat, j: nat)
    requires
        i <= j <= xp.len(),
        d_prod_to(xp, d, i) is None,
    ensures
        d_prod_to(xp, d, j) is None,
    decreases j,
{
    if i < j {
        lemma_d_prod_none(xp, d, i, (j - 1) as nat);
    }
}

/// Sum of the balances; `None` when it does not fit.
fn checked_sum(xp: &Vec<u128>) -> (r: Option<u128>)
    ensures
        lift(r) == fit(sum(xp@)),
{
    let mut acc: u128 = 0;
    let mut i: usize = 0;
    while i < xp.len()
        invariant
            i <= xp.len(),
            acc == sum_to(xp@, i as nat),
        decreases xp.len() - i,
    {
        if acc > MAX_BALANCE - xp[i] {
            proof {
                lemma_sum_to_monotone(xp@, (i + 1) as nat, xp@.len());
            }
            return None;
        }
        acc = acc + xp[i];
        i = i + 1;
    }
    proof {
        lemma_sum_to_monotone(xp@, 0, xp@.len());
    }
    Some(acc)
}

/// Amplification scaled by `n^n`.
fn checked_ann(amplification: u128, n: usize) -> (r: Option<u128>)
    ensures
        lift(r) == ann_of(amplification as int, n as nat),
{
    let mut acc: u128 = amplification;
    let mut i: usize = 0;
    let nn: u128 = n as u128;
    while i < n
        invariant
            i <= n,
            nn == n,
            ann_to(amplification as int, n as int, i as nat) == Some(acc as int),
        decreases n - i,
    {
        if nn > 0 && acc > MAX_BALANCE / nn {
            proof {
                assert(acc * nn > u128::MAX) by (nonlinear_arith)
                    requires
                        nn > 0,
                        acc > u128::MAX / nn,
                ;
                lemma_ann_none(amplification as int, n as int, (i + 1) as nat, n as nat);
            }
            return None;
        }
        proof {
            assert(acc * nn <= u128::MAX) by (nonlinear_arith)
                requires
                    nn == 0 || acc <= u128::MAX / nn,
            ;
        }
        acc = acc * nn;
        i = i + 1;
    }
    Some(acc)
}

/// One Newton step for `D`.
fn d_step(xp: &Vec<u128>, s: u128, ann: u128, d: u128) -> (r: Option<u128>)
    requires
        s == sum(xp@),
        ann >= 1,
    ensures
        lift(r) == d_next(xp@, ann as int, d as int),
{
    let n: usize = xp.len();
    let nn: u128 = n as u128;
    let mut dp: u128 = d;
    let mut i: usize = 0;
    while i < n
        invariant
            i <= n,
            n == xp.len(),
            nn == n,
            d_prod_to(xp@, d as int, i as nat) == Some(dp as int),
        decreases n - i,
    {
        if nn > 0 && xp[i] > MAX_BALANCE / nn {
            proof {
                assert(xp@[i as int] * nn > u128::MAX) by (nonlinear_arith)
                    requires
                        nn > 0,
                        xp@[i as int] > u128::MAX / nn,
                ;
                lemma_d_prod_none(xp@, d as int, (i + 1) as nat, n as nat);
            }
            return None;
        }
        proof {
            assert(xp@[i as int] * nn <= u128::MAX) by (nonlinear_arith)
                requires
                    nn == 0 || xp@[i as int] <= u128::MAX / nn,
            ;
        }
        match mul_div(dp, d, xp[i] * nn) {
            Some(v) => {
                dp = v;
            },
            None => {
                proof {
                    lemma_d_prod_none(xp@, d as int, (i + 1) as nat, n as nat);
                }
                return None;
            },
        }
        i = i + 1;
    }
    let ghost num: int = ann * s + nn * dp;
    let ghost den: int = (ann - 1) * d + (nn + 1) * dp;
    let a1 = mul_div(ann, s, 1);
    let a2 = mul_div(nn, dp, 1);
    let b1 = mul_div(ann - 1, d, 1);
    let b2 = mul_div(nn + 1, dp, 1);
    proof {
        assert(ann * s / 1 == ann * s);
        assert(nn * dp / 1 == nn * dp);
        assert((ann - 1) * d / 1 == (ann - 1) * d);
        assert((nn + 1) * dp / 1 == (nn + 1) * dp);
        assert(0 <= ann * s) by (nonlinear_arith)
            requires
                ann >= 0,
                s >= 0,
        ;
        assert(0 <= nn * dp) by (nonlinear_arith)
            requires
                nn >= 0,
                dp >= 0,
        ;
        assert(0 <= (ann - 1) * d) by (nonlinear_arith)
            requires
                ann >= 1,
                d >= 0,
        ;
        assert(0 <= (nn + 1) * dp) by (nonlinear_arith)
            requires
                nn >= 0,
                dp >= 0,
        ;
    }
    match (a1, a2, b1, b2) {
        (Some(x1), Some(x2), Some(y1), Some(y2)) => {
            if x1 > MAX_BALANCE - x2 || y1 > MAX_BALANCE - y2 {
                return None;
            }
            mul_div(x1 + x2, d, y1 + y2)
        },
        _ => None,
    }
}

/// The curve invariant `D` of `xp` under `amplification`; `None` when the
/// iteration does not converge within [`MAX_D_ITERATIONS`] steps or a value
/// overflows.
pub fn calculate_d(xp: &Vec<u128>, amplification: u128) -> (r: Option<u128>)
    ensures
        lift(r) == invariant_d(xp@, amplification as int),
{
    let s = match checked_sum(xp) {
        Some(s) => s,
        None => {
            proof {
                lemma_sum_to_monotone(xp@, 0, xp@.len());
            }
            return None;
        },
    };
    if s == 0 {
        return Some(0);
    }
    let ann = match checked_ann(amplification, xp.len()) {
        Some(a) => a,
        None => {
            return None;
        },
    };
    if ann < 1 {
        return None;
    }
    let mut d: u128 = s;
    let mut k: u32 = 0;
    while k < MAX_D_ITERATIONS
        invariant
            k <= MAX_D_ITERATIONS,
            s == sum(xp@),
            1 <= ann,
            invariant_d(xp@, amplification as int) == d_search(xp@, ann as int, d as int, k as nat),
        decreases MAX_D_ITERATIONS - k,
    {
        let d1 = match d_step(xp, s, ann, d) {
            Some(v) => v,
            None => {
                return None;
            },
        };
        if (d1 >= d && d1 - d <= 1) || (d1 < d && d - d1 <= 1) {
            return Some(d1);
        }
        d = d1;
        k = k + 1;
    }
    None
}


/// Sum `s` and product term `c` over every balance but the one at `j`, for
/// the Newton step of the single-balance solver: `c = D^(m+1) / (n^m * prod)`.
pub open spec fn y_terms_to(xp: Seq<u128>, j: int, d: int, i: nat) -> Option<(int, int)>
    decreases i,
{
    if i == 0 || i > xp.len() {
        Some((0, d))
    } else {
        match y_terms_to(xp, j, d, (i - 1) as nat) {
            Some((s, c)) => if i - 1 == j {
                Some((s, c))
            } else if xp[i - 1] * xp.len() > u128::MAX {
                None
            } else {
                match mul_div_spec(c, d, xp[i - 1] * xp.len()) {
                    Some(c1) => if s + xp[i - 1] > u128::MAX {
                        None
                    } else {
                        Some((s + xp[i - 1], c1))
                    },
                    None => None,
                }
            },
            None => None,
        }
    }
}

/// One Newton step for the unknown balance: `y' = (y^2 + c) / (2y + b - D)`.
pub open spec fn y_next(y: int, b: int, c: int, d: int) -> Option<int> {
    let den = 2 * y + b - d;
    if 2 * y + b > u128::MAX || den <= 0 {
        None
    } else if y * y / den > u128::MAX || (y * y) % den + c > u128::MAX {
        None
    } else {
        fit((y * y + c) / den)
    }
}

/// Newton iteration for the unknown balance from estimate `y` at step `k`.
pub open spec fn y_search(y: int, b: int, c: int, d: int, k: nat) -> Option<int>
    decreases MAX_Y_ITERATIONS - k,
{
    if k >= MAX_Y_ITERATIONS {
        None
    } else {
        match y_next(y, b, c, d) {
            Some(y1) => if converged(y1, y) {
                Some(y1)
            } else {
                y_search(y1, b, c, d, k + 1)
            },
            None => None,
        }
    }
}

/// Solve with a scaled amplification `ann`.
pub open spec fn solve_y(xp: Seq<u128>, j: int, d: int, ann: int) -> Option<int> {
    let n = xp.len() as int;
    match y_terms_to(xp, j, d, xp.len()) {
        Some((s, c0)) => if ann < 1 || ann * n > u128::MAX {
            None
        } else {
            match mul_div_spec(c0, d, ann * n) {
                Some(c) => if s + d / ann > u128::MAX {
                    None
                } else {
                    y_search(d, s + d / ann, c, d, 0)
                },
                None => None,
            }
        },
        None => None,
    }
}

/// The balance at index `j` that gives invariant `d` when every other
/// balance of `xp` is held fixed (the Newton iterate started from `d`).
pub open spec fn balance_for_d(xp: Seq<u128>, j: int, d: int, amplification: int) -> Option<int> {
    if j < 0 || j >= xp.len() {
        None
    } else {
        match ann_of(amplification, xp.len()) {
            Some(ann) => solve_y(xp, j, d, ann),
            None => None,
        }
    }
}

proof fn lemma_y_terms_none(xp: Seq<u128>, j: int, d: int, i: nat, k: nat)
    requires
        i <= k <= xp.len(),
        y_terms_to(xp, j, d, i) is None,
    ensures
        y_terms_to(xp, j, d, k) is None,
    decreases k,
{
    if i < k {
        lemma_y_terms_none(xp, j, d, i, (k - 1) as nat);
    }
}

fn y_step(y: u128, b: u128, c: u128, d: u128) -> (r: Option<u128>)
    ensures
        lift(r) == y_next(y as int, b as int, c as int, d as int),
{
    if y > MAX_BALANCE / 2 || 2 * y > MAX_BALANCE - b || 2 * y + b <= d {
        return None;
    }
    let den: u128 = 2 * y + b - d;
    match mul_div_rem(y, y, den) {
        Some((q, rem)) => {
            proof {
                lemma_fundamental_div_mod_converse(y * y, den as int, q as int, rem as int);
            }
            if rem > MAX_BALANCE - c {
                return None;
            }
            let t: u128 = (rem + c) / den;
            proof {
                lemma_hoist_over_denominator(rem + c, q as int, den as nat);
                assert(q * den + rem == y * y);
                assert((rem + c) + q * den == y * y + c);
            }
            if q > MAX_BALANCE - t {
                return None;
            }
            Some(q + t)
        },
        None => None,
    }
}

/// The balance at index `j` of `xp` that gives invariant `d` under
/// `amplification`, every other balance held fixed; `None` when the
/// iteration does not converge within [`MAX_Y_ITERATIONS`] steps or a value
/// overflows.
pub fn calculate_y(xp: &Vec<u128>, j: usize, d: u128, amplification: u128) -> (r: Option<u128>)
    ensures
        lift(r) == balance_for_d(xp@, j as int, d as int, amplification as int),
{
    if j >= xp.len() {
        return None;
    }
    let ann = match checked_ann(amplification, xp.len()) {
        Some(a) => a,
        None => {
            return None;
        },
    };
    let n: usize = xp.len();
    let nn: u128 = n as u128;
    let mut s: u128 = 0;
    let mut c: u128 = d;
    let mut i: usize = 0;
    while i < n
        invariant
            i <= n,
            n == xp.len(),
            nn == n,
            y_terms_to(xp@, j as int, d as int, i as nat) == Some((s as int, c as int)),
        decreases n - i,
    {
        if i != j {
            if nn > 0 && xp[i] > MAX_BALANCE / nn {
                proof {
                    assert(xp@[i as int] * nn > u128::MAX) by (nonlinear_arith)
                        requires
                            nn > 0,
                            xp@[i as int] > u128::MAX / nn,
                    ;
                    lemma_y_terms_none(xp@, j as int, d as int, (i + 1) as nat, n as nat);
                }
                return None;
            }
            proof {
                assert(xp@[i as int] * nn <= u128::MAX) by (nonlinear_arith)
                    requires
                        nn == 0 || xp@[i as int] <= u128::MAX / nn,
                ;
            }
            match mul_div(c, d, xp[i] * nn) {
                Some(c1) => {
                    if s > MAX_BALANCE - xp[i] {
                        proof {
                            lemma_y_terms_none(xp@, j as int, d as int, (i + 1) as nat, n as nat);
                        }
                        return None;
                    }
                    s = s + xp[i];
                    c = c1;
                },
                None => {
                    proof {
                        lemma_y_terms_none(xp@, j as int, d as int, (i + 1) as nat, n as nat);
                    }
                    return None;
                },
            }
        }
        i = i + 1;
    }
    if ann < 1 || (nn > 0 && ann > MAX_BALANCE / nn) {
        proof {
            if ann >= 1 {
                assert(ann * nn > u128::MAX) by (nonlinear_arith)
                    requires
                        nn > 0,
                        ann > u128::MAX / nn,
                ;
            }
        }
        return None;
    }
    proof {
        assert(ann * nn <= u128::MAX) by (nonlinear_arith)
            requires
                nn == 0 || ann <= u128::MAX / nn,
        ;
    }
    let c = match mul_div(c, d, ann * nn) {
        Some(v) => v,
        None => {
            return None;
        },
    };
    if s > MAX_BALANCE - d / ann {
        return None;
    }
    let b: u128 = s + d / ann;
    let mut y: u128 = d;
    let mut k: u32 = 0;
    while k < MAX_Y_ITERATIONS
        invariant
            k <= MAX_Y_ITERATIONS,
            balance_for_d(xp@, j as int, d as int, amplification as int)
                == y_search(y as int, b as int, c as int, d as int, k as nat),
        decreases MAX_Y_ITERATIONS - k,
    {
        let y1 = match y_step(y, b, c, d) {
            Some(v) => v,
            None => {
                return None;
            },
        };
        if (y1 >= y && y1 - y <= 1) || (y1 < y && y - y1 <= 1) {
            return Some(y1);
        }
        y = y1;
        k = k + 1;
    }
    None
}


/// Parts per million: the denominator of every fee rate.
pub const FEE_DENOMINATOR: u128 = 1_000_000;

/// Shares minted for depositing `amount` of the asset at `idx`:
/// `issuance * (D_after - D_before) / D_before`, rounded down.
pub open spec fn shares_for_amount_spec(
    xp: Seq<u128>,
    idx: int,
    amount: int,
    amplification: int,
    issuance: int,
) -> Option<int> {
    if idx < 0 || idx >= xp.len() || xp[idx] + amount > u128::MAX {
        None
    } else {
        match (
            invariant_d(xp, amplification),
            invariant_d(xp.update(idx, (xp[idx] + amount) as u128), amplification),
        ) {
            (Some(d0), Some(d1)) => if d1 < d0 {
                None
            } else {
                mul_div_spec(issuance, d1 - d0, d0)
            },
            _ => None,
        }
    }
}

/// Amount of the asset at `idx` to deposit for `shares` new shares: the
/// balance that reaches `D_target = ceil(D * (issuance + shares) / issuance)`,
/// less the current balance.
pub open spec fn amount_for_shares_spec(
    xp: Seq<u128>,
    idx: int,
    shares: int,
    amplification: int,
    issuance: int,
) -> Option<int> {
    if idx < 0 || idx >= xp.len() || issuance + shares > u128::MAX {
        None
    } else {
        match invariant_d(xp, amplification) {
            Some(d0) => match mul_div_ceil_spec(d0, issuance + shares, issuance) {
                Some(dt) => match balance_for_d(xp, idx, dt, amplification) {
                    Some(y) => if y < xp[idx] {
                        None
                    } else {
                        Some(y - xp[idx])
                    },
                    None => None,
                },
                None => None,
            },
            None => None,
        }
    }
}

/// Distance between two values.
pub open spec fn abs_diff(a: int, b: int) -> int {
    if a >= b {
        a - b
    } else {
        b - a
    }
}

/// `base` less the fee on the distance between `target` and the balance a
/// proportional change from `D0` to `D1` would leave (`old * D1 / D0`).
pub open spec fn fee_adjusted(base: int, target: int, old: int, d0: int, d1: int, fee: int) -> Option<int> {
    match mul_div_spec(old, d1, d0) {
        Some(ideal) => match mul_div_ceil_spec(abs_diff(target, ideal), fee, FEE_DENOMINATOR as int) {
            Some(f) => if f > base {
                None
            } else {
                Some(base - f)
            },
            None => None,
        },
        None => None,
    }
}

/// Every balance of `base` can be fee-adjusted against `target` and `old`.
pub open spec fn fee_adjustable(
    base: Seq<u128>,
    target: Seq<u128>,
    old: Seq<u128>,
    d0: int,
    d1: int,
    fee: int,
) -> bool {
    forall|k: int|
        0 <= k < base.len() ==> (#[trigger] fee_adjusted(base[k] as int, target[k] as int, old[k] as int, d0, d1, fee)) is Some
}

/// The fee-adjusted balances.
pub open spec fn fee_adjusted_seq(
    base: Seq<u128>,
    target: Seq<u128>,
    old: Seq<u128>,
    d0: int,
    d1: int,
    fee: int,
) -> Seq<u128> {
    Seq::new(
        base.len(),
        |k: int| fee_adjusted(base[k] as int, target[k] as int, old[k] as int, d0, d1, fee)->0 as u128,
    )
}

/// Shares burned to withdraw `amount` of the asset at `idx`, with the
/// withdrawal fee charged on each balance's distance from a proportional
/// withdrawal; `issuance * (D0 - D2) / D0` rounded up, where `D2` is the
/// invariant of the fee-adjusted balances.
pub open spec fn shares_removed_spec(
    xp: Seq<u128>,
    idx: int,
    amount: int,
    amplification: int,
    issuance: int,
    fee: int,
) -> Option<int> {
    if idx < 0 || idx >= xp.len() || amount > xp[idx] {
        None
    } else {
        let xp1 = xp.update(idx, (xp[idx] - amount) as u128);
        match (invariant_d(xp, amplification), invariant_d(xp1, amplification)) {
            (Some(d0), Some(d1)) => if !fee_adjustable(xp1, xp1, xp, d0, d1, fee) {
                None
            } else {
                match invariant_d(fee_adjusted_seq(xp1, xp1, xp, d0, d1, fee), amplification) {
                    Some(d2) => if d2 > d0 {
                        None
                    } else {
                        mul_div_ceil_spec(issuance, d0 - d2, d0)
                    },
                    None => None,
                }
            },
            _ => None,
        }
    }
}

/// Net payout and fee for burning `shares` into the asset at `idx`.
///
/// `D1 = D0 - floor(shares * D0 / issuance)`; the fee-free payout is the
/// drop of the balance that keeps `D1`; the net payout is the same drop
/// computed on balances reduced by the fee on each one's distance from a
/// proportional withdrawal; both drops are taken one unit smaller, in the
/// pool's favour; the fee is the difference.
pub open spec fn withdraw_one_asset_spec(
    xp: Seq<u128>,
    shares: int,
    idx: int,
    issuance: int,
    amplification: int,
    fee: int,
) -> Option<(int, int)> {
    if idx < 0 || idx >= xp.len() || shares > issuance {
        None
    } else {
        match invariant_d(xp, amplification) {
            Some(d0) => match mul_div_spec(shares, d0, issuance) {
                Some(dd) => {
                    let d1 = d0 - dd;
                    match balance_for_d(xp, idx, d1, amplification) {
                        Some(y) => if y + 1 > xp[idx] || !fee_adjustable(xp, xp.update(idx, y as u128), xp, d0, d1, fee) {
                            None
                        } else {
                            let adj = fee_adjusted_seq(xp, xp.update(idx, y as u128), xp, d0, d1, fee);
                            match balance_for_d(adj, idx, d1, amplification) {
                                Some(y2) => if y2 + 1 > adj[idx] || adj[idx] - y2 > xp[idx] - y {
                                    None
                                } else {
                                    Some((adj[idx] - y2 - 1, (xp[idx] - y) - (adj[idx] - y2)))
                                },
                                None => None,
                            }
                        },
                        None => None,
                    }
                },
                None => None,
            },
            None => None,
        }
    }
}

fn adjust_one(base: u128, target: u128, old: u128, d0: u128, d1: u128, fee: u128) -> (r: Option<u128>)
    ensures
        lift(r) == fee_adjusted(base as int, target as int, old as int, d0 as int, d1 as int, fee as int),
{
    let ideal = match mul_div(old, d1, d0) {
        Some(v) => v,
        None => {
            return None;
        },
    };
    let diff: u128 = if target >= ideal {
        target - ideal
    } else {
        ideal - target
    };
    let f = match mul_div_ceil(diff, fee, FEE_DENOMINATOR) {
        Some(v) => v,
        None => {
            return None;
        },
    };
    if f > base {
        None
    } else {
        Some(base - f)
    }
}

/// Fee-adjusted balances, `None` when one of them cannot be formed.
fn adjust_balances(
    base: &Vec<u128>,
    target: &Vec<u128>,
    old: &Vec<u128>,
    d0: u128,
    d1: u128,
    fee: u128,
) -> (r: Option<Vec<u128>>)
    requires
        base@.len() == target@.len(),
        base@.len() == old@.len(),
    ensures
        r is Some <==> fee_adjustable(base@, target@, old@, d0 as int, d1 as int, fee as int),
        r matches Some(v) ==> v@ == fee_adjusted_seq(base@, target@, old@, d0 as int, d1 as int, fee as int),
{
    let mut out: Vec<u128> = Vec::new();
    let mut i: usize = 0;
    while i < base.len()
        invariant
            i <= base@.len(),
            base@.len() == target@.len(),
            base@.len() == old@.len(),
            out@.len() == i,
            forall|k: int|
                0 <= k < i ==> (#[trigger] fee_adjusted(base@[k] as int, target@[k] as int, old@[k] as int, d0 as int, d1 as int, fee as int))
                    == Some(out@[k] as int),
        decreases base@.len() - i,
    {
        match adjust_one(base[i], target[i], old[i], d0, d1, fee) {
            Some(v) => {
                out.push(v);
            },
            None => {
                return None;
            },
        }
        i = i + 1;
    }
    assert(out@ =~= fee_adjusted_seq(base@, target@, old@, d0 as int, d1 as int, fee as int));
    Some(out)
}

/// Shares minted for depositing `amount` of the asset at `asset_index`,
/// rounded down.
pub fn calculate_shares_for_amount(
    xp: &Vec<u128>,
    asset_index: usize,
    amount: u128,
    amplification: u128,
    share_issuance: u128,
) -> (r: Option<u128>)
    ensures
        lift(r) == shares_for_amount_spec(xp@, asset_index as int, amount as int, amplification as int, share_issuance as int),
{
    if asset_index >= xp.len() || xp[asset_index] > MAX_BALANCE - amount {
        return None;
    }
    let d0 = calculate_d(xp, amplification);
    let mut updated = xp.clone();
    updated.set(asset_index, xp[asset_index] + amount);
    let d1 = calculate_d(&updated, amplification);
    match (d0, d1) {
        (Some(d0), Some(d1)) => {
            if d1 < d0 {
                None
            } else {
                mul_div(share_issuance, d1 - d0, d0)
            }
        },
        _ => None,
    }
}

/// Amount of the asset at `asset_index` to deposit so that `shares` new
/// shares are backed, rounded in the pool's favour.
pub fn calculate_amount_to_add_for_shares(
    xp: &Vec<u128>,
    asset_index: usize,
    shares: u128,
    amplification: u128,
    share_issuance: u128,
) -> (r: Option<u128>)
    ensures
        lift(r) == amount_for_shares_spec(xp@, asset_index as int, shares as int, amplification as int, share_issuance as int),
{
    if asset_index >= xp.len() || share_issuance > MAX_BALANCE - shares {
        return None;
    }
    let d0 = match calculate_d(xp, amplification) {
        Some(v) => v,
        None => {
            return None;
        },
    };
    let dt = match mul_div_ceil(d0, share_issuance + shares, share_issuance) {
        Some(v) => v,
        None => {
            return None;
        },
    };
    match calculate_y(xp, asset_index, dt, amplification) {
        Some(y) => if y < xp[asset_index] {
            None
        } else {
            Some(y - xp[asset_index])
        },
        None => None,
    }
}

/// Shares to burn to withdraw `amount` of the asset at `asset_index`,
/// withdrawal fee included, rounded up.
pub fn calculate_shares_removed(
    xp: &Vec<u128>,
    asset_index: usize,
    amount: u128,
    amplification: u128,
    share_issuance: u128,
    withdraw_fee: u128,
) -> (r: Option<u128>)
    ensures
        lift(r) == shares_removed_spec(xp@, asset_index as int, amount as int, amplification as int, share_issuance as int, withdraw_fee as int),
{
    if asset_index >= xp.len() || amount > xp[asset_index] {
        return None;
    }
    let mut updated = xp.clone();
    updated.set(asset_index, xp[asset_index] - amount);
    let d0 = calculate_d(xp, amplification);
    let d1 = calculate_d(&updated, amplification);
    match (d0, d1) {
        (Some(d0), Some(d1)) => {
            let adjusted = match adjust_balances(&updated, &updated, xp, d0, d1, withdraw_fee) {
                Some(v) => v,
                None => {
                    return None;
                },
            };
            match calculate_d(&adjusted, amplification) {
                Some(d2) => if d2 > d0 {
                    None
                } else {
                    mul_div_ceil(share_issuance, d0 - d2, d0)
                },
                None => None,
            }
        },
        _ => None,
    }
}

/// Net payout and retained fee for burning `shares` into the asset at
/// `asset_index`.
pub fn calculate_withdraw_one_asset(
    xp: &Vec<u128>,
    shares: u128,
    asset_index: usize,
    share_issuance: u128,
    amplification: u128,
    withdraw_fee: u128,
) -> (r: Option<(u128, u128)>)
    ensures
        match (r, withdraw_one_asset_spec(xp@, shares as int, asset_index as int, share_issuance as int, amplification as int, withdraw_fee as int)) {
            (Some((a, f)), Some((sa, sf))) => a == sa && f == sf,
            (None, None) => true,
            _ => false,
        },
{
    if asset_index >= xp.len() || shares > share_issuance {
        return None;
    }
    let d0 = match calculate_d(xp, amplification) {
        Some(v) => v,
        None => {
            return None;
        },
    };
    let dd = match mul_div(shares, d0, share_issuance) {
        Some(v) => v,
        None => {
            return None;
        },
    };
    proof {
        assert(dd <= d0) by (nonlinear_arith)
            requires
                dd == shares * d0 / (share_issuance as int),
                shares <= share_issuance,
                share_issuance > 0,
                d0 >= 0,
        ;
    }
    let d1: u128 = d0 - dd;
    let y = match calculate_y(xp, asset_index, d1, amplification) {
        Some(v) => v,
        None => {
            return None;
        },
    };
    if y >= xp[asset_index] {
        return None;
    }
    let mut target = xp.clone();
    target.set(asset_index, y);
    let adjusted = match adjust_balances(xp, &target, xp, d0, d1, withdraw_fee) {
        Some(v) => v,
        None => {
            return None;
        },
    };
    let y2 = match calculate_y(&adjusted, asset_index, d1, amplification) {
        Some(v) => v,
        None => {
            return None;
        },
    };
    if y2 >= adjusted[asset_index] || adjusted[asset_index] - y2 > xp[asset_index] - y {
        return None;
    }
    let net: u128 = adjusted[asset_index] - y2 - 1;
    Some((net, (xp[asset_index] - y - 1) - net))
}


/// Fee at rate `fee` (parts per million) on `amount`, rounded up.
pub open spec fn fee_on(amount: int, fee: int) -> Option<int> {
    mul_div_ceil_spec(amount, fee, FEE_DENOMINATOR as int)
}

/// Amount of asset `j` paid out for `amount_in` of asset `i` in one pool,
/// less the trade fee: the fall of balance `j` that keeps `D` once balance
/// `i` has grown by `amount_in`, less one unit of rounding in the pool's
/// favour, minus the fee on the rest.
pub open spec fn out_given_in_spec(
    xp: Seq<u128>,
    i: int,
    j: int,
    amount_in: int,
    amplification: int,
    fee: int,
) -> Option<int> {
    if i < 0 || j < 0 || i >= xp.len() || j >= xp.len() || i == j || xp[i] + amount_in > u128::MAX {
        None
    } else {
        match invariant_d(xp, amplification) {
            Some(d) => match balance_for_d(xp.update(i, (xp[i] + amount_in) as u128), j, d, amplification) {
                Some(y) => if y + 1 > xp[j] {
                    None
                } else {
                    match fee_on(xp[j] - y - 1, fee) {
                        Some(f) => if f > xp[j] - y - 1 {
                            None
                        } else {
                            Some(xp[j] - y - 1 - f)
                        },
                        None => None,
                    }
                },
                None => None,
            },
            None => None,
        }
    }
}

/// Amount of asset `i` to pay for `amount_out` of asset `j` in one pool,
/// trade fee included: the rise of balance `i` that keeps `D` once balance
/// `j` has fallen by `amount_out`, plus one unit of rounding in the pool's
/// favour, plus the fee on that sum.
pub open spec fn in_given_out_spec(
    xp: Seq<u128>,
    i: int,
    j: int,
    amount_out: int,
    amplification: int,
    fee: int,
) -> Option<int> {
    if i < 0 || j < 0 || i >= xp.len() || j >= xp.len() || i == j || amount_out > xp[j] {
        None
    } else {
        match invariant_d(xp, amplification) {
            Some(d) => match balance_for_d(xp.update(j, (xp[j] - amount_out) as u128), i, d, amplification) {
                Some(y) => if y < xp[i] {
                    None
                } else {
                    match fee_on(y - xp[i] + 1, fee) {
                        Some(f) => fit(y - xp[i] + 1 + f),
                        None => None,
                    }
                },
                None => None,
            },
            None => None,
        }
    }
}

/// Amount of asset `asset_out` received for selling `amount_in` of asset
/// `asset_in` within one stable pool, trade fee deducted.
pub fn calculate_out_given_in(
    xp: &Vec<u128>,
    asset_in: usize,
    asset_out: usize,
    amount_in: u128,
    amplification: u128,
    fee: u128,
) -> (r: Option<u128>)
    ensures
        lift(r) == out_given_in_spec(xp@, asset_in as int, asset_out as int, amount_in as int, amplification as int, fee as int),
{
    if asset_in >= xp.len() || asset_out >= xp.len() || asset_in == asset_out
        || xp[asset_in] > MAX_BALANCE - amount_in {
        return None;
    }
    let d = match calculate_d(xp, amplification) {
        Some(v) => v,
        None => {
            return None;
        },
    };
    let mut updated = xp.clone();
    updated.set(asset_in, xp[asset_in] + amount_in);
    let y = match calculate_y(&updated, asset_out, d, amplification) {
        Some(v) => v,
        None => {
            return None;
        },
    };
    if y >= xp[asset_out] {
        return None;
    }
    let out: u128 = xp[asset_out] - y - 1;
    match mul_div_ceil(out, fee, FEE_DENOMINATOR) {
        Some(f) => if f > out {
            None
        } else {
            Some(out - f)
        },
        None => None,
    }
}

/// Amount of asset `asset_in` to pay for `amount_out` of asset `asset_out`
/// within one stable pool, trade fee included.
pub fn calculate_in_given_out(
    xp: &Vec<u128>,
    asset_in: usize,
    asset_out: usize,
    amount_out: u128,
    amplification: u128,
    fee: u128,
) -> (r: Option<u128>)
    ensures
        lift(r) == in_given_out_spec(xp@, asset_in as int, asset_out as int, amount_out as int, amplification as int, fee as int),
{
    if asset_in >= xp.len() || asset_out >= xp.len() || asset_in == asset_out || amount_out > xp[asset_out] {
        return None;
    }
    let d = match calculate_d(xp, amplification) {
        Some(v) => v,
        None => {
            return None;
        },
    };
    let mut updated = xp.clone();
    updated.set(asset_out, xp[asset_out] - amount_out);
    let y = match calculate_y(&updated, asset_in, d, amplification) {
        Some(v) => v,
        None => {
            return None;
        },
    };
    if y < xp[asset_in] || y - xp[asset_in] == MAX_BALANCE {
        return None;
    }
    let delta: u128 = y - xp[asset_in] + 1;
    match mul_div_ceil(delta, fee, FEE_DENOMINATOR) {
        Some(f) => if delta > MAX_BALANCE - f {
            None
        } else {
            Some(delta + f)
        },
        None => None,
    }
}


proof fn lemma_sum_of_equal(xp: Seq<u128>, x: int, i: nat)
    requires
        i <= xp.len(),
        forall|k: int| 0 <= k < xp.len() ==> xp[k] == x,
    ensures
        sum_to(xp, i) == i * x,
    decreases i,
{
    if i > 0 {
        lemma_sum_of_equal(xp, x, (i - 1) as nat);
        assert(xp[i - 1] == x);
        assert(sum_to(xp, i) == sum_to(xp, (i - 1) as nat) + xp[i - 1]);
        assert(i * x == (i - 1) * x + x) by (nonlinear_arith);
    } else {
        assert(i * x == 0) by (nonlinear_arith)
            requires
                i == 0,
        ;
    }
}

proof fn lemma_prod_of_equal(xp: Seq<u128>, x: int, d: int, i: nat)
    requires
        i <= xp.len(),
        forall|k: int| 0 <= k < xp.len() ==> xp[k] == x,
        x > 0,
        d == xp.len() * x,
        d <= u128::MAX,
    ensures
        d_prod_to(xp, d, i) == Some(d),
    decreases i,
{
    if i > 0 {
        lemma_prod_of_equal(xp, x, d, (i - 1) as nat);
        assert(d > 0) by (nonlinear_arith)
            requires
                xp.len() >= 1,
                x > 0,
                d == xp.len() * x,
        ;
        assert(xp[i - 1] == x);
        assert(xp[i - 1] * xp.len() == d) by (nonlinear_arith)
            requires
                xp[i - 1] == x,
                d == xp.len() * x,
        ;
        assert(d * d / d == d) by (nonlinear_arith)
            requires
                d > 0,
        ;
    }
}

/// At parity the invariant is the sum of the balances: a pool whose `n`
/// balances all equal `x > 0` has `D = n * x`, whenever
/// `(ann + n) * n * x` fits the balance type.
pub proof fn lemma_invariant_at_parity(xp: Seq<u128>, x: int, amplification: int)
    requires
        xp.len() >= 1,
        forall|k: int| 0 <= k < xp.len() ==> xp[k] == x,
        x > 0,
        ann_of(amplification, xp.len()) matches Some(ann) && ann >= 1
            && (ann + xp.len()) * (xp.len() * x) <= u128::MAX,
    ensures
        invariant_d(xp, amplification) == Some(xp.len() * x),
{
    let n = xp.len() as int;
    let ann = ann_of(amplification, xp.len())->0;
    let d = n * x;
    lemma_sum_of_equal(xp, x, xp.len());
    assert(d > 0) by (nonlinear_arith)
        requires
            n >= 1,
            x > 0,
            d == n * x,
    ;
    assert(d <= (ann + n) * d) by (nonlinear_arith)
        requires
            ann >= 1,
            n >= 1,
            d > 0,
    ;
    lemma_prod_of_equal(xp, x, d, xp.len());
    assert(ann * d + n * d == (ann + n) * d) by (nonlinear_arith);
    assert((ann - 1) * d + (n + 1) * d == (ann + n) * d) by (nonlinear_arith);
    assert((ann + n) * d > 0) by (nonlinear_arith)
        requires
            ann >= 1,
            n >= 1,
            d > 0,
    ;
    assert(((ann + n) * d) * d / ((ann + n) * d) == d) by (nonlinear_arith)
        requires
            (ann + n) * d > 0,
    ;
    assert(d_next(xp, ann, d) == Some(d));
}


proof fn lemma_d_search_settles(xp: Seq<u128>, ann: int, d: int, k: nat)
    requires
        d_search(xp, ann, d, k) is Some,
    ensures
        exists|p: int| #[trigger] d_next(xp, ann, p) == d_search(xp, ann, d, k) && converged(d_search(xp, ann, d, k)->0, p),
    decreases MAX_D_ITERATIONS - k,
{
    let d1 = d_next(xp, ann, d)->0;
    if !converged(d1, d) {
        lemma_d_search_settles(xp, ann, d1, k + 1);
    }
}

/// The invariant returned for a non-empty pool is a settled point of the
/// Newton step: one more step from the estimate before it gives it back,
/// and the two differ by at most one unit.
pub proof fn lemma_invariant_is_settled(xp: Seq<u128>, amplification: int)
    requires
        invariant_d(xp, amplification) is Some,
        sum(xp) > 0,
    ensures
        exists|ann: int, p: int|
            ann_of(amplification, xp.len()) == Some(ann) && #[trigger] d_next(xp, ann, p) == invariant_d(xp, amplification)
                && converged(invariant_d(xp, amplification)->0, p),
{
    let ann = ann_of(amplification, xp.len())->0;
    lemma_d_search_settles(xp, ann, sum(xp), 0);
}

proof fn lemma_y_search_settles(y: int, b: int, c: int, d: int, k: nat)
    requires
        y_search(y, b, c, d, k) is Some,
    ensures
        exists|p: int| #[trigger] y_next(p, b, c, d) == y_search(y, b, c, d, k) && converged(y_search(y, b, c, d, k)->0, p),
    decreases MAX_Y_ITERATIONS - k,
{
    let y1 = y_next(y, b, c, d)->0;
    if !converged(y1, y) {
        lemma_y_search_settles(y1, b, c, d, k + 1);
    }
}

/// The balance returned by the single-balance solver is a settled point of
/// its Newton step `y' = (y^2 + c) / (2y + b - D)`: one more step from the
/// estimate before it gives it back, and the two differ by at most one unit.
pub proof fn lemma_balance_is_settled(xp: Seq<u128>, j: int, d: int, amplification: int)
    requires
        balance_for_d(xp, j, d, amplification) is Some,
    ensures
        exists|b: int, c: int, p: int|
            #[trigger] y_next(p, b, c, d) == balance_for_d(xp, j, d, amplification)
                && converged(balance_for_d(xp, j, d, amplification)->0, p),
{
    let ann = ann_of(amplification, xp.len())->0;
    let (s, c0) = y_terms_to(xp, j, d, xp.len())->0;
    let c = mul_div_spec(c0, d, ann * xp.len())->0;
    let b = s + d / ann;
    lemma_y_search_settles(d, b, c, d, 0);
    let p = choose|p: int| #[trigger] y_next(p, b, c, d) == y_search(d, b, c, d, 0) && converged(y_search(d, b, c, d, 0)->0, p);
    assert(y_next(p, b, c, d) == balance_for_d(xp, j, d, amplification));
}

} // verus!
