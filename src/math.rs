//! Checked fixed-point kernel: multiplication followed by division with a
//! double-width intermediate, so that `a * b / c` never overflows before the
//! division is taken.
use vstd::prelude::*;
use vstd::arithmetic::power2::{pow2, lemma2_to64, lemma2_to64_rest, lemma_pow2_adds, lemma_pow2_unfold};
use vstd::arithmetic::div_mod::{lemma_div_denominator, lemma_fundamental_div_mod, lemma_fundamental_div_mod_converse};

verus! {

/// Largest value of the balance type.
pub const MAX_BALANCE: u128 = 0xffff_ffff_ffff_ffff_ffff_ffff_ffff_ffff;

/// Reads an optional machine integer as an optional mathematical integer.
pub open spec fn lift(r: Option<u128>) -> Option<int> {
    match r {
        Some(v) => Some(v as int),
        None => None,
    }
}

/// Keeps a mathematical value only when it fits the balance type.
pub open spec fn fit(v: int) -> Option<int> {
    if 0 <= v <= u128::MAX {
        Some(v)
    } else {
        None
    }
}

/// `floor(a * b / c)`, defined when `c` is positive and the quotient fits.
pub open spec fn mul_div_spec(a: int, b: int, c: int) -> Option<int> {
    if c <= 0 {
        None
    } else {
        fit(a * b / c)
    }
}

/// `ceil(a * b / c)`, defined when `c` is positive and the quotient fits.
pub open spec fn mul_div_ceil_spec(a: int, b: int, c: int) -> Option<int> {
    if c <= 0 {
        None
    } else if (a * b) % c == 0 {
        fit(a * b / c)
    } else {
        fit(a * b / c + 1)
    }
}

proof fn lemma_pow2_127()
    ensures
        pow2(127) == 0x8000_0000_0000_0000_0000_0000_0000_0000,
{
    lemma2_to64();
    lemma2_to64_rest();
    lemma_pow2_adds(64, 63);
}

proof fn lemma_quotient_exceeds(a: int, b: int, c: int, x: int, q: int, r: int)
    requires
        0 <= x <= a,
        0 <= b,
        0 < c,
        0 <= r,
        q * c + r == x * b,
        q > u128::MAX,
    ensures
        a * b / c > u128::MAX,
{
    assert(a * b >= q * c) by (nonlinear_arith)
        requires
            0 <= x <= a,
            0 <= b,
            0 <= r,
            q * c + r == x * b,
    ;
    assert((a * b) / c >= (q * c) / c) by (nonlinear_arith)
        requires
            a * b >= q * c,
            c > 0,
    ;
    assert((q * c) / c == q) by (nonlinear_arith)
        requires
            c > 0,
    ;
}

proof fn lemma_next_prefix(a: int, p: int)
    requires
        0 <= a,
        0 < p,
    ensures
        a / p == 2 * (a / (2 * p)) + (a / p) % 2,
        (a / p) % 2 == 0 || (a / p) % 2 == 1,
{
    lemma_div_denominator(a, p, 2);
    assert(p * 2 == 2 * p);
    lemma_fundamental_div_mod(a / p, 2);
}

proof fn lemma_step(pre: int, bit: int, b: int, c: int, q: int, r: int, qb: int, rb: int,
    e1: int, r1: int, e2: int, r2: int)
    requires
        pre * b == q * c + r,
        b == qb * c + rb,
        2 * r == r1 + e1 * c,
        bit == 0 ==> e2 == 0 && r2 == r1,
        bit == 1 ==> r1 + rb == r2 + e2 * c,
        bit == 0 || bit == 1,
    ensures
        (2 * pre + bit) * b == (2 * q + e1 + bit * (qb + e2)) * c + r2,
{
    if bit == 0 {
        assert((2 * pre + bit) * b == (2 * q + e1 + bit * (qb + e2)) * c + r2) by (nonlinear_arith)
            requires
                pre * b == q * c + r,
                2 * r == r1 + e1 * c,
                bit == 0,
                e2 == 0,
                r2 == r1,
        ;
    } else {
        assert((2 * pre + bit) * b == (2 * q + e1 + bit * (qb + e2)) * c + r2) by (nonlinear_arith)
            requires
                pre * b == q * c + r,
                b == qb * c + rb,
                2 * r == r1 + e1 * c,
                r1 + rb == r2 + e2 * c,
                bit == 1,
        ;
    }
}

/// Quotient and remainder of `a * b` by `c`, computed without overflow of the
/// product; `None` when `c` is zero or the quotient does not fit.
pub fn mul_div_rem(a: u128, b: u128, c: u128) -> (res: Option<(u128, u128)>)
    ensures
        res is None <==> (c == 0 || a * b / (c as int) > u128::MAX),
        res matches Some((q, r)) ==> q * c + r == a * b && r < c,
{
    if c == 0 {
        return None;
    }
    let qb: u128 = b / c;
    let rb: u128 = b % c;
    let mut q: u128 = 0;
    let mut r: u128 = 0;
    let mut p: u128 = 0x8000_0000_0000_0000_0000_0000_0000_0000;
    let ghost mut e: nat = 127;
    let ghost mut den: int = 2 * pow2(127) as int;
    proof {
        lemma_fundamental_div_mod(b as int, c as int);
        assert(b == c * qb + rb);
        assert(c * qb == qb * c) by (nonlinear_arith);
        lemma_pow2_127();
        assert(a as int / den == 0) by (nonlinear_arith)
            requires
                den == 2 * 0x8000_0000_0000_0000_0000_0000_0000_0000int,
                0 <= a <= u128::MAX,
        ;
    }
    while p > 0
        invariant
            c > 0,
            b == qb * c + rb,
            rb < c,
            r < c,
            (a as int / den) * b == q * c + r,
            p > 0 ==> p == pow2(e) && den == 2 * pow2(e),
            p == 0 ==> den == 1,
        decreases p,
    {
        proof {
            lemma_next_prefix(a as int, p as int);
        }
        let bit: u128 = (a / p) % 2;
        let r1: u128;
        let e1: u128;
        if r >= c - r {
            r1 = r - (c - r);
            e1 = 1;
        } else {
            r1 = r + r;
            e1 = 0;
        }
        let r2: u128;
        let e2: u128;
        if bit == 1 {
            if r1 >= c - rb {
                r2 = r1 - (c - rb);
                e2 = 1;
            } else {
                r2 = r1 + rb;
                e2 = 0;
            }
        } else {
            r2 = r1;
            e2 = 0;
        }
        let ghost pre: int = a as int / den;
        let ghost newq: int = 2 * q + e1 + bit * (qb + e2);
        proof {
            lemma_step(pre, bit as int, b as int, c as int, q as int, r as int, qb as int,
                rb as int, e1 as int, r1 as int, e2 as int, r2 as int);
            assert(a as int / p as int == 2 * pre + bit);
            assert(a as int / p as int <= a) by (nonlinear_arith)
                requires
                    p >= 1,
                    a >= 0,
            ;
        }
        if q > (MAX_BALANCE - e1) / 2 {
            proof {
                assert(newq > u128::MAX) by (nonlinear_arith)
                    requires
                        q > (u128::MAX - e1) / 2,
                        newq == 2 * q + e1 + bit * (qb + e2),
                        bit >= 0,
                        qb >= 0,
                        e2 >= 0,
                        0 <= e1 <= 1,
                ;
                lemma_quotient_exceeds(a as int, b as int, c as int, a as int / p as int, newq, r2 as int);
            }
            return None;
        }
        let mut q1: u128 = 2 * q + e1;
        if bit == 1 {
            if q1 > MAX_BALANCE - qb || q1 + qb > MAX_BALANCE - e2 {
                proof {
                    lemma_quotient_exceeds(a as int, b as int, c as int, a as int / p as int, newq, r2 as int);
                }
                return None;
            }
            q1 = q1 + qb + e2;
        }
        assert(q1 == newq);
        q = q1;
        r = r2;
        proof {
            if p == 1 {
                den = 1;
            } else {
                den = p as int;
                if e == 0 {
                    lemma2_to64();
                }
                lemma_pow2_unfold(e);
                e = (e - 1) as nat;
            }
        }
        p = p / 2;
    }
    proof {
        assert(a as int / 1 == a);
        lemma_fundamental_div_mod_converse(a * b, c as int, q as int, r as int);
    }
    Some((q, r))
}

/// `floor(a * b / c)`; `None` when `c` is zero or the quotient does not fit.
pub fn mul_div(a: u128, b: u128, c: u128) -> (res: Option<u128>)
    ensures
        lift(res) == mul_div_spec(a as int, b as int, c as int),
{
    match mul_div_rem(a, b, c) {
        Some((q, r)) => {
            proof {
                lemma_fundamental_div_mod_converse(a * b, c as int, q as int, r as int);
            }
            Some(q)
        },
        None => None,
    }
}

/// `ceil(a * b / c)`; `None` when `c` is zero or the quotient does not fit.
pub fn mul_div_ceil(a: u128, b: u128, c: u128) -> (res: Option<u128>)
    ensures
        lift(res) == mul_div_ceil_spec(a as int, b as int, c as int),
{
    match mul_div_rem(a, b, c) {
        Some((q, r)) => {
            proof {
                lemma_fundamental_div_mod_converse(a * b, c as int, q as int, r as int);
            }
            if r == 0 {
                Some(q)
            } else if q == MAX_BALANCE {
                None
            } else {
                Some(q + 1)
            }
        },
        None => {
            proof {
                if c > 0 {
                    assert((a * b) / (c as int) > u128::MAX);
                }
            }
            None
        },
    }
}

} // verus!
