//! How far a component of an offset has to grow for the offset to reach a given length.

use vstd::prelude::*;

verus! {

/// Whether `k` is at least `a * c / d`, where `d` is the square root of `d2`.
pub open spec fn reaches(k: int, a: int, d2: int, c: int) -> bool {
    k * k * d2 >= a * a * c * c
}

pub open spec fn step_from(k: int, a: int, d2: int, c: int) -> int
    decreases c - k,
{
    if k >= c || reaches(k, a, d2, c) {
        k
    } else {
        step_from(k + 1, a, d2, c)
    }
}

/// The least `k` from 0 to `c` with `k >= a * c / d`, where `d` is the square
/// root of `d2`: the component `a` of an offset of squared length `d2`, scaled
/// so that the offset has length `c`, and rounded up to a whole number.
pub open spec fn outward_step(a: int, d2: int, c: int) -> int {
    step_from(0, a, d2, c)
}

pub proof fn lemma_reaches_grows(j: int, k: int, a: int, d2: int, c: int)
    requires
        0 <= j <= k,
        0 <= d2,
        reaches(j, a, d2, c),
    ensures
        reaches(k, a, d2, c),
{
    assert(j * j <= k * k) by (nonlinear_arith)
        requires
            0 <= j <= k,
    ;
    assert(j * j * d2 <= k * k * d2) by (nonlinear_arith)
        requires
            j * j <= k * k,
            0 <= d2,
    ;
}

proof fn lemma_step_from(lo: int, k: int, a: int, d2: int, c: int)
    requires
        0 <= lo <= k <= c,
        0 <= d2,
        reaches(k, a, d2, c) || k == c,
        k == 0 || !reaches(k - 1, a, d2, c),
    ensures
        step_from(lo, a, d2, c) == k,
    decreases k - lo,
{
    if lo < k {
        if reaches(lo, a, d2, c) {
            lemma_reaches_grows(lo, k - 1, a, d2, c);
        }
        lemma_step_from(lo + 1, k, a, d2, c);
    }
}

/// What tells the outward step: it reaches, and the number before it does not.
pub proof fn lemma_outward_step(a: int, d2: int, c: int)
    requires
        0 <= c,
        0 < d2,
        a * a <= d2,
    ensures
        0 <= outward_step(a, d2, c) <= c,
        reaches(outward_step(a, d2, c), a, d2, c),
        outward_step(a, d2, c) == 0 || !reaches(outward_step(a, d2, c) - 1, a, d2, c),
        a == 0 ==> outward_step(a, d2, c) == 0,
        a != 0 && c > 0 ==> outward_step(a, d2, c) > 0,
        a * a == d2 ==> outward_step(a, d2, c) == c,
{
    lemma_reaches_at_clearance(a, d2, c);
    lemma_least(0, a, d2, c);
    let k = outward_step(a, d2, c);
    if a == 0 {
        assert(reaches(0, a, d2, c)) by (nonlinear_arith)
            requires
                a == 0,
        ;
    }
    if a != 0 && c > 0 {
        assert(!reaches(0, a, d2, c)) by (nonlinear_arith)
            requires
                a != 0,
                c > 0,
        ;
    }
    if a * a == d2 && k < c {
        assert(k * k < c * c) by (nonlinear_arith)
            requires
                0 <= k < c,
        ;
        assert(k * k * d2 < c * c * d2) by (nonlinear_arith)
            requires
                k * k < c * c,
                0 < d2,
        ;
        assert(a * a * c * c == c * c * d2) by (nonlinear_arith)
            requires
                a * a == d2,
        ;
    }
}

proof fn lemma_reaches_at_clearance(a: int, d2: int, c: int)
    requires
        a * a <= d2,
    ensures
        reaches(c, a, d2, c),
{
    assert(c * c * d2 >= a * a * c * c) by (nonlinear_arith)
        requires
            a * a <= d2,
    ;
}

proof fn lemma_least(lo: int, a: int, d2: int, c: int)
    requires
        0 <= lo <= c,
        reaches(c, a, d2, c),
        lo == 0 || !reaches(lo - 1, a, d2, c),
    ensures
        lo <= step_from(lo, a, d2, c) <= c,
        reaches(step_from(lo, a, d2, c), a, d2, c),
        step_from(lo, a, d2, c) == 0 || !reaches(step_from(lo, a, d2, c) - 1, a, d2, c),
    decreases c - lo,
{
    if lo < c && !reaches(lo, a, d2, c) {
        lemma_least(lo + 1, a, d2, c);
    }
}

/// The outward step of `a`, computed by bisection.
pub fn outward_step_of(a: i64, d2: i64, c: i64) -> (out: i64)
    requires
        0 <= a,
        a * a <= d2,
        0 < d2 < 0x800_0000_0000_0000,
        0 <= c <= 0x800_0000,
    ensures
        out == outward_step(a as int, d2 as int, c as int),
        0 <= out <= c,
{
    let target: u128 = square_product(a, d2, c);
    let mut lo: i64 = 0;
    let mut hi: i64 = c;
    proof {
        lemma_reaches_at_clearance(a as int, d2 as int, c as int);
    }
    while lo < hi
        invariant
            0 <= lo <= hi <= c,
            0 <= c <= 0x800_0000,
            0 < d2 < 0x800_0000_0000_0000,
            target == a * a * c * c,
            reaches(hi as int, a as int, d2 as int, c as int),
            lo == 0 || !reaches(lo - 1, a as int, d2 as int, c as int),
        decreases hi - lo,
    {
        let mid: i64 = lo + (hi - lo) / 2;
        if grown(mid, d2, c) >= target {
            hi = mid;
        } else {
            lo = mid + 1;
        }
    }
    proof {
        lemma_step_from(0, lo as int, a as int, d2 as int, c as int);
    }
    lo
}

/// `a * a * c * c`.
fn square_product(a: i64, d2: i64, c: i64) -> (out: u128)
    requires
        0 <= a,
        a * a <= d2,
        0 < d2 < 0x800_0000_0000_0000,
        0 <= c <= 0x800_0000,
    ensures
        out == a * a * c * c,
{
    assert(c * c <= 0x800_0000 * 0x800_0000) by (nonlinear_arith)
        requires
            0 <= c <= 0x800_0000,
    ;
    assert(a * a * (c * c) <= 0x800_0000_0000_0000 * (0x800_0000 * 0x800_0000)) by (nonlinear_arith)
        requires
            0 <= a * a <= 0x800_0000_0000_0000,
            0 <= c * c <= 0x800_0000 * 0x800_0000,
    ;
    assert(a * a * c * c == a * a * (c * c)) by (nonlinear_arith);
    let aa: u128 = (a as u128) * (a as u128);
    let cc: u128 = (c as u128) * (c as u128);
    aa * cc
}

/// `k * k * d2`.
fn grown(k: i64, d2: i64, c: i64) -> (out: u128)
    requires
        0 <= k <= c,
        0 < d2 < 0x800_0000_0000_0000,
        0 <= c <= 0x800_0000,
    ensures
        out == k * k * d2,
{
    assert(k * k <= 0x800_0000 * 0x800_0000) by (nonlinear_arith)
        requires
            0 <= k <= 0x800_0000,
    ;
    assert(k * k * d2 <= 0x800_0000 * 0x800_0000 * 0x800_0000_0000_0000) by (nonlinear_arith)
        requires
            0 <= k * k <= 0x800_0000 * 0x800_0000,
            0 <= d2 <= 0x800_0000_0000_0000,
    ;
    let kk: u128 = (k as u128) * (k as u128);
    kk * (d2 as u128)
}

} // verus!
