//! Integer helpers for fixed-point arithmetic: truncating division and
//! integer square roots, with the bounds the engine proofs need.

use vstd::prelude::*;

verus! {

/// Absolute value of a mathematical integer.
pub open spec fn iabs(a: int) -> int {
    if a >= 0 {
        a
    } else {
        -a
    }
}

/// Division rounded toward zero, for a positive divisor. This is the
/// rounding that all fixed-point divisions in the engine use; it is odd in
/// the numerator (`tdiv(-a, b) == -tdiv(a, b)`), which keeps mirrored
/// configurations exactly symmetric.
pub open spec fn tdiv(a: int, b: int) -> int
    recommends
        b > 0,
{
    if a >= 0 {
        a / b
    } else {
        -((-a) / b)
    }
}

/// `r` is the integer square root (rounded down) of `n`.
pub open spec fn is_sqrt(n: int, r: int) -> bool {
    0 <= r && r * r <= n && n < (r + 1) * (r + 1)
}

/// The integer square root of `n`, rounded down.
pub open spec fn sqrt_floor(n: int) -> int {
    choose|r: int| is_sqrt(n, r)
}

/// The integer square root of `n`, rounded up.
pub open spec fn sqrt_up(n: int) -> int {
    if sqrt_floor(n) * sqrt_floor(n) == n {
        sqrt_floor(n)
    } else {
        sqrt_floor(n) + 1
    }
}

proof fn lemma_sqrt_exists(n: int) by (nonlinear_arith)
    requires
        n >= 0,
    ensures
        exists|r: int| is_sqrt(n, r),
    decreases n,
{
    if n == 0 {
        assert(is_sqrt(0, 0));
    } else {
        lemma_sqrt_exists(n - 1);
        let r = choose|r: int| #[trigger] is_sqrt(n - 1, r);
        if n < (r + 1) * (r + 1) {
            assert(is_sqrt(n, r));
        } else {
            assert(is_sqrt(n, r + 1));
        }
    }
}

proof fn lemma_sqrt_unique(n: int, a: int, b: int) by (nonlinear_arith)
    requires
        is_sqrt(n, a),
        is_sqrt(n, b),
    ensures
        a == b,
{
}

/// A nonnegative integer has an integer square root, and `sqrt_floor`
/// denotes it.
pub proof fn lemma_sqrt_floor_props(n: int)
    requires
        n >= 0,
    ensures
        is_sqrt(n, sqrt_floor(n)),
{
    lemma_sqrt_exists(n);
}

/// Any witness of `is_sqrt(n, r)` is `sqrt_floor(n)`.
pub proof fn lemma_sqrt_floor_is(n: int, r: int)
    requires
        is_sqrt(n, r),
    ensures
        sqrt_floor(n) == r,
{
    assert(is_sqrt(n, sqrt_floor(n)));
    lemma_sqrt_unique(n, sqrt_floor(n), r);
}

/// Integer square root of a `u64`, rounded down, by bisection.
pub fn isqrt64(n: u64) -> (r: u64)
    ensures
        is_sqrt(n as int, r as int),
        r as int == sqrt_floor(n as int),
        r < 4_294_967_296,
{
    let mut lo: u64 = 0;
    let mut hi: u64 = 4_294_967_296;
    assert(n < hi * hi) by (nonlinear_arith)
        requires
            hi == 4_294_967_296 && n <= 0xffff_ffff_ffff_ffffu64,
    ;
    while lo + 1 < hi
        invariant
            0 <= lo < hi <= 4_294_967_296,
            lo * lo <= n,
            n < hi * hi,
        decreases hi - lo,
    {
        let mid: u64 = lo + (hi - lo) / 2;
        assert(lo < mid < hi);
        assert((mid as int) * (mid as int) <= 4_294_967_296int * 4_294_967_296int)
            by (nonlinear_arith)
            requires
                0 <= mid <= 4_294_967_296,
        ;
        let msq: u128 = (mid as u128) * (mid as u128);
        if msq <= n as u128 {
            lo = mid;
        } else {
            hi = mid;
        }
    }
    assert(is_sqrt(n as int, lo as int));
    proof {
        lemma_sqrt_floor_is(n as int, lo as int);
    }
    lo
}

/// Division of an `i64` by a positive divisor, rounded toward zero.
pub fn tdiv64(a: i64, b: i64) -> (q: i64)
    requires
        b > 0,
        a > i64::MIN,
    ensures
        q == tdiv(a as int, b as int),
{
    if a >= 0 {
        ((a as u64) / (b as u64)) as i64
    } else {
        let m: u64 = ((-a) as u64) / (b as u64);
        assert(m <= (-a) as u64) by (nonlinear_arith)
            requires
                m == ((-a) as u64) / (b as u64) && b > 0,
        ;
        -(m as i64)
    }
}

/// Division of an `i128` by a positive divisor, rounded toward zero.
pub fn tdiv128(a: i128, b: i128) -> (q: i128)
    requires
        b > 0,
        a > i128::MIN,
    ensures
        q == tdiv(a as int, b as int),
{
    if a >= 0 {
        ((a as u128) / (b as u128)) as i128
    } else {
        let m: u128 = ((-a) as u128) / (b as u128);
        assert(m <= (-a) as u128) by (nonlinear_arith)
            requires
                m == ((-a) as u128) / (b as u128) && b > 0,
        ;
        -(m as i128)
    }
}

/// Truncating division never increases magnitude, and `iabs(tdiv(a, b)) * b`
/// stays below `iabs(a)`.
pub proof fn lemma_tdiv_mag(a: int, b: int) by (nonlinear_arith)
    requires
        b > 0,
    ensures
        iabs(tdiv(a, b)) * b <= iabs(a),
        iabs(tdiv(a, b)) <= iabs(a),
        tdiv(-a, b) == -tdiv(a, b),
{
}

/// If `iabs(a) <= b * c` then the truncated quotient stays within `c`.
pub proof fn lemma_tdiv_bound(a: int, b: int, c: int) by (nonlinear_arith)
    requires
        b > 0,
        0 <= c,
        iabs(a) <= b * c,
    ensures
        iabs(tdiv(a, b)) <= c,
{
}

} // verus!
