use vstd::prelude::*;

verus! {

/// The fixed-point unit: a value `v` stands for the real number `v / ONE`.
pub const ONE: i64 = 1048576;

/// Largest magnitude of a fixed-point result; arithmetic saturates here.
pub const LIMIT: i64 = 1099511627776;

pub open spec fn abs_int(a: int) -> int {
    if a < 0 { -a } else { a }
}

/// Clamp an exact result into `[-LIMIT, LIMIT]`.
pub open spec fn sat(v: int) -> int {
    if v > LIMIT { LIMIT as int } else if v < -LIMIT { -LIMIT } else { v }
}

/// Integer division rounding toward zero, as Rust's `/` rounds.
pub open spec fn tdiv(a: int, b: int) -> int {
    let q = abs_int(a) / abs_int(b);
    if (a < 0) != (b < 0) { -q } else { q }
}

pub open spec fn add_spec(a: int, b: int) -> int {
    sat(a + b)
}

pub open spec fn sub_spec(a: int, b: int) -> int {
    sat(a - b)
}

pub open spec fn mul_spec(a: int, b: int) -> int {
    sat(tdiv(a * b, ONE as int))
}

pub open spec fn div_spec(a: int, b: int) -> int {
    sat(tdiv(a * ONE, b))
}

/// `r` is the integer square root of `n`.
pub open spec fn is_isqrt(n: int, r: int) -> bool {
    r >= 0 && r * r <= n && n < (r + 1) * (r + 1)
}

pub open spec fn isqrt(n: nat) -> nat
    decreases n,
{
    if n == 0 {
        0
    } else {
        let r = isqrt((n - 1) as nat);
        if (r + 1) * (r + 1) <= n { (r + 1) as nat } else { r }
    }
}

/// Fixed-point square root: the largest `r` with `r * r <= a * ONE`, and 0 for `a <= 0`.
pub open spec fn sqrt_spec(a: int) -> int {
    if a <= 0 { 0 } else { isqrt((a * ONE) as nat) as int }
}

pub proof fn lemma_isqrt(n: nat)
    ensures
        is_isqrt(n as int, isqrt(n) as int),
    decreases n,
{
    if n > 0 {
        lemma_isqrt((n - 1) as nat);
        let r = isqrt((n - 1) as nat) as int;
        if (r + 1) * (r + 1) <= n {
            assert(n < (r + 2) * (r + 2)) by (nonlinear_arith)
                requires
                    n - 1 < (r + 1) * (r + 1),
                    r >= 0,
            ;
        }
    }
}

pub proof fn lemma_isqrt_unique(n: int, a: int, b: int)
    requires
        is_isqrt(n, a),
        is_isqrt(n, b),
    ensures
        a == b,
{
    if a < b {
        assert((a + 1) * (a + 1) <= b * b) by (nonlinear_arith)
            requires
                a + 1 <= b,
                a >= 0,
        ;
    } else if b < a {
        assert((b + 1) * (b + 1) <= a * a) by (nonlinear_arith)
            requires
                b + 1 <= a,
                b >= 0,
        ;
    }
}

pub(crate) fn clamp_wide(v: i128) -> (r: i64)
    ensures
        r as int == sat(v as int),
{
    if v > LIMIT as i128 {
        LIMIT
    } else if v < -(LIMIT as i128) {
        -LIMIT
    } else {
        v as i64
    }
}

pub(crate) fn div_trunc(a: i128, b: i128) -> (r: i128)
    requires
        b != 0,
        a > i128::MIN,
        b > i128::MIN,
    ensures
        r as int == tdiv(a as int, b as int),
{
    let ua: i128 = if a < 0 { -a } else { a };
    let ub: i128 = if b < 0 { -b } else { b };
    let q: i128 = ua / ub;
    assert(0 <= q <= ua) by (nonlinear_arith)
        requires
            ub >= 1,
            ua >= 0,
            q == ua / ub,
    ;
    if (a < 0) != (b < 0) {
        -q
    } else {
        q
    }
}

/// Saturating fixed-point addition.
pub fn fx_add(a: i64, b: i64) -> (r: i64)
    ensures
        r as int == add_spec(a as int, b as int),
{
    clamp_wide(a as i128 + b as i128)
}

/// Saturating fixed-point subtraction.
pub fn fx_sub(a: i64, b: i64) -> (r: i64)
    ensures
        r as int == sub_spec(a as int, b as int),
{
    clamp_wide(a as i128 - b as i128)
}

/// Saturating fixed-point product, rounded toward zero.
pub fn fx_mul(a: i64, b: i64) -> (r: i64)
    ensures
        r as int == mul_spec(a as int, b as int),
{
    let wa = a as i128;
    let wb = b as i128;
    assert(-0x4000_0000_0000_0000_0000_0000_0000_0000 <= wa * wb <= 0x4000_0000_0000_0000_0000_0000_0000_0000)
        by (nonlinear_arith)
        requires
            -0x8000_0000_0000_0000 <= wa <= 0x7fff_ffff_ffff_ffff,
            -0x8000_0000_0000_0000 <= wb <= 0x7fff_ffff_ffff_ffff,
    ;
    clamp_wide(div_trunc(wa * wb, ONE as i128))
}

/// Saturating fixed-point quotient, rounded toward zero.
pub fn fx_div(a: i64, b: i64) -> (r: i64)
    requires
        b != 0,
    ensures
        r as int == div_spec(a as int, b as int),
{
    let wa = a as i128;
    assert(-0x8000_0000_0000_0000_0000_0000 <= wa * 1048576 <= 0x8000_0000_0000_0000_0000_0000) by (nonlinear_arith)
        requires
            -0x8000_0000_0000_0000 <= wa <= 0x7fff_ffff_ffff_ffff,
    ;
    clamp_wide(div_trunc(wa * (ONE as i128), b as i128))
}

fn isqrt_exec(n: u128) -> (r: u128)
    requires
        n < 0x10_0000_0000_0000_0000_0000,
    ensures
        is_isqrt(n as int, r as int),
        r < 0x400_0000_0000,
{
    let mut lo: u128 = 0;
    let mut hi: u128 = 0x400_0000_0000;
    assert(n < hi * hi) by (nonlinear_arith)
        requires
            n < 0x10_0000_0000_0000_0000_0000,
            hi == 0x400_0000_0000,
    ;
    while hi - lo > 1
        invariant
            lo < hi <= 0x400_0000_0000,
            lo * lo <= n,
            n < hi * hi,
        decreases hi - lo,
    {
        let mid: u128 = lo + (hi - lo) / 2;
        assert(mid * mid <= 0x400_0000_0000 * 0x400_0000_0000) by (nonlinear_arith)
            requires
                mid <= 0x400_0000_0000,
        ;
        if mid * mid <= n {
            lo = mid;
        } else {
            hi = mid;
        }
    }
    lo
}

/// Fixed-point square root, rounded down; 0 for inputs that are not positive.
pub fn fx_sqrt(a: i64) -> (r: i64)
    ensures
        r as int == sqrt_spec(a as int),
        r >= 0,
{
    if a <= 0 {
        0
    } else {
        assert(a * 1048576 < 0x10_0000_0000_0000_0000_0000) by (nonlinear_arith)
            requires
                0 < a <= 0x7fff_ffff_ffff_ffff,
        ;
        let n: u128 = a as u128 * (ONE as u128);
        let r = isqrt_exec(n);
        proof {
            lemma_isqrt(n as nat);
            lemma_isqrt_unique(n as int, r as int, isqrt(n as nat) as int);
        }
        r as i64
    }
}

} // verus!
