//! Fixed-point numbers.
//!
//! Every continuous quantity of the editor (a pixel position, a time in
//! measures or ticks, a pitch in steps, a zoom factor, a duration in
//! seconds) is held as a signed count of 1/65536ths in an `i64`.  The spec
//! functions here work on `int`, so that contracts can speak of exact values;
//! the executable functions compute the same values in 128-bit arithmetic.

use vstd::prelude::*;

verus! {

/// A real number `r` held as the integer `r * 65536`.
pub type Fixed = i64;

/// The number 1.
pub const ONE: Fixed = 65536;

/// The number 1/2.
pub const HALF: Fixed = 32768;

/// Whether `v` can be held in a `Fixed`.
pub open spec fn fits(v: int) -> bool {
    i64::MIN <= v <= i64::MAX
}

/// The integer nearest to `n / d`, for `d > 0`; a tie goes away from zero.
pub open spec fn round_div(n: int, d: int) -> int
    recommends
        d > 0,
{
    if n >= 0 {
        (2 * n + d) / (2 * d)
    } else {
        -((d - 2 * n) / (2 * d))
    }
}

/// The integer nearest to the fixed-point number `v`; a tie goes away from zero.
pub open spec fn round(v: int) -> int {
    round_div(v, ONE as int)
}

/// The largest integer that is not above the fixed-point number `v`.
pub open spec fn floor(v: int) -> int {
    v / (ONE as int)
}

/// The smallest integer that is not below the fixed-point number `v`.
pub open spec fn ceil(v: int) -> int {
    -((-v) / (ONE as int))
}

/// `v` brought into the range of `Fixed`.
pub open spec fn clamp(v: int) -> Fixed {
    if v < i64::MIN {
        i64::MIN
    } else if v > i64::MAX {
        i64::MAX
    } else {
        v as i64
    }
}

/// `v` brought into the range of `i16`.
pub open spec fn clamp_i16(v: int) -> i16 {
    if v < i16::MIN {
        i16::MIN
    } else if v > i16::MAX {
        i16::MAX
    } else {
        v as i16
    }
}

/// A product of a difference of two `i64` and an `i64` stays within 128 bits,
/// with room left to add one more `i64`.
pub(crate) proof fn lemma_wide_product(a: int, b: int)
    by (nonlinear_arith)
    requires
        -0x1_0000_0000_0000_0000 < a < 0x1_0000_0000_0000_0000,
        -0x8000_0000_0000_0000 <= b <= 0x8000_0000_0000_0000,
    ensures
        -0x7fff_ffff_ffff_ffff_8000_0000_0000_0000 <= a * b
            <= 0x7fff_ffff_ffff_ffff_8000_0000_0000_0000,
{
}

/// A product is no further from zero than the product of its factors' bounds.
pub(crate) proof fn lemma_product_bound(a: int, b: int, ma: int, mb: int)
    by (nonlinear_arith)
    requires
        -ma <= a <= ma,
        -mb <= b <= mb,
    ensures
        -(ma * mb) <= a * b <= ma * mb,
{
}

/// Floor division by a positive number brings a value no further from zero.
pub(crate) proof fn lemma_floor_div_bound(a: int, d: int, m: int)
    by (nonlinear_arith)
    requires
        d > 0,
        m >= 0,
        -m <= a <= m,
    ensures
        -m <= a / d <= m,
{
}

/// `a / d` rounded down, for a positive `d`.
pub(crate) fn floor_div(a: i128, d: i128) -> (q: i128)
    requires
        d > 0,
    ensures
        q == a / d,
{
    proof {
        lemma_floor_div_range(a as int, d as int);
    }
    match a.checked_div_euclid(d) {
        Some(q) => q,
        None => 0,
    }
}

/// Floor division by a positive number lands between the dividend and zero.
pub(crate) proof fn lemma_floor_div_range(a: int, d: int)
    by (nonlinear_arith)
    requires
        d > 0,
    ensures
        a >= 0 ==> 0 <= a / d <= a,
        a < 0 ==> a <= a / d < 0,
{
}

/// Whether the positive number `d` divides `n`.
pub(crate) fn divides(d: i64, n: i64) -> (r: bool)
    requires
        d > 0,
    ensures
        r == (n % d == 0),
{
    match n.checked_rem_euclid(d) {
        Some(rest) => rest == 0,
        None => false,
    }
}

/// The product of two `i64`, which always fits in 128 bits.
pub(crate) fn mul_wide(a: i64, b: i64) -> (p: i128)
    ensures
        p == a * b,
{
    proof {
        lemma_wide_product(a as int, b as int);
    }
    (a as i128) * (b as i128)
}

/// `floor(a * b / d)` in 128 bits, where `a` is a difference of two `i64`.
pub(crate) fn mul_div_wide(a: i128, b: i64, d: i64) -> (q: i128)
    requires
        -0x1_0000_0000_0000_0000 < a < 0x1_0000_0000_0000_0000,
        d > 0,
    ensures
        q == (a * b) / (d as int),
        -0x7fff_ffff_ffff_ffff_8000_0000_0000_0000 <= q,
        q <= 0x7fff_ffff_ffff_ffff_8000_0000_0000_0000,
{
    proof {
        lemma_wide_product(a as int, b as int);
        lemma_floor_div_bound(a * b, d as int, 0x7fff_ffff_ffff_ffff_8000_0000_0000_0000);
    }
    let p: i128 = a * (b as i128);
    floor_div(p, d as i128)
}

/// `v` as a `Fixed`, where it fits.
pub(crate) fn narrow(v: i128) -> (r: Option<Fixed>)
    ensures
        r == (if fits(v as int) { Some(v as i64) } else { None }),
{
    if v < i64::MIN as i128 || v > i64::MAX as i128 {
        None
    } else {
        Some(v as i64)
    }
}

/// The value that `v` has once it is brought into the range of `Fixed`.
pub(crate) fn saturate(v: i128) -> (r: Fixed)
    ensures
        r == clamp(v as int),
{
    if v < i64::MIN as i128 {
        i64::MIN
    } else if v > i64::MAX as i128 {
        i64::MAX
    } else {
        v as i64
    }
}

/// The value that `v` has once it is brought into the range of `i16`.
pub(crate) fn saturate_i16(v: i128) -> (r: i16)
    ensures
        r == clamp_i16(v as int),
{
    if v < i16::MIN as i128 {
        i16::MIN
    } else if v > i16::MAX as i128 {
        i16::MAX
    } else {
        v as i16
    }
}

/// The integer nearest to `n / d`, a tie going away from zero.
pub(crate) fn nearest(n: i128, d: i128) -> (q: i128)
    requires
        -0x1_0000_0000_0000_0000_0000_0000 <= n <= 0x1_0000_0000_0000_0000_0000_0000,
        0 < d <= 0x10_0000,
    ensures
        q == round_div(n as int, d as int),
        -n <= q <= n || n <= q <= -n,
{
    proof {
        lemma_floor_div_range(2 * n + d, 2 * d);
        lemma_floor_div_range(d - 2 * n, 2 * d);
        lemma_round_div_bound(n as int, d as int);
    }
    if n >= 0 {
        (2 * n + d) / (2 * d)
    } else {
        -((d - 2 * n) / (2 * d))
    }
}

/// Rounding to the nearest integer brings a value no further from zero.
pub(crate) proof fn lemma_round_div_bound(n: int, d: int)
    by (nonlinear_arith)
    requires
        d > 0,
    ensures
        n >= 0 ==> 0 <= (2 * n + d) / (2 * d) <= n,
        n < 0 ==> 0 <= (d - 2 * n) / (2 * d) <= -n,
{
}

/// The integer nearest to `v`, a tie going away from zero, brought into the
/// range of `i16`.
pub fn round_to_i16(v: Fixed) -> (r: i16)
    ensures
        r == clamp_i16(round(v as int)),
{
    saturate_i16(nearest(v as i128, ONE as i128))
}

} // verus!
