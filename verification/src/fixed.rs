//! Exact decimal fixed-point numbers.
//!
//! A real quantity is held as a signed count of billionths: the `Fixed`
//! value with raw count `q` stands for the real number `q / SCALE`.  All
//! arithmetic is exact integer arithmetic over `i128` intermediates; an
//! operation whose true result does not fit the raw `i64` range reports
//! `None` instead of wrapping.  Multiplication and division truncate the
//! mathematical result toward zero at the billionth, which the spec-level
//! companions state exactly.
//!
//! The module also converts an IEEE 754 double, given as its raw bit
//! pattern, to a `Fixed` value truncated toward zero; that is how results of
//! the outside numerics library enter verified code.

use vstd::prelude::*;
use vstd::arithmetic::div_mod::{lemma_div_denominator, lemma_div_nonincreasing,
    lemma_fundamental_div_mod};
use vstd::arithmetic::mul::{lemma_mul_inequality, lemma_mul_is_associative};

verus! {

/// Raw counts per unit: one `Fixed` step is a billionth.
pub const SCALE: i64 = 1_000_000_000;

/// A real number held as `q` billionths.
#[derive(Clone, Copy, PartialEq, Eq, Structural, Debug)]
pub struct Fixed {
    pub q: i64,
}

/// The symmetric raw range every operation result is held to.
pub open spec fn fits(v: int) -> bool {
    -0x7fff_ffff_ffff_ffff <= v <= 0x7fff_ffff_ffff_ffff
}

pub open spec fn iabs(a: int) -> int {
    if a >= 0 {
        a
    } else {
        -a
    }
}

/// Integer division truncated toward zero (the divisor must not be zero).
pub open spec fn tdiv(a: int, b: int) -> int {
    if (a >= 0) == (b >= 0) {
        iabs(a) / iabs(b)
    } else {
        -(iabs(a) / iabs(b))
    }
}

/// Raw result of adding two fixed-point numbers, if it fits.
pub open spec fn q_add(a: int, b: int) -> Option<int> {
    if fits(a + b) {
        Some(a + b)
    } else {
        None
    }
}

/// Raw result of subtracting two fixed-point numbers, if it fits.
pub open spec fn q_sub(a: int, b: int) -> Option<int> {
    if fits(a - b) {
        Some(a - b)
    } else {
        None
    }
}

/// Raw result of the product, truncated toward zero at the billionth.
pub open spec fn q_mul(a: int, b: int) -> Option<int> {
    let v = tdiv(a * b, SCALE as int);
    if fits(v) {
        Some(v)
    } else {
        None
    }
}

/// Raw result of the quotient, truncated toward zero at the billionth.
pub open spec fn q_div(a: int, b: int) -> Option<int> {
    let v = tdiv(a * (SCALE as int), b);
    if fits(v) {
        Some(v)
    } else {
        None
    }
}

/// Raw result of dividing a fixed-point number by a positive integer count.
pub open spec fn q_div_int(a: int, n: int) -> int {
    tdiv(a, n)
}

/// Raw midpoint of two fixed-point numbers, if it fits.
pub open spec fn q_mid(a: int, b: int) -> Option<int> {
    let v = tdiv(a + b, 2);
    if fits(v) {
        Some(v)
    } else {
        None
    }
}

/// The raw count carried by an optional result.
pub open spec fn opt_q(r: Option<Fixed>) -> Option<int> {
    match r {
        Some(f) => Some(f.q as int),
        None => None,
    }
}

proof fn lemma_mul_abs_sign(a: int, b: int)
    ensures
        iabs(a * b) == iabs(a) * iabs(b),
        ((a >= 0) == (b >= 0)) ==> a * b >= 0,
        ((a >= 0) != (b >= 0)) ==> a * b <= 0,
{
    assert(iabs(a * b) == iabs(a) * iabs(b) && (((a >= 0) == (b >= 0)) ==> a * b >= 0)
        && (((a >= 0) != (b >= 0)) ==> a * b <= 0)) by (nonlinear_arith);
}

impl Fixed {
    /// Wraps a raw count of billionths.
    pub fn new(q: i64) -> (r: Fixed)
        ensures
            r.q == q,
    {
        Fixed { q }
    }

    /// The fixed-point number standing for a whole integer, if it fits.
    pub fn from_int(v: i64) -> (r: Option<Fixed>)
        ensures
            opt_q(r) == (if fits(v as int * SCALE as int) {
                Some(v as int * SCALE as int)
            } else {
                None::<int>
            }),
    {
        if v >= -9_223_372_036 && v <= 9_223_372_036 {
            Some(Fixed { q: v * SCALE })
        } else {
            None
        }
    }
}

fn abs_u128(x: i64) -> (r: u128)
    ensures
        r as int == iabs(x as int),
{
    if x >= 0 {
        x as u128
    } else {
        let y: i128 = -(x as i128);
        y as u128
    }
}

/// Exact sum; `None` reports a result out of the raw range.
pub fn fx_add(a: Fixed, b: Fixed) -> (r: Option<Fixed>)
    ensures
        opt_q(r) == q_add(a.q as int, b.q as int),
{
    let s: i128 = a.q as i128 + b.q as i128;
    if s < -0x7fff_ffff_ffff_ffffi128 || s > 0x7fff_ffff_ffff_ffffi128 {
        None
    } else {
        Some(Fixed { q: s as i64 })
    }
}

/// Exact difference; `None` reports a result out of the raw range.
pub fn fx_sub(a: Fixed, b: Fixed) -> (r: Option<Fixed>)
    ensures
        opt_q(r) == q_sub(a.q as int, b.q as int),
{
    let s: i128 = a.q as i128 - b.q as i128;
    if s < -0x7fff_ffff_ffff_ffffi128 || s > 0x7fff_ffff_ffff_ffffi128 {
        None
    } else {
        Some(Fixed { q: s as i64 })
    }
}

/// Product truncated toward zero at the billionth.
pub fn fx_mul(a: Fixed, b: Fixed) -> (r: Option<Fixed>)
    ensures
        opt_q(r) == q_mul(a.q as int, b.q as int),
{
    let neg: bool = (a.q < 0) != (b.q < 0);
    let ma: u128 = abs_u128(a.q);
    let mb: u128 = abs_u128(b.q);
    proof {
        lemma_mul_abs_sign(a.q as int, b.q as int);
        assert(ma as int * mb as int <= 0x8000_0000_0000_0000int * 0x8000_0000_0000_0000int)
            by (nonlinear_arith)
            requires
                0 <= ma as int <= 0x8000_0000_0000_0000int,
                0 <= mb as int <= 0x8000_0000_0000_0000int,
        ;
    }
    let p: u128 = ma * mb;
    let d: u128 = p / 1_000_000_000u128;
    if d > 0x7fff_ffff_ffff_ffffu128 {
        None
    } else if neg {
        Some(Fixed { q: -(d as i64) })
    } else {
        Some(Fixed { q: d as i64 })
    }
}

/// Quotient truncated toward zero at the billionth.
pub fn fx_div(a: Fixed, b: Fixed) -> (r: Option<Fixed>)
    requires
        b.q != 0,
    ensures
        opt_q(r) == q_div(a.q as int, b.q as int),
{
    let neg: bool = (a.q < 0) != (b.q < 0);
    let ma: u128 = abs_u128(a.q);
    let mb: u128 = abs_u128(b.q);
    proof {
        lemma_mul_abs_sign(a.q as int, SCALE as int);
        assert(ma as int * SCALE as int <= 0x8000_0000_0000_0000int * 0x8000_0000_0000_0000int)
            by (nonlinear_arith)
            requires
                0 <= ma as int <= 0x8000_0000_0000_0000int,
                SCALE == 1_000_000_000,
        ;
    }
    let p: u128 = ma * 1_000_000_000u128;
    let d: u128 = p / mb;
    if d > 0x7fff_ffff_ffff_ffffu128 {
        None
    } else if neg {
        Some(Fixed { q: -(d as i64) })
    } else {
        Some(Fixed { q: d as i64 })
    }
}

/// Division by a positive integer count; the result always fits.
pub fn fx_div_int(a: Fixed, n: i64) -> (r: Fixed)
    requires
        n >= 1,
    ensures
        r.q == q_div_int(a.q as int, n as int),
{
    let neg: bool = a.q < 0;
    let ma: u128 = abs_u128(a.q);
    let d: u128 = ma / (n as u128);
    proof {
        lemma_div_nonincreasing(ma as int, n as int);
    }
    if neg {
        if d >= 0x8000_0000_0000_0000u128 {
            Fixed { q: i64::MIN }
        } else {
            Fixed { q: -(d as i64) }
        }
    } else {
        Fixed { q: d as i64 }
    }
}

/// Midpoint of two fixed-point numbers, truncated toward zero.
pub fn fx_mid(a: Fixed, b: Fixed) -> (r: Option<Fixed>)
    ensures
        opt_q(r) == q_mid(a.q as int, b.q as int),
{
    let s: i128 = a.q as i128 + b.q as i128;
    let neg: bool = s < 0;
    let m: u128 = if s >= 0 {
        s as u128
    } else {
        (-s) as u128
    };
    let d: u128 = m / 2;
    proof {
        lemma_div_nonincreasing(m as int, 2);
    }
    if d > 0x7fff_ffff_ffff_ffffu128 {
        None
    } else if neg {
        Some(Fixed { q: -(d as i64) })
    } else {
        Some(Fixed { q: d as i64 })
    }
}

// ------------------------------------------------------------------
// Reading an IEEE 754 double, given as raw bits, as a Fixed value.
// ------------------------------------------------------------------

pub open spec fn pow2i(k: nat) -> int
    decreases k,
{
    if k == 0 {
        1
    } else {
        2 * pow2i((k - 1) as nat)
    }
}

pub proof fn lemma_pow2i_pos(k: nat)
    ensures
        pow2i(k) >= 1,
    decreases k,
{
    if k > 0 {
        lemma_pow2i_pos((k - 1) as nat);
    }
}

/// The exponent field: bits 52 to 62.
pub open spec fn bits_exp(b: u64) -> u64 {
    (b / 0x10_0000_0000_0000) % 0x800
}

/// The fraction field: bits 0 to 51.
pub open spec fn bits_frac(b: u64) -> u64 {
    b % 0x10_0000_0000_0000
}

/// The sign bit.
pub open spec fn bits_negative(b: u64) -> bool {
    b / 0x8000_0000_0000_0000 == 1
}

/// The integer significand: the fraction with the hidden leading bit for a
/// normal number, the bare fraction for a subnormal one.
pub open spec fn bits_mantissa(b: u64) -> int {
    if bits_exp(b) == 0 {
        bits_frac(b) as int
    } else {
        bits_frac(b) as int + 0x10_0000_0000_0000
    }
}

/// Magnitude of the encoded number in billionths, truncated toward zero.
/// The encoded magnitude is `mantissa * 2^(e - 1075)` with `e` the exponent
/// field, floored at 1 for subnormal numbers.
pub open spec fn q9_mag(b: u64) -> int {
    let m = bits_mantissa(b);
    let e: int = if bits_exp(b) == 0 {
        1
    } else {
        bits_exp(b) as int
    };
    if e >= 1075 {
        (m * 1_000_000_000) * pow2i((e - 1075) as nat)
    } else {
        (m * 1_000_000_000) / pow2i((1075 - e) as nat)
    }
}

/// The raw billionth count a double's bits stand for, truncated toward
/// zero; `None` for an infinity, a not-a-number, or a magnitude out of the
/// raw range.
pub open spec fn q9_of_bits(b: u64) -> Option<int> {
    if bits_exp(b) == 2047 {
        None
    } else {
        let v: int = if bits_negative(b) {
            -q9_mag(b)
        } else {
            q9_mag(b)
        };
        if fits(v) {
            Some(v)
        } else {
            None
        }
    }
}

pub open spec fn q9_or_zero(b: u64) -> int {
    match q9_of_bits(b) {
        Some(v) => v,
        None => 0,
    }
}

/// The raw count encoded by a sign, a whole part and a billionth part.
pub open spec fn signed_q(neg: bool, ip: u64, fr: u64) -> int {
    if neg {
        -(ip * 1_000_000_000 + fr)
    } else {
        ip * 1_000_000_000 + fr
    }
}

/// Splits a fixed-point number into a sign, a whole part and a billionth
/// part, the shape in which values cross the collaborator boundary.
pub fn fixed_parts(f: Fixed) -> (r: (bool, u64, u64))
    ensures
        signed_q(r.0, r.1, r.2) == f.q as int,
        r.2 < 1_000_000_000,
{
    let neg: bool = f.q < 0;
    let m: u128 = abs_u128(f.q);
    let ip: u64 = (m / 1_000_000_000) as u64;
    let fr: u64 = (m % 1_000_000_000) as u64;
    proof {
        lemma_fundamental_div_mod(m as int, 1_000_000_000);
    }
    (neg, ip, fr)
}

proof fn lemma_pow2i_add(i: nat, j: nat)
    ensures
        pow2i(i + j) == pow2i(i) * pow2i(j),
    decreases j,
{
    if j == 0 {
        assert(pow2i(i + 0) == pow2i(i) * 1);
    } else {
        lemma_pow2i_add(i, (j - 1) as nat);
        assert(pow2i(i + j) == 2 * pow2i((i + j - 1) as nat));
        assert(pow2i(i) * pow2i(j) == pow2i(i) * (2 * pow2i((j - 1) as nat)));
        lemma_mul_is_associative(pow2i(i as nat), 2, pow2i((j - 1) as nat));
        lemma_mul_is_associative(2, pow2i(i as nat), pow2i((j - 1) as nat));
        assert(pow2i(i) * 2 == 2 * pow2i(i));
    }
}

/// Reads a double's raw bits as a fixed-point number.
pub fn bits_to_fixed(b: u64) -> (r: Option<Fixed>)
    ensures
        opt_q(r) == q9_of_bits(b),
{
    let exp: u64 = (b / 0x10_0000_0000_0000) % 0x800;
    let frac: u64 = b % 0x10_0000_0000_0000;
    let neg: bool = b / 0x8000_0000_0000_0000 == 1;
    if exp == 2047 {
        return None;
    }
    let m: u128 = if exp == 0 {
        frac as u128
    } else {
        (frac as u128) + 0x10_0000_0000_0000
    };
    let e: u64 = if exp == 0 {
        1
    } else {
        exp
    };
    let m0: u128 = m * 1_000_000_000;
    let mut mag: u128 = m0;
    if e >= 1075 {
        let k: u64 = e - 1075;
        let mut i: u64 = 0;
        while i < k
            invariant
                i <= k,
                mag as int == m0 as int * pow2i(i as nat),
                mag as int <= 0xffff_ffff_ffff_ffff_ffff_ffff_ffff_ffff,
                q9_mag(b) == m0 as int * pow2i(k as nat),
                m0 == bits_mantissa(b) * 1_000_000_000,
            decreases k - i,
        {
            if mag > 0x7fff_ffff_ffff_ffffu128 {
                proof {
                    lemma_pow2i_add(i as nat, (k - i) as nat);
                    lemma_pow2i_pos(i as nat);
                    lemma_pow2i_pos((k - i) as nat);
                    lemma_mul_is_associative(
                        m0 as int,
                        pow2i(i as nat),
                        pow2i((k - i) as nat),
                    );
                    lemma_mul_inequality(1, pow2i((k - i) as nat), mag as int);
                }
                return None;
            }
            proof {
                assert(pow2i((i + 1) as nat) == 2 * pow2i(i as nat));
                lemma_mul_is_associative(m0 as int, pow2i(i as nat), 2);
            }
            mag = mag * 2;
            i = i + 1;
        }
    } else {
        let k: u64 = 1075 - e;
        let mut i: u64 = 0;
        while i < k
            invariant
                i <= k,
                mag as int == m0 as int / pow2i(i as nat),
                q9_mag(b) == m0 as int / pow2i(k as nat),
                m0 == bits_mantissa(b) * 1_000_000_000,
            decreases k - i,
        {
            proof {
                lemma_pow2i_pos(i as nat);
                lemma_div_denominator(m0 as int, pow2i(i as nat), 2);
                assert(pow2i((i + 1) as nat) == 2 * pow2i(i as nat));
            }
            mag = mag / 2;
            i = i + 1;
        }
    }
    if mag > 0x7fff_ffff_ffff_ffffu128 {
        None
    } else if neg {
        Some(Fixed { q: -(mag as i64) })
    } else {
        Some(Fixed { q: mag as i64 })
    }
}

} // verus!
