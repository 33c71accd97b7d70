use vstd::prelude::*;

use vstd::arithmetic::power2::pow2;
use vstd::arithmetic::power2::lemma_pow2_strictly_increases;
use vstd::arithmetic::power2::lemma_pow2_unfold;

use rustc_apfloat::Float;
use rustc_apfloat::Round;
use rustc_apfloat::ieee::Single;

verus! {

/// The textual rendering of the IEEE-754 single-precision value with this
/// bit pattern, as the formatter of the underlying float library produces
/// it.  It depends on the bits alone.  The rendering agrees with the
/// usual machine formatting on short decimals ("1.5", "7") but differs
/// on infinities ("+Inf") and on magnitudes that call for its scientific
/// notation.
pub uninterp spec fn number_text(bits: u32) -> Seq<char>;

/// The bit pattern of the IEEE-754 single-precision sum of the two values
/// with these bit patterns, rounded to nearest, ties to even.
pub uninterp spec fn number_sum(a: u32, b: u32) -> u32;

/// The bit pattern of the IEEE-754 single-precision value rounded toward
/// negative infinity to an integral value.
pub uninterp spec fn number_floor(bits: u32) -> u32;

/// The bit pattern of the IEEE-754 single-precision value rounded toward
/// positive infinity to an integral value.
pub uninterp spec fn number_ceil(bits: u32) -> u32;

/// Relies on rustc_apfloat: `ieee::Single::from_bits` and the `Display`
/// rendering of a single-precision float, a function of the bits alone.
#[verifier::external_body]
pub(crate) fn format_number(bits: u32) -> (r: String)
    ensures
        r@ == number_text(bits),
{
    let value = Single::from_bits(bits as u128);
    format!("{}", value)
}

/// Relies on rustc_apfloat: `Float::add_r` with rounding to nearest, ties
/// to even, the IEEE-754 default used by hardware addition.
#[verifier::external_body]
pub(crate) fn add_numbers(a: u32, b: u32) -> (r: u32)
    ensures
        r == number_sum(a, b),
{
    let x = Single::from_bits(a as u128);
    let y = Single::from_bits(b as u128);
    x.add_r(y, Round::NearestTiesToEven).value.to_bits() as u32
}

/// Relies on rustc_apfloat: `Float::round_to_integral` toward negative
/// infinity.
#[verifier::external_body]
pub(crate) fn floor_number(bits: u32) -> (r: u32)
    ensures
        r == number_floor(bits),
{
    let x = Single::from_bits(bits as u128);
    x.round_to_integral(Round::TowardNegative).value.to_bits() as u32
}

/// Relies on rustc_apfloat: `Float::round_to_integral` toward positive
/// infinity.
#[verifier::external_body]
pub(crate) fn ceil_number(bits: u32) -> (r: u32)
    ensures
        r == number_ceil(bits),
{
    let x = Single::from_bits(bits as u128);
    x.round_to_integral(Round::TowardPositive).value.to_bits() as u32
}

/// The value of the single-precision number with this bit pattern,
/// truncated toward zero to a natural number.  Negative values and NaN
/// truncate to zero; positive infinity is treated as larger than any
/// machine integer.
pub open spec fn number_trunc(bits: u32) -> nat {
    let sign = bits / 0x8000_0000;
    let e = (bits / 0x80_0000) % 0x100;
    let frac = bits % 0x80_0000;
    if sign == 1 {
        0
    } else if e == 255 {
        if frac != 0 {
            0
        } else {
            pow2(128)
        }
    } else if e < 127 {
        0
    } else {
        let m = (0x80_0000 + frac) as nat;
        if e <= 150 {
            m / pow2((150 - e) as nat)
        } else {
            m * pow2((e - 150) as nat)
        }
    }
}

/// The count a number denotes when the bytecode asks for "so many"
/// operands or arguments: its value truncated toward zero, saturated to
/// the machine's word.
pub open spec fn number_count(bits: u32) -> nat {
    if number_trunc(bits) > usize::MAX as nat {
        usize::MAX as nat
    } else {
        number_trunc(bits)
    }
}

/// Whether the single-precision value with this bit pattern is strictly
/// greater than zero: its sign is positive, it is not a zero, and it is
/// not NaN.
pub open spec fn number_positive(bits: u32) -> bool {
    let e = (bits / 0x80_0000) % 0x100;
    let frac = bits % 0x80_0000;
    bits < 0x8000_0000 && bits != 0 && !(e == 255 && frac != 0)
}

/// Two raised to a small power, as a machine word.
fn pow2_u64(k: u32) -> (r: u64)
    requires
        k < 64,
    ensures
        r == pow2(k as nat),
{
    let mut r: u64 = 1;
    let mut i: u32 = 0;
    proof {
        vstd::arithmetic::power2::lemma2_to64();
    }
    while i < k
        invariant
            i <= k < 64,
            r == pow2(i as nat),
        decreases k - i,
    {
        proof {
            lemma_pow2_strictly_increases(i as nat, 63);
            vstd::arithmetic::power2::lemma2_to64_rest();
            lemma_pow2_unfold((i + 1) as nat);
        }
        r = r * 2;
        i = i + 1;
    }
    r
}

/// Truncate the number with this bit pattern toward zero and saturate to
/// the machine's word, as a cast from a float to an unsigned machine
/// integer behaves.
pub fn count_from_number(bits: u32) -> (r: usize)
    ensures
        r == number_count(bits),
{
    let sign = bits / 0x8000_0000;
    let e = (bits / 0x80_0000) % 0x100;
    let frac = bits % 0x80_0000;
    if sign == 1 {
        return 0;
    }
    if e == 255 {
        if frac != 0 {
            return 0;
        }
        proof {
            vstd::arithmetic::power2::lemma2_to64();
            lemma_pow2_strictly_increases(64, 128);
            assert(usize::MAX as nat <= u64::MAX as nat);
        }
        return usize::MAX;
    }
    if e < 127 {
        return 0;
    }
    let m: u64 = (0x80_0000 + frac) as u64;
    if e <= 150 {
        let d = pow2_u64(150 - e);
        proof {
            vstd::arithmetic::power2::lemma_pow2_pos((150 - e) as nat);
        }
        let q = m / d;
        proof {
            assert(q <= m) by {
                vstd::arithmetic::div_mod::lemma_div_is_ordered_by_denominator(
                    m as int,
                    1,
                    d as int,
                );
            }
        }
        return q as usize;
    }
    let shift = e - 150;
    if shift >= 41 {
        proof {
            if shift > 41 {
                lemma_pow2_strictly_increases(41, shift as nat);
            }
            assert(m * pow2(shift as nat) >= 0x80_0000 * pow2(41)) by (nonlinear_arith)
                requires
                    m >= 0x80_0000,
                    pow2(shift as nat) >= pow2(41),
            ;
            vstd::arithmetic::power2::lemma2_to64();
            vstd::arithmetic::power2::lemma2_to64_rest();
            vstd::arithmetic::power2::lemma_pow2_adds(23, 41);
            assert(0x80_0000 * pow2(41) == pow2(64));
            assert(usize::MAX as nat <= u64::MAX as nat);
        }
        return usize::MAX;
    }
    let d = pow2_u64(shift);
    proof {
        vstd::arithmetic::power2::lemma_pow2_pos(shift as nat);
        if shift < 40 {
            lemma_pow2_strictly_increases(shift as nat, 40);
        }
        assert(m * d <= 0xFF_FFFF * pow2(40)) by (nonlinear_arith)
            requires
                0 < m <= 0xFF_FFFF,
                0 < d <= pow2(40),
        ;
        vstd::arithmetic::power2::lemma_pow2_adds(24, 40);
        vstd::arithmetic::power2::lemma2_to64();
        vstd::arithmetic::power2::lemma2_to64_rest();
        assert(0xFF_FFFF * pow2(40) == pow2(64) - pow2(40));
    }
    let v = m * d;
    if v > usize::MAX as u64 {
        usize::MAX
    } else {
        v as usize
    }
}

/// Whether the number with this bit pattern is strictly positive, as the
/// comparison of the float against zero decides it.
pub fn number_is_positive(bits: u32) -> (r: bool)
    ensures
        r == number_positive(bits),
{
    let e = (bits / 0x80_0000) % 0x100;
    let frac = bits % 0x80_0000;
    bits < 0x8000_0000 && bits != 0 && !(e == 255 && frac != 0)
}

} // verus!
