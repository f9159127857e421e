//! IEEE-754 binary64 numbers held as their 64-bit pattern.
//!
//! The runtime stores a float as the raw bits that `f64::to_bits` gives, and
//! everything the value layer needs of a float (its equality, whether it is
//! exactly an integer) is computed from those bits.
use vstd::arithmetic::power2::{lemma_pow2_pos, pow2};
use vstd::bits::{lemma_u64_low_bits_mask_is_mod, lemma_u64_shl_is_mul, lemma_u64_shr_is_div, low_bits_mask};
use vstd::prelude::*;

verus! {

/// Exponent bias plus the width of the significand field: a normal number
/// with biased exponent `e` and full significand `s` is `s * 2^(e - 1075)`.
pub const EXP_SHIFT: u64 = 1075;

pub open spec fn sign_bit(b: u64) -> bool {
    (b >> 63u64) == 1
}

pub open spec fn exp_field(b: u64) -> u64 {
    (b >> 52u64) & 0x7ffu64
}

pub open spec fn frac_field(b: u64) -> u64 {
    b & 0xf_ffff_ffff_ffffu64
}

pub open spec fn is_nan(b: u64) -> bool {
    exp_field(b) == 0x7ff && frac_field(b) != 0
}

pub open spec fn is_infinite(b: u64) -> bool {
    exp_field(b) == 0x7ff && frac_field(b) == 0
}

/// Positive or negative zero.
pub open spec fn is_zero(b: u64) -> bool {
    b & 0x7fff_ffff_ffff_ffffu64 == 0
}

/// IEEE equality of two binary64 numbers: NaN equals nothing, the two zeros
/// are equal, and otherwise equal values have equal bit patterns.
pub open spec fn float_eq(a: u64, b: u64) -> bool {
    !is_nan(a) && !is_nan(b) && (a == b || (is_zero(a) && is_zero(b)))
}

/// The full significand of a normal number, hidden bit included.
pub open spec fn significand(b: u64) -> int {
    frac_field(b) + pow2(52)
}

pub open spec fn apply_sign(b: u64, m: int) -> int {
    if sign_bit(b) {
        -m
    } else {
        m
    }
}

/// The number's value when it is finite and a whole number, `None` otherwise
/// (NaN, an infinity, or a value with a fractional part).
pub open spec fn exact_int(b: u64) -> Option<int> {
    let e = exp_field(b);
    if e == 0x7ff {
        None
    } else if e == 0 {
        // zero or subnormal: a subnormal lies strictly between -1 and 1
        if frac_field(b) == 0 {
            Some(0)
        } else {
            None
        }
    } else if e >= EXP_SHIFT {
        Some(apply_sign(b, significand(b) * pow2((e - EXP_SHIFT) as nat)))
    } else if significand(b) % (pow2((EXP_SHIFT - e) as nat) as int) == 0 {
        Some(apply_sign(b, significand(b) / (pow2((EXP_SHIFT - e) as nat) as int)))
    } else {
        None
    }
}

/// `2^63`, the least whole number above `i64::MAX`.
pub open spec fn two_pow_63() -> int {
    0x8000_0000_0000_0000
}

/// Whether the float with bits `b` is exactly the integer `i`: finite, with
/// no fractional part, and of the same value.
pub open spec fn int_float_eq(i: i64, b: u64) -> bool {
    exact_int(b) == Some(i as int)
}

/// The `i64` that a float is exactly, if any.
pub open spec fn float_as_exact_int(b: u64) -> Option<i64> {
    match exact_int(b) {
        Some(v) => if i64::MIN <= v <= i64::MAX {
            Some(v as i64)
        } else {
            None
        },
        None => None,
    }
}

/// IEEE equality on bit patterns.
pub fn float_equal(a: u64, b: u64) -> (r: bool)
    ensures
        r == float_eq(a, b),
{
    let a_nan = (a >> 52u64) & 0x7ffu64 == 0x7ff && a & 0xf_ffff_ffff_ffffu64 != 0;
    let b_nan = (b >> 52u64) & 0x7ffu64 == 0x7ff && b & 0xf_ffff_ffff_ffffu64 != 0;
    !a_nan && !b_nan && (a == b || (a & 0x7fff_ffff_ffff_ffffu64 == 0 && b & 0x7fff_ffff_ffff_ffffu64
        == 0))
}

/// The integer that the float with bits `b` stands for exactly, if any.
pub fn float_to_int(b: u64) -> (r: Option<i64>)
    ensures
        r == float_as_exact_int(b),
        forall|i: i64| r == Some(i) <==> int_float_eq(i, b),
{
    let e = (b >> 52u64) & 0x7ffu64;
    let frac = b & 0xf_ffff_ffff_ffffu64;
    let neg = (b >> 63u64) == 1;
    assert(e < 2048) by (bit_vector)
        requires
            e == (b >> 52u64) & 0x7ffu64,
    ;
    assert(frac < 0x10_0000_0000_0000) by (bit_vector)
        requires
            frac == b & 0xf_ffff_ffff_ffffu64,
    ;
    proof {
        vstd::arithmetic::power2::lemma2_to64();
        vstd::arithmetic::power2::lemma2_to64_rest();
    }
    let sig: u64 = frac + 0x10_0000_0000_0000u64;
    assert(sig == significand(b));
    if e == 0x7ff {
        None
    } else if e == 0 {
        if frac == 0 {
            Some(0)
        } else {
            None
        }
    } else if e >= EXP_SHIFT {
        let k: u64 = e - EXP_SHIFT;
        if k > 11 || (k == 11 && frac != 0) {
            proof {
                lemma_big_magnitude(sig, k);
            }
            None
        } else if k == 11 {
            assert(exact_int(b) == Some(apply_sign(b, two_pow_63())));
            if neg {
                Some(i64::MIN)
            } else {
                None
            }
        } else {
            proof {
                lemma_small_magnitude(sig, k);
            }
            let m: u64 = sig << k;
            if neg {
                Some(-(m as i64))
            } else {
                Some(m as i64)
            }
        }
    } else {
        let k: u64 = EXP_SHIFT - e;
        if k >= 53 {
            proof {
                lemma_fraction_left(sig, k);
            }
            None
        } else {
            proof {
                lemma_pow2_pos(k as nat);
                vstd::bits::lemma_u64_pow2_no_overflow(k as nat);
                lemma_u64_shl_is_mul(1, k);
            }
            let mask: u64 = (1u64 << k) - 1;
            proof {
                lemma_mask_and_shift(sig, k, mask);
            }
            if sig & mask == 0 {
                let m: u64 = sig >> k;
                if neg {
                    Some(-(m as i64))
                } else {
                    Some(m as i64)
                }
            } else {
                None
            }
        }
    }
}

proof fn lemma_big_magnitude(sig: u64, k: u64)
    requires
        pow2(52) <= sig < pow2(53),
        k >= 11,
        k == 11 ==> sig != pow2(52),
    ensures
        sig * pow2(k as nat) > two_pow_63(),
{
    vstd::arithmetic::power2::lemma2_to64();
        vstd::arithmetic::power2::lemma2_to64_rest();
    vstd::arithmetic::power2::lemma_pow2_adds(52, 11);
    if k == 11 {
        assert(sig * pow2(11) > pow2(52) * pow2(11)) by (nonlinear_arith)
            requires
                sig > pow2(52),
                pow2(11) > 0,
        ;
    } else {
        vstd::arithmetic::power2::lemma_pow2_strictly_increases(11, k as nat);
        assert(sig * pow2(k as nat) > pow2(52) * pow2(11)) by (nonlinear_arith)
            requires
                sig >= pow2(52),
                pow2(11) < pow2(k as nat),
                pow2(52) > 0,
        ;
    }
}

proof fn lemma_small_magnitude(sig: u64, k: u64)
    requires
        pow2(52) <= sig < pow2(53),
        k < 11,
    ensures
        sig * pow2(k as nat) < two_pow_63(),
        (sig << k) == sig * pow2(k as nat),
{
    vstd::arithmetic::power2::lemma2_to64();
    vstd::arithmetic::power2::lemma2_to64_rest();
    let kn: nat = k as nat;
    vstd::arithmetic::power2::lemma_pow2_adds(53, kn);
    let top: nat = 53 + kn;
    if top < 63 {
        vstd::arithmetic::power2::lemma_pow2_strictly_increases(top, 63);
    }
    assert(sig * pow2(k as nat) < pow2(53) * pow2(k as nat)) by (nonlinear_arith)
        requires
            sig < pow2(53),
            pow2(k as nat) > 0,
    ;
    lemma_pow2_pos(k as nat);
    lemma_u64_shl_is_mul(sig, k);
}

proof fn lemma_fraction_left(sig: u64, k: u64)
    requires
        pow2(52) <= sig < pow2(53),
        53 <= k,
    ensures
        sig as int % (pow2(k as nat) as int) != 0,
{
    lemma_pow2_pos(52);
    if k > 53 {
        vstd::arithmetic::power2::lemma_pow2_strictly_increases(53, k as nat);
    }
    vstd::arithmetic::div_mod::lemma_small_mod(sig as nat, pow2(k as nat));
}

proof fn lemma_mask_and_shift(sig: u64, k: u64, mask: u64)
    requires
        1 <= k < 53,
        mask == (1u64 << k) - 1,
    ensures
        (sig & mask) == sig as int % (pow2(k as nat) as int),
        (sig >> k) == sig as int / (pow2(k as nat) as int),
        (sig >> k) <= sig,
{
    vstd::arithmetic::power2::lemma2_to64();
        vstd::arithmetic::power2::lemma2_to64_rest();
    lemma_pow2_pos(k as nat);
    vstd::bits::lemma_u64_pow2_no_overflow(k as nat);
    lemma_u64_shl_is_mul(1, k);
    vstd::bits::lemma_low_bits_mask_values();
    assert(low_bits_mask(k as nat) == pow2(k as nat) - 1) by {
        vstd::bits::lemma_low_bits_mask_unfold(k as nat);
    }
    lemma_u64_low_bits_mask_is_mod(sig, k as nat);
    lemma_u64_shr_is_div(sig, k);
    vstd::arithmetic::div_mod::lemma_div_is_ordered_by_denominator(sig as int, 1, pow2(k as nat) as int);
}

/// How many low bits must be dropped from `n` to leave at most 53
/// significant bits.
pub open spec fn dropped_bits(n: nat) -> nat
    decreases n,
{
    if n < 0x20_0000_0000_0000 {
        0
    } else {
        1 + dropped_bits(n / 2)
    }
}

/// `n` rounded to the nearest number with at most 53 significant bits, ties
/// to an even last kept bit: the magnitude of `n as f64`.
pub open spec fn round_magnitude(n: nat) -> int {
    let p = pow2(dropped_bits(n)) as int;
    let q = n as int / p;
    let r = n as int % p;
    let kept = if 2 * r > p || (2 * r == p && q % 2 == 1) {
        q + 1
    } else {
        q
    };
    kept * p
}

/// The value of `i as f64`, round to nearest, ties to even.
pub open spec fn int_to_float_value(i: int) -> int {
    if i < 0 {
        -round_magnitude((-i) as nat)
    } else {
        round_magnitude(i as nat)
    }
}

/// The float's value truncated toward zero, for a number that is not NaN
/// (an infinity stands in as `2^64` with its sign).
pub open spec fn truncated(b: u64) -> int {
    let e = exp_field(b);
    if e == 0x7ff {
        apply_sign(b, 0x1_0000_0000_0000_0000)
    } else if e == 0 {
        0
    } else if e >= EXP_SHIFT {
        apply_sign(b, significand(b) * pow2((e - EXP_SHIFT) as nat))
    } else {
        apply_sign(b, significand(b) / (pow2((EXP_SHIFT - e) as nat) as int))
    }
}

/// The value of `f as i64`: NaN gives 0, others truncate toward zero and
/// saturate at the bounds of `i64`.
pub open spec fn float_to_i64_cast(b: u64) -> i64 {
    if is_nan(b) {
        0
    } else if truncated(b) > i64::MAX {
        i64::MAX
    } else if truncated(b) < i64::MIN {
        i64::MIN
    } else {
        truncated(b) as i64
    }
}

proof fn lemma_dropped_bits_of_scaled(sig: nat, j: nat)
    requires
        pow2(52) <= sig < pow2(53),
    ensures
        dropped_bits(sig * pow2(j)) == j,
    decreases j,
{
    vstd::arithmetic::power2::lemma2_to64();
    vstd::arithmetic::power2::lemma2_to64_rest();
    if j == 0 {
        assert(sig * pow2(0) == sig);
    } else {
        vstd::arithmetic::power2::lemma_pow2_unfold(j);
        lemma_pow2_pos((j - 1) as nat);
        let rest = sig * pow2((j - 1) as nat);
        assert(sig * pow2(j) == 2 * rest) by (nonlinear_arith)
            requires
                pow2(j) == 2 * pow2((j - 1) as nat),
                rest == sig * pow2((j - 1) as nat),
        ;
        assert(rest >= sig) by (nonlinear_arith)
            requires
                rest == sig * pow2((j - 1) as nat),
                pow2((j - 1) as nat) >= 1,
        ;
        assert((2 * rest) / 2 == rest);
        assert(sig * pow2(j) >= 0x20_0000_0000_0000);
        assert(dropped_bits(sig * pow2(j)) == 1 + dropped_bits(rest));
        lemma_dropped_bits_of_scaled(sig, (j - 1) as nat);
    }
}

/// A whole number that a float holds exactly is left unchanged by rounding.
proof fn lemma_representable_rounds_to_itself(b: u64)
    requires
        exact_int(b) is Some,
    ensures
        int_to_float_value(exact_int(b)->0) == exact_int(b)->0,
        truncated(b) == exact_int(b)->0,
{
    vstd::arithmetic::power2::lemma2_to64();
    vstd::arithmetic::power2::lemma2_to64_rest();
    let e = exp_field(b);
    assert(frac_field(b) < 0x10_0000_0000_0000) by (bit_vector);
    let sig = significand(b) as nat;
    if e == 0 {
        assert(dropped_bits(0) == 0);
        assert(round_magnitude(0) == 0);
    } else if e >= EXP_SHIFT {
        let j = (e - EXP_SHIFT) as nat;
        let m = sig * pow2(j);
        lemma_pow2_pos(j);
        lemma_dropped_bits_of_scaled(sig, j);
        vstd::arithmetic::div_mod::lemma_div_multiples_vanish(sig as int, pow2(j) as int);
        vstd::arithmetic::div_mod::lemma_mod_multiples_basic(sig as int, pow2(j) as int);
        assert(m as int / pow2(j) as int == sig) by {
            vstd::arithmetic::mul::lemma_mul_is_commutative(sig as int, pow2(j) as int);
        }
        assert(m as int % pow2(j) as int == 0) by {
            vstd::arithmetic::mul::lemma_mul_is_commutative(sig as int, pow2(j) as int);
        }
        assert(round_magnitude(m) == m);
    } else {
        let k = (EXP_SHIFT - e) as nat;
        lemma_pow2_pos(k);
        let m = sig as int / pow2(k) as int;
        vstd::arithmetic::div_mod::lemma_div_is_ordered_by_denominator(sig as int, 1, pow2(k) as int);
        assert(m < 0x20_0000_0000_0000);
        assert(dropped_bits(m as nat) == 0);
        assert(round_magnitude(m as nat) == m);
    }
}

proof fn lemma_round_of_extremes()
    ensures
        round_magnitude(0x7fff_ffff_ffff_ffff) == two_pow_63(),
        round_magnitude(0x8000_0000_0000_0000) == two_pow_63(),
{
    vstd::arithmetic::power2::lemma2_to64();
    vstd::arithmetic::power2::lemma2_to64_rest();
    reveal_with_fuel(dropped_bits, 12);
    assert(dropped_bits(0x7fff_ffff_ffff_ffff) == 10);
    assert(dropped_bits(0x8000_0000_0000_0000) == 11);
}

/// Integer/float equality against the two casts: an integer and a float are
/// equal exactly when the float's value is that of `i as f64` and `f as i64`
/// gives back `i`, but for the float `2^63`. That float lies out of reach of
/// `i64` and equals no integer, though `i64::MAX as f64` rounds to it and it
/// saturates back to `i64::MAX`.
pub proof fn lemma_int_float_eq_is_cast_round_trip(i: i64, f: u64)
    ensures
        int_float_eq(i, f) <==> (exact_int(f) == Some(int_to_float_value(i as int))
            && float_to_i64_cast(f) == i && exact_int(f) != Some(two_pow_63())),
{
    lemma_round_of_extremes();
    if let Some(v) = exact_int(f) {
        lemma_representable_rounds_to_itself(f);
        assert(!is_nan(f));
    }
}

/// NaN, the infinities and whole numbers out of reach of `i64` equal no
/// integer.
pub proof fn lemma_int_float_eq_excludes(i: i64, f: u64)
    requires
        is_nan(f) || is_infinite(f) || (exact_int(f) matches Some(v) && (v < i64::MIN || v
            > i64::MAX)),
    ensures
        !int_float_eq(i, f),
{
}

} // verus!
