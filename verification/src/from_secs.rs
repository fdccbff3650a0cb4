//! Correctly-rounded conversion from the bit pattern of an IEEE-754
//! seconds value to a duration.
//!
//! A naive conversion (multiplying the seconds by a billion in floating
//! point and casting) loses precision for large values and rounds
//! incorrectly near binary/decimal boundaries. Here the bit pattern is
//! decomposed into significand and exponent, all scaling is performed in a
//! fixed-point integer workspace wide enough to be lossless, and the
//! discarded low bits drive an explicit round-half-to-even step. One
//! algorithm serves both float widths through two parameter sets: mantissa
//! bits and precision offset are 52 and 44 for the 64-bit encoding, 23 and
//! 41 for the 32-bit one.

use vstd::prelude::*;

use vstd::arithmetic::div_mod::{lemma_fundamental_div_mod, lemma_fundamental_div_mod_converse,
    lemma_mod_bound, lemma_multiply_divide_lt};
use vstd::arithmetic::mul::{lemma_mul_inequality, lemma_mul_strict_inequality,
    lemma_mul_upper_bound};
use vstd::arithmetic::power2::{lemma2_to64, lemma2_to64_rest, lemma_pow2_adds, lemma_pow2_pos,
    lemma_pow2_strictly_increases, pow2};

use crate::duration::{lemma_repr_of, repr_of_total, DurRepr, Duration};
use crate::round::{lemma_rhe_below, lemma_rhe_le, lemma_rhe_linear, lemma_rhe_shift,
    lemma_rhe_zero, lemma_shift_div, pow2_u128, pow2_u64, rhe};

verus! {

/// The mantissa field of an encoding with `mbits` mantissa bits: its low
/// `mbits` bits.
pub open spec fn field_mant(bits: int, mbits: nat) -> int {
    bits % pow2(mbits) as int
}

/// The exponent field: the `ebits` bits above the mantissa field.
pub open spec fn field_exp(bits: int, mbits: nat, ebits: nat) -> int {
    (bits / pow2(mbits) as int) % pow2(ebits) as int
}

/// The sign bit: the bit above the exponent field.
pub open spec fn field_sign(bits: int, mbits: nat, ebits: nat) -> int {
    bits / pow2(mbits + ebits) as int
}

/// The significand of the encoded value: the mantissa field with the
/// implicit leading bit for a normal value, the bare field for a subnormal
/// one (including zero).
pub open spec fn float_sig(bits: int, mbits: nat, ebits: nat) -> int {
    if field_exp(bits, mbits, ebits) == 0 {
        field_mant(bits, mbits)
    } else {
        field_mant(bits, mbits) + pow2(mbits)
    }
}

/// The binary exponent `e` such that the encoded value is
/// `sig * 2^(e - mbits)` seconds. Subnormal values share the smallest
/// normal exponent; the bias arithmetic handles them with no special case.
pub open spec fn float_exp(bits: int, mbits: nat, ebits: nat) -> int {
    let bias = pow2((ebits - 1) as nat) - 1;
    if field_exp(bits, mbits, ebits) == 0 {
        1 - bias
    } else {
        field_exp(bits, mbits, ebits) - bias
    }
}

/// Whether the bits encode a NaN: an all-ones exponent field with a
/// nonzero mantissa field.
pub open spec fn float_is_nan(bits: int, mbits: nat, ebits: nat) -> bool {
    field_exp(bits, mbits, ebits) == pow2(ebits) - 1 && field_mant(bits, mbits) != 0
}

/// Whether the bits encode a value below zero: the sign bit is set and the
/// value is neither a NaN nor a negative zero.
pub open spec fn float_is_neg(bits: int, mbits: nat, ebits: nat) -> bool {
    &&& field_sign(bits, mbits, ebits) == 1
    &&& !float_is_nan(bits, mbits, ebits)
    &&& !(field_exp(bits, mbits, ebits) == 0 && field_mant(bits, mbits) == 0)
}

/// The encoded value in nanoseconds, correctly rounded half-to-even: the
/// exact value is `sig * 2^(e - mbits)` seconds, so a billion times that,
/// rounded, when the power is negative, and exact otherwise.
pub open spec fn float_total_nanos(bits: int, mbits: nat, ebits: nat) -> int {
    let sig = float_sig(bits, mbits, ebits);
    let e = float_exp(bits, mbits, ebits);
    if e >= mbits {
        sig * pow2((e - mbits) as nat) * 1_000_000_000
    } else {
        rhe(sig * 1_000_000_000, (mbits - e) as nat)
    }
}

/// The duration a float-seconds bit pattern converts to: absent for a
/// negative value, a NaN, an infinity, or a magnitude of 2^64 seconds or
/// more; otherwise the correctly rounded nanosecond total, split into
/// whole seconds and a nanosecond remainder.
pub open spec fn float_bits_to_dur(bits: int, mbits: nat, ebits: nat) -> Option<DurRepr> {
    if float_is_neg(bits, mbits, ebits) || float_is_nan(bits, mbits, ebits) || float_exp(
        bits,
        mbits,
        ebits,
    ) >= 64 {
        None
    } else {
        Some(repr_of_total(float_total_nanos(bits, mbits, ebits)))
    }
}

/// `rhe(tmp / 2^shift)` computed from the wide fixed-point value: the top
/// bits are the truncated quotient and the discarded remainder decides the
/// rounding, upward only past the half-way point or at an exact tie with
/// an odd quotient.
fn shift_round_even(tmp: u128, shift: u32) -> (r: u32)
    requires
        1 <= shift < 128,
        (tmp as int / pow2(shift as nat) as int) < 1_000_000_000,
    ensures
        r == rhe(tmp as int, shift as nat),
        r <= 1_000_000_000,
{
    proof {
        lemma_pow2_pos(shift as nat);
        lemma_mod_bound(tmp as int, pow2(shift as nat) as int);
        lemma_rhe_le(tmp as int, shift as nat);
        lemma_pow2_pos((shift - 1) as nat);
    }
    let w = pow2_u128(shift);
    let half = pow2_u128(shift - 1);
    let q = (tmp / w) as u32;
    let rem = tmp % w;
    if rem > half || (rem == half && q % 2 == 1) {
        q + 1
    } else {
        q
    }
}

impl Duration {
    /// Creates a `Duration` from the bit pattern of a 64-bit IEEE-754
    /// seconds value: the correctly rounded (half-to-even) duration in
    /// nanoseconds, or the absent duration when the value is negative,
    /// not finite, or at least 2^64 seconds.
    pub fn from_secs_f64_bits(bits: u64) -> (r: Duration)
        ensures
            r@ == float_bits_to_dur(bits as int, 52, 11),
    {
        proof {
            lemma2_to64();
            lemma2_to64_rest();
        }
        let mant_field: u64 = bits % 0x10_0000_0000_0000;
        let exp_field: u64 = (bits / 0x10_0000_0000_0000) % 0x800;
        let sign: u64 = bits / 0x8000_0000_0000_0000;
        let ghost bi = bits as int;
        let ghost sig = float_sig(bi, 52, 11);
        let ghost e = float_exp(bi, 52, 11);
        proof {
            assert(field_mant(bi, 52) == mant_field);
            assert(field_exp(bi, 52, 11) == exp_field);
            assert(field_sign(bi, 52, 11) == sign);
            assert(mant_field < pow2(52) && exp_field < pow2(11)) by {
                lemma_mod_bound(bi, pow2(52) as int);
                lemma_mod_bound(bi / pow2(52) as int, pow2(11) as int);
            };
            assert(sig < pow2(53));
        }
        let is_nan = exp_field == 0x7FF && mant_field != 0;
        if sign == 1 && !is_nan && !(exp_field == 0 && mant_field == 0) {
            return Duration::absent();
        }
        let exp: i32 = exp_field as i32 - 1023;
        if exp < -31 {
            // the value is below half a nanosecond and rounds to zero; the
            // bias arithmetic routes every subnormal value through here
            proof {
                lemma_mul_upper_bound(sig, pow2(53) as int - 1, 1_000_000_000, pow2(30) as int - 1);
                lemma_pow2_adds(53, 30);
                lemma_pow2_adds(83, 1);
                assert(2 * (sig * 1_000_000_000) < pow2(84));
                assert(52 - e >= 84);
                if 52 - e > 84 {
                    lemma_pow2_strictly_increases(84, (52 - e) as nat);
                }
                lemma_rhe_zero(sig * 1_000_000_000, (52 - e) as nat);
                lemma_repr_of(0, 0, 0);
            }
            return Duration::zero();
        }
        if exp >= 64 {
            // 2^64 seconds or more (infinities and NaNs land here too)
            return Duration::absent();
        }
        let mant: u64 = mant_field + 0x10_0000_0000_0000;
        proof {
            assert(exp_field > 0);
            assert(sig == mant);
            assert(e == exp);
        }
        if exp < 0 {
            // sub-one-second: scale losslessly to a 96-bit fixed point,
            // multiply by a billion, and round the discarded 96 bits
            let ghost s = (52 - e) as nat;
            let ghost p = sig * 1_000_000_000;
            let pw: u128 = pow2_u128((44 + exp) as u32);
            proof {
                assert(pow2((44 + e) as nat) <= pow2(43)) by {
                    if 44 + e < 43 {
                        lemma_pow2_strictly_increases((44 + e) as nat, 43);
                    }
                };
                lemma_mul_upper_bound(mant as int, pow2(53) as int, pow2((44 + e) as nat) as int,
                    pow2(43) as int);
                lemma_pow2_adds(53, 43);
                lemma_pow2_adds(96, 30);
            }
            let t: u128 = (mant as u128) * pw;
            let tmp: u128 = t * 1_000_000_000;
            proof {
                assert(tmp as int == p * pow2((96 - s) as nat)) by (nonlinear_arith)
                    requires
                        t == mant * pow2((44 + e) as nat),
                        tmp == t * 1_000_000_000,
                        p == sig * 1_000_000_000,
                        sig == mant,
                        pow2((96 - s) as nat) == pow2((44 + e) as nat),
                ;
                assert(pow2(53) <= pow2(s)) by {
                    if 53 < s {
                        lemma_pow2_strictly_increases(53, s);
                    }
                };
                lemma_mul_strictly_increases_or_eq(sig, pow2(s) as int, 1_000_000_000);
                lemma_multiply_divide_lt(p, pow2(s) as int, 1_000_000_000);
                lemma_shift_div(p, s, (96 - s) as nat);
                lemma_rhe_shift(p, s, (96 - s) as nat);
            }
            let nanos = shift_round_even(tmp, 96);
            if nanos == 1_000_000_000 {
                // rounding carried the fraction up to a whole second
                proof {
                    lemma_repr_of(1_000_000_000, 1, 0);
                }
                Duration::from_repr(Some(DurRepr { secs: 1, nanos: 0 }))
            } else {
                proof {
                    lemma_repr_of(nanos as int, 0, nanos);
                }
                Duration::from_repr(Some(DurRepr { secs: 0, nanos }))
            }
        } else if exp < 52 {
            // both whole seconds and a fraction: split the significand,
            // then scale and round the fractional part as above
            let ghost s = (52 - e) as nat;
            let pw: u64 = pow2_u64((52 - exp) as u32);
            let secs: u64 = mant / pw;
            let r0: u64 = mant % pw;
            let pe: u128 = pow2_u128(exp as u32);
            proof {
                lemma_mod_bound(mant as int, pw as int);
                lemma_pow2_pos(e as nat);
                lemma_pow2_adds(s, e as nat);
                lemma_mul_upper_bound(r0 as int, pow2(s) as int - 1, pow2(e as nat) as int,
                    pow2(e as nat) as int);
                assert((pow2(s) as int - 1) * pow2(e as nat) < pow2(s) * pow2(e as nat))
                    by (nonlinear_arith)
                    requires
                        pow2(e as nat) >= 1,
                ;
                lemma_pow2_adds(52, 30);
            }
            let frac: u128 = (r0 as u128) * pe;
            let tmp: u128 = frac * 1_000_000_000;
            let ghost pf = r0 * 1_000_000_000;
            proof {
                assert(tmp as int == pf * pow2(e as nat)) by (nonlinear_arith)
                    requires
                        frac == r0 * pow2(e as nat),
                        tmp == frac * 1_000_000_000,
                        pf == r0 * 1_000_000_000,
                ;
                lemma_mul_strictly_increases_or_eq(r0 as int, pow2(s) as int, 1_000_000_000);
                lemma_multiply_divide_lt(pf, pow2(s) as int, 1_000_000_000);
                lemma_shift_div(pf, s, e as nat);
                lemma_rhe_shift(pf, s, e as nat);
                assert(s + e == 52);
            }
            let nanos = shift_round_even(tmp, 52);
            proof {
                // the whole total splits off the seconds: a billion times
                // the second count is even, so the tie parity is unchanged
                lemma_fundamental_div_mod(mant as int, pw as int);
                assert((secs * 1_000_000_000) % 2 == 0) by {
                    lemma_fundamental_div_mod_converse(
                        secs * 1_000_000_000,
                        2,
                        secs * 500_000_000,
                        0,
                    );
                };
                assert(sig * 1_000_000_000 == (secs * 1_000_000_000) * pow2(s) + r0
                    * 1_000_000_000) by (nonlinear_arith)
                    requires
                        sig == secs * pow2(s) + r0,
                ;
                lemma_rhe_linear(secs * 1_000_000_000, r0 * 1_000_000_000, s);
            }
            if nanos == 1_000_000_000 {
                proof {
                    lemma_repr_of((secs + 1) * 1_000_000_000, (secs + 1) as u64, 0);
                }
                Duration::from_repr(Some(DurRepr { secs: secs + 1, nanos: 0 }))
            } else {
                proof {
                    lemma_repr_of(secs * 1_000_000_000 + nanos, secs, nanos);
                }
                Duration::from_repr(Some(DurRepr { secs, nanos }))
            }
        } else {
            // no fractional part at this magnitude: an exact second count
            let pw: u64 = pow2_u64((exp - 52) as u32);
            proof {
                assert(pow2((e - 52) as nat) <= pow2(11)) by {
                    if e - 52 < 11 {
                        lemma_pow2_strictly_increases((e - 52) as nat, 11);
                    }
                };
                lemma_mul_upper_bound(mant as int, pow2(53) as int - 1, pw as int,
                    pow2(11) as int);
                lemma_pow2_adds(53, 11);
            }
            let secs: u64 = mant * pw;
            proof {
                lemma_repr_of(secs * 1_000_000_000, secs, 0);
                assert(float_total_nanos(bi, 52, 11) == secs * 1_000_000_000) by (nonlinear_arith)
                    requires
                        float_total_nanos(bi, 52, 11) == sig * pow2((e - 52) as nat)
                            * 1_000_000_000,
                        secs == sig * pow2((e - 52) as nat),
                ;
            }
            Duration::from_repr(Some(DurRepr { secs, nanos: 0 }))
        }
    }

    /// Creates a `Duration` from the bit pattern of a 32-bit IEEE-754
    /// seconds value: the correctly rounded (half-to-even) duration in
    /// nanoseconds, or the absent duration when the value is negative,
    /// not finite, or at least 2^64 seconds. At this precision the rounded
    /// fraction can never reach a whole second, so unlike the 64-bit
    /// conversion no carry into the seconds is needed; that is proved, not
    /// assumed.
    pub fn from_secs_f32_bits(bits: u32) -> (r: Duration)
        ensures
            r@ == float_bits_to_dur(bits as int, 23, 8),
    {
        proof {
            lemma2_to64();
            lemma2_to64_rest();
        }
        let mant_field: u32 = bits % 0x80_0000;
        let exp_field: u32 = (bits / 0x80_0000) % 0x100;
        let sign: u32 = bits / 0x8000_0000;
        let ghost bi = bits as int;
        let ghost sig = float_sig(bi, 23, 8);
        let ghost e = float_exp(bi, 23, 8);
        proof {
            assert(field_mant(bi, 23) == mant_field);
            assert(field_exp(bi, 23, 8) == exp_field);
            assert(field_sign(bi, 23, 8) == sign);
            assert(mant_field < pow2(23) && exp_field < pow2(8)) by {
                lemma_mod_bound(bi, pow2(23) as int);
                lemma_mod_bound(bi / pow2(23) as int, pow2(8) as int);
            };
            assert(sig < pow2(24));
        }
        let is_nan = exp_field == 0xFF && mant_field != 0;
        if sign == 1 && !is_nan && !(exp_field == 0 && mant_field == 0) {
            return Duration::absent();
        }
        let exp: i32 = exp_field as i32 - 127;
        if exp < -31 {
            // the value is below half a nanosecond and rounds to zero; the
            // bias arithmetic routes every subnormal value through here
            proof {
                lemma_mul_upper_bound(sig, pow2(24) as int - 1, 1_000_000_000, pow2(30) as int - 1);
                lemma_pow2_adds(24, 30);
                lemma_pow2_adds(54, 1);
                assert(2 * (sig * 1_000_000_000) < pow2(55));
                assert(23 - e >= 55);
                if 23 - e > 55 {
                    lemma_pow2_strictly_increases(55, (23 - e) as nat);
                }
                lemma_rhe_zero(sig * 1_000_000_000, (23 - e) as nat);
                lemma_repr_of(0, 0, 0);
            }
            return Duration::zero();
        }
        if exp >= 64 {
            // 2^64 seconds or more (infinities and NaNs land here too)
            return Duration::absent();
        }
        let mant: u32 = mant_field + 0x80_0000;
        proof {
            assert(exp_field > 0);
            assert(sig == mant);
            assert(e == exp);
        }
        if exp < 0 {
            // sub-one-second: scale losslessly to a 64-bit fixed point,
            // multiply by a billion, and round the discarded 64 bits
            let ghost s = (23 - e) as nat;
            let ghost p = sig * 1_000_000_000;
            let pw: u128 = pow2_u128((41 + exp) as u32);
            proof {
                assert(pow2((41 + e) as nat) <= pow2(40)) by {
                    if 41 + e < 40 {
                        lemma_pow2_strictly_increases((41 + e) as nat, 40);
                    }
                };
                lemma_mul_upper_bound(mant as int, pow2(24) as int, pow2((41 + e) as nat) as int,
                    pow2(40) as int);
                lemma_pow2_adds(24, 40);
                lemma_pow2_adds(64, 30);
            }
            let t: u128 = (mant as u128) * pw;
            let tmp: u128 = t * 1_000_000_000;
            proof {
                assert(tmp as int == p * pow2((64 - s) as nat)) by (nonlinear_arith)
                    requires
                        t == mant * pow2((41 + e) as nat),
                        tmp == t * 1_000_000_000,
                        p == sig * 1_000_000_000,
                        sig == mant,
                        pow2((64 - s) as nat) == pow2((41 + e) as nat),
                ;
                assert(pow2(24) <= pow2(s)) by {
                    if 24 < s {
                        lemma_pow2_strictly_increases(24, s);
                    }
                };
                lemma_mul_strictly_increases_or_eq(sig, pow2(s) as int, 1_000_000_000);
                lemma_multiply_divide_lt(p, pow2(s) as int, 1_000_000_000);
                lemma_shift_div(p, s, (64 - s) as nat);
                lemma_rhe_shift(p, s, (64 - s) as nat);
                // with at most 24 significand bits the rounded fraction
                // stays strictly below one second
                lemma_mul_inequality(sig, pow2(24) as int - 1, 1_000_000_000);
                assert((2 * 1_000_000_000 - 1) * pow2(24) <= (2 * 1_000_000_000 - 1) * pow2(
                    s,
                )) by (nonlinear_arith)
                    requires
                        pow2(24) <= pow2(s),
                ;
                lemma_rhe_below(p, s, 1_000_000_000);
            }
            let nanos = shift_round_even(tmp, 64);
            proof {
                lemma_repr_of(nanos as int, 0, nanos);
            }
            Duration::from_repr(Some(DurRepr { secs: 0, nanos }))
        } else if exp < 23 {
            // both whole seconds and a fraction: split the significand,
            // then scale and round the fractional part as above
            let ghost s = (23 - e) as nat;
            let pw: u64 = pow2_u64((23 - exp) as u32);
            let m64: u64 = mant as u64;
            let secs: u64 = m64 / pw;
            let r0: u64 = m64 % pw;
            let pe: u128 = pow2_u128(exp as u32);
            proof {
                lemma_mod_bound(m64 as int, pw as int);
                lemma_pow2_pos(e as nat);
                lemma_pow2_adds(s, e as nat);
                lemma_mul_upper_bound(r0 as int, pow2(s) as int - 1, pow2(e as nat) as int,
                    pow2(e as nat) as int);
                assert((pow2(s) as int - 1) * pow2(e as nat) < pow2(s) * pow2(e as nat))
                    by (nonlinear_arith)
                    requires
                        pow2(e as nat) >= 1,
                ;
                lemma_pow2_adds(23, 30);
            }
            let frac: u128 = (r0 as u128) * pe;
            let tmp: u128 = frac * 1_000_000_000;
            let ghost pf = r0 * 1_000_000_000;
            proof {
                assert(tmp as int == pf * pow2(e as nat)) by (nonlinear_arith)
                    requires
                        frac == r0 * pow2(e as nat),
                        tmp == frac * 1_000_000_000,
                        pf == r0 * 1_000_000_000,
                ;
                lemma_mul_strictly_increases_or_eq(r0 as int, pow2(s) as int, 1_000_000_000);
                lemma_multiply_divide_lt(pf, pow2(s) as int, 1_000_000_000);
                lemma_shift_div(pf, s, e as nat);
                lemma_rhe_shift(pf, s, e as nat);
                assert(s + e == 23);
                // the fractional remainder is below the divisor, so its
                // rounded value stays strictly below one second
                lemma_mul_inequality(r0 as int, pow2(s) as int - 1, 1_000_000_000);
                assert(pow2(s) <= pow2(23)) by {
                    if s < 23 {
                        lemma_pow2_strictly_increases(s, 23);
                    }
                };
                assert(2 * ((pow2(s) as int - 1) * 1_000_000_000) < (2 * 1_000_000_000 - 1)
                    * pow2(s)) by (nonlinear_arith)
                    requires
                        0 < pow2(s) <= pow2(23),
                        pow2(23) == 0x80_0000,
                ;
                lemma_rhe_below(pf, s, 1_000_000_000);
            }
            let nanos = shift_round_even(tmp, 23);
            proof {
                lemma_fundamental_div_mod(m64 as int, pw as int);
                assert((secs * 1_000_000_000) % 2 == 0) by {
                    lemma_fundamental_div_mod_converse(
                        secs * 1_000_000_000,
                        2,
                        secs * 500_000_000,
                        0,
                    );
                };
                assert(sig * 1_000_000_000 == (secs * 1_000_000_000) * pow2(s) + r0
                    * 1_000_000_000) by (nonlinear_arith)
                    requires
                        sig == secs * pow2(s) + r0,
                ;
                lemma_rhe_linear(secs * 1_000_000_000, r0 * 1_000_000_000, s);
                lemma_repr_of(secs * 1_000_000_000 + nanos, secs, nanos);
            }
            Duration::from_repr(Some(DurRepr { secs, nanos }))
        } else {
            // no fractional part at this magnitude: an exact second count
            let pw: u64 = pow2_u64((exp - 23) as u32);
            proof {
                assert(pow2((e - 23) as nat) <= pow2(40)) by {
                    if e - 23 < 40 {
                        lemma_pow2_strictly_increases((e - 23) as nat, 40);
                    }
                };
                lemma_mul_upper_bound(mant as int, pow2(24) as int - 1, pw as int,
                    pow2(40) as int);
                lemma_pow2_adds(24, 40);
            }
            let secs: u64 = (mant as u64) * pw;
            proof {
                lemma_repr_of(secs * 1_000_000_000, secs, 0);
                assert(float_total_nanos(bi, 23, 8) == secs * 1_000_000_000) by (nonlinear_arith)
                    requires
                        float_total_nanos(bi, 23, 8) == sig * pow2((e - 23) as nat)
                            * 1_000_000_000,
                        secs == sig * pow2((e - 23) as nat),
                ;
            }
            Duration::from_repr(Some(DurRepr { secs, nanos: 0 }))
        }
    }
}

/// A positive factor of at least one can only grow a nonnegative value.
proof fn lemma_mul_strictly_increases_or_eq(x: int, b: int, f: int)
    requires
        0 <= x < b,
        1 <= f,
    ensures
        x * f < b * f,
{
    lemma_mul_strict_inequality(x, b, f);
}

/// A seconds value whose exact nanosecond total is a whole number of
/// nanoseconds converts to exactly that number: for such values the
/// conversion is exact, with no rounding error at all.
pub proof fn lemma_converts_exact_value(bits: int, mbits: nat, ebits: nat)
    requires
        0 <= bits,
        float_exp(bits, mbits, ebits) < mbits,
        (float_sig(bits, mbits, ebits) * 1_000_000_000) % pow2(
            (mbits - float_exp(bits, mbits, ebits)) as nat,
        ) as int == 0,
    ensures
        float_total_nanos(bits, mbits, ebits) == (float_sig(bits, mbits, ebits) * 1_000_000_000)
            / pow2((mbits - float_exp(bits, mbits, ebits)) as nat) as int,
{
    let p = float_sig(bits, mbits, ebits) * 1_000_000_000;
    let s = (mbits - float_exp(bits, mbits, ebits)) as nat;
    lemma_pow2_pos(mbits);
    lemma_mod_bound(bits, pow2(mbits) as int);
    vstd::arithmetic::mul::lemma_mul_nonnegative(float_sig(bits, mbits, ebits), 1_000_000_000);
    crate::round::lemma_rhe_exact(p, s);
}

/// A seconds value whose exact nanosecond total sits precisely half-way
/// between two integers converts to the even neighbour, never always
/// upward.
pub proof fn lemma_converts_tie_to_even(bits: int, mbits: nat, ebits: nat)
    requires
        0 <= bits,
        float_exp(bits, mbits, ebits) < mbits,
        (float_sig(bits, mbits, ebits) * 1_000_000_000) % pow2(
            (mbits - float_exp(bits, mbits, ebits)) as nat,
        ) as int == pow2((mbits - float_exp(bits, mbits, ebits) - 1) as nat),
    ensures
        float_total_nanos(bits, mbits, ebits) % 2 == 0,
{
    let p = float_sig(bits, mbits, ebits) * 1_000_000_000;
    let s = (mbits - float_exp(bits, mbits, ebits)) as nat;
    lemma_pow2_pos(mbits);
    lemma_mod_bound(bits, pow2(mbits) as int);
    vstd::arithmetic::mul::lemma_mul_nonnegative(float_sig(bits, mbits, ebits), 1_000_000_000);
    crate::round::lemma_tie_rounds_to_even(p, s);
}

/// A 32-bit seconds value below one second converts to a nanosecond count
/// strictly below one billion: at that precision the rounding step can
/// never carry the fraction up to a whole second. The wider 64-bit
/// encoding can reach the carry, which the conversion handles.
pub proof fn lemma_f32_fraction_never_carries(bits: u32)
    requires
        float_exp(bits as int, 23, 8) < 0,
    ensures
        0 <= float_total_nanos(bits as int, 23, 8) < 1_000_000_000,
{
    lemma2_to64();
    lemma2_to64_rest();
    let bi = bits as int;
    let sig = float_sig(bi, 23, 8);
    let e = float_exp(bi, 23, 8);
    let s = (23 - e) as nat;
    let p = sig * 1_000_000_000;
    assert(0 <= sig < pow2(24)) by {
        lemma_mod_bound(bi, pow2(23) as int);
    };
    vstd::arithmetic::mul::lemma_mul_nonnegative(sig, 1_000_000_000);
    lemma_pow2_pos(s);
    if e <= -32 {
        lemma_mul_upper_bound(sig, pow2(24) as int - 1, 1_000_000_000, pow2(30) as int - 1);
        lemma_pow2_adds(24, 30);
        lemma_pow2_adds(54, 1);
        if 23 - e > 55 {
            lemma_pow2_strictly_increases(55, (23 - e) as nat);
        }
        lemma_rhe_zero(p, s);
    } else {
        lemma_mul_inequality(sig, pow2(24) as int - 1, 1_000_000_000);
        assert(pow2(24) <= pow2(s)) by {
            if 24 < s {
                lemma_pow2_strictly_increases(24, s);
            }
        };
        assert((2 * 1_000_000_000 - 1) * pow2(24) <= (2 * 1_000_000_000 - 1) * pow2(
            s,
        )) by (nonlinear_arith)
            requires
                pow2(24) <= pow2(s),
        ;
        lemma_rhe_below(p, s, 1_000_000_000);
        lemma_rhe_le(p, s);
        lemma_pow2_pos(s);
        vstd::arithmetic::div_mod::lemma_div_pos_is_pos(p, pow2(s) as int);
    }
}

} // verus!
