//! Round-half-to-even division by a power of two, and the lemmas that let
//! fixed-point code compute it at a shifted scale.

use vstd::prelude::*;

use vstd::arithmetic::div_mod::{lemma_basic_div, lemma_fundamental_div_mod,
    lemma_fundamental_div_mod_converse, lemma_mod_bound, lemma_small_mod};
use vstd::arithmetic::mul::lemma_mul_inequality;
use vstd::arithmetic::power2::{lemma2_to64, lemma2_to64_rest, lemma_pow2_adds, lemma_pow2_pos,
    lemma_pow2_strictly_increases, pow2};

verus! {

/// `p / 2^s`, rounded to the nearest integer with ties resolved to the
/// even candidate.
pub open spec fn rhe(p: int, s: nat) -> int {
    if s == 0 {
        p
    } else {
        let q = p / pow2(s) as int;
        let r = p % pow2(s) as int;
        let half = pow2((s - 1) as nat) as int;
        if r > half || (r == half && q % 2 == 1) {
            q + 1
        } else {
            q
        }
    }
}

/// A quantity smaller than half the divisor rounds down to zero.
pub proof fn lemma_rhe_zero(p: int, s: nat)
    requires
        0 <= p,
        1 <= s,
        2 * p < pow2(s),
    ensures
        rhe(p, s) == 0,
{
    lemma_pow2_adds((s - 1) as nat, 1);
    lemma2_to64();
    lemma_basic_div(p, pow2(s) as int);
    lemma_small_mod(p as nat, pow2(s));
}

/// Rounding never adds more than one to the truncated quotient.
pub proof fn lemma_rhe_le(p: int, s: nat)
    requires
        0 <= p,
    ensures
        p / pow2(s) as int <= rhe(p, s) <= p / pow2(s) as int + 1,
{
    lemma_pow2_pos(s);
    if s == 0 {
        lemma2_to64();
        assert(pow2(0) == 1);
        lemma_fundamental_div_mod(p, 1);
        lemma_mod_bound(p, 1);
    }
}

/// If `p` lies strictly below `bound - 1/2` in units of `2^s`, the rounded
/// quotient stays strictly below `bound`.
pub proof fn lemma_rhe_below(p: int, s: nat, bound: int)
    requires
        0 <= p,
        1 <= s,
        2 * p < (2 * bound - 1) * pow2(s),
    ensures
        rhe(p, s) < bound,
{
    lemma_pow2_pos(s);
    lemma_pow2_adds((s - 1) as nat, 1);
    lemma2_to64();
    let w = pow2(s) as int;
    let half = pow2((s - 1) as nat) as int;
    let q = p / w;
    let r = p % w;
    lemma_fundamental_div_mod(p, w);
    lemma_mod_bound(p, w);
    if q >= bound {
        lemma_mul_inequality(bound, q, w);
        assert(2 * p >= 2 * (q * w)) by (nonlinear_arith)
            requires
                p >= q * w,
        ;
        assert(2 * (bound * w) <= 2 * (q * w)) by (nonlinear_arith)
            requires
                bound * w <= q * w,
        ;
        assert((2 * bound - 1) * w < 2 * (bound * w)) by (nonlinear_arith)
            requires
                w > 0,
        ;
    }
    if q == bound - 1 && r >= half {
        // then 2p = 2qw + 2r >= 2(bound-1)w + w = (2 bound - 1) w
        assert(2 * p == 2 * (q * w) + 2 * r);
        assert(2 * ((bound - 1) * w) + w == (2 * bound - 1) * w) by (nonlinear_arith);
        assert(2 * r >= w);
    }
}

/// Adding an even multiple `k` of the divisor shifts the rounded quotient
/// by exactly `k`: the remainder, and with it the tie, is unchanged, and an
/// even `k` keeps the parity of the quotient.
pub proof fn lemma_rhe_linear(k: int, p: int, s: nat)
    requires
        0 <= p,
        0 <= k,
        k % 2 == 0,
        1 <= s,
    ensures
        rhe(k * pow2(s) + p, s) == k + rhe(p, s),
{
    lemma_pow2_pos(s);
    let w = pow2(s) as int;
    let q = p / w;
    let r = p % w;
    lemma_fundamental_div_mod(p, w);
    lemma_mod_bound(p, w);
    assert((k + q) * w == k * w + q * w) by (nonlinear_arith);
    assert(k * w + p == (k + q) * w + r);
    lemma_fundamental_div_mod_converse(k * w + p, w, k + q, r);
    assert((k + q) % 2 == q % 2) by {
        assert(k + q == 2 * (k / 2) + q) by {
            lemma_fundamental_div_mod(k, 2);
            lemma_small_mod(0, 2);
        };
        lemma_fundamental_div_mod(q, 2);
        lemma_mod_bound(q, 2);
        lemma_fundamental_div_mod_converse(k + q, 2, k / 2 + q / 2, q % 2);
    };
}

/// Multiplying the dividend by `2^k` while raising the divisor's power by
/// `k` leaves quotient and scaled remainder alike: fixed-point code may
/// compute at the wider scale and read the answer off the top bits.
pub proof fn lemma_shift_div(p: int, s: nat, k: nat)
    requires
        0 <= p,
        1 <= s,
    ensures
        (p * pow2(k)) / pow2(s + k) as int == p / pow2(s) as int,
        (p * pow2(k)) % pow2(s + k) as int == (p % pow2(s) as int) * pow2(k),
{
    lemma_pow2_pos(s);
    lemma_pow2_pos(k);
    lemma_pow2_pos(s + k);
    lemma_pow2_adds(s, k);
    let w = pow2(s) as int;
    let wk = pow2(k) as int;
    let q = p / w;
    let r = p % w;
    lemma_fundamental_div_mod(p, w);
    lemma_mod_bound(p, w);
    assert((q * w + r) * wk == q * (w * wk) + r * wk) by (nonlinear_arith);
    assert(r * wk < w * wk) by (nonlinear_arith)
        requires
            r < w,
            wk > 0,
    ;
    assert(r * wk >= 0) by (nonlinear_arith)
        requires
            r >= 0,
            wk > 0,
    ;
    lemma_fundamental_div_mod_converse(p * wk, w * wk, q, r * wk);
}

/// The tie comparison survives the same scale change: comparing the scaled
/// remainder against half the wider divisor is comparing the remainder
/// against half the narrower one.
pub proof fn lemma_shift_half(r: int, s: nat, k: nat)
    requires
        0 <= r,
        1 <= s,
    ensures
        r * pow2(k) > pow2((s + k - 1) as nat) <==> r > pow2((s - 1) as nat),
        r * pow2(k) == pow2((s + k - 1) as nat) <==> r == pow2((s - 1) as nat),
{
    lemma_pow2_pos(k);
    lemma_pow2_pos((s - 1) as nat);
    lemma_pow2_adds((s - 1) as nat, k);
    let h = pow2((s - 1) as nat) as int;
    let wk = pow2(k) as int;
    assert(r > h ==> r * wk > h * wk) by (nonlinear_arith)
        requires
            wk > 0,
    ;
    assert(r < h ==> r * wk < h * wk) by (nonlinear_arith)
        requires
            wk > 0,
    ;
    assert(r == h ==> r * wk == h * wk);
}

/// Rounding is invariant under a change of scale: widening dividend and
/// divisor by the same power of two moves neither the quotient nor the tie.
pub proof fn lemma_rhe_shift(p: int, s: nat, k: nat)
    requires
        0 <= p,
        1 <= s,
    ensures
        rhe(p * pow2(k), s + k) == rhe(p, s),
{
    lemma_pow2_pos(s);
    lemma_shift_div(p, s, k);
    lemma_mod_bound(p, pow2(s) as int);
    lemma_shift_half(p % pow2(s) as int, s, k);
}

/// A value with no discarded remainder is returned exactly: rounding moves
/// nothing when the division is exact.
pub proof fn lemma_rhe_exact(p: int, s: nat)
    requires
        0 <= p,
        p % pow2(s) as int == 0,
    ensures
        rhe(p, s) == p / pow2(s) as int,
{
    lemma_pow2_pos(s);
    if s == 0 {
        lemma2_to64();
        lemma_fundamental_div_mod(p, 1);
        lemma_mod_bound(p, 1);
    } else {
        lemma_pow2_pos((s - 1) as nat);
    }
}

/// An exact half-way remainder rounds to the even neighbour: whichever of
/// the two enclosing integers is even is the result.
pub proof fn lemma_tie_rounds_to_even(p: int, s: nat)
    requires
        0 <= p,
        1 <= s,
        p % pow2(s) as int == pow2((s - 1) as nat),
    ensures
        rhe(p, s) % 2 == 0,
{
    lemma_pow2_pos(s);
    let q = p / pow2(s) as int;
    lemma_mod_bound(q, 2);
    lemma_fundamental_div_mod(q, 2);
    if q % 2 == 1 {
        lemma_fundamental_div_mod_converse(q + 1, 2, q / 2 + 1, 0);
    }
}

/// Computes `2^k` as a 64-bit integer.
pub fn pow2_u64(k: u32) -> (r: u64)
    requires
        k < 64,
    ensures
        r == pow2(k as nat),
{
    proof {
        lemma2_to64();
        lemma2_to64_rest();
    }
    let mut r: u64 = 1;
    let mut i: u32 = 0;
    while i < k
        invariant
            i <= k,
            k < 64,
            r == pow2(i as nat),
        decreases k - i,
    {
        proof {
            lemma_pow2_adds(i as nat, 1);
            lemma2_to64();
            if ((i + 1) as nat) < 64 {
                lemma_pow2_strictly_increases((i + 1) as nat, 64);
            }
            lemma2_to64_rest();
        }
        r = r * 2;
        i = i + 1;
    }
    r
}

/// Computes `2^k` as a 128-bit integer.
pub fn pow2_u128(k: u32) -> (r: u128)
    requires
        k < 128,
    ensures
        r == pow2(k as nat),
{
    proof {
        lemma2_to64();
        lemma2_to64_rest();
    }
    let mut r: u128 = 1;
    let mut i: u32 = 0;
    while i < k
        invariant
            i <= k,
            k < 128,
            r == pow2(i as nat),
        decreases k - i,
    {
        proof {
            lemma_pow2_adds(i as nat, 1);
            lemma2_to64();
            lemma_pow2_128((i + 1) as nat);
        }
        r = r * 2;
        i = i + 1;
    }
    r
}

/// Every power of two up to the 128-bit width fits that width.
proof fn lemma_pow2_128(k: nat)
    requires
        k < 128,
    ensures
        pow2(k) < 0x1_0000_0000_0000_0000_0000_0000_0000_0000,
{
    if k < 127 {
        lemma_pow2_strictly_increases(k, 127);
    }
    lemma_pow2_adds(64, 63);
    lemma2_to64();
    lemma2_to64_rest();
}

} // verus!
