//! Denormalization of cross-chain fixed-point amounts.
//!
//! On the wire, amounts are normalized to at most eight fractional decimal
//! digits regardless of the asset's native precision. Settlement scales a
//! normalized value `v` back to an asset with `d` native decimals: upward by
//! `10^(d-8)` when `d > 8`, downward by floor division through `10^(8-d)`
//! when `d <= 8`. The scaled value must fit the 64-bit native range;
//! anything larger is a fatal overflow, never wrapped or truncated.

use vstd::prelude::*;
use vstd::arithmetic::div_mod::{
    lemma_div_is_ordered, lemma_div_is_ordered_by_denominator, lemma_fundamental_div_mod,
    lemma_mod_bound,
};
use vstd::arithmetic::mul::lemma_mul_inequality;

verus! {

/// `10^k`.
pub open spec fn pow10(k: nat) -> nat
    decreases k,
{
    if k == 0 {
        1
    } else {
        10 * pow10((k - 1) as nat)
    }
}

/// The native value of a normalized amount `v` for an asset with `d` native
/// decimal digits: scaled up for assets finer than the wire precision, floor
/// scaled down for coarser ones.
pub open spec fn denorm(v: nat, d: nat) -> nat {
    if d > 8 {
        v * pow10((d - 8) as nat)
    } else {
        v / pow10((8 - d) as nat)
    }
}

pub proof fn lemma_pow10_positive(k: nat)
    ensures
        pow10(k) >= 1,
    decreases k,
{
    if k > 0 {
        lemma_pow10_positive((k - 1) as nat);
    }
}

pub proof fn lemma_pow10_increases(k1: nat, k2: nat)
    requires
        k1 <= k2,
    ensures
        pow10(k1) <= pow10(k2),
    decreases k2,
{
    if k1 < k2 {
        lemma_pow10_increases(k1, (k2 - 1) as nat);
        lemma_pow10_positive((k2 - 1) as nat);
    }
}

/// `10^38` written out: the largest power of ten the implementation ever
/// materializes, still within the 128-bit range.
pub proof fn lemma_pow10_38()
    ensures
        pow10(38) == 0x4b3b4ca85a86c47a_098a224000000000u128,
{
    reveal_with_fuel(pow10, 40);
}

/// Denormalization is monotone in the normalized value.
pub proof fn lemma_denorm_monotone(v1: nat, v2: nat, d: nat)
    requires
        v1 <= v2,
    ensures
        denorm(v1, d) <= denorm(v2, d),
{
    if d > 8 {
        lemma_mul_inequality(v1 as int, v2 as int, pow10((d - 8) as nat) as int);
    } else {
        lemma_pow10_positive((8 - d) as nat);
        lemma_div_is_ordered(v1 as int, v2 as int, pow10((8 - d) as nat) as int);
    }
}

/// A normalized value at or above `2^128` always denormalizes past the
/// 64-bit native range, whatever the asset's precision.
pub proof fn lemma_denorm_huge(v: nat, d: nat)
    requires
        v >= 0x1_0000_0000_0000_0000_0000_0000_0000_0000int,
    ensures
        denorm(v, d) > u64::MAX,
{
    if d > 8 {
        lemma_pow10_positive((d - 8) as nat);
        lemma_mul_inequality(1, pow10((d - 8) as nat) as int, v as int);
        assert(denorm(v, d) >= v * 1) by {
            lemma_mul_inequality(1, 1, v as int);
        }
    } else {
        let p = pow10((8 - d) as nat);
        lemma_pow10_increases((8 - d) as nat, 8);
        assert(pow10(8) == 100_000_000) by {
            reveal_with_fuel(pow10, 10);
        }
        lemma_pow10_positive((8 - d) as nat);
        lemma_div_is_ordered_by_denominator(v as int, p as int, 100_000_000);
        lemma_div_is_ordered(
            0x1_0000_0000_0000_0000_0000_0000_0000_0000int,
            v as int,
            100_000_000,
        );
        assert((0x1_0000_0000_0000_0000_0000_0000_0000_0000int) / 100_000_000
            > u64::MAX) by {
            lemma_fundamental_div_mod(0x1_0000_0000_0000_0000_0000_0000_0000_0000int, 100_000_000);
        }
    }
}

/// `10^k` as a 128-bit integer, for exponents whose power still fits.
pub fn pow10_u128(k: u8) -> (r: u128)
    requires
        k <= 38,
    ensures
        r == pow10(k as nat),
{
    let mut r: u128 = 1;
    let mut j: u8 = 0;
    while j < k
        invariant
            j <= k,
            k <= 38,
            r == pow10(j as nat),
        decreases k - j,
    {
        proof {
            lemma_pow10_increases((j + 1) as nat, 38);
            lemma_pow10_38();
        }
        r = r * 10;
        j = j + 1;
    }
    r
}

/// Scales the normalized value `v` to the native precision of an asset with
/// `decimals` decimal digits. Returns the native amount exactly when it fits
/// the 64-bit range, and nothing on overflow.
pub fn denormalize(v: u128, decimals: u8) -> (r: Option<u64>)
    ensures
        r is Some <==> denorm(v as nat, decimals as nat) <= u64::MAX,
        r matches Some(n) ==> n == denorm(v as nat, decimals as nat),
{
    if decimals > 8 {
        let k = decimals - 8;
        if v == 0 {
            proof {
                assert(denorm(v as nat, decimals as nat) == 0);
            }
            return Some(0);
        }
        if k > 38 {
            proof {
                lemma_pow10_increases(39, k as nat);
                lemma_pow10_38();
                lemma_pow10_positive(38);
                lemma_mul_inequality(1, v as int, pow10(k as nat) as int);
            }
            return None;
        }
        let p = pow10_u128(k);
        proof {
            lemma_pow10_positive(k as nat);
        }
        let limit = u64::MAX as u128 / p;
        if v > limit {
            proof {
                lemma_fundamental_div_mod(u64::MAX as int, p as int);
                lemma_mod_bound(u64::MAX as int, p as int);
                lemma_mul_inequality((limit + 1) as int, v as int, p as int);
                assert((limit + 1) * p == limit * p + p) by (nonlinear_arith);
            }
            None
        } else {
            proof {
                lemma_mul_inequality(v as int, limit as int, p as int);
                lemma_fundamental_div_mod(u64::MAX as int, p as int);
                lemma_mod_bound(u64::MAX as int, p as int);
            }
            Some((v * p) as u64)
        }
    } else {
        let k = 8 - decimals;
        let p = pow10_u128(k);
        proof {
            lemma_pow10_positive(k as nat);
        }
        let q = v / p;
        if q > u64::MAX as u128 {
            None
        } else {
            Some(q as u64)
        }
    }
}

} // verus!
