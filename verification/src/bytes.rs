//! Big-endian byte strings and their numeric value. The message key's chain
//! and sequence fields travel as big-endian bytes inside derivation seeds, and
//! the transfer record encodes its amounts as 32-byte big-endian integers.

use vstd::prelude::*;
use vstd::arithmetic::div_mod::{
    lemma_basic_div, lemma_div_denominator, lemma_div_pos_is_pos, lemma_fundamental_div_mod,
    lemma_mod_bound, lemma_small_mod,
};
use vstd::arithmetic::mul::lemma_mul_inequality;
use vstd::arithmetic::power::{lemma_pow_adds, lemma_pow_positive, pow};

verus! {

/// The numeric value of a big-endian byte string: the first byte is the most
/// significant.
pub open spec fn be_value(s: Seq<u8>) -> nat
    decreases s.len(),
{
    if s.len() == 0 {
        0
    } else {
        (be_value(s.drop_last()) * 256 + s.last()) as nat
    }
}

/// The `n`-byte big-endian encoding of `x` (of `x` modulo `256^n`, for an
/// `x` too large for `n` bytes).
pub open spec fn be_bytes(x: nat, n: nat) -> Seq<u8>
    decreases n,
{
    if n == 0 {
        Seq::empty()
    } else {
        be_bytes(x / 256, (n - 1) as nat).push((x % 256) as u8)
    }
}

/// Encoding then decoding is the identity on values that fit.
pub proof fn lemma_be_value_of_be_bytes(x: nat, n: nat)
    requires
        x < pow(256, n),
    ensures
        be_value(be_bytes(x, n)) == x,
        be_bytes(x, n).len() == n,
    decreases n,
{
    lemma_be_bytes_len(x, n);
    if n == 0 {
        reveal_with_fuel(pow, 1);
    } else {
        lemma_pow_adds(256, (n - 1) as nat, 1);
        assert(pow(256, 1) == 256) by {
            reveal_with_fuel(pow, 2);
        }
        lemma_div_denominator_bound(x, n);
        lemma_be_value_of_be_bytes(x / 256, (n - 1) as nat);
        lemma_be_value_push(be_bytes(x / 256, (n - 1) as nat), (x % 256) as u8);
        lemma_fundamental_div_mod(x as int, 256);
    }
}

/// The encoding of `x` in `n` bytes has length `n`.
pub proof fn lemma_be_bytes_len(x: nat, n: nat)
    ensures
        be_bytes(x, n).len() == n,
    decreases n,
{
    if n > 0 {
        lemma_be_bytes_len(x / 256, (n - 1) as nat);
    }
}

/// When `x < 256^n`, the quotient `x / 256` fits `n - 1` bytes.
proof fn lemma_div_denominator_bound(x: nat, n: nat)
    requires
        n >= 1,
        x < pow(256, n),
    ensures
        x / 256 < pow(256, (n - 1) as nat),
{
    lemma_pow_positive(256, (n - 1) as nat);
    lemma_pow_adds(256, (n - 1) as nat, 1);
    assert(pow(256, 1) == 256) by {
        reveal_with_fuel(pow, 2);
    }
    if x / 256 >= pow(256, (n - 1) as nat) {
        lemma_mul_inequality(pow(256, (n - 1) as nat), x as int / 256, 256);
        lemma_fundamental_div_mod(x as int, 256);
        lemma_mod_bound(x as int, 256);
    }
}

/// Appending a byte multiplies the value by 256 and adds the byte.
pub proof fn lemma_be_value_push(s: Seq<u8>, b: u8)
    ensures
        be_value(s.push(b)) == be_value(s) * 256 + b,
{
    assert(s.push(b).drop_last() =~= s);
    assert(s.push(b).last() == b);
}

/// A byte string of length `n` holds a value below `256^n`.
pub proof fn lemma_be_value_bound(s: Seq<u8>)
    ensures
        be_value(s) < pow(256, s.len() as nat),
    decreases s.len(),
{
    if s.len() == 0 {
        assert(pow(256, 0) == 1) by {
            vstd::arithmetic::power::lemma_pow0(256);
        }
    } else {
        lemma_be_value_bound(s.drop_last());
        lemma_pow_adds(256, (s.len() - 1) as nat, 1);
        assert(pow(256, 1) == 256) by {
            vstd::arithmetic::power::lemma_pow1(256);
        }
        lemma_mul_inequality((be_value(s.drop_last()) + 1) as int, pow(256, (s.len() - 1) as nat), 256);
    }
}

/// Leading zero bytes do not change the value.
pub proof fn lemma_be_value_leading_zeros(s: Seq<u8>, k: int)
    requires
        0 <= k <= s.len(),
        forall|i: int| 0 <= i < k ==> s[i] == 0,
    ensures
        be_value(s) == be_value(s.skip(k)),
    decreases s.len(),
{
    if s.len() == k {
        assert(s.skip(k) =~= Seq::<u8>::empty());
        lemma_be_value_all_zero(s);
    } else {
        lemma_be_value_leading_zeros(s.drop_last(), k);
        assert(s.skip(k).drop_last() =~= s.drop_last().skip(k));
        assert(s.skip(k).last() == s.last());
    }
}

/// A byte string of zeros has value zero.
pub proof fn lemma_be_value_all_zero(s: Seq<u8>)
    requires
        forall|i: int| 0 <= i < s.len() ==> s[i] == 0,
    ensures
        be_value(s) == 0,
    decreases s.len(),
{
    if s.len() > 0 {
        lemma_be_value_all_zero(s.drop_last());
    }
}

/// A nonzero byte at position `i` puts the value at or above `256^(len-1-i)`.
pub proof fn lemma_be_value_nonzero_byte(s: Seq<u8>, i: int)
    requires
        0 <= i < s.len(),
        s[i] != 0,
    ensures
        be_value(s) >= pow(256, (s.len() - 1 - i) as nat),
    decreases s.len(),
{
    if i == s.len() - 1 {
        assert(be_value(s) >= s.last());
        assert(pow(256, 0) == 1) by {
            vstd::arithmetic::power::lemma_pow0(256);
        }
    } else {
        lemma_be_value_nonzero_byte(s.drop_last(), i);
        let e = (s.len() - 2 - i) as nat;
        lemma_mul_inequality(pow(256, e), be_value(s.drop_last()) as int, 256);
        lemma_pow_adds(256, e, 1);
        assert(pow(256, 1) == 256) by {
            vstd::arithmetic::power::lemma_pow1(256);
        }
        assert(be_value(s) >= be_value(s.drop_last()) * 256);
    }
}

/// The two big-endian bytes of a 16-bit integer.
pub fn be_bytes_u16(x: u16) -> (r: Vec<u8>)
    ensures
        r@.len() == 2,
        be_value(r@) == x,
        r@ == be_bytes(x as nat, 2),
{
    let mut r: Vec<u8> = Vec::new();
    r.push((x / 256) as u8);
    r.push((x % 256) as u8);
    proof {
        lemma_small_mod((x as nat) / 256, 256);
        lemma_basic_div((x as nat / 256) as int, 256);
        assert(be_bytes(x as nat, 2) =~= r@) by {
            reveal_with_fuel(be_bytes, 4);
        }
        assert(x < pow(256, 2)) by {
            reveal_with_fuel(pow, 3);
        }
        lemma_be_value_of_be_bytes(x as nat, 2);
    }
    r
}

/// The eight big-endian bytes of a 64-bit integer.
pub fn be_bytes_u64(x: u64) -> (r: Vec<u8>)
    ensures
        r@.len() == 8,
        be_value(r@) == x,
        r@ == be_bytes(x as nat, 8),
{
    let mut r: Vec<u8> = Vec::new();
    let mut div: u64 = 0x100_0000_0000_0000;
    let mut i: usize = 0;
    proof {
        reveal_with_fuel(pow, 9);
        assert(pow(256, 7) == 0x100_0000_0000_0000);
        assert(pow(256, 8) == 0x1_0000_0000_0000_0000);
        lemma_basic_div(x as int, pow(256, 8));
    }
    while i < 8
        invariant
            0 <= i <= 8,
            r@.len() == i,
            i < 8 ==> div == pow(256, (7 - i) as nat),
            r@ == be_bytes(x as nat / pow(256, (8 - i) as nat) as nat, i as nat),
        decreases 8 - i,
    {
        proof {
            lemma_pow_positive(256, (7 - i) as nat);
        }
        let b: u8 = ((x / div) % 256) as u8;
        r.push(b);
        proof {
            let y: int = x as int / pow(256, (7 - i) as nat);
            lemma_div_denominator(x as int, pow(256, (7 - i) as nat), 256);
            lemma_pow_adds(256, (7 - i) as nat, 1);
            assert(pow(256, 1) == 256) by {
                vstd::arithmetic::power::lemma_pow1(256);
            }
            assert(x as int / pow(256, (8 - i) as nat) == y / 256);
            lemma_div_pos_is_pos(x as int, pow(256, (7 - i) as nat));
            lemma_fundamental_div_mod(y, 256);
            assert(be_bytes(y as nat, (i + 1) as nat) == be_bytes((y as nat) / 256, i as nat).push(
                ((y as nat) % 256) as u8,
            ));
            assert(r@ == be_bytes(y as nat, (i + 1) as nat));
        }
        if i < 7 {
            div = div / 256;
            proof {
                lemma_pow_adds(256, (6 - i) as nat, 1);
                assert(pow(256, 1) == 256) by {
                    vstd::arithmetic::power::lemma_pow1(256);
                }
                lemma_pow_positive(256, (6 - i) as nat);
                assert(pow(256, (7 - i) as nat) / 256 == pow(256, (6 - i) as nat)) by {
                    lemma_fundamental_div_mod(pow(256, (7 - i) as nat), 256);
                    assert(pow(256, (7 - i) as nat) == pow(256, (6 - i) as nat) * 256);
                }
            }
        }
        i = i + 1;
    }
    proof {
        assert(pow(256, 0) == 1) by {
            vstd::arithmetic::power::lemma_pow0(256);
        }
        assert(x as nat / 1nat == x as nat) by {
            lemma_fundamental_div_mod(x as int, 1);
        }
        assert(r@ == be_bytes(x as nat, 8));
        assert(x < pow(256, 8)) by {
            reveal_with_fuel(pow, 9);
        }
        lemma_be_value_of_be_bytes(x as nat, 8);
    }
    r
}

/// Reads a 32-byte big-endian integer, exactly when its value fits 128 bits.
/// A larger value is reported as absent; the settlement arithmetic shows that
/// such a value can never denormalize into the 64-bit native range anyway.
pub fn be_value_u128(bytes: &[u8; 32]) -> (r: Option<u128>)
    ensures
        r is Some <==> be_value(bytes@) < 0x1_0000_0000_0000_0000_0000_0000_0000_0000int,
        r matches Some(v) ==> v == be_value(bytes@),
{
    proof {
        reveal_with_fuel(pow, 18);
        assert(pow(256, 16) == 0x1_0000_0000_0000_0000_0000_0000_0000_0000);
        assert(pow(256, 15) == 0x100_0000_0000_0000_0000_0000_0000_0000);
    }
    let mut i: usize = 0;
    while i < 16
        invariant
            0 <= i <= 16,
            forall|k: int| 0 <= k < i ==> bytes@[k] == 0,
        decreases 16 - i,
    {
        if bytes[i] != 0 {
            proof {
                lemma_be_value_nonzero_byte(bytes@, i as int);
                vstd::arithmetic::power::lemma_pow_increases(256, 16, (31 - i) as nat);
                reveal_with_fuel(pow, 18);
            }
            return None;
        }
        i = i + 1;
    }
    let mut v: u128 = 0;
    let mut j: usize = 16;
    proof {
        assert(bytes@.subrange(16, 16) =~= Seq::<u8>::empty());
    }
    while j < 32
        invariant
            16 <= j <= 32,
            v == be_value(bytes@.subrange(16, j as int)),
            forall|k: int| 0 <= k < 16 ==> bytes@[k] == 0,
        decreases 32 - j,
    {
        proof {
            lemma_be_value_bound(bytes@.subrange(16, j as int));
            vstd::arithmetic::power::lemma_pow_increases(256, (j - 16) as nat, 15);
            reveal_with_fuel(pow, 18);
            assert(bytes@.subrange(16, j + 1) =~= bytes@.subrange(16, j as int).push(
                bytes@[j as int],
            ));
            lemma_be_value_push(bytes@.subrange(16, j as int), bytes@[j as int]);
        }
        v = v * 256 + (bytes[j] as u128);
        j = j + 1;
    }
    proof {
        assert(bytes@.subrange(16, 32) =~= bytes@.skip(16));
        lemma_be_value_leading_zeros(bytes@, 16);
        lemma_be_value_bound(bytes@.skip(16));
    }
    Some(v)
}

/// Whether two 32-byte identifiers hold the same bytes.
pub fn arrays_equal(a: &[u8; 32], b: &[u8; 32]) -> (r: bool)
    ensures
        r <==> a@ == b@,
{
    let mut i: usize = 0;
    while i < 32
        invariant
            0 <= i <= 32,
            forall|k: int| 0 <= k < i ==> a@[k] == b@[k],
        decreases 32 - i,
    {
        if a[i] != b[i] {
            return false;
        }
        i = i + 1;
    }
    proof {
        assert(a@ =~= b@);
    }
    true
}

} // verus!
