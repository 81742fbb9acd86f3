//! Order keys for the bit patterns of double-precision readings.
//!
//! Weights and personality values are IEEE-754 doubles, which the caller
//! hands over as their 64-bit patterns. `order_key` maps each pattern that
//! is not a NaN to an unsigned integer ordered exactly as the values are,
//! with negative and positive zero sharing one key, so that choices made on
//! keys are the choices made on the values.

use vstd::prelude::*;

verus! {

/// The sign bit of a double.
pub open spec fn sign_set(bits: u64) -> bool {
    bits & 0x8000_0000_0000_0000u64 != 0
}

/// Exponent and fraction of a double: its bits without the sign.
pub open spec fn magnitude(bits: u64) -> u64 {
    bits & 0x7fff_ffff_ffff_ffffu64
}

/// The pattern encodes a number (finite or infinite), not a NaN.
pub open spec fn is_number(bits: u64) -> bool {
    magnitude(bits) <= 0x7ff0_0000_0000_0000u64
}

/// The values of two number patterns are equal: same pattern, or both zero.
pub open spec fn value_eq(a: u64, b: u64) -> bool {
    a == b || (magnitude(a) == 0 && magnitude(b) == 0)
}

/// The value of number pattern `a` is below that of `b`. Among patterns of
/// one sign the magnitude grows with the value's distance from zero.
pub open spec fn value_lt(a: u64, b: u64) -> bool {
    if magnitude(a) == 0 && magnitude(b) == 0 {
        false
    } else if !sign_set(a) && !sign_set(b) {
        magnitude(a) < magnitude(b)
    } else if sign_set(a) && sign_set(b) {
        magnitude(a) > magnitude(b)
    } else {
        sign_set(a)
    }
}

/// The order key of a pattern: negative zero is taken as positive zero,
/// negative patterns are inverted, positive ones get the sign bit set.
pub open spec fn key_of(bits: u64) -> u64 {
    let b = if bits == 0x8000_0000_0000_0000u64 {
        0u64
    } else {
        bits
    };
    if b & 0x8000_0000_0000_0000u64 != 0 {
        !b
    } else {
        b | 0x8000_0000_0000_0000u64
    }
}

/// The order key of the double whose bit pattern is `bits`.
pub fn order_key(bits: u64) -> (k: u64)
    ensures
        k == key_of(bits),
{
    let b: u64 = if bits == 0x8000_0000_0000_0000u64 {
        0
    } else {
        bits
    };
    if b & 0x8000_0000_0000_0000u64 != 0 {
        !b
    } else {
        b | 0x8000_0000_0000_0000u64
    }
}

/// Keys order numbers as their values: a key is below another exactly when
/// the value is, and keys are equal exactly when the values are.
pub proof fn lemma_keys_order_values(a: u64, b: u64)
    requires
        is_number(a),
        is_number(b),
    ensures
        key_of(a) < key_of(b) <==> value_lt(a, b),
        key_of(a) == key_of(b) <==> value_eq(a, b),
{
    assert(key_of(a) < key_of(b) <==> value_lt(a, b)) by (bit_vector)
        requires
            a & 0x7fff_ffff_ffff_ffffu64 <= 0x7ff0_0000_0000_0000u64,
            b & 0x7fff_ffff_ffff_ffffu64 <= 0x7ff0_0000_0000_0000u64,
    ;
    assert(key_of(a) == key_of(b) <==> value_eq(a, b)) by (bit_vector)
        requires
            a & 0x7fff_ffff_ffff_ffffu64 <= 0x7ff0_0000_0000_0000u64,
            b & 0x7fff_ffff_ffff_ffffu64 <= 0x7ff0_0000_0000_0000u64,
    ;
}

/// The value of pattern `a` is above that of `b`, as the partial order of
/// doubles has it: false whenever either is a NaN.
pub open spec fn value_gt(a: u64, b: u64) -> bool {
    is_number(a) && is_number(b) && value_lt(b, a)
}

/// The order keys of a sequence of patterns.
pub open spec fn keys_of(bits: Seq<u64>) -> Seq<u64> {
    bits.map_values(|b: u64| key_of(b))
}

/// Every pattern of the sequence encodes a number.
pub open spec fn all_numbers(bits: Seq<u64>) -> bool {
    forall|i: int| 0 <= i < bits.len() ==> is_number(#[trigger] bits[i])
}

/// Whether the double with pattern `a` is greater than the one with
/// pattern `b` (false when either is a NaN).
pub fn greater_value(a: u64, b: u64) -> (g: bool)
    ensures
        g == value_gt(a, b),
{
    let na = (a & 0x7fff_ffff_ffff_ffffu64) <= 0x7ff0_0000_0000_0000u64;
    let nb = (b & 0x7fff_ffff_ffff_ffffu64) <= 0x7ff0_0000_0000_0000u64;
    if na && nb {
        proof {
            lemma_keys_order_values(b, a);
        }
        order_key(b) < order_key(a)
    } else {
        false
    }
}

/// The order keys of a sequence of patterns.
pub fn order_keys(bits: &Vec<u64>) -> (k: Vec<u64>)
    ensures
        k@ == keys_of(bits@),
{
    let mut k: Vec<u64> = Vec::new();
    let mut i: usize = 0;
    while i < bits.len()
        invariant
            i <= bits@.len(),
            k@ == keys_of(bits@).take(i as int),
        decreases bits@.len() - i,
    {
        k.push(order_key(bits[i]));
        i = i + 1;
        proof {
            assert(k@ =~= keys_of(bits@).take(i as int));
        }
    }
    proof {
        assert(keys_of(bits@).take(bits@.len() as int) =~= keys_of(bits@));
    }
    k
}

} // verus!
