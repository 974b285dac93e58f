//! Order keys of numbers.
//!
//! A number is held as the key of the bit pattern of its 64-bit IEEE 754
//! encoding: flipping all bits of a negative number, and the sign bit of a
//! non-negative one, turns the order of the numbers into the order of the
//! unsigned keys, and can be undone.

use vstd::prelude::*;

verus! {

/// The key of the number whose bit pattern is `bits`.
pub open spec fn key_of_bits(bits: u64) -> u64 {
    if bits & 0x8000_0000_0000_0000u64 != 0 {
        !bits
    } else {
        bits | 0x8000_0000_0000_0000u64
    }
}

/// The bit pattern of the number whose key is `key`.
pub open spec fn bits_of_key(key: u64) -> u64 {
    if key & 0x8000_0000_0000_0000u64 != 0 {
        key & 0x7fff_ffff_ffff_ffffu64
    } else {
        !key
    }
}

/// The order of IEEE 754 numbers on their bit patterns: a negative number
/// (sign bit set) before a non-negative one; among non-negative numbers the
/// smaller magnitude first; among negative numbers the larger magnitude
/// first. On numbers other than NaN this is the numeric order, with `-0`
/// just before `+0`.
pub open spec fn number_before(a: u64, b: u64) -> bool {
    let neg_a = a & 0x8000_0000_0000_0000u64 != 0;
    let neg_b = b & 0x8000_0000_0000_0000u64 != 0;
    let mag_a = a & 0x7fff_ffff_ffff_ffffu64;
    let mag_b = b & 0x7fff_ffff_ffff_ffffu64;
    if neg_a && !neg_b {
        true
    } else if !neg_a && neg_b {
        false
    } else if !neg_a {
        mag_a < mag_b
    } else {
        mag_b < mag_a
    }
}

/// The order key of the number with bit pattern `bits` (`f64::to_bits`).
pub fn number_key(bits: u64) -> (k: u64)
    ensures
        k == key_of_bits(bits),
{
    if bits & 0x8000_0000_0000_0000u64 != 0 {
        !bits
    } else {
        bits | 0x8000_0000_0000_0000u64
    }
}

/// The bit pattern (for `f64::from_bits`) of the number with order key `key`.
pub fn key_bits(key: u64) -> (b: u64)
    ensures
        b == bits_of_key(key),
{
    if key & 0x8000_0000_0000_0000u64 != 0 {
        key & 0x7fff_ffff_ffff_ffffu64
    } else {
        !key
    }
}

/// Keys are ordered as the numbers they stand for.
pub proof fn lemma_key_order(a: u64, b: u64)
    ensures
        (key_of_bits(a) < key_of_bits(b)) == number_before(a, b),
{
    assert(((if a & 0x8000_0000_0000_0000u64 != 0 {
        !a
    } else {
        a | 0x8000_0000_0000_0000u64
    }) < (if b & 0x8000_0000_0000_0000u64 != 0 {
        !b
    } else {
        b | 0x8000_0000_0000_0000u64
    })) == (if a & 0x8000_0000_0000_0000u64 != 0 && b & 0x8000_0000_0000_0000u64 == 0 {
        true
    } else if a & 0x8000_0000_0000_0000u64 == 0 && b & 0x8000_0000_0000_0000u64 != 0 {
        false
    } else if a & 0x8000_0000_0000_0000u64 == 0 {
        a & 0x7fff_ffff_ffff_ffffu64 < b & 0x7fff_ffff_ffff_ffffu64
    } else {
        b & 0x7fff_ffff_ffff_ffffu64 < a & 0x7fff_ffff_ffff_ffffu64
    })) by (bit_vector);
}

/// Turning a bit pattern into its key and back gives the bit pattern.
pub proof fn lemma_bits_key_roundtrip(bits: u64)
    ensures
        bits_of_key(key_of_bits(bits)) == bits,
{
    assert((if (if bits & 0x8000_0000_0000_0000u64 != 0 {
        !bits
    } else {
        bits | 0x8000_0000_0000_0000u64
    }) & 0x8000_0000_0000_0000u64 != 0 {
        (if bits & 0x8000_0000_0000_0000u64 != 0 {
            !bits
        } else {
            bits | 0x8000_0000_0000_0000u64
        }) & 0x7fff_ffff_ffff_ffffu64
    } else {
        !(if bits & 0x8000_0000_0000_0000u64 != 0 {
            !bits
        } else {
            bits | 0x8000_0000_0000_0000u64
        })
    }) == bits) by (bit_vector);
}

/// Turning a key into its bit pattern and back gives the key.
pub proof fn lemma_key_bits_roundtrip(key: u64)
    ensures
        key_of_bits(bits_of_key(key)) == key,
{
    assert((if (if key & 0x8000_0000_0000_0000u64 != 0 {
        key & 0x7fff_ffff_ffff_ffffu64
    } else {
        !key
    }) & 0x8000_0000_0000_0000u64 != 0 {
        !(if key & 0x8000_0000_0000_0000u64 != 0 {
            key & 0x7fff_ffff_ffff_ffffu64
        } else {
            !key
        })
    } else {
        (if key & 0x8000_0000_0000_0000u64 != 0 {
            key & 0x7fff_ffff_ffff_ffffu64
        } else {
            !key
        }) | 0x8000_0000_0000_0000u64
    }) == key) by (bit_vector);
}

} // verus!
