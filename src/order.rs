use vstd::prelude::*;

verus! {

/// The sign bit of a binary64 value.
pub const SIGN_BIT: u64 = 0x8000_0000_0000_0000;

/// The exponent field of a binary64 value.
pub const EXPONENT_MASK: u64 = 0x7ff0_0000_0000_0000;

/// The significand field of a binary64 value.
pub const FRACTION_MASK: u64 = 0x000f_ffff_ffff_ffff;

/// Everything but the sign bit: the magnitude of a binary64 value.
pub const MAGNITUDE_MASK: u64 = 0x7fff_ffff_ffff_ffff;

/// The key that every NaN maps to: above every number.
pub const NAN_KEY: u64 = 0xffff_ffff_ffff_ffff;

/// The bit pattern handed back for the NaN key (the quiet NaN).
pub const QUIET_NAN_BITS: u64 = 0x7ff8_0000_0000_0000;

/// The bit pattern is a NaN: exponent all ones and a non-zero significand.
pub open spec fn is_nan_bits(b: u64) -> bool {
    (b & EXPONENT_MASK) == EXPONENT_MASK && (b & FRACTION_MASK) != 0
}

pub open spec fn is_negative_bits(b: u64) -> bool {
    (b & SIGN_BIT) != 0
}

pub open spec fn magnitude_bits(b: u64) -> u64 {
    b & MAGNITUDE_MASK
}

/// IEEE-754 equality of two binary64 values given by their bits: no NaN is
/// equal to anything, and the two zeros are equal.
pub open spec fn value_eq(a: u64, b: u64) -> bool {
    &&& !is_nan_bits(a)
    &&& !is_nan_bits(b)
    &&& (a == b || (magnitude_bits(a) == 0 && magnitude_bits(b) == 0))
}

/// IEEE-754 `<` of two binary64 values given by their bits: sign first, then
/// magnitude (reversed for negative values); zeros of either sign are equal.
pub open spec fn value_lt(a: u64, b: u64) -> bool {
    &&& !is_nan_bits(a)
    &&& !is_nan_bits(b)
    &&& !(magnitude_bits(a) == 0 && magnitude_bits(b) == 0)
    &&& {
        ||| (is_negative_bits(a) && !is_negative_bits(b))
        ||| (!is_negative_bits(a) && !is_negative_bits(b) && magnitude_bits(a) < magnitude_bits(b))
        ||| (is_negative_bits(a) && is_negative_bits(b) && magnitude_bits(a) > magnitude_bits(b))
    }
}

/// IEEE-754 `<=` of two binary64 values given by their bits.
pub open spec fn value_le(a: u64, b: u64) -> bool {
    value_lt(a, b) || value_eq(a, b)
}

/// The order key of a binary64 value: numbers keep their order, both zeros
/// share one key, and every NaN sorts after every number.
pub open spec fn key_of(b: u64) -> u64 {
    if is_nan_bits(b) {
        NAN_KEY
    } else if b == SIGN_BIT {
        SIGN_BIT
    } else if is_negative_bits(b) {
        !b
    } else {
        b | SIGN_BIT
    }
}

/// The bit pattern that a key stands for.
pub open spec fn bits_from_key(k: u64) -> u64 {
    if k == NAN_KEY {
        QUIET_NAN_BITS
    } else if (k & SIGN_BIT) != 0 {
        k & MAGNITUDE_MASK
    } else {
        !k
    }
}

/// Maps the bits of a binary64 value to its order key.
pub fn order_key(bits: u64) -> (k: u64)
    ensures
        k == key_of(bits),
{
    if (bits & EXPONENT_MASK) == EXPONENT_MASK && (bits & FRACTION_MASK) != 0 {
        NAN_KEY
    } else if bits == SIGN_BIT {
        SIGN_BIT
    } else if (bits & SIGN_BIT) != 0 {
        !bits
    } else {
        bits | SIGN_BIT
    }
}

/// Maps an order key back to the bits of the value it stands for.
pub fn bits_of_key(k: u64) -> (bits: u64)
    ensures
        bits == bits_from_key(k),
{
    if k == NAN_KEY {
        QUIET_NAN_BITS
    } else if (k & SIGN_BIT) != 0 {
        k & MAGNITUDE_MASK
    } else {
        !k
    }
}

/// IEEE-754 `a < b` on the bits of two binary64 values: false when either
/// is a NaN.
pub fn less_than(a: u64, b: u64) -> (r: bool)
    ensures
        r == value_lt(a, b),
{
    proof {
        lemma_key_order(a, b);
        lemma_key_order(b, a);
    }
    let ka = order_key(a);
    let kb = order_key(b);
    ka != NAN_KEY && kb != NAN_KEY && ka < kb
}

/// IEEE-754 `a <= b` on the bits of two binary64 values: false when either
/// is a NaN.
pub fn at_most(a: u64, b: u64) -> (r: bool)
    ensures
        r == value_le(a, b),
{
    proof {
        lemma_key_order(a, b);
        lemma_key_order(b, a);
    }
    let ka = order_key(a);
    let kb = order_key(b);
    ka != NAN_KEY && kb != NAN_KEY && ka <= kb
}

/// Keys compare as the values do: for two numbers, `<` on keys is IEEE `<`
/// and `==` on keys is IEEE `==`; a NaN's key lies above every number's key.
pub proof fn lemma_key_order(a: u64, b: u64)
    ensures
        !is_nan_bits(a) && !is_nan_bits(b) ==> (value_lt(a, b) <==> key_of(a) < key_of(b)),
        !is_nan_bits(a) && !is_nan_bits(b) ==> (value_eq(a, b) <==> key_of(a) == key_of(b)),
        is_nan_bits(a) && !is_nan_bits(b) ==> key_of(b) < key_of(a),
        is_nan_bits(a) <==> key_of(a) == NAN_KEY,
{
    assert(!is_nan_bits(a) && !is_nan_bits(b) ==> (value_lt(a, b) <==> key_of(a) < key_of(b)))
        by (bit_vector);
    assert(!is_nan_bits(a) && !is_nan_bits(b) ==> (value_eq(a, b) <==> key_of(a) == key_of(b)))
        by (bit_vector);
    assert(is_nan_bits(a) && !is_nan_bits(b) ==> key_of(b) < key_of(a)) by (bit_vector);
    assert(is_nan_bits(a) <==> key_of(a) == NAN_KEY) by (bit_vector);
}

/// A key gives its value back: every number but negative zero comes back
/// bit for bit, negative zero comes back as positive zero, and every NaN as
/// the quiet NaN.
pub proof fn lemma_key_round_trip(b: u64)
    ensures
        !is_nan_bits(b) && b != SIGN_BIT ==> bits_from_key(key_of(b)) == b,
        b == SIGN_BIT ==> bits_from_key(key_of(b)) == 0,
        is_nan_bits(b) ==> bits_from_key(key_of(b)) == QUIET_NAN_BITS,
        is_nan_bits(QUIET_NAN_BITS),
{
    assert(!is_nan_bits(b) && b != SIGN_BIT ==> bits_from_key(key_of(b)) == b) by (bit_vector);
    assert(b == SIGN_BIT ==> bits_from_key(key_of(b)) == 0) by (bit_vector);
    assert(is_nan_bits(b) ==> bits_from_key(key_of(b)) == QUIET_NAN_BITS) by (bit_vector);
    assert(is_nan_bits(QUIET_NAN_BITS)) by (bit_vector);
}

} // verus!
