//! The order of single-precision scalars, read from their bit patterns.
//!
//! A scalar is handed to this crate as the 32 bits that encode it. Every
//! scalar that is a number gets an order key: a signed integer that is
//! smaller, equal or larger exactly when the number is. Both zeros share the
//! key 0; a pattern that encodes no number has no key, and compares with
//! nothing.

use vstd::prelude::*;

verus! {

/// The bit that carries the sign.
pub const SIGN_BIT: u32 = 0x8000_0000;

/// The pattern of positive infinity, the largest magnitude that is ordered.
pub const INFINITY_BITS: u32 = 0x7f80_0000;

/// The pattern of zero.
pub const ZERO: u32 = 0;

/// The pattern without its sign bit.
pub open spec fn magnitude(bits: u32) -> int {
    if bits >= SIGN_BIT {
        bits - SIGN_BIT
    } else {
        bits as int
    }
}

/// Whether the pattern encodes a number, infinities included.
pub open spec fn is_number(bits: u32) -> bool {
    magnitude(bits) <= INFINITY_BITS
}

/// The place of a number in the order of all numbers.
pub open spec fn key_of(bits: u32) -> int {
    if bits >= SIGN_BIT {
        -magnitude(bits)
    } else {
        magnitude(bits)
    }
}

/// The order key of a scalar, or `None` where the pattern is not a number.
pub fn order_key(bits: u32) -> (key: Option<i32>)
    ensures
        key is Some <==> is_number(bits),
        key matches Some(k) ==> k == key_of(bits),
{
    let negative = bits >= SIGN_BIT;
    let mag: u32 = if negative { bits - SIGN_BIT } else { bits };
    if mag > INFINITY_BITS {
        return None;
    }
    let m: i32 = mag as i32;
    if negative {
        Some(-m)
    } else {
        Some(m)
    }
}

/// Whether the first scalar is less than the second. A pattern that is not
/// a number is neither less nor more than anything.
pub open spec fn is_less(a: u32, b: u32) -> bool {
    is_number(a) && is_number(b) && key_of(a) < key_of(b)
}

/// Whether the first scalar is at least the second. A pattern that is not a
/// number is not at least anything, and nothing is at least it.
pub open spec fn is_at_least(a: u32, b: u32) -> bool {
    is_number(a) && is_number(b) && key_of(a) >= key_of(b)
}

/// Tells whether the first scalar is less than the second.
pub fn less(a: u32, b: u32) -> (yes: bool)
    ensures
        yes == is_less(a, b),
{
    match (order_key(a), order_key(b)) {
        (Some(x), Some(y)) => x < y,
        _ => false,
    }
}

/// Tells whether the first scalar is at least the second.
pub fn at_least(a: u32, b: u32) -> (yes: bool)
    ensures
        yes == is_at_least(a, b),
{
    match (order_key(a), order_key(b)) {
        (Some(x), Some(y)) => x >= y,
        _ => false,
    }
}

/// Two numbers share a key only if they are the same pattern or both zero,
/// and the key of a negated number is the negated key.
pub proof fn lemma_key_faithful(a: u32, b: u32)
    requires
        is_number(a),
        is_number(b),
    ensures
        key_of(a) == key_of(b) <==> (a == b || (magnitude(a) == 0 && magnitude(b) == 0)),
        magnitude(a) == magnitude(b) && a != b ==> key_of(a) == -key_of(b),
{
}

/// Numbers are in a total order: of two numbers one is less than the other
/// or they are equal, never two of these at once, and what is less than a
/// lesser number is less. Where either pattern is not a number, none of the
/// comparisons holds.
pub proof fn lemma_order_is_total(a: u32, b: u32, c: u32)
    ensures
        is_number(a) && is_number(b) ==> (is_less(a, b) || is_less(b, a) || key_of(a) == key_of(b)),
        !(is_less(a, b) && is_less(b, a)),
        is_less(a, b) ==> key_of(a) != key_of(b),
        is_at_least(a, b) <==> is_number(a) && is_number(b) && !is_less(a, b),
        is_less(a, b) && is_less(b, c) ==> is_less(a, c),
        !is_number(a) ==> !is_less(a, b) && !is_less(b, a) && !is_at_least(a, b) && !is_at_least(
            b,
            a,
        ),
{
}

} // verus!
