//! Scalars by ordinal, and the order-only helpers on them.

use vstd::prelude::*;

pub mod onb;
pub mod ray;
pub mod vec3;

verus! {

/// A real number, an infinity included, held by its ordinal.
///
/// The ordinal of a double is its sign-and-magnitude bit pattern read as a
/// signed integer: the magnitude bits for a number that is not negative, their
/// negation for a negative one. Both zeros have ordinal 0. Ordinals compare as
/// the numbers do, and negating an ordinal negates the number.
pub type Scalar = i64;

/// The ordinal of positive infinity: the largest ordinal.
pub const INFINITY: Scalar = 0x7FF0_0000_0000_0000;

/// The ordinal of negative infinity: the smallest ordinal.
pub const NEG_INFINITY: Scalar = -0x7FF0_0000_0000_0000;

/// The ordinal of one.
pub const ONE: Scalar = 0x3FF0_0000_0000_0000;

/// The ordinal of one ten-millionth, below which a magnitude counts as zero.
pub const INFINITESIMAL: Scalar = 0x3E7A_D7F2_9ABC_AF48;

/// Whether `k` is the ordinal of some number.
pub open spec fn is_scalar(k: int) -> bool {
    NEG_INFINITY <= k <= INFINITY
}

/// The ordinal that a bit pattern of a double stands for; `None` where the
/// pattern is not a number.
pub open spec fn ordinal_of_bits(bits: u64) -> Option<int> {
    let magnitude: int = if bits >= 0x8000_0000_0000_0000 {
        bits - 0x8000_0000_0000_0000
    } else {
        bits as int
    };
    if magnitude > INFINITY {
        None
    } else if bits >= 0x8000_0000_0000_0000 {
        Some(-magnitude)
    } else {
        Some(magnitude)
    }
}

/// The bit pattern of the number with ordinal `k`; zero comes out positive.
pub open spec fn bits_of_ordinal(k: int) -> int {
    if k < 0 {
        0x8000_0000_0000_0000 - k
    } else {
        k
    }
}

/// Reads the bit pattern of a double as an ordinal.
pub fn from_bits(bits: u64) -> (r: Option<Scalar>)
    ensures
        r is Some <==> ordinal_of_bits(bits) is Some,
        r matches Some(k) ==> ordinal_of_bits(bits) == Some(k as int) && is_scalar(k as int),
{
    let negative = bits >= 0x8000_0000_0000_0000;
    let magnitude: u64 = if negative {
        bits - 0x8000_0000_0000_0000
    } else {
        bits
    };
    if magnitude > 0x7FF0_0000_0000_0000 {
        None
    } else if negative {
        Some(-(magnitude as i64))
    } else {
        Some(magnitude as i64)
    }
}

/// Writes an ordinal back as the bit pattern of its double.
pub fn to_bits(k: Scalar) -> (bits: u64)
    requires
        is_scalar(k as int),
    ensures
        bits == bits_of_ordinal(k as int),
{
    if k < 0 {
        0x8000_0000_0000_0000u64 + ((-k) as u64)
    } else {
        k as u64
    }
}

/// Reading a pattern and writing it back gives the pattern again, but for
/// the negative zero, which comes back as the positive one.
pub proof fn lemma_bits_round_trip(bits: u64)
    requires
        ordinal_of_bits(bits) is Some,
    ensures
        is_scalar(ordinal_of_bits(bits)->0),
        bits != 0x8000_0000_0000_0000 ==> bits_of_ordinal(ordinal_of_bits(bits)->0) == bits,
        bits == 0x8000_0000_0000_0000 ==> bits_of_ordinal(ordinal_of_bits(bits)->0) == 0,
{
}

/// Writing an ordinal and reading it back gives the ordinal again.
pub proof fn lemma_ordinal_round_trip(k: int)
    requires
        is_scalar(k),
    ensures
        0 <= bits_of_ordinal(k) <= u64::MAX,
        ordinal_of_bits(bits_of_ordinal(k) as u64) == Some(k),
{
}

/// The larger of two scalars; the second where neither is larger.
pub fn max_f64(x: Scalar, y: Scalar) -> (r: Scalar)
    ensures
        r >= x,
        r >= y,
        r == x || r == y,
{
    if x > y {
        x
    } else {
        y
    }
}

/// The smaller of two scalars; the second where neither is smaller.
pub fn min_f64(x: Scalar, y: Scalar) -> (r: Scalar)
    ensures
        r <= x,
        r <= y,
        r == x || r == y,
{
    if x < y {
        x
    } else {
        y
    }
}

/// What [`clamp_oi`] returns.
pub open spec fn clamped(x: int, min: int, max: int) -> int {
    if x < min {
        min
    } else if x > max {
        max
    } else {
        x
    }
}

/// Brings `x` into `min..=max`: a value below comes up to `min`, one above
/// comes down to `max`.
pub fn clamp_oi(x: Scalar, min: Scalar, max: Scalar) -> (r: Scalar)
    ensures
        r == clamped(x as int, min as int, max as int),
{
    if x < min {
        return min;
    }
    if x > max {
        return max;
    }
    x
}

/// The magnitude of a scalar.
pub fn abs(x: Scalar) -> (r: Scalar)
    requires
        is_scalar(x as int),
    ensures
        r >= 0,
        r == x || r == -x,
        is_scalar(r as int),
{
    if x < 0 {
        -x
    } else {
        x
    }
}

} // verus!
