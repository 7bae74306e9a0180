use vstd::prelude::*;

verus! {

// Prices are held as the 64 bits of an IEEE 754 double: one sign bit, eleven
// exponent bits and fifty-two fraction bits. Everything here decides on
// those bits with whole-number arithmetic.

/// The bit pattern that stands for a missing price: the quiet not-a-number.
pub const MISSING: u64 = 0x7ff8_0000_0000_0000;

/// The bit pattern of the double 0.
pub const ZERO: u64 = 0;

/// The bit pattern of the double 1.
pub const ONE: u64 = 0x3ff0_0000_0000_0000;

/// The lowest pattern whose sign bit is set.
pub const SIGN: u64 = 0x8000_0000_0000_0000;

/// The pattern of positive infinity: all exponent bits set, no fraction bit.
pub const INFINITE: u64 = 0x7ff0_0000_0000_0000;

/// Whether the sign bit is set.
pub open spec fn is_negative(bits: u64) -> bool {
    bits >= SIGN
}

/// The pattern without its sign bit.
pub open spec fn magnitude(bits: u64) -> u64 {
    if bits >= SIGN {
        (bits - SIGN) as u64
    } else {
        bits
    }
}

/// Whether the pattern is a number that is neither infinite nor
/// not-a-number: some exponent bit is clear.
pub open spec fn is_finite(bits: u64) -> bool {
    magnitude(bits) < INFINITE
}

/// Whether the pattern is a not-a-number: all exponent bits set and some
/// fraction bit set.
pub open spec fn is_nan(bits: u64) -> bool {
    magnitude(bits) > INFINITE
}

/// The place of a pattern on the number line. Among finite patterns a lower
/// rank is a lower number and an equal rank an equal number; the two zeros
/// share rank 0.
pub open spec fn rank(bits: u64) -> int {
    if is_negative(bits) {
        -(magnitude(bits) as int)
    } else {
        magnitude(bits) as int
    }
}

/// Decides whether a pattern is a finite number.
pub fn finite(bits: u64) -> (r: bool)
    ensures
        r == is_finite(bits),
{
    if bits >= SIGN {
        bits - SIGN < INFINITE
    } else {
        bits < INFINITE
    }
}

/// Decides whether a pattern is a not-a-number.
pub fn not_a_number(bits: u64) -> (r: bool)
    ensures
        r == is_nan(bits),
{
    if bits >= SIGN {
        bits - SIGN > INFINITE
    } else {
        bits > INFINITE
    }
}

/// Whether the first pattern stands lower on the number line than the second.
pub fn below(left: u64, right: u64) -> (r: bool)
    ensures
        r == (rank(left) < rank(right)),
{
    if left >= SIGN {
        if right >= SIGN {
            left - SIGN > right - SIGN
        } else {
            left - SIGN > 0 || right > 0
        }
    } else {
        if right >= SIGN {
            false
        } else {
            left < right
        }
    }
}

/// The missing-price pattern is a not-a-number, and so not finite.
pub proof fn missing_is_not_a_number()
    ensures
        is_nan(MISSING),
        !is_finite(MISSING),
{
}

/// The pattern of the highest finite number.
pub const HIGHEST: u64 = 0x7fef_ffff_ffff_ffff;

/// The pattern of the lowest finite number.
pub const LOWEST: u64 = 0xffef_ffff_ffff_ffff;

/// The pattern of the negative number nearest to zero.
pub const BELOW_ZERO: u64 = 0x8000_0000_0000_0001;

/// The pattern of the positive number nearest to zero.
pub const ABOVE_ZERO: u64 = 1;

/// The finite pattern that stands one place lower on the number line than
/// the finite pattern `bits`; the lowest finite pattern stays as it is.
pub open spec fn step_below_of(bits: u64) -> u64 {
    if magnitude(bits) == 0 {
        BELOW_ZERO
    } else if is_negative(bits) {
        if bits == LOWEST {
            LOWEST
        } else {
            (bits + 1) as u64
        }
    } else {
        (bits - 1) as u64
    }
}

/// The finite pattern that stands one place higher on the number line than
/// the finite pattern `bits`; the highest finite pattern stays as it is.
pub open spec fn step_above_of(bits: u64) -> u64 {
    if magnitude(bits) == 0 {
        ABOVE_ZERO
    } else if is_negative(bits) {
        (bits - 1) as u64
    } else if bits == HIGHEST {
        HIGHEST
    } else {
        (bits + 1) as u64
    }
}

/// Steps a finite pattern one place down the number line.
pub(crate) fn step_below(bits: u64) -> (lower: u64)
    requires
        is_finite(bits),
    ensures
        lower == step_below_of(bits),
        is_finite(lower),
        bits != LOWEST ==> rank(lower) == rank(bits) - 1,
        bits == LOWEST ==> lower == bits,
{
    if bits == 0 || bits == SIGN {
        BELOW_ZERO
    } else if bits > SIGN {
        if bits == LOWEST {
            LOWEST
        } else {
            bits + 1
        }
    } else {
        bits - 1
    }
}

/// Steps a finite pattern one place up the number line.
pub(crate) fn step_above(bits: u64) -> (higher: u64)
    requires
        is_finite(bits),
    ensures
        higher == step_above_of(bits),
        is_finite(higher),
        bits != HIGHEST ==> rank(higher) == rank(bits) + 1,
        bits == HIGHEST ==> higher == bits,
{
    if bits == 0 || bits == SIGN {
        ABOVE_ZERO
    } else if bits > SIGN {
        bits - 1
    } else if bits == HIGHEST {
        HIGHEST
    } else {
        bits + 1
    }
}

} // verus!
