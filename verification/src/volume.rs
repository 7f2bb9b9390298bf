//! Volume levels, carried as the bit pattern of an IEEE 754 single-precision
//! number so that they pass through this crate unchanged.

use vstd::prelude::*;

verus! {

/// A volume level; device volumes lie between 0.0 and 1.0.
#[derive(Debug, Clone, Copy, PartialEq, Eq, Structural)]
pub struct Volume {
    /// The bits of the level as a single-precision number.
    pub bits: u32,
}

/// The bits of 1.0.
pub const UNIT_BITS: u32 = 0x3f80_0000;

/// The bits of positive infinity: larger magnitudes are no numbers.
pub const INFINITY_BITS: u32 = 0x7f80_0000;

/// The sign bit.
pub const SIGN_BIT: u32 = 0x8000_0000;

/// Volume and mute of a device.
#[derive(Debug, Clone, Copy, PartialEq, Eq, Structural)]
pub struct Level {
    pub volume: Volume,
    pub muted: bool,
}

impl Volume {
    /// The bits without the sign; they grow with the magnitude.
    pub open spec fn magnitude(self) -> u32 {
        if self.bits >= SIGN_BIT {
            (self.bits - SIGN_BIT) as u32
        } else {
            self.bits
        }
    }

    /// The level is a number at all.
    pub open spec fn is_number(self) -> bool {
        self.magnitude() <= INFINITY_BITS
    }

    /// The level is neither infinite nor no number.
    pub open spec fn finite(self) -> bool {
        self.magnitude() < INFINITY_BITS
    }

    /// The place of a number on the number line: numbers compare as their
    /// ranks do, and both zeros have rank 0.
    pub open spec fn rank(self) -> int {
        if self.bits >= SIGN_BIT {
            -(self.magnitude() as int)
        } else {
            self.magnitude() as int
        }
    }

    /// The level moved into 0.0 to 1.0; what is no number stays as it is.
    pub open spec fn in_unit(self) -> Volume {
        if self.is_number() && self.rank() < 0 {
            Volume { bits: 0 }
        } else if self.is_number() && self.rank() > UNIT_BITS {
            Volume { bits: UNIT_BITS }
        } else {
            self
        }
    }

    /// Full volume, 1.0.
    pub fn full() -> (r: Volume)
        ensures
            r == (Volume { bits: UNIT_BITS }),
    {
        Volume { bits: UNIT_BITS }
    }

    /// Whether the level is a number at all.
    pub fn is_a_number(&self) -> (r: bool)
        ensures
            r == self.is_number(),
    {
        if self.bits >= SIGN_BIT {
            self.bits - SIGN_BIT <= INFINITY_BITS
        } else {
            self.bits <= INFINITY_BITS
        }
    }

    /// Whether the level is neither infinite nor no number.
    pub fn is_finite(&self) -> (r: bool)
        ensures
            r == self.finite(),
    {
        if self.bits >= SIGN_BIT {
            self.bits - SIGN_BIT < INFINITY_BITS
        } else {
            self.bits < INFINITY_BITS
        }
    }

    /// The level moved into 0.0 to 1.0; what is no number stays as it is.
    pub fn clamp_unit(&self) -> (r: Volume)
        ensures
            r == self.in_unit(),
    {
        if self.bits >= SIGN_BIT {
            let magnitude: u32 = self.bits - SIGN_BIT;
            if 0 < magnitude && magnitude <= INFINITY_BITS {
                Volume { bits: 0 }
            } else {
                *self
            }
        } else if UNIT_BITS < self.bits && self.bits <= INFINITY_BITS {
            Volume { bits: UNIT_BITS }
        } else {
            *self
        }
    }
}

/// A number clamped to the unit range lies in it, and clamping again changes
/// nothing.
pub proof fn lemma_clamped_volume_is_in_unit_range(v: Volume)
    requires
        v.is_number(),
    ensures
        v.in_unit().is_number(),
        0 <= v.in_unit().rank() <= UNIT_BITS,
        v.in_unit().in_unit() == v.in_unit(),
{
}

/// Which level a clamp gives, by the bits of the level. What lies between 0.0
/// and 1.0 stays, as both zeros do, and so does what is no number. More than
/// 1.0 becomes 1.0, and less than 0.0 becomes 0.0.
pub proof fn lemma_clamping_moves_only_what_lies_outside(v: Volume)
    ensures
        v.bits <= 0x3f80_0000 ==> v.in_unit() == v,
        0x3f80_0000 < v.bits <= 0x7f80_0000 ==> v.in_unit().bits == 0x3f80_0000,
        0x7f80_0000 < v.bits <= 0x8000_0000 ==> v.in_unit() == v,
        0x8000_0000 < v.bits <= 0xff80_0000 ==> v.in_unit().bits == 0,
        0xff80_0000 < v.bits ==> v.in_unit() == v,
{
}

/// A level is finite exactly if its exponent is not the largest one, and it is
/// a number exactly if it is finite or infinite; neither depends on the sign.
pub proof fn lemma_what_is_a_number(v: Volume)
    ensures
        v.finite() <==> v.bits % 0x8000_0000 < 0x7f80_0000,
        v.is_number() <==> v.bits % 0x8000_0000 <= 0x7f80_0000,
{
}

/// Of two numbers the smaller one is not the larger one after a clamp.
pub proof fn lemma_clamping_keeps_the_order(v: Volume, w: Volume)
    requires
        v.is_number(),
        w.is_number(),
        v.rank() <= w.rank(),
    ensures
        v.in_unit().rank() <= w.in_unit().rank(),
{
}

} // verus!
