//! Signal units and the samples that carry them.
//!
//! A sample is held as the bit pattern of a 32-bit IEEE 754 number, which is
//! what the audio container stores. Its sign and whether it is zero decide
//! what the decoder reads from it.

use vstd::prelude::*;

verus! {

/// One of the two primitives that a pattern is made of.
#[derive(Clone, Copy, Debug, PartialEq, Eq, Structural)]
pub enum SignalUnit {
    Dot,
    Dash,
}

/// What the decoder takes from one sample.
#[derive(Clone, Copy, Debug, PartialEq, Eq, Structural)]
pub enum Reading {
    /// The sample carries one unit of the current symbol's pattern.
    Unit(SignalUnit),
    /// The sample closes the current symbol.
    Boundary,
}

/// Bit pattern of the amplitude +1/2, which renders a `Dash`.
pub const DASH_BITS: u32 = 0x3F00_0000;

/// Bit pattern of the amplitude zero, which renders a `Dot`.
pub const DOT_BITS: u32 = 0x0000_0000;

/// Bit pattern of the amplitude -1/2, which separates two symbols.
pub const SEPARATOR_BITS: u32 = 0xBF00_0000;

/// The sign bit of a sample.
pub const SIGN_BIT: u32 = 0x8000_0000;

/// Bit pattern of positive infinity: the largest magnitude that is a number.
pub const INFINITY_BITS: u32 = 0x7F80_0000;

/// One sample of the stream, as the bits of a 32-bit IEEE 754 number.
#[derive(Clone, Copy, Debug, PartialEq, Eq, Structural)]
pub struct Sample {
    pub bits: u32,
}

impl Sample {
    /// The bits without the sign.
    pub open spec fn magnitude(self) -> int {
        if self.bits >= SIGN_BIT {
            self.bits - SIGN_BIT
        } else {
            self.bits as int
        }
    }

    /// The sample compares greater than zero: its sign bit is clear and it is
    /// a nonzero number, infinity included.
    pub open spec fn is_positive(self) -> bool {
        self.bits < SIGN_BIT && 0 < self.magnitude() <= INFINITY_BITS
    }

    /// The sample compares less than zero: its sign bit is set and it is a
    /// nonzero number, infinity included.
    pub open spec fn is_negative(self) -> bool {
        self.bits >= SIGN_BIT && 0 < self.magnitude() <= INFINITY_BITS
    }

    /// What the decoder reads: a positive sample is a `Dash`, a negative one
    /// closes the symbol, and anything else (either zero, or not a number)
    /// is a `Dot`.
    pub open spec fn reading(self) -> Reading {
        if self.is_positive() {
            Reading::Unit(SignalUnit::Dash)
        } else if self.is_negative() {
            Reading::Boundary
        } else {
            Reading::Unit(SignalUnit::Dot)
        }
    }

    /// The sample with its sign bit inverted.
    pub open spec fn flipped(self) -> Sample {
        if self.bits >= SIGN_BIT {
            Sample { bits: (self.bits - SIGN_BIT) as u32 }
        } else {
            Sample { bits: (self.bits + SIGN_BIT) as u32 }
        }
    }

    /// The sample that renders `unit`.
    pub open spec fn of_unit(unit: SignalUnit) -> Sample {
        match unit {
            SignalUnit::Dash => Sample { bits: DASH_BITS },
            SignalUnit::Dot => Sample { bits: DOT_BITS },
        }
    }

    /// The sample that separates two symbols.
    pub open spec fn separator_spec() -> Sample {
        Sample { bits: SEPARATOR_BITS }
    }

    /// The sample is one of the three levels that the encoder emits.
    pub open spec fn is_level(self) -> bool {
        self.bits == DASH_BITS || self.bits == DOT_BITS || self.bits == SEPARATOR_BITS
    }

    /// Renders one unit as a sample.
    pub fn from_unit(unit: SignalUnit) -> (s: Sample)
        ensures
            s == Sample::of_unit(unit),
            s.reading() == Reading::Unit(unit),
            s.is_level(),
    {
        match unit {
            SignalUnit::Dash => Sample { bits: DASH_BITS },
            SignalUnit::Dot => Sample { bits: DOT_BITS },
        }
    }

    /// The sample that closes a symbol.
    #[verifier::when_used_as_spec(separator_spec)]
    pub fn separator() -> (s: Sample)
        ensures
            s == Sample::separator_spec(),
            s.reading() == Reading::Boundary,
            s.is_level(),
    {
        Sample { bits: SEPARATOR_BITS }
    }

    /// Classifies the sample as the decoder does.
    pub fn read(self) -> (r: Reading)
        ensures
            r == self.reading(),
    {
        if self.bits > 0 && self.bits <= INFINITY_BITS {
            Reading::Unit(SignalUnit::Dash)
        } else if self.bits > SIGN_BIT && self.bits - SIGN_BIT <= INFINITY_BITS {
            Reading::Boundary
        } else {
            Reading::Unit(SignalUnit::Dot)
        }
    }

    /// Inverts the sign of the sample.
    pub fn flip(self) -> (s: Sample)
        ensures
            s == self.flipped(),
    {
        if self.bits >= SIGN_BIT {
            Sample { bits: self.bits - SIGN_BIT }
        } else {
            Sample { bits: self.bits + SIGN_BIT }
        }
    }
}

} // verus!
