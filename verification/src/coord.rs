//! Coordinates.
//!
//! A coordinate is a double-precision number. The library never computes
//! with one: it stores it, hands it on, and writes it to JSON. It therefore
//! holds a coordinate by its IEEE-754 bit pattern, which is exact and can be
//! compared.

use vstd::prelude::*;

verus! {

/// A double-precision number, by its IEEE-754 bit pattern: one sign bit,
/// eleven exponent bits, fifty-two fraction bits.
#[derive(Clone, Copy, Debug, PartialEq, Eq, Structural)]
pub struct Coord {
    pub bits: u64,
}

impl Coord {
    /// The exponent field of the pattern.
    pub open spec fn exponent_field(self) -> u64 {
        (self.bits >> 52) & 0x7ff
    }

    /// The fraction field of the pattern.
    pub open spec fn fraction_field(self) -> u64 {
        self.bits & 0xf_ffff_ffff_ffff
    }

    /// Whether the sign bit is set.
    pub open spec fn negative(self) -> bool {
        self.bits >> 63 == 1
    }

    /// Whether the pattern denotes a number: neither an infinity nor a NaN.
    pub open spec fn finite(self) -> bool {
        self.exponent_field() != 0x7ff
    }

    /// The significand of a finite pattern, as an integer: the fraction
    /// field, and above it the implicit leading bit unless the exponent field
    /// is zero.
    pub open spec fn significand(self) -> nat {
        if self.exponent_field() == 0 {
            self.fraction_field() as nat
        } else {
            self.fraction_field() as nat + 0x10_0000_0000_0000
        }
    }

    /// The power of two that scales the significand of a finite pattern:
    /// the number denoted is `significand × 2^binary_exponent`, with the
    /// sign that the sign bit gives.
    pub open spec fn binary_exponent(self) -> int {
        if self.exponent_field() == 0 {
            -1074
        } else {
            self.exponent_field() as int - 1075
        }
    }

    /// The pattern as a coordinate.
    pub fn from_bits(bits: u64) -> (c: Coord)
        ensures
            c.bits == bits,
    {
        Coord { bits }
    }

    /// The pattern of the coordinate.
    pub fn to_bits(&self) -> (bits: u64)
        ensures
            bits == self.bits,
    {
        self.bits
    }

    /// Whether the coordinate is a number: neither an infinity nor a NaN.
    pub fn is_finite(&self) -> (r: bool)
        ensures
            r == self.finite(),
    {
        (self.bits >> 52) & 0x7ff != 0x7ff
    }

    /// The significand and the power of two of a coordinate that is a
    /// number; an infinity or a NaN has neither.
    pub fn decompose(&self) -> (r: Option<(u64, i32)>)
        ensures
            match r {
                Some((significand, exponent)) => self.finite() && significand
                    == self.significand() && exponent == self.binary_exponent() && significand
                    < 0x20_0000_0000_0000 && -1074 <= exponent <= 971,
                None => !self.finite(),
            },
    {
        let bits = self.bits;
        let e: u64 = (bits >> 52) & 0x7ff;
        let f: u64 = bits & 0xf_ffff_ffff_ffff;
        assert(e <= 0x7ff) by (bit_vector)
            requires
                e == (bits >> 52) & 0x7ff,
        ;
        assert(f < 0x10_0000_0000_0000) by (bit_vector)
            requires
                f == bits & 0xf_ffff_ffff_ffff,
        ;
        if e == 0x7ff {
            None
        } else if e == 0 {
            Some((f, -1074))
        } else {
            Some((f + 0x10_0000_0000_0000, e as i32 - 1075))
        }
    }

    /// Whether the sign bit is set.
    pub fn is_negative(&self) -> (r: bool)
        ensures
            r == self.negative(),
    {
        self.bits >> 63 == 1
    }
}

} // verus!
