//! Numbers as IEEE-754 binary64 bit patterns, and the complex values built from them.
use vstd::prelude::*;

verus! {

/// Bit pattern of the quiet NaN that marks a missing coordinate or value.
pub const NAN: u64 = 0x7ff8_0000_0000_0000;

/// Bit pattern of positive zero.
pub const ZERO: u64 = 0;

/// All bits but the sign.
pub const MAGNITUDE: u64 = 0x7fff_ffff_ffff_ffff;

/// The exponent field, shifted down.
pub const EXPONENT: u64 = 0x7ff;

/// `b` encodes positive or negative zero.
pub open spec fn is_zero(b: u64) -> bool {
    b & MAGNITUDE == 0
}

/// `b` encodes a finite number (neither an infinity nor a NaN).
pub open spec fn is_finite(b: u64) -> bool {
    (b >> 52u64) & EXPONENT != EXPONENT
}

pub fn zero(b: u64) -> (r: bool)
    ensures
        r == is_zero(b),
{
    b & MAGNITUDE == 0
}

pub fn finite(b: u64) -> (r: bool)
    ensures
        r == is_finite(b),
{
    (b >> 52) & EXPONENT != EXPONENT
}

/// A raw evaluation result: real and imaginary parts.
#[derive(Clone, Copy, Debug, PartialEq, Eq, Structural)]
pub struct Sample {
    pub re: u64,
    pub im: u64,
}

impl Sample {
    /// The imaginary part is a finite non-zero number.
    pub open spec fn has_imag(self) -> bool {
        !is_zero(self.im) && is_finite(self.im)
    }

    /// The real part is zero or not a finite number.
    pub open spec fn real_is_void(self) -> bool {
        is_zero(self.re) || !is_finite(self.re)
    }

    pub open spec fn missing_spec() -> Sample {
        Sample { re: NAN, im: NAN }
    }

    /// The sentinel of a cell that produced no value.
    #[verifier::when_used_as_spec(missing_spec)]
    pub fn missing() -> (r: Sample)
        ensures
            r == Sample::missing_spec(),
    {
        Sample { re: NAN, im: NAN }
    }

    pub fn has_imag_part(&self) -> (r: bool)
        ensures
            r == self.has_imag(),
    {
        !zero(self.im) && finite(self.im)
    }

    pub fn real_part_is_void(&self) -> (r: bool)
        ensures
            r == self.real_is_void(),
    {
        zero(self.re) || !finite(self.re)
    }
}

/// A value in the representation chosen for it: real only, imaginary only, or both parts.
#[derive(Clone, Copy, Debug, PartialEq, Eq, Structural)]
pub enum Complex {
    Real(u64),
    Imag(u64),
    Complex(u64, u64),
}

impl Complex {
    pub open spec fn parts_spec(self) -> Sample {
        match self {
            Complex::Real(r) => Sample { re: r, im: ZERO },
            Complex::Imag(i) => Sample { re: ZERO, im: i },
            Complex::Complex(r, i) => Sample { re: r, im: i },
        }
    }

    /// The value as real and imaginary parts; an absent part is zero.
    #[verifier::when_used_as_spec(parts_spec)]
    pub fn parts(self) -> (r: Sample)
        ensures
            r == self.parts_spec(),
    {
        match self {
            Complex::Real(r) => Sample { re: r, im: ZERO },
            Complex::Imag(i) => Sample { re: ZERO, im: i },
            Complex::Complex(r, i) => Sample { re: r, im: i },
        }
    }

    pub open spec fn shows_real(self) -> bool {
        self is Real || self is Complex
    }

    pub open spec fn shows_imag(self) -> bool {
        self is Imag || self is Complex
    }

    /// The value carries a real part.
    pub fn has_real_channel(&self) -> (r: bool)
        ensures
            r == self.shows_real(),
    {
        match self {
            Complex::Imag(_) => false,
            _ => true,
        }
    }

    /// The value carries an imaginary part.
    pub fn has_imag_channel(&self) -> (r: bool)
        ensures
            r == self.shows_imag(),
    {
        match self {
            Complex::Real(_) => false,
            _ => true,
        }
    }
}

} // verus!
