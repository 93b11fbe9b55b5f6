//! Dimension vectors: signed exponents over the five base dimensions
//! (length, mass, time, temperature, data size).
//!
//! Two quantities can be added or subtracted only if their dimension vectors
//! are equal.  Multiplication adds the exponent vectors, division subtracts
//! them, and raising to a power scales them; the exponents saturate at the
//! `i8` range instead of wrapping.

use vstd::prelude::*;

verus! {

/// Exponents of the base dimensions, e.g. speed is `length: 1, time: -1`.
#[derive(Clone, Copy, Debug, PartialEq, Eq, Structural, Hash)]
pub struct Dimensions {
    pub length: i8,
    pub mass: i8,
    pub time: i8,
    pub temperature: i8,
    pub data: i8,
}

/// An integer clamped into the `i8` range.
pub open spec fn clamp_i8(x: int) -> i8 {
    if x > 127 {
        127i8
    } else if x < -128 {
        -128i8
    } else {
        x as i8
    }
}

fn add_exp(a: i8, b: i8) -> (r: i8)
    ensures
        r == clamp_i8(a + b),
{
    let s: i16 = a as i16 + b as i16;
    if s > 127 {
        127
    } else if s < -128 {
        -128
    } else {
        s as i8
    }
}

fn sub_exp(a: i8, b: i8) -> (r: i8)
    ensures
        r == clamp_i8(a - b),
{
    let s: i16 = a as i16 - b as i16;
    if s > 127 {
        127
    } else if s < -128 {
        -128
    } else {
        s as i8
    }
}

fn mul_exp(a: i8, b: i8) -> (r: i8)
    ensures
        r == clamp_i8(a * b),
{
    proof {
        assert(-16384 <= a as int * b as int <= 16384) by (nonlinear_arith)
            requires
                -128 <= a as int <= 127,
                -128 <= b as int <= 127,
        ;
    }
    let s: i32 = a as i32 * b as i32;
    if s > 127 {
        127
    } else if s < -128 {
        -128
    } else {
        s as i8
    }
}

impl Dimensions {
    /// Dimensionless: every exponent zero.
    pub fn zero() -> (r: Dimensions)
        ensures
            r == Dimensions::spec_zero(),
    {
        Dimensions { length: 0, mass: 0, time: 0, temperature: 0, data: 0 }
    }

    /// Dimensionless, as a specification value.
    pub open spec fn spec_zero() -> Dimensions {
        Dimensions { length: 0, mass: 0, time: 0, temperature: 0, data: 0 }
    }

    /// Only a length exponent.
    pub fn length(exp: i8) -> (r: Dimensions)
        ensures
            r == (Dimensions { length: exp, ..Dimensions::spec_zero() }),
    {
        Dimensions { length: exp, mass: 0, time: 0, temperature: 0, data: 0 }
    }

    /// Only a mass exponent.
    pub fn mass(exp: i8) -> (r: Dimensions)
        ensures
            r == (Dimensions { mass: exp, ..Dimensions::spec_zero() }),
    {
        Dimensions { length: 0, mass: exp, time: 0, temperature: 0, data: 0 }
    }

    /// Only a time exponent.
    pub fn time(exp: i8) -> (r: Dimensions)
        ensures
            r == (Dimensions { time: exp, ..Dimensions::spec_zero() }),
    {
        Dimensions { length: 0, mass: 0, time: exp, temperature: 0, data: 0 }
    }

    /// Only a temperature exponent.
    pub fn temperature(exp: i8) -> (r: Dimensions)
        ensures
            r == (Dimensions { temperature: exp, ..Dimensions::spec_zero() }),
    {
        Dimensions { length: 0, mass: 0, time: 0, temperature: exp, data: 0 }
    }

    /// Only a data-size exponent.
    pub fn data(exp: i8) -> (r: Dimensions)
        ensures
            r == (Dimensions { data: exp, ..Dimensions::spec_zero() }),
    {
        Dimensions { length: 0, mass: 0, time: 0, temperature: 0, data: exp }
    }

    /// The dimensions of a product: exponents added componentwise.
    pub open spec fn spec_multiply(self, other: Dimensions) -> Dimensions {
        Dimensions {
            length: clamp_i8(self.length + other.length),
            mass: clamp_i8(self.mass + other.mass),
            time: clamp_i8(self.time + other.time),
            temperature: clamp_i8(self.temperature + other.temperature),
            data: clamp_i8(self.data + other.data),
        }
    }

    /// Multiply dimensions: add the exponent vectors.
    pub fn multiply(self, other: Dimensions) -> (r: Dimensions)
        ensures
            r == self.spec_multiply(other),
    {
        Dimensions {
            length: add_exp(self.length, other.length),
            mass: add_exp(self.mass, other.mass),
            time: add_exp(self.time, other.time),
            temperature: add_exp(self.temperature, other.temperature),
            data: add_exp(self.data, other.data),
        }
    }

    /// The dimensions of a quotient: exponents subtracted componentwise.
    pub open spec fn spec_divide(self, other: Dimensions) -> Dimensions {
        Dimensions {
            length: clamp_i8(self.length - other.length),
            mass: clamp_i8(self.mass - other.mass),
            time: clamp_i8(self.time - other.time),
            temperature: clamp_i8(self.temperature - other.temperature),
            data: clamp_i8(self.data - other.data),
        }
    }

    /// Divide dimensions: subtract the exponent vectors.
    pub fn divide(self, other: Dimensions) -> (r: Dimensions)
        ensures
            r == self.spec_divide(other),
    {
        Dimensions {
            length: sub_exp(self.length, other.length),
            mass: sub_exp(self.mass, other.mass),
            time: sub_exp(self.time, other.time),
            temperature: sub_exp(self.temperature, other.temperature),
            data: sub_exp(self.data, other.data),
        }
    }

    /// The dimensions of a power: every exponent scaled.
    pub open spec fn spec_power(self, exp: i8) -> Dimensions {
        Dimensions {
            length: clamp_i8(self.length * exp),
            mass: clamp_i8(self.mass * exp),
            time: clamp_i8(self.time * exp),
            temperature: clamp_i8(self.temperature * exp),
            data: clamp_i8(self.data * exp),
        }
    }

    /// Raise dimensions to a power: multiply every exponent.
    pub fn power(self, exp: i8) -> (r: Dimensions)
        ensures
            r == self.spec_power(exp),
    {
        Dimensions {
            length: mul_exp(self.length, exp),
            mass: mul_exp(self.mass, exp),
            time: mul_exp(self.time, exp),
            temperature: mul_exp(self.temperature, exp),
            data: mul_exp(self.data, exp),
        }
    }

    /// True iff every exponent is zero.
    pub fn is_dimensionless(&self) -> (r: bool)
        ensures
            r == (*self == Dimensions::spec_zero()),
    {
        self.length == 0 && self.mass == 0 && self.time == 0 && self.temperature == 0 && self.data
            == 0
    }

    /// True iff the vectors are equal or one of them is dimensionless.
    pub fn is_compatible(&self, other: &Dimensions) -> (r: bool)
        ensures
            r == (*self == *other || *self == Dimensions::spec_zero() || *other
                == Dimensions::spec_zero()),
    {
        (self.length == other.length && self.mass == other.mass && self.time == other.time
            && self.temperature == other.temperature && self.data == other.data)
            || self.is_dimensionless() || other.is_dimensionless()
    }
}

} // verus!
