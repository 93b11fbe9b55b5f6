//! The decimal number model.
//!
//! A [`Dec`] is a sign-magnitude decimal floating-point value
//! `(-1)^neg * mag / 10^scale` with a 96-bit magnitude and a scale of at
//! most 28, the representation of `rust_decimal::Decimal`.  The arithmetic
//! that needs long multi-word algorithms (add, sub, mul, div, pow, sqrt,
//! compare) is delegated to `rust_decimal` through trusted wrappers; what a
//! few lines can state exactly (rounding, floor, ceiling, parsing and
//! formatting of decimal strings) is implemented and verified here.

use vstd::prelude::*;

verus! {

use vstd::arithmetic::power::{pow, lemma_pow_positive};

broadcast use
    vstd::arithmetic::mul::group_mul_basics,
    vstd::arithmetic::mul::lemma_mul_nonzero,
    vstd::arithmetic::mul::lemma_mul_strictly_positive,
;

/// One more than the largest magnitude a `Dec` may carry (2^96).
pub const MAG_LIMIT: u128 = 0x1000000000000000000000000;

/// The largest scale a `Dec` may carry.
pub const MAX_SCALE: u32 = 28;

/// A decimal value `(-1)^neg * mag / 10^scale`.
#[derive(Clone, Copy, Debug)]
pub struct Dec {
    pub neg: bool,
    pub mag: u128,
    pub scale: u32,
}

impl Dec {
    /// -1 for negative values, +1 otherwise.
    pub open spec fn sgn(self) -> int {
        if self.neg {
            -1
        } else {
            1
        }
    }

    /// Well-formed: magnitude below 2^96, scale at most 28, no negative zero.
    pub open spec fn wf(self) -> bool {
        &&& self.mag < MAG_LIMIT
        &&& self.scale <= MAX_SCALE
        &&& !(self.mag == 0 && self.neg)
    }

    /// The value as an exact count of 10^-28 units.
    pub open spec fn val(self) -> int
        recommends
            self.wf(),
    {
        if self.neg {
            -(self.mag * pow(10, (MAX_SCALE - self.scale) as nat))
        } else {
            self.mag * pow(10, (MAX_SCALE - self.scale) as nat)
        }
    }

    /// The magnitude aligned to a scale `s >= self.scale`, with sign.
    pub open spec fn lift(self, s: u32) -> int
        recommends
            self.scale <= s,
    {
        if self.neg {
            -(self.mag * pow(10, (s - self.scale) as nat))
        } else {
            self.mag * pow(10, (s - self.scale) as nat)
        }
    }

    /// Zero.
    pub fn zero() -> (r: Dec)
        ensures
            r.wf(),
            r.val() == 0,
            r == (Dec { neg: false, mag: 0, scale: 0 }),
    {
        Dec { neg: false, mag: 0, scale: 0 }
    }

    /// One.
    pub fn one() -> (r: Dec)
        ensures
            r.wf(),
            r == (Dec { neg: false, mag: 1, scale: 0 }),
            r.val() == pow(10, MAX_SCALE as nat),
    {
        Dec { neg: false, mag: 1, scale: 0 }
    }

    /// A nonnegative value `mag / 10^scale`.
    pub fn new(mag: u64, scale: u32) -> (r: Dec)
        requires
            scale <= MAX_SCALE,
        ensures
            r.wf(),
            r == (Dec { neg: false, mag: mag as u128, scale }),
            r.val() == mag * pow(10, (MAX_SCALE - scale) as nat),
    {
        Dec { neg: false, mag: mag as u128, scale }
    }

    /// A negative value `-mag / 10^scale` (zero stays unsigned).
    pub fn new_neg(mag: u64, scale: u32) -> (r: Dec)
        requires
            scale <= MAX_SCALE,
        ensures
            r.wf(),
            r.val() == -(mag * pow(10, (MAX_SCALE - scale) as nat)),
    {
        Dec { neg: mag != 0, mag: mag as u128, scale }
    }

    /// A value from its raw parts.
    pub fn from_parts(neg: bool, mag: u128, scale: u32) -> (r: Dec)
        requires
            mag < MAG_LIMIT,
            scale <= MAX_SCALE,
            !(mag == 0 && neg),
        ensures
            r == (Dec { neg, mag, scale }),
            r.wf(),
    {
        Dec { neg, mag, scale }
    }

    /// True iff the value is zero.
    pub fn is_zero(&self) -> (r: bool)
        requires
            self.wf(),
        ensures
            r == (self.val() == 0),
    {
        proof {
            lemma_pow_positive(10, (MAX_SCALE - self.scale) as nat);
        }
        self.mag == 0
    }

    /// True iff the value is strictly negative.
    pub fn is_negative(&self) -> (r: bool)
        requires
            self.wf(),
        ensures
            r == (self.val() < 0),
    {
        proof {
            lemma_pow_positive(10, (MAX_SCALE - self.scale) as nat);
        }
        self.neg
    }

    /// The absolute value.
    pub fn abs(&self) -> (r: Dec)
        requires
            self.wf(),
        ensures
            r.wf(),
            r == (Dec { neg: false, mag: self.mag, scale: self.scale }),
            r.val() == if self.val() < 0 {
                -self.val()
            } else {
                self.val()
            },
    {
        proof {
            lemma_pow_positive(10, (MAX_SCALE - self.scale) as nat);
        }
        Dec { neg: false, mag: self.mag, scale: self.scale }
    }

    /// The negated value.
    pub fn negate(&self) -> (r: Dec)
        requires
            self.wf(),
        ensures
            r.wf(),
            r.val() == -self.val(),
    {
        Dec { neg: !self.neg && self.mag != 0, mag: self.mag, scale: self.scale }
    }
}

// ---------------------------------------------------------------------------
// Trusted wrappers around rust_decimal.
//
// Each name below (`add_of`, `sub_of`, ...) stands for the result that
// rust_decimal computes from the given representation; the accompanying
// clauses state only what the crate's source shows for every input.
// ---------------------------------------------------------------------------
pub uninterp spec fn add_of(n1: bool, m1: u128, s1: u32, n2: bool, m2: u128, s2: u32) -> Option<
    Dec,
>;

pub uninterp spec fn sub_of(n1: bool, m1: u128, s1: u32, n2: bool, m2: u128, s2: u32) -> Option<
    Dec,
>;

pub uninterp spec fn mul_of(n1: bool, m1: u128, s1: u32, n2: bool, m2: u128, s2: u32) -> Option<
    Dec,
>;

pub uninterp spec fn div_of(n1: bool, m1: u128, s1: u32, n2: bool, m2: u128, s2: u32) -> Option<
    Dec,
>;

pub uninterp spec fn pow_of(n1: bool, m1: u128, s1: u32, n2: bool, m2: u128, s2: u32) -> Option<
    Dec,
>;

pub uninterp spec fn sqrt_of(n1: bool, m1: u128, s1: u32) -> Option<Dec>;

/// What `checked_add` yields on the two representations.
pub open spec fn s_add(a: Dec, b: Dec) -> Option<Dec> {
    add_of(a.neg, a.mag, a.scale, b.neg, b.mag, b.scale)
}

/// What `checked_sub` yields on the two representations.
pub open spec fn s_sub(a: Dec, b: Dec) -> Option<Dec> {
    sub_of(a.neg, a.mag, a.scale, b.neg, b.mag, b.scale)
}

/// What `checked_mul` yields on the two representations.
pub open spec fn s_mul(a: Dec, b: Dec) -> Option<Dec> {
    mul_of(a.neg, a.mag, a.scale, b.neg, b.mag, b.scale)
}

/// What `checked_div` yields on the two representations.
pub open spec fn s_div(a: Dec, b: Dec) -> Option<Dec> {
    div_of(a.neg, a.mag, a.scale, b.neg, b.mag, b.scale)
}

/// What `checked_powd` yields on the two representations.
pub open spec fn s_pow(a: Dec, b: Dec) -> Option<Dec> {
    pow_of(a.neg, a.mag, a.scale, b.neg, b.mag, b.scale)
}

/// What `sqrt` yields on the representation.
pub open spec fn s_sqrt(a: Dec) -> Option<Dec> {
    sqrt_of(a.neg, a.mag, a.scale)
}

/// The larger of the two scales.
pub open spec fn max_scale2(a: Dec, b: Dec) -> u32 {
    if a.scale >= b.scale {
        a.scale
    } else {
        b.scale
    }
}

/// The exact sum is representable with a 96-bit magnitude at the larger scale.
pub open spec fn add_fits(a: Dec, b: Dec) -> bool {
    let m = a.lift(max_scale2(a, b)) + b.lift(max_scale2(a, b));
    -(MAG_LIMIT as int) < m < MAG_LIMIT as int
}

/// The exact difference is representable with a 96-bit magnitude at the larger scale.
pub open spec fn sub_fits(a: Dec, b: Dec) -> bool {
    let m = a.lift(max_scale2(a, b)) - b.lift(max_scale2(a, b));
    -(MAG_LIMIT as int) < m < MAG_LIMIT as int
}

/// The exact product is representable without any rounding.
pub open spec fn mul_fits(a: Dec, b: Dec) -> bool {
    a.scale + b.scale <= MAX_SCALE && a.mag * b.mag < MAG_LIMIT
}

/// Relies on rust_decimal's `checked_add`: the exact sum when it is
/// representable at the larger scale, a value rounded to fit 96 bits
/// otherwise, `None` on overflow.
#[verifier::external_body]
pub(crate) fn dec_add(a: &Dec, b: &Dec) -> (r: Option<Dec>)
    requires
        a.wf(),
        b.wf(),
    ensures
        r == add_of(a.neg, a.mag, a.scale, b.neg, b.mag, b.scale),
        r matches Some(d) ==> d.wf(),
        add_fits(*a, *b) ==> r is Some,
        r matches Some(d) ==> (add_fits(*a, *b) ==> d.val() == a.val() + b.val()),
{
    let x = rust_decimal::Decimal::from_i128_with_scale(
        if a.neg { -(a.mag as i128) } else { a.mag as i128 },
        a.scale,
    );
    let y = rust_decimal::Decimal::from_i128_with_scale(
        if b.neg { -(b.mag as i128) } else { b.mag as i128 },
        b.scale,
    );
    match x.checked_add(y) {
        Some(d) => {
            let m = d.mantissa();
            Some(Dec { neg: m < 0, mag: m.unsigned_abs(), scale: d.scale() })
        }
        None => None,
    }
}

/// Relies on rust_decimal's `checked_sub`: the exact difference when it is
/// representable at the larger scale, a value rounded to fit 96 bits
/// otherwise, `None` on overflow.
#[verifier::external_body]
pub(crate) fn dec_sub(a: &Dec, b: &Dec) -> (r: Option<Dec>)
    requires
        a.wf(),
        b.wf(),
    ensures
        r == sub_of(a.neg, a.mag, a.scale, b.neg, b.mag, b.scale),
        r matches Some(d) ==> d.wf(),
        sub_fits(*a, *b) ==> r is Some,
        r matches Some(d) ==> (sub_fits(*a, *b) ==> d.val() == a.val() - b.val()),
{
    let x = rust_decimal::Decimal::from_i128_with_scale(
        if a.neg { -(a.mag as i128) } else { a.mag as i128 },
        a.scale,
    );
    let y = rust_decimal::Decimal::from_i128_with_scale(
        if b.neg { -(b.mag as i128) } else { b.mag as i128 },
        b.scale,
    );
    match x.checked_sub(y) {
        Some(d) => {
            let m = d.mantissa();
            Some(Dec { neg: m < 0, mag: m.unsigned_abs(), scale: d.scale() })
        }
        None => None,
    }
}

/// Relies on rust_decimal's `checked_mul`: the exact product of the
/// magnitudes at the summed scale when that fits, a value rounded to 96 bits
/// otherwise, `None` on overflow.
#[verifier::external_body]
pub(crate) fn dec_mul(a: &Dec, b: &Dec) -> (r: Option<Dec>)
    requires
        a.wf(),
        b.wf(),
    ensures
        r == mul_of(a.neg, a.mag, a.scale, b.neg, b.mag, b.scale),
        r matches Some(d) ==> d.wf(),
        mul_fits(*a, *b) ==> r is Some,
        r matches Some(d) ==> (mul_fits(*a, *b) ==> d.val() * pow(10, MAX_SCALE as nat) == a.val()
            * b.val()),
{
    let x = rust_decimal::Decimal::from_i128_with_scale(
        if a.neg { -(a.mag as i128) } else { a.mag as i128 },
        a.scale,
    );
    let y = rust_decimal::Decimal::from_i128_with_scale(
        if b.neg { -(b.mag as i128) } else { b.mag as i128 },
        b.scale,
    );
    match x.checked_mul(y) {
        Some(d) => {
            let m = d.mantissa();
            Some(Dec { neg: m < 0, mag: m.unsigned_abs(), scale: d.scale() })
        }
        None => None,
    }
}

/// Relies on rust_decimal's `checked_div`: `None` exactly on division by
/// zero or overflow; when the magnitude of the dividend is an exact multiple
/// of the divisor's and the scales allow it, the exact quotient.
#[verifier::external_body]
pub(crate) fn dec_div(a: &Dec, b: &Dec) -> (r: Option<Dec>)
    requires
        a.wf(),
        b.wf(),
    ensures
        r == div_of(a.neg, a.mag, a.scale, b.neg, b.mag, b.scale),
        r matches Some(d) ==> d.wf(),
        b.mag == 0 ==> r is None,
        a.mag == 0 && b.mag != 0 ==> r is Some,
        b.mag != 0 && a.mag % b.mag == 0 && b.scale <= a.scale ==> r is Some,
        r matches Some(d) ==> (a.mag == 0 ==> d.val() == 0),
        r matches Some(d) ==> (b.mag != 0 && a.mag % b.mag == 0 && b.scale <= a.scale ==> d.val()
            == a.sgn() * b.sgn() * ((a.mag / b.mag) as int) * pow(
            10,
            (MAX_SCALE - (a.scale - b.scale)) as nat,
        )),
{
    let x = rust_decimal::Decimal::from_i128_with_scale(
        if a.neg { -(a.mag as i128) } else { a.mag as i128 },
        a.scale,
    );
    let y = rust_decimal::Decimal::from_i128_with_scale(
        if b.neg { -(b.mag as i128) } else { b.mag as i128 },
        b.scale,
    );
    match x.checked_div(y) {
        Some(d) => {
            let m = d.mantissa();
            Some(Dec { neg: m < 0, mag: m.unsigned_abs(), scale: d.scale() })
        }
        None => None,
    }
}

/// Relies on rust_decimal's `checked_powd` (decimal exponentiation):
/// `None` on overflow or an undefined combination.
#[verifier::external_body]
pub(crate) fn dec_powd(a: &Dec, b: &Dec) -> (r: Option<Dec>)
    requires
        a.wf(),
        b.wf(),
    ensures
        r == pow_of(a.neg, a.mag, a.scale, b.neg, b.mag, b.scale),
        r matches Some(d) ==> d.wf(),
{
    let x = rust_decimal::Decimal::from_i128_with_scale(
        if a.neg { -(a.mag as i128) } else { a.mag as i128 },
        a.scale,
    );
    let y = rust_decimal::Decimal::from_i128_with_scale(
        if b.neg { -(b.mag as i128) } else { b.mag as i128 },
        b.scale,
    );
    match rust_decimal::MathematicalOps::checked_powd(&x, y) {
        Some(d) => {
            let m = d.mantissa();
            Some(Dec { neg: m < 0, mag: m.unsigned_abs(), scale: d.scale() })
        }
        None => None,
    }
}

/// Relies on rust_decimal's `sqrt`: `None` exactly for negative values.
#[verifier::external_body]
pub(crate) fn dec_sqrt(a: &Dec) -> (r: Option<Dec>)
    requires
        a.wf(),
    ensures
        r == sqrt_of(a.neg, a.mag, a.scale),
        r matches Some(d) ==> d.wf(),
        a.neg && a.mag != 0 ==> r is None,
{
    let x = rust_decimal::Decimal::from_i128_with_scale(
        if a.neg { -(a.mag as i128) } else { a.mag as i128 },
        a.scale,
    );
    match rust_decimal::MathematicalOps::sqrt(&x) {
        Some(d) => {
            let m = d.mantissa();
            Some(Dec { neg: m < 0, mag: m.unsigned_abs(), scale: d.scale() })
        }
        None => None,
    }
}

/// Relies on rust_decimal's `Ord::cmp`, which orders decimals by numeric
/// value: returns -1, 0 or 1.
#[verifier::external_body]
pub(crate) fn dec_cmp(a: &Dec, b: &Dec) -> (r: i8)
    requires
        a.wf(),
        b.wf(),
    ensures
        (r == -1i8) == (a.val() < b.val()),
        (r == 0i8) == (a.val() == b.val()),
        (r == 1i8) == (a.val() > b.val()),
{
    let x = rust_decimal::Decimal::from_i128_with_scale(
        if a.neg { -(a.mag as i128) } else { a.mag as i128 },
        a.scale,
    );
    let y = rust_decimal::Decimal::from_i128_with_scale(
        if b.neg { -(b.mag as i128) } else { b.mag as i128 },
        b.scale,
    );
    match x.cmp(&y) {
        core::cmp::Ordering::Less => -1,
        core::cmp::Ordering::Equal => 0,
        core::cmp::Ordering::Greater => 1,
    }
}

// ---------------------------------------------------------------------------
// Verified comparison helpers.
// ---------------------------------------------------------------------------
/// True iff `a < b` by value.
pub fn dec_lt(a: &Dec, b: &Dec) -> (r: bool)
    requires
        a.wf(),
        b.wf(),
    ensures
        r == (a.val() < b.val()),
{
    dec_cmp(a, b) == -1
}

/// True iff `a == b` by value.
pub fn dec_eq(a: &Dec, b: &Dec) -> (r: bool)
    requires
        a.wf(),
        b.wf(),
    ensures
        r == (a.val() == b.val()),
{
    dec_cmp(a, b) == 0
}

/// A well-formed decimal is zero exactly when its magnitude is.
pub proof fn lemma_zero_iff(d: Dec)
    requires
        d.wf(),
    ensures
        (d.val() == 0) <==> (d.mag == 0),
{
    lemma_pow_positive(10, (MAX_SCALE - d.scale) as nat);
}

// ---------------------------------------------------------------------------
// Verified rounding, parsing and formatting.
// ---------------------------------------------------------------------------
/// 10^28, spelled out.
pub proof fn lemma_pow10_28()
    ensures
        pow(10, 28) == 10000000000000000000000000000int,
{
    reveal_with_fuel(pow, 29);
}

/// 10^k for k up to the largest scale.
pub fn pow10_u128(k: u32) -> (r: u128)
    requires
        k <= MAX_SCALE,
    ensures
        r == pow(10, k as nat),
        1 <= r < MAG_LIMIT,
{
    proof {
        lemma_pow10_28();
        vstd::arithmetic::power::lemma_pow_increases(10, k as nat, 28);
        lemma_pow_positive(10, k as nat);
        assert(pow(10, 0) == 1) by {
            reveal_with_fuel(pow, 1);
        }
    }
    let mut i: u32 = 0;
    let mut r: u128 = 1;
    while i < k
        invariant
            i <= k <= MAX_SCALE,
            r == pow(10, i as nat),
            1 <= r < MAG_LIMIT,
        decreases k - i,
    {
        proof {
            lemma_pow10_28();
            vstd::arithmetic::power::lemma_pow_increases(10, (i + 1) as nat, 28);
            lemma_pow_positive(10, (i + 1) as nat);
            assert(pow(10, (i + 1) as nat) == 10 * pow(10, i as nat)) by {
                reveal_with_fuel(pow, 2);
            }
        }
        r = r * 10;
        i = i + 1;
    }
    r
}

/// A magnitude rounded down by `k` decimal digits, ties to even.
pub open spec fn spec_round_mag(mag: u128, k: nat) -> int {
    let p = pow(10, k);
    let q = mag as int / p;
    let rem = mag as int % p;
    if rem > p / 2 || (rem == p / 2 && q % 2 == 1) {
        q + 1
    } else {
        q
    }
}

/// A value rounded to at most `t` fractional digits, ties to even
/// (the rounding that rust_decimal's display path applies).
pub open spec fn spec_round_to_scale(d: Dec, t: u32) -> Dec {
    if d.scale <= t {
        d
    } else {
        let q = spec_round_mag(d.mag, (d.scale - t) as nat);
        Dec { neg: d.neg && q != 0, mag: q as u128, scale: t }
    }
}

impl Dec {
    /// Round to at most `t` fractional digits, ties to even.
    pub fn round_to_scale(&self, t: u32) -> (r: Dec)
        requires
            self.wf(),
            t <= MAX_SCALE,
        ensures
            r == spec_round_to_scale(*self, t),
            r.wf(),
            r.scale <= t || r.scale == self.scale,
    {
        if self.scale <= t {
            return *self;
        }
        let p = pow10_u128(self.scale - t);
        let q = self.mag / p;
        let rem = self.mag % p;
        let half = p / 2;
        proof {
            vstd::arithmetic::div_mod::lemma_fundamental_div_mod(self.mag as int, p as int);
            assert(p >= 10) by {
                assert(pow(10, (self.scale - t) as nat) >= pow(10, 1)) by {
                    vstd::arithmetic::power::lemma_pow_increases(
                        10,
                        1,
                        (self.scale - t) as nat,
                    );
                }
                assert(pow(10, 1) == 10) by {
                    reveal_with_fuel(pow, 2);
                }
            }
            assert(q as int * 10 <= q as int * p) by (nonlinear_arith)
                requires
                    q >= 0,
                    p >= 10,
            ;
            assert(q as int * p <= self.mag as int) by (nonlinear_arith)
                requires
                    self.mag as int == p as int * q as int + rem as int,
                    rem >= 0,
            ;
        }
        let up = rem > half || (rem == half && q % 2 == 1);
        let q2: u128 = if up {
            q + 1
        } else {
            q
        };
        Dec { neg: self.neg && q2 != 0, mag: q2, scale: t }
    }

    /// The greatest integer value not above this one.
    pub fn floor_int(&self) -> (r: Dec)
        requires
            self.wf(),
        ensures
            r == spec_floor(*self),
            r.wf(),
            r.scale == 0,
    {
        if self.scale == 0 {
            return *self;
        }
        let p = pow10_u128(self.scale);
        let q = self.mag / p;
        let rem = self.mag % p;
        proof {
            vstd::arithmetic::div_mod::lemma_fundamental_div_mod(self.mag as int, p as int);
            assert(p >= 10) by {
                assert(pow(10, self.scale as nat) >= pow(10, 1)) by {
                    vstd::arithmetic::power::lemma_pow_increases(10, 1, self.scale as nat);
                }
                assert(pow(10, 1) == 10) by {
                    reveal_with_fuel(pow, 2);
                }
            }
            assert(q as int * 10 <= q as int * p) by (nonlinear_arith)
                requires
                    q >= 0,
                    p >= 10,
            ;
            assert(q as int * p <= self.mag as int) by (nonlinear_arith)
                requires
                    self.mag as int == p as int * q as int + rem as int,
                    rem >= 0,
            ;
        }
        if !self.neg {
            Dec { neg: false, mag: q, scale: 0 }
        } else {
            let q2: u128 = if rem != 0 {
                q + 1
            } else {
                q
            };
            Dec { neg: q2 != 0, mag: q2, scale: 0 }
        }
    }

    /// The least integer value not below this one.
    pub fn ceil_int(&self) -> (r: Dec)
        requires
            self.wf(),
        ensures
            r == spec_ceil(*self),
            r.wf(),
            r.scale == 0,
    {
        if self.scale == 0 {
            return *self;
        }
        let p = pow10_u128(self.scale);
        let q = self.mag / p;
        let rem = self.mag % p;
        proof {
            vstd::arithmetic::div_mod::lemma_fundamental_div_mod(self.mag as int, p as int);
            assert(p >= 10) by {
                assert(pow(10, self.scale as nat) >= pow(10, 1)) by {
                    vstd::arithmetic::power::lemma_pow_increases(10, 1, self.scale as nat);
                }
                assert(pow(10, 1) == 10) by {
                    reveal_with_fuel(pow, 2);
                }
            }
            assert(q as int * 10 <= q as int * p) by (nonlinear_arith)
                requires
                    q >= 0,
                    p >= 10,
            ;
            assert(q as int * p <= self.mag as int) by (nonlinear_arith)
                requires
                    self.mag as int == p as int * q as int + rem as int,
                    rem >= 0,
            ;
        }
        if self.neg {
            Dec { neg: q != 0, mag: q, scale: 0 }
        } else {
            let q2: u128 = if rem != 0 {
                q + 1
            } else {
                q
            };
            Dec { neg: false, mag: q2, scale: 0 }
        }
    }
}

/// Floor: digits dropped, and for negative values with a remainder one more.
pub open spec fn spec_floor(d: Dec) -> Dec {
    if d.scale == 0 {
        d
    } else {
        let p = pow(10, d.scale as nat);
        let q = d.mag as int / p;
        let rem = d.mag as int % p;
        if !d.neg {
            Dec { neg: false, mag: q as u128, scale: 0 }
        } else {
            let q2 = if rem != 0 {
                q + 1
            } else {
                q
            };
            Dec { neg: q2 != 0, mag: q2 as u128, scale: 0 }
        }
    }
}

/// Ceiling: the mirror image of the floor.
pub open spec fn spec_ceil(d: Dec) -> Dec {
    if d.scale == 0 {
        d
    } else {
        let p = pow(10, d.scale as nat);
        let q = d.mag as int / p;
        let rem = d.mag as int % p;
        if d.neg {
            Dec { neg: q != 0, mag: q as u128, scale: 0 }
        } else {
            let q2 = if rem != 0 {
                q + 1
            } else {
                q
            };
            Dec { neg: false, mag: q2 as u128, scale: 0 }
        }
    }
}

impl PartialEq for Dec {
    /// Equality compares values, not representations: `2.50 == 2.5`.
    fn eq(&self, other: &Dec) -> (r: bool) {
        if self.mag < MAG_LIMIT && self.scale <= MAX_SCALE && !(self.mag == 0 && self.neg)
            && other.mag < MAG_LIMIT && other.scale <= MAX_SCALE && !(other.mag == 0 && other.neg) {
            dec_cmp(self, other) == 0
        } else {
            self.neg == other.neg && self.mag == other.mag && self.scale == other.scale
        }
    }
}

impl vstd::std_specs::cmp::PartialEqSpecImpl for Dec {
    open spec fn obeys_eq_spec() -> bool {
        true
    }

    open spec fn eq_spec(&self, other: &Dec) -> bool {
        if self.wf() && other.wf() {
            self.val() == other.val()
        } else {
            self.neg == other.neg && self.mag == other.mag && self.scale == other.scale
        }
    }
}

// ---------------------------------------------------------------------------
// Parsing decimal literals.
// ---------------------------------------------------------------------------
/// True for an ASCII digit.
pub open spec fn spec_is_digit(c: char) -> bool {
    '0' <= c && c <= '9'
}

/// The numeric value of an ASCII digit.
pub open spec fn spec_digit_val(c: char) -> int {
    c as u32 - 48
}

/// The scanning state while reading a decimal literal digit by digit.
pub struct ScanSt {
    pub ok: bool,
    pub mag: u128,
    pub scale: u32,
    pub seen_digit: bool,
    pub seen_dot: bool,
    pub trunc: bool,
}

/// The scan before any character was read.
pub open spec fn scan_init() -> ScanSt {
    ScanSt { ok: true, mag: 0, scale: 0, seen_digit: false, seen_dot: false, trunc: false }
}

/// One character of a decimal literal: a digit extends the magnitude (extra
/// fractional digits beyond the representable precision are dropped), the
/// first `.` starts the fraction, anything else is an error.
pub open spec fn scan_step(st: ScanSt, c: char) -> ScanSt {
    if !st.ok {
        st
    } else if c == '.' {
        if st.seen_dot {
            ScanSt { ok: false, ..st }
        } else {
            ScanSt { seen_dot: true, ..st }
        }
    } else if spec_is_digit(c) {
        if st.seen_dot && (st.scale == MAX_SCALE || st.trunc) {
            ScanSt { seen_digit: true, trunc: true, ..st }
        } else {
            let m2 = st.mag * 10 + spec_digit_val(c);
            if m2 >= MAG_LIMIT {
                if st.seen_dot {
                    ScanSt { seen_digit: true, trunc: true, ..st }
                } else {
                    ScanSt { ok: false, ..st }
                }
            } else {
                ScanSt {
                    seen_digit: true,
                    mag: m2 as u128,
                    scale: if st.seen_dot {
                        (st.scale + 1) as u32
                    } else {
                        st.scale
                    },
                    ..st
                }
            }
        }
    } else {
        ScanSt { ok: false, ..st }
    }
}

/// The scan state after the characters of `s` strictly before index `i`.
pub open spec fn scan(s: Seq<char>, i: int) -> ScanSt
    decreases i,
{
    if i <= 0 {
        scan_init()
    } else {
        scan_step(scan(s, i - 1), s[i - 1])
    }
}

/// The decimal value of a literal: an optional sign, digits, at most one
/// point, at least one digit.
pub open spec fn spec_parse_dec(s: Seq<char>) -> Option<Dec> {
    let (neg, start) = if s.len() > 0 && s[0] == '-' {
        (true, 1int)
    } else if s.len() > 0 && s[0] == '+' {
        (false, 1int)
    } else {
        (false, 0int)
    };
    let st = scan(s.subrange(start, s.len() as int), s.len() - start);
    if st.ok && st.seen_digit {
        Some(Dec { neg: neg && st.mag != 0, mag: st.mag, scale: st.scale })
    } else {
        None
    }
}

/// Scan state well-formedness carried by the loop.
pub open spec fn scan_wf(st: ScanSt) -> bool {
    st.mag < MAG_LIMIT && st.scale <= MAX_SCALE
}

proof fn lemma_scan_wf(s: Seq<char>, i: int)
    ensures
        scan_wf(scan(s, i)),
    decreases i,
{
    if i <= 0 {
    } else {
        lemma_scan_wf(s, i - 1);
    }
}

/// Parse the characters of a decimal literal.
pub fn parse_dec_chars(v: &[char]) -> (r: Option<Dec>)
    ensures
        r == spec_parse_dec(v@),
        r matches Some(d) ==> d.wf(),
{
    let n = v.len();
    let mut start: usize = 0;
    let mut neg = false;
    if n > 0 && v[0] == '-' {
        neg = true;
        start = 1;
    } else if n > 0 && v[0] == '+' {
        start = 1;
    }
    let ghost body = v@.subrange(start as int, n as int);
    let mut i: usize = start;
    let mut ok = true;
    let mut mag: u128 = 0;
    let mut scale: u32 = 0;
    let mut seen_digit = false;
    let mut seen_dot = false;
    let mut trunc = false;
    while i < n
        invariant
            start <= i <= n,
            n == v@.len(),
            body == v@.subrange(start as int, n as int),
            scan(body, i - start) == (ScanSt { ok, mag, scale, seen_digit, seen_dot, trunc }),
            mag < MAG_LIMIT,
            scale <= MAX_SCALE,
        decreases n - i,
    {
        let c = v[i];
        proof {
            assert(body[i - start] == v@[i as int]);
            assert(scan(body, i + 1 - start) == scan_step(scan(body, i - start), body[i - start]));
        }
        if !ok {
        } else if c == '.' {
            if seen_dot {
                ok = false;
            } else {
                seen_dot = true;
            }
        } else if '0' <= c && c <= '9' {
            let d = (c as u32 - 48) as u128;
            if seen_dot && (scale == MAX_SCALE || trunc) {
                seen_digit = true;
                trunc = true;
            } else {
                let m2 = mag * 10 + d;
                if m2 >= MAG_LIMIT {
                    if seen_dot {
                        seen_digit = true;
                        trunc = true;
                    } else {
                        ok = false;
                    }
                } else {
                    seen_digit = true;
                    mag = m2;
                    if seen_dot {
                        scale = scale + 1;
                    }
                }
            }
        } else {
            ok = false;
        }
        i = i + 1;
    }
    proof {
        assert(body.len() == n - start);
        assert(scan(body, n - start) == (ScanSt { ok, mag, scale, seen_digit, seen_dot, trunc }));
    }
    if ok && seen_digit {
        Some(Dec { neg: neg && mag != 0, mag, scale })
    } else {
        None
    }
}

/// Parse a decimal literal string.  The caller vouches that the string is a
/// valid decimal literal; a program input that may not be goes through
/// [`parse_dec_chars`] instead.
pub fn decimal(s: &str) -> (r: Dec)
    requires
        spec_parse_dec(s@) is Some,
    ensures
        Some(r) == spec_parse_dec(s@),
        r.wf(),
{
    let v = crate::text::str_chars(s);
    let r = parse_dec_chars(v.as_slice());
    match r {
        Some(d) => d,
        None => Dec::zero(),  // unreachable under the precondition
    }
}

// ---------------------------------------------------------------------------
// Formatting.
// ---------------------------------------------------------------------------
/// The character of one decimal digit.
pub open spec fn spec_digit_char(d: int) -> char {
    if d == 0 {
        '0'
    } else if d == 1 {
        '1'
    } else if d == 2 {
        '2'
    } else if d == 3 {
        '3'
    } else if d == 4 {
        '4'
    } else if d == 5 {
        '5'
    } else if d == 6 {
        '6'
    } else if d == 7 {
        '7'
    } else if d == 8 {
        '8'
    } else {
        '9'
    }
}

/// The decimal digits of a nonnegative integer, most significant first.
pub open spec fn spec_digits(n: nat) -> Seq<char>
    decreases n,
{
    if n < 10 {
        seq![spec_digit_char(n as int)]
    } else {
        spec_digits(n / 10).push(spec_digit_char(n as int % 10))
    }
}

fn digit_char(d: u128) -> (c: char)
    requires
        d < 10,
    ensures
        c == spec_digit_char(d as int),
{
    if d == 0 {
        '0'
    } else if d == 1 {
        '1'
    } else if d == 2 {
        '2'
    } else if d == 3 {
        '3'
    } else if d == 4 {
        '4'
    } else if d == 5 {
        '5'
    } else if d == 6 {
        '6'
    } else if d == 7 {
        '7'
    } else if d == 8 {
        '8'
    } else {
        '9'
    }
}

/// Append the decimal digits of `n`.
fn push_digits(n: u128, s: &mut String)
    ensures
        final (s)@ == old(s)@ + spec_digits(n as nat),
    decreases n,
{
    if n < 10 {
        crate::text::push_char(s, digit_char(n));
        proof {
            assert(final (s)@ =~= old(s)@ + spec_digits(n as nat));
        }
    } else {
        proof {
            assert(n / 10 < n) by (nonlinear_arith)
                requires
                    n >= 10,
            ;
        }
        push_digits(n / 10, s);
        crate::text::push_char(s, digit_char(n % 10));
        proof {
            assert(final (s)@ =~= old(s)@ + spec_digits(n as nat));
        }
    }
}

/// Two digits, zero padded.
pub open spec fn spec_two_digits(f: int) -> Seq<char> {
    seq![spec_digit_char(f / 10), spec_digit_char(f % 10)]
}

/// A number shown with at most two fractional digits (ties to even), the
/// fraction dropped entirely when it is zero.
pub open spec fn spec_format_plain(d: Dec) -> Seq<char> {
    let r = spec_round_to_scale(d, 2);
    let p = pow(10, r.scale as nat);
    let q = r.mag as int / p;
    let rem = r.mag as int % p;
    let sign: Seq<char> = if r.neg {
        seq!['-']
    } else {
        Seq::empty()
    };
    if rem == 0 {
        sign + spec_digits(q as nat)
    } else {
        let frac2 = if r.scale == 2 {
            rem
        } else {
            rem * 10
        };
        sign + spec_digits(q as nat) + seq!['.'] + spec_two_digits(frac2)
    }
}

/// A number shown with exactly two fractional digits (ties to even).
pub open spec fn spec_format_fixed2(d: Dec) -> Seq<char> {
    let r = spec_round_to_scale(d, 2);
    let p = pow(10, r.scale as nat);
    let q = r.mag as int / p;
    let rem = r.mag as int % p;
    let sign: Seq<char> = if r.neg {
        seq!['-']
    } else {
        Seq::empty()
    };
    let frac2 = if r.scale == 2 {
        rem
    } else {
        rem * 10
    };
    sign + spec_digits(q as nat) + seq!['.'] + spec_two_digits(frac2)
}

fn format_parts(d: &Dec) -> (r: (bool, u128, u128))
    requires
        d.wf(),
    ensures
        ({
            let rr = spec_round_to_scale(*d, 2);
            let p = pow(10, rr.scale as nat);
            &&& r.0 == rr.neg
            &&& r.1 == rr.mag as int / p
            &&& r.2 == (if rr.scale == 2 {
                rr.mag as int % p
            } else {
                (rr.mag as int % p) * 10
            })
            &&& r.2 < 100
        }),
{
    let rr = d.round_to_scale(2);
    let p = pow10_u128(rr.scale);
    let q = rr.mag / p;
    let rem = rr.mag % p;
    proof {
        vstd::arithmetic::div_mod::lemma_fundamental_div_mod(rr.mag as int, p as int);
        assert(pow(10, 0) == 1 && pow(10, 1) == 10 && pow(10, 2) == 100) by {
            reveal_with_fuel(pow, 3);
        }
    }
    let frac2 = if rr.scale == 2 {
        rem
    } else {
        rem * 10
    };
    (rr.neg, q, frac2)
}

/// Format with at most two fractional digits, trimming a zero fraction.
pub fn format_plain(d: &Dec) -> (r: String)
    requires
        d.wf(),
    ensures
        r@ == spec_format_plain(*d),
{
    let (neg, q, frac2) = format_parts(d);
    let mut s = String::new();
    if neg {
        crate::text::push_char(&mut s, '-');
    }
    push_digits(q, &mut s);
    if frac2 != 0 {
        crate::text::push_char(&mut s, '.');
        crate::text::push_char(&mut s, digit_char(frac2 / 10));
        crate::text::push_char(&mut s, digit_char(frac2 % 10));
    }
    proof {
        let rr = spec_round_to_scale(*d, 2);
        let p = pow(10, rr.scale as nat);
        assert(pow(10, 0) == 1 && pow(10, 1) == 10 && pow(10, 2) == 100) by {
            reveal_with_fuel(pow, 3);
        }
        assert((rr.mag as int % p == 0) == (frac2 == 0));
        assert(s@ =~= spec_format_plain(*d));
    }
    s
}

/// Format with exactly two fractional digits.
pub fn format_fixed2(d: &Dec) -> (r: String)
    requires
        d.wf(),
    ensures
        r@ == spec_format_fixed2(*d),
{
    let (neg, q, frac2) = format_parts(d);
    let mut s = String::new();
    if neg {
        crate::text::push_char(&mut s, '-');
    }
    push_digits(q, &mut s);
    crate::text::push_char(&mut s, '.');
    crate::text::push_char(&mut s, digit_char(frac2 / 10));
    crate::text::push_char(&mut s, digit_char(frac2 % 10));
    proof {
        assert(s@ =~= spec_format_fixed2(*d));
    }
    s
}


} // verus!
