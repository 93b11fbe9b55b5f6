//! The value model: the tagged result type of every evaluation.
//!
//! A value is a plain number, a percentage (stored as a fraction, 0.20 for
//! "20%"), a currency amount, an amount with a simple unit, an amount with a
//! compound unit, nothing (an empty line or comment), or an error message.
//! Values are immutable; every operation produces a new value.

use vstd::prelude::*;

verus! {

use crate::currency::{Currency, spec_def};
use crate::decimal::{Dec, spec_format_plain, spec_format_fixed2, format_plain, format_fixed2,
    MAG_LIMIT, MAX_SCALE};
use crate::unit::{Unit, CompoundUnit, CompoundUnitV};
use crate::text::push_char;

/// A computed value with its tag.
#[derive(Clone, Debug)]
pub enum Value {
    /// A plain number.
    Number(Dec),
    /// A percentage, stored as a fraction (0.20 for "20%").
    Percentage(Dec),
    /// An amount of a currency.
    Currency { amount: Dec, currency: Currency },
    /// An amount with a simple unit (produced by the parser).
    WithUnit { amount: Dec, unit: Unit },
    /// An amount with a compound unit (produced by computation).
    WithCompoundUnit { amount: Dec, unit: CompoundUnit },
    /// No value: an empty line or a comment.
    Empty,
    /// A failed evaluation.
    Error(String),
}

/// A value at the specification level: strings as character sequences.
pub enum ValueV {
    Number(Dec),
    Percentage(Dec),
    Currency { amount: Dec, currency: Currency },
    WithUnit { amount: Dec, unit: Unit },
    WithCompoundUnit { amount: Dec, unit: CompoundUnitV },
    Empty,
    Error(Seq<char>),
}

impl View for Value {
    type V = ValueV;

    open spec fn view(&self) -> ValueV {
        match self {
            Value::Number(n) => ValueV::Number(*n),
            Value::Percentage(p) => ValueV::Percentage(*p),
            Value::Currency { amount, currency } => ValueV::Currency {
                amount: *amount,
                currency: *currency,
            },
            Value::WithUnit { amount, unit } => ValueV::WithUnit { amount: *amount, unit: *unit },
            Value::WithCompoundUnit { amount, unit } => ValueV::WithCompoundUnit {
                amount: *amount,
                unit: unit@,
            },
            Value::Empty => ValueV::Empty,
            Value::Error(m) => ValueV::Error(m@),
        }
    }
}

impl ValueV {
    /// Every decimal inside is well-formed.
    pub open spec fn wf(self) -> bool {
        match self {
            ValueV::Number(n) => n.wf(),
            ValueV::Percentage(p) => p.wf(),
            ValueV::Currency { amount, .. } => amount.wf(),
            ValueV::WithUnit { amount, .. } => amount.wf(),
            ValueV::WithCompoundUnit { amount, unit } => amount.wf() && unit.wf(),
            ValueV::Empty => true,
            ValueV::Error(_) => true,
        }
    }

    /// The magnitude a value carries, units ignored.
    pub open spec fn as_dec(self) -> Option<Dec> {
        match self {
            ValueV::Number(n) => Some(n),
            ValueV::Percentage(p) => Some(p),
            ValueV::Currency { amount, .. } => Some(amount),
            ValueV::WithUnit { amount, .. } => Some(amount),
            ValueV::WithCompoundUnit { amount, .. } => Some(amount),
            ValueV::Empty => None,
            ValueV::Error(_) => None,
        }
    }

    /// The same tag with a different amount; numbers, percentages, empty
    /// values and errors become plain numbers.
    pub open spec fn with_amount(self, new_amount: Dec) -> ValueV {
        match self {
            ValueV::Currency { currency, .. } => ValueV::Currency { amount: new_amount, currency },
            ValueV::WithUnit { unit, .. } => ValueV::WithUnit { amount: new_amount, unit },
            ValueV::WithCompoundUnit { unit, .. } => ValueV::WithCompoundUnit {
                amount: new_amount,
                unit,
            },
            _ => ValueV::Number(new_amount),
        }
    }
}

impl Value {
    /// Every decimal inside is well-formed.
    pub open spec fn wf(self) -> bool {
        match self {
            Value::Number(n) => n.wf(),
            Value::Percentage(p) => p.wf(),
            Value::Currency { amount, .. } => amount.wf(),
            Value::WithUnit { amount, .. } => amount.wf(),
            Value::WithCompoundUnit { amount, unit } => amount.wf() && unit.wf(),
            Value::Empty => true,
            Value::Error(_) => true,
        }
    }

    /// A plain number value.
    pub fn number(n: Dec) -> (r: Value)
        ensures
            r == Value::Number(n),
    {
        Value::Number(n)
    }

    /// A percentage value (as a fraction, 0.20 for "20%").
    pub fn percentage(p: Dec) -> (r: Value)
        ensures
            r == Value::Percentage(p),
    {
        Value::Percentage(p)
    }

    /// A currency amount.
    pub fn currency(amount: Dec, currency: Currency) -> (r: Value)
        ensures
            r == (Value::Currency { amount, currency }),
    {
        Value::Currency { amount, currency }
    }

    /// An amount with a simple unit.
    pub fn with_unit(amount: Dec, unit: Unit) -> (r: Value)
        ensures
            r == (Value::WithUnit { amount, unit }),
    {
        Value::WithUnit { amount, unit }
    }

    /// An amount with a compound unit.
    pub fn with_compound_unit(amount: Dec, unit: CompoundUnit) -> (r: Value)
        ensures
            r == (Value::WithCompoundUnit { amount, unit }),
    {
        Value::WithCompoundUnit { amount, unit }
    }

    /// The magnitude a value carries, units ignored.
    pub open spec fn spec_as_decimal(self) -> Option<Dec> {
        match self {
            Value::Number(n) => Some(n),
            Value::Percentage(p) => Some(p),
            Value::Currency { amount, .. } => Some(amount),
            Value::WithUnit { amount, .. } => Some(amount),
            Value::WithCompoundUnit { amount, .. } => Some(amount),
            Value::Empty => None,
            Value::Error(_) => None,
        }
    }

    /// The magnitude a value carries, units ignored.
    pub fn as_decimal(&self) -> (r: Option<Dec>)
        ensures
            r == self.spec_as_decimal(),
    {
        match self {
            Value::Number(n) => Some(*n),
            Value::Percentage(p) => Some(*p),
            Value::Currency { amount, .. } => Some(*amount),
            Value::WithUnit { amount, .. } => Some(*amount),
            Value::WithCompoundUnit { amount, .. } => Some(*amount),
            Value::Empty => None,
            Value::Error(_) => None,
        }
    }

    /// True iff the value is `Empty`.
    pub fn is_empty(&self) -> (r: bool)
        ensures
            r == (self is Empty),
    {
        matches!(self, Value::Empty)
    }

    /// True iff the value is an error.
    pub fn is_error(&self) -> (r: bool)
        ensures
            r == (self is Error),
    {
        matches!(self, Value::Error(_))
    }

    /// An equal value (strings copied).
    pub fn duplicate(&self) -> (r: Value)
        ensures
            r == *self,
    {
        match self {
            Value::Number(n) => Value::Number(*n),
            Value::Percentage(p) => Value::Percentage(*p),
            Value::Currency { amount, currency } => Value::Currency {
                amount: *amount,
                currency: *currency,
            },
            Value::WithUnit { amount, unit } => Value::WithUnit { amount: *amount, unit: *unit },
            Value::WithCompoundUnit { amount, unit } => Value::WithCompoundUnit {
                amount: *amount,
                unit: unit.duplicate(),
            },
            Value::Empty => Value::Empty,
            Value::Error(m) => Value::Error(m.clone()),
        }
    }

    /// The same tag with a different amount; numbers, percentages, empty
    /// values and errors become plain numbers.
    pub open spec fn spec_with_scaled_amount(self, new_amount: Dec) -> Value {
        match self {
            Value::Currency { currency, .. } => Value::Currency { amount: new_amount, currency },
            Value::WithUnit { unit, .. } => Value::WithUnit { amount: new_amount, unit },
            Value::WithCompoundUnit { unit, .. } => Value::WithCompoundUnit {
                amount: new_amount,
                unit,
            },
            _ => Value::Number(new_amount),
        }
    }

    /// The same tag with a different amount.
    pub fn with_scaled_amount(&self, new_amount: Dec) -> (r: Value)
        ensures
            r == self.spec_with_scaled_amount(new_amount),
    {
        match self {
            Value::Currency { currency, .. } => Value::Currency {
                amount: new_amount,
                currency: *currency,
            },
            Value::WithUnit { unit, .. } => Value::WithUnit { amount: new_amount, unit: *unit },
            Value::WithCompoundUnit { unit, .. } => Value::WithCompoundUnit {
                amount: new_amount,
                unit: unit.duplicate(),
            },
            _ => Value::Number(new_amount),
        }
    }
}

/// A percentage fraction scaled to whole percent: the scale drops by two
/// when it can, else the magnitude gains two digits; `None` if neither is
/// representable.
pub open spec fn spec_times100(p: Dec) -> Option<Dec> {
    if p.scale >= 2 {
        Some(Dec { neg: p.neg, mag: p.mag, scale: (p.scale - 2) as u32 })
    } else if p.mag < MAG_LIMIT / 100 {
        Some(Dec { neg: p.neg, mag: (p.mag * 100) as u128, scale: p.scale })
    } else {
        None
    }
}

fn times100(p: &Dec) -> (r: Option<Dec>)
    requires
        p.wf(),
    ensures
        r == spec_times100(*p),
        r matches Some(d) ==> d.wf(),
{
    if p.scale >= 2 {
        Some(Dec { neg: p.neg, mag: p.mag, scale: p.scale - 2 })
    } else if p.mag < MAG_LIMIT / 100 {
        proof {
            assert(p.mag * 100 < MAG_LIMIT) by (nonlinear_arith)
                requires
                    p.mag < MAG_LIMIT / 100,
            ;
        }
        Some(Dec { neg: p.neg, mag: p.mag * 100, scale: p.scale })
    } else {
        None
    }
}

/// The display text of a value.
///
/// Numbers and percentages show at most two fractional digits, trimming a
/// zero fraction; currency amounts show exactly two, with the symbol before
/// or after the amount per the registry; unit amounts show like numbers with
/// the unit symbol appended; an error shows its message.
pub open spec fn spec_display(v: Value) -> Seq<char> {
    match v {
        Value::Number(n) => spec_format_plain(n),
        Value::Percentage(p) => (match spec_times100(p) {
            Some(x) => spec_format_plain(x),
            None => spec_format_plain(p),
        }) + seq!['%'],
        Value::Currency { amount, currency } => if spec_def(currency).symbol_after {
            spec_format_fixed2(amount) + spec_def(currency).symbol
        } else {
            spec_def(currency).symbol + spec_format_fixed2(amount)
        },
        Value::WithUnit { amount, unit } => spec_format_plain(amount) + seq![' ']
            + unit.spec_short_name(),
        Value::WithCompoundUnit { amount, unit } => spec_format_plain(amount) + seq![' ']
            + unit.symbol@,
        Value::Empty => Seq::empty(),
        Value::Error(msg) => "Error: "@ + msg@,
    }
}

impl Value {
    /// The display text of this value.
    pub fn display_string(&self) -> (r: String)
        requires
            self.wf(),
        ensures
            r@ == spec_display(*self),
    {
        match self {
            Value::Number(n) => format_plain(n),
            Value::Percentage(p) => {
                let shown = match times100(p) {
                    Some(x) => format_plain(&x),
                    None => format_plain(p),
                };
                let mut s = shown;
                push_char(&mut s, '%');
                s
            }
            Value::Currency { amount, currency } => {
                let formatted = format_fixed2(amount);
                let sym = currency.symbol();
                if currency.symbol_after() {
                    let mut s = formatted;
                    s.append(sym.as_str());
                    s
                } else {
                    let mut s = sym;
                    s.append(formatted.as_str());
                    s
                }
            }
            Value::WithUnit { amount, unit } => {
                let mut s = format_plain(amount);
                push_char(&mut s, ' ');
                s.append(unit.short_name());
                s
            }
            Value::WithCompoundUnit { amount, unit } => {
                let mut s = format_plain(amount);
                push_char(&mut s, ' ');
                s.append(unit.symbol.as_str());
                s
            }
            Value::Empty => String::new(),
            Value::Error(msg) => {
                let mut s = String::new();
                s.append("Error: ");
                s.append(msg.as_str());
                proof {
                    assert(s@ =~= "Error: "@ + msg@);
                }
                s
            }
        }
    }
}

} // verus!
