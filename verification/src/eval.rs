//! The expression evaluator.
//!
//! Walks an [`Ast`] against a context of variables and the exchange-rate
//! graph, applying the coercion rules: percentage operations first, then the
//! mixed multiplications (unit by currency, currency by number), then the
//! dimensional composition of units under `*` and `/`, then coercion of both
//! operands to decimal magnitudes with a result tag.  Every failure is an
//! `Error` value; nothing panics.

use vstd::prelude::*;

verus! {

use crate::currency::Currency;
use crate::decimal::{Dec, dec_add, dec_sub, dec_mul, dec_div, dec_powd, dec_sqrt, dec_lt};
use crate::parser::{Ast, AstV, BinaryOp, Expr, ExprV, expr_view, args_view};
use crate::rates::RateGraph;
use crate::text::{str_chars, lower_chars, chars_eq_str};
use crate::unit::{CompoundUnit, CompoundUnitV, Unit, spec_convert_v, spec_cu_multiply,
    spec_cu_divide, spec_parse_unit, unit_is_entry, spec_unit};
use crate::value::{Value, ValueV};

/// The evaluation context: user variables in insertion order, and the
/// exchange-rate graph.
pub struct EvalContext {
    pub variables: Vec<(String, Value)>,
    pub rate_graph: RateGraph,
}

/// Every stored variable value and rate is well-formed.
pub open spec fn vars_wf(vars: Seq<(String, Value)>) -> bool {
    forall|i: int| 0 <= i < vars.len() ==> (#[trigger] vars[i]).1.wf()
}

/// The value bound to a name, scanning in order (names are unique).
pub open spec fn spec_var_get(vars: Seq<(String, Value)>, name: Seq<char>, i: int) -> Option<Value>
    decreases vars.len() - i,
{
    if i < 0 || i >= vars.len() {
        None
    } else if vars[i].0@ == name {
        Some(vars[i].1)
    } else {
        spec_var_get(vars, name, i + 1)
    }
}

/// The specification-level view of the variable store.
pub open spec fn vars_view(vars: Seq<(String, Value)>) -> Seq<(Seq<char>, ValueV)> {
    Seq::new(vars.len(), |i: int| (vars[i].0@, vars[i].1@))
}

/// The store after binding a name: the first entry under the name is
/// replaced in place, otherwise the binding is appended.
pub open spec fn spec_var_set(
    vars: Seq<(Seq<char>, ValueV)>,
    name: Seq<char>,
    value: ValueV,
) -> Seq<(Seq<char>, ValueV)>
    decreases vars.len(),
{
    if vars.len() == 0 {
        seq![(name, value)]
    } else if vars[0].0 == name {
        seq![(name, value)] + vars.drop_first()
    } else {
        seq![vars[0]] + spec_var_set(vars.drop_first(), name, value)
    }
}

proof fn lemma_var_set_found(
    vars: Seq<(Seq<char>, ValueV)>,
    name: Seq<char>,
    value: ValueV,
    k: int,
)
    requires
        0 <= k < vars.len(),
        vars[k].0 == name,
        forall|j: int| 0 <= j < k ==> (#[trigger] vars[j]).0 != name,
    ensures
        spec_var_set(vars, name, value) =~= vars.update(k, (name, value)),
    decreases k,
{
    if k == 0 {
        assert(spec_var_set(vars, name, value) =~= vars.update(0, (name, value)));
    } else {
        assert(vars.drop_first()[k - 1] == vars[k]);
        assert(forall|j: int| 0 <= j < k - 1 ==> (#[trigger] vars.drop_first()[j]).0 != name);
        lemma_var_set_found(vars.drop_first(), name, value, k - 1);
        assert(seq![vars[0]] + vars.drop_first().update(k - 1, (name, value)) =~= vars.update(
            k,
            (name, value),
        ));
    }
}

proof fn lemma_var_set_missing(vars: Seq<(Seq<char>, ValueV)>, name: Seq<char>, value: ValueV)
    requires
        forall|j: int| 0 <= j < vars.len() ==> (#[trigger] vars[j]).0 != name,
    ensures
        spec_var_set(vars, name, value) =~= vars.push((name, value)),
    decreases vars.len(),
{
    if vars.len() > 0 {
        lemma_var_set_missing(vars.drop_first(), name, value);
        assert(seq![vars[0]] + vars.drop_first().push((name, value)) =~= vars.push(
            (name, value),
        ));
    }
}

/// The value bound to a name in the viewed store.
pub open spec fn spec_lookup(
    vars: Seq<(Seq<char>, ValueV)>,
    name: Seq<char>,
    i: int,
) -> Option<ValueV>
    decreases vars.len() - i,
{
    if i < 0 || i >= vars.len() {
        None
    } else if vars[i].0 == name {
        Some(vars[i].1)
    } else {
        spec_lookup(vars, name, i + 1)
    }
}

pub proof fn lemma_lookup_view(vars: Seq<(String, Value)>, name: Seq<char>, i: int)
    ensures
        spec_lookup(vars_view(vars), name, i) == (match spec_var_get(vars, name, i) {
            Some(v) => Some(v@),
            None => None::<ValueV>,
        }),
    decreases vars.len() - i,
{
    if 0 <= i < vars.len() {
        lemma_lookup_view(vars, name, i + 1);
    }
}

// ---------------------------------------------------------------------------
// The evaluator at the specification level.
// ---------------------------------------------------------------------------
/// The views of evaluated values.
pub open spec fn vals_view(s: Seq<Value>) -> Seq<ValueV> {
    Seq::new(s.len(), |i: int| s[i]@)
}

/// The view of an optional value.
pub open spec fn opt_view(o: Option<Value>) -> Option<ValueV> {
    match o {
        Some(v) => Some(v@),
        None => None,
    }
}

/// The compound form of a registry entry.
pub open spec fn entry_cv(i: int) -> CompoundUnitV {
    crate::unit::entry_cv(i)
}

/// The compound form of a simple unit.
pub open spec fn unit_cv(u: Unit) -> CompoundUnitV {
    crate::unit::unit_cv(u)
}

/// The compound unit a unit-tagged value carries, if any.
pub open spec fn spec_unit_of(v: ValueV) -> Option<CompoundUnitV> {
    match v {
        ValueV::WithUnit { unit, .. } => Some(unit_cv(unit)),
        ValueV::WithCompoundUnit { unit, .. } => Some(unit),
        _ => None,
    }
}

/// What the percentage rules yield: `None` when they do not apply (the
/// right operand is no percentage, the left has no magnitude, or the
/// operator is the conversion), else the scaled value or an error.
pub open spec fn spec_pct_op(op: BinaryOp, l: ValueV, r: ValueV) -> Option<ValueV> {
    match r {
        ValueV::Percentage(p) => match l.as_dec() {
            Some(base) => {
                let one = Dec { neg: false, mag: 1u128, scale: 0 };
                match op {
                    BinaryOp::Add => match crate::decimal::s_add(one, p) {
                        Some(f) => match crate::decimal::s_mul(base, f) {
                            Some(x) => Some(l.with_amount(x)),
                            None => Some(ValueV::Error("Arithmetic overflow"@)),
                        },
                        None => Some(ValueV::Error("Arithmetic overflow"@)),
                    },
                    BinaryOp::Subtract => match crate::decimal::s_sub(one, p) {
                        Some(f) => match crate::decimal::s_mul(base, f) {
                            Some(x) => Some(l.with_amount(x)),
                            None => Some(ValueV::Error("Arithmetic overflow"@)),
                        },
                        None => Some(ValueV::Error("Arithmetic overflow"@)),
                    },
                    BinaryOp::Multiply => match crate::decimal::s_mul(base, p) {
                        Some(x) => Some(ValueV::Number(x)),
                        None => Some(ValueV::Error("Arithmetic overflow"@)),
                    },
                    BinaryOp::Divide => if p.mag == 0 {
                        Some(ValueV::Error("Division by zero"@))
                    } else {
                        match crate::decimal::s_div(base, p) {
                            Some(x) => Some(ValueV::Number(x)),
                            None => Some(ValueV::Error("Arithmetic overflow"@)),
                        }
                    },
                    BinaryOp::Power => match crate::decimal::s_pow(base, p) {
                        Some(x) => Some(ValueV::Number(x)),
                        None => Some(ValueV::Error("Arithmetic overflow"@)),
                    },
                    BinaryOp::Conversion => None,
                }
            },
            None => None,
        },
        _ => None,
    }
}

/// The operand pair of a mixed multiplication: a unit amount against a
/// currency amount, or a currency amount against a plain number.
pub open spec fn spec_mixed_pair(left: ValueV, right: ValueV) -> Option<(Dec, Dec, Currency)> {
    match (left, right) {
        (ValueV::WithUnit { amount: l, .. }, ValueV::Currency { amount: r, currency }) => Some(
            (l, r, currency),
        ),
        (ValueV::Currency { amount: l, currency }, ValueV::WithUnit { amount: r, .. }) => Some(
            (l, r, currency),
        ),
        (ValueV::Currency { amount, currency }, ValueV::Number(n)) => Some((amount, n, currency)),
        (ValueV::Number(n), ValueV::Currency { amount, currency }) => Some((n, amount, currency)),
        _ => None,
    }
}

/// What a mixed multiplication yields, when it applies.
pub open spec fn spec_try_mixed(left: ValueV, right: ValueV) -> Option<ValueV> {
    match spec_mixed_pair(left, right) {
        Some(t) => match crate::decimal::s_mul(t.0, t.1) {
            Some(x) => Some(ValueV::Currency { amount: x, currency: t.2 }),
            None => Some(ValueV::Error("Arithmetic overflow"@)),
        },
        None => None,
    }
}

/// What the dimensional composition of two unit amounts yields under `*` or
/// `/`: `None` when either operand carries no unit, else the composed
/// amount (a dimensionless outcome collapses to a plain number scaled by
/// the combined factor) or an error.
pub open spec fn spec_compose(op: BinaryOp, left: ValueV, right: ValueV) -> Option<ValueV> {
    match (spec_unit_of(left), spec_unit_of(right)) {
        (Some(lu), Some(ru)) => {
            let l = left.as_dec().unwrap();
            let rv = right.as_dec().unwrap();
            let amount = if op is Multiply {
                crate::decimal::s_mul(l, rv)
            } else if rv.mag == 0 {
                None
            } else {
                crate::decimal::s_div(l, rv)
            };
            if !(op is Multiply) && rv.mag == 0 {
                Some(ValueV::Error("Division by zero"@))
            } else {
                match amount {
                    None => Some(ValueV::Error("Arithmetic overflow"@)),
                    Some(a) => {
                        let combined = if op is Multiply {
                            spec_cu_multiply(lu, ru)
                        } else {
                            spec_cu_divide(lu, ru)
                        };
                        match combined {
                            None => Some(ValueV::Error("Arithmetic overflow"@)),
                            Some(cu) => if cu.dimensions == crate::dimensions::Dimensions::spec_zero() {
                                match crate::decimal::s_mul(a, cu.factor) {
                                    Some(x) => Some(ValueV::Number(x)),
                                    None => Some(ValueV::Error("Arithmetic overflow"@)),
                                }
                            } else {
                                Some(ValueV::WithCompoundUnit { amount: a, unit: cu })
                            },
                        }
                    },
                }
            }
        },
        _ => None,
    }
}

/// The result tag a coercion chooses, at the specification level.
pub enum TagV {
    Cur(Currency),
    Un(Unit),
    Comp(CompoundUnitV),
    Num,
}

/// A coercion outcome: two magnitudes and a tag, or an error message.
pub enum CoerceV {
    Good(Dec, Dec, TagV),
    Fail(Seq<char>),
}

/// The message of a failed conversion between two unit names.
pub open spec fn convert_msg(from: Seq<char>, to: Seq<char>) -> Seq<char> {
    "Cannot convert "@ + from + " to "@ + to
}

/// The message of an unreachable exchange rate.
pub open spec fn no_rate_msg(from: Currency, to: Currency) -> Seq<char> {
    "No exchange rate for "@ + crate::currency::spec_def(from).code + " to "@
        + crate::currency::spec_def(to).code
}

/// What coercing two operands yields: same currency kept, a differing
/// currency converted through the rate graph into the left one, units
/// converted on equal dimensions into the left unit, a unit against a
/// currency rejected, a plain number inheriting the other side's tag, and
/// plain magnitudes otherwise.
pub open spec fn spec_coerce(
    left: ValueV,
    right: ValueV,
    op: BinaryOp,
    edges: Seq<crate::rates::Edge>,
) -> CoerceV {
    match (left, right) {
        (
            ValueV::Currency { amount: l, currency: lc },
            ValueV::Currency { amount: r, currency: rc },
        ) => {
            if lc == rc {
                CoerceV::Good(l, r, TagV::Cur(lc))
            } else {
                match crate::rates::spec_get_rate(edges, rc, lc) {
                    Some(rate) => match crate::decimal::s_mul(r, rate) {
                        Some(x) => CoerceV::Good(l, x, TagV::Cur(lc)),
                        None => CoerceV::Fail("Arithmetic overflow"@),
                    },
                    None => CoerceV::Fail(no_rate_msg(rc, lc)),
                }
            }
        },
        (ValueV::WithUnit { amount: l, unit: lu }, ValueV::WithUnit { amount: r, unit: ru }) => {
            if lu == ru {
                CoerceV::Good(l, r, TagV::Un(lu))
            } else {
                match spec_convert_v(r, unit_cv(ru), unit_cv(lu)) {
                    Some(converted) => CoerceV::Good(l, converted, TagV::Un(lu)),
                    None => CoerceV::Fail(
                        convert_msg(ru.spec_short_name(), lu.spec_short_name()),
                    ),
                }
            }
        },
        (ValueV::WithUnit { .. }, ValueV::Currency { .. }) => coerce_mix_fail(op),
        (ValueV::Currency { .. }, ValueV::WithUnit { .. }) => coerce_mix_fail(op),
        (ValueV::WithCompoundUnit { .. }, ValueV::Currency { .. }) => coerce_mix_fail(op),
        (ValueV::Currency { .. }, ValueV::WithCompoundUnit { .. }) => coerce_mix_fail(op),
        (ValueV::Number(l), ValueV::Currency { amount: r, currency }) => CoerceV::Good(
            l,
            r,
            TagV::Cur(currency),
        ),
        (ValueV::Currency { amount: l, currency }, ValueV::Number(r)) => CoerceV::Good(
            l,
            r,
            TagV::Cur(currency),
        ),
        (ValueV::Number(l), ValueV::WithUnit { amount: r, unit }) => CoerceV::Good(
            l,
            r,
            TagV::Un(unit),
        ),
        (ValueV::WithUnit { amount: l, unit }, ValueV::Number(r)) => CoerceV::Good(
            l,
            r,
            TagV::Un(unit),
        ),
        (
            ValueV::WithCompoundUnit { amount: l, unit: lu },
            ValueV::WithCompoundUnit { amount: r, unit: ru },
        ) => {
            match spec_convert_v(r, ru, lu) {
                Some(converted) => CoerceV::Good(l, converted, TagV::Comp(lu)),
                None => CoerceV::Fail(convert_msg(ru.symbol, lu.symbol)),
            }
        },
        (ValueV::WithCompoundUnit { amount: l, unit: lu }, ValueV::WithUnit { amount: r, unit: ru },
        ) => {
            match spec_convert_v(r, unit_cv(ru), lu) {
                Some(converted) => CoerceV::Good(l, converted, TagV::Comp(lu)),
                None => CoerceV::Fail(convert_msg(ru.spec_short_name(), lu.symbol)),
            }
        },
        (ValueV::WithUnit { amount: l, unit: lu }, ValueV::WithCompoundUnit { amount: r, unit: ru },
        ) => {
            match spec_convert_v(r, ru, unit_cv(lu)) {
                Some(converted) => CoerceV::Good(l, converted, TagV::Un(lu)),
                None => CoerceV::Fail(convert_msg(ru.symbol, lu.spec_short_name())),
            }
        },
        (ValueV::Number(l), ValueV::WithCompoundUnit { amount: r, unit }) => CoerceV::Good(
            l,
            r,
            TagV::Comp(unit),
        ),
        (ValueV::WithCompoundUnit { amount: l, unit }, ValueV::Number(r)) => CoerceV::Good(
            l,
            r,
            TagV::Comp(unit),
        ),
        _ => {
            match (left.as_dec(), right.as_dec()) {
                (Some(l), Some(r)) => CoerceV::Good(l, r, TagV::Num),
                _ => CoerceV::Fail("Invalid operands"@),
            }
        },
    }
}

/// The error of a unit coerced against a currency.
pub open spec fn coerce_mix_fail(op: BinaryOp) -> CoerceV {
    if op is Add || op is Subtract {
        CoerceV::Fail("Cannot add/subtract units and currency"@)
    } else {
        CoerceV::Fail("Invalid operands"@)
    }
}

/// What an arithmetic operator yields on two magnitudes.
pub open spec fn spec_apply(op: BinaryOp, l: Dec, r: Dec) -> Result<Dec, Seq<char>> {
    match op {
        BinaryOp::Add => match crate::decimal::s_add(l, r) {
            Some(d) => Ok(d),
            None => Err("Arithmetic overflow"@),
        },
        BinaryOp::Subtract => match crate::decimal::s_sub(l, r) {
            Some(d) => Ok(d),
            None => Err("Arithmetic overflow"@),
        },
        BinaryOp::Multiply => match crate::decimal::s_mul(l, r) {
            Some(d) => Ok(d),
            None => Err("Arithmetic overflow"@),
        },
        BinaryOp::Divide => if r.mag == 0 {
            Err("Division by zero"@)
        } else {
            match crate::decimal::s_div(l, r) {
                Some(d) => Ok(d),
                None => Err("Arithmetic overflow"@),
            }
        },
        BinaryOp::Power => match crate::decimal::s_pow(l, r) {
            Some(d) => Ok(d),
            None => Err("Arithmetic overflow"@),
        },
        BinaryOp::Conversion => Err("Invalid operands"@),
    }
}

/// A tagged result value.
pub open spec fn tag_value(tag: TagV, amount: Dec) -> ValueV {
    match tag {
        TagV::Cur(c) => ValueV::Currency { amount, currency: c },
        TagV::Un(u) => ValueV::WithUnit { amount, unit: u },
        TagV::Comp(cu) => ValueV::WithCompoundUnit { amount, unit: cu },
        TagV::Num => ValueV::Number(amount),
    }
}

/// What a binary operation yields: the percentage rules first, the mixed
/// multiplications, the dimensional composition under `*` and `/`, and
/// last the general coercion with the arithmetic applied.
pub open spec fn spec_binop(
    op: BinaryOp,
    left: ValueV,
    right: ValueV,
    edges: Seq<crate::rates::Edge>,
) -> ValueV {
    match spec_pct_op(op, left, right) {
        Some(v) => v,
        None => {
            if op is Multiply && spec_mixed_pair(left, right) is Some {
                spec_try_mixed(left, right).unwrap()
            } else if (op is Multiply || op is Divide) && spec_compose(op, left, right) is Some {
                spec_compose(op, left, right).unwrap()
            } else {
                match spec_coerce(left, right, op, edges) {
                    CoerceV::Fail(m) => ValueV::Error(m),
                    CoerceV::Good(l, r, tag) => match spec_apply(op, l, r) {
                        Err(m) => ValueV::Error(m),
                        Ok(d) => tag_value(tag, d),
                    },
                }
            }
        },
    }
}

/// What converting a value to a named target yields: a currency code
/// first, then a simple unit, then a compound unit; a plain number or a
/// currency ratio simply takes the target unit; an unrecognized target is
/// an error naming it.
pub open spec fn spec_conversion(
    v: ValueV,
    target: Seq<char>,
    edges: Seq<crate::rates::Edge>,
) -> ValueV {
    let unknown = ValueV::Error("Unknown target unit: "@ + target);
    let cur_arm: Option<ValueV> = match Currency::spec_parse(target) {
        Some(tc) => match v {
            ValueV::Currency { amount, currency } => {
                if currency == tc {
                    Some(ValueV::Currency { amount, currency: tc })
                } else {
                    match crate::rates::spec_get_rate(edges, currency, tc) {
                        Some(rate) => match crate::decimal::s_mul(amount, rate) {
                            Some(x) => Some(ValueV::Currency { amount: x, currency: tc }),
                            None => Some(ValueV::Error("Arithmetic overflow"@)),
                        },
                        None => Some(ValueV::Error(no_rate_msg(currency, tc))),
                    }
                }
            },
            _ => None,
        },
        None => None,
    };
    match cur_arm {
        Some(out) => out,
        None => {
            let unit_arm: Option<ValueV> = match Unit::spec_parse(target) {
                Some(tu) => match v {
                    ValueV::WithUnit { amount, unit: fu } => {
                        match spec_convert_v(amount, unit_cv(fu), unit_cv(tu)) {
                            Some(c) => Some(ValueV::WithUnit { amount: c, unit: tu }),
                            None => Some(ValueV::Error(
                                convert_msg(fu.spec_short_name(), tu.spec_short_name()),
                            )),
                        }
                    },
                    ValueV::WithCompoundUnit { amount, unit: fu } => {
                        match spec_convert_v(amount, fu, unit_cv(tu)) {
                            Some(c) => Some(ValueV::WithUnit { amount: c, unit: tu }),
                            None => Some(ValueV::Error(
                                convert_msg(fu.symbol, tu.spec_short_name()),
                            )),
                        }
                    },
                    ValueV::Number(n) => Some(ValueV::WithUnit { amount: n, unit: tu }),
                    ValueV::Currency { amount, .. } => Some(
                        ValueV::WithUnit { amount, unit: tu },
                    ),
                    _ => None,
                },
                None => None,
            };
            match unit_arm {
                Some(out) => out,
                None => {
                    let comp_arm: Option<ValueV> = match spec_parse_unit(target) {
                        Some(i) => match v {
                            ValueV::WithUnit { amount, unit: fu } => {
                                match spec_convert_v(amount, unit_cv(fu), entry_cv(i)) {
                                    Some(c) => Some(
                                        ValueV::WithCompoundUnit { amount: c, unit: entry_cv(i) },
                                    ),
                                    None => Some(ValueV::Error(
                                        convert_msg(fu.spec_short_name(), entry_cv(i).symbol),
                                    )),
                                }
                            },
                            ValueV::WithCompoundUnit { amount, unit: fu } => {
                                match spec_convert_v(amount, fu, entry_cv(i)) {
                                    Some(c) => Some(
                                        ValueV::WithCompoundUnit { amount: c, unit: entry_cv(i) },
                                    ),
                                    None => Some(ValueV::Error(
                                        convert_msg(fu.symbol, entry_cv(i).symbol),
                                    )),
                                }
                            },
                            ValueV::Number(n) => Some(
                                ValueV::WithCompoundUnit { amount: n, unit: entry_cv(i) },
                            ),
                            ValueV::Currency { amount, .. } => Some(
                                ValueV::WithCompoundUnit { amount, unit: entry_cv(i) },
                            ),
                            _ => None,
                        },
                        None => None,
                    };
                    match comp_arm {
                        Some(out) => out,
                        None => unknown,
                    }
                },
            }
        },
    }
}

/// The least magnitude of the tail, folded left to right (a strictly
/// smaller element replaces the best seen).
pub open spec fn spec_min_fold(nums: Seq<Dec>, i: int, best: Dec) -> Dec
    decreases nums.len() - i,
{
    if i < 0 || i >= nums.len() {
        best
    } else if nums[i].val() < best.val() {
        spec_min_fold(nums, i + 1, nums[i])
    } else {
        spec_min_fold(nums, i + 1, best)
    }
}

/// The greatest magnitude of the tail, folded left to right.
pub open spec fn spec_max_fold(nums: Seq<Dec>, i: int, best: Dec) -> Dec
    decreases nums.len() - i,
{
    if i < 0 || i >= nums.len() {
        best
    } else if best.val() < nums[i].val() {
        spec_max_fold(nums, i + 1, nums[i])
    } else {
        spec_max_fold(nums, i + 1, best)
    }
}

/// What a built-in function call yields over the magnitudes of its
/// arguments, matched on the ASCII-folded name.
pub open spec fn spec_function(name: Seq<char>, argvs: Seq<ValueV>) -> ValueV {
    let l = crate::text::spec_lower(name);
    let nums = spec_arg_numbers(argvs, 0);
    let zero = Dec { neg: false, mag: 0u128, scale: 0 };
    if l == "sum"@ || l == "total"@ {
        match spec_sum_dec(nums, 0, zero) {
            Some(d) => ValueV::Number(d),
            None => ValueV::Error("Arithmetic overflow"@),
        }
    } else if l == "avg"@ || l == "average"@ {
        if nums.len() == 0 {
            ValueV::Number(zero)
        } else {
            match spec_sum_dec(nums, 0, zero) {
                Some(total) => {
                    let count = Dec { neg: false, mag: nums.len() as u128, scale: 0 };
                    match crate::decimal::s_div(total, count) {
                        Some(d) => ValueV::Number(d),
                        None => ValueV::Error("Arithmetic overflow"@),
                    }
                },
                None => ValueV::Error("Arithmetic overflow"@),
            }
        }
    } else if l == "min"@ {
        if nums.len() == 0 {
            ValueV::Error("No values for min"@)
        } else {
            ValueV::Number(spec_min_fold(nums, 1, nums[0]))
        }
    } else if l == "max"@ {
        if nums.len() == 0 {
            ValueV::Error("No values for max"@)
        } else {
            ValueV::Number(spec_max_fold(nums, 1, nums[0]))
        }
    } else if l == "abs"@ {
        match first_num(nums) {
            Some(d) => ValueV::Number(
                Dec { neg: false, mag: d.mag, scale: d.scale },
            ),
            None => ValueV::Error(name + " requires a number"@),
        }
    } else if l == "round"@ {
        match first_num(nums) {
            Some(d) => ValueV::Number(crate::decimal::spec_round_to_scale(d, 0)),
            None => ValueV::Error(name + " requires a number"@),
        }
    } else if l == "floor"@ {
        match first_num(nums) {
            Some(d) => ValueV::Number(crate::decimal::spec_floor(d)),
            None => ValueV::Error(name + " requires a number"@),
        }
    } else if l == "ceil"@ {
        match first_num(nums) {
            Some(d) => ValueV::Number(crate::decimal::spec_ceil(d)),
            None => ValueV::Error(name + " requires a number"@),
        }
    } else if l == "sqrt"@ {
        match first_num(nums) {
            Some(d) => {
                if d.val() < 0 {
                    ValueV::Error("Cannot take sqrt of negative number"@)
                } else {
                    match crate::decimal::s_sqrt(d) {
                        Some(x) => ValueV::Number(x),
                        None => ValueV::Error("Cannot take sqrt of this value"@),
                    }
                }
            },
            None => ValueV::Error(name + " requires a number"@),
        }
    } else {
        ValueV::Error("Unknown function: "@ + name)
    }
}

/// The first magnitude, if any.
pub open spec fn first_num(nums: Seq<Dec>) -> Option<Dec> {
    if nums.len() > 0 {
        Some(nums[0])
    } else {
        None
    }
}

/// What evaluating an expression against variables and rates yields.
pub open spec fn spec_eval_expr(
    e: ExprV,
    vars: Seq<(Seq<char>, ValueV)>,
    edges: Seq<crate::rates::Edge>,
) -> ValueV
    decreases e, 0int,
{
    match e {
        ExprV::Number(n) => ValueV::Number(n),
        ExprV::Percentage(p) => ValueV::Percentage(p),
        ExprV::Currency { amount, currency } => ValueV::Currency { amount, currency },
        ExprV::WithUnit { amount, unit } => ValueV::WithUnit { amount, unit },
        ExprV::WithCompoundUnit { amount, unit } => ValueV::WithCompoundUnit { amount, unit },
        ExprV::Variable(name) => match spec_lookup(vars, name, 0) {
            Some(v) => v,
            None => ValueV::Error("Unknown variable: "@ + name),
        },
        ExprV::BinaryOp { op, left, right } => spec_binop(
            op,
            spec_eval_expr(*left, vars, edges),
            spec_eval_expr(*right, vars, edges),
            edges,
        ),
        ExprV::PercentageOf { percentage, value } => {
            match spec_eval_expr(*value, vars, edges) {
                ValueV::Number(n) => match crate::decimal::s_mul(n, percentage) {
                    Some(x) => ValueV::Number(x),
                    None => ValueV::Error("Arithmetic overflow"@),
                },
                ValueV::Currency { amount, currency } => match crate::decimal::s_mul(
                    amount,
                    percentage,
                ) {
                    Some(x) => ValueV::Currency { amount: x, currency },
                    None => ValueV::Error("Arithmetic overflow"@),
                },
                ValueV::WithUnit { amount, unit } => match crate::decimal::s_mul(
                    amount,
                    percentage,
                ) {
                    Some(x) => ValueV::WithUnit { amount: x, unit },
                    None => ValueV::Error("Arithmetic overflow"@),
                },
                _ => ValueV::Error("Cannot calculate percentage of this value"@),
            }
        },
        ExprV::Conversion { value, target_unit } => spec_conversion(
            spec_eval_expr(*value, vars, edges),
            target_unit,
            edges,
        ),
        ExprV::FunctionCall { name, args } => spec_function(
            name,
            spec_eval_args(args, 0, vars, edges),
        ),
    }
}

/// The evaluated argument values, in order.
pub open spec fn spec_eval_args(
    args: Seq<ExprV>,
    i: int,
    vars: Seq<(Seq<char>, ValueV)>,
    edges: Seq<crate::rates::Edge>,
) -> Seq<ValueV>
    decreases args, args.len() - i,
{
    if i < 0 || i >= args.len() {
        Seq::empty()
    } else {
        seq![spec_eval_expr(args[i], vars, edges)] + spec_eval_args(args, i + 1, vars, edges)
    }
}

/// What evaluating one line yields: the value, and the variable store
/// after it (an assignment binds its name unless the value is an error).
pub open spec fn spec_evaluate(
    ast: AstV,
    vars: Seq<(Seq<char>, ValueV)>,
    edges: Seq<crate::rates::Edge>,
) -> (ValueV, Seq<(Seq<char>, ValueV)>) {
    match ast {
        AstV::Empty => (ValueV::Empty, vars),
        AstV::Assignment { name, expr } => {
            let v = spec_eval_expr(expr, vars, edges);
            if v is Error {
                (v, vars)
            } else {
                (v, spec_var_set(vars, name, v))
            }
        },
        AstV::Expression(e) => (spec_eval_expr(e, vars, edges), vars),
    }
}

impl EvalContext {
    /// Every stored value and rate is well-formed.
    pub open spec fn wf(self) -> bool {
        vars_wf(self.variables@) && self.rate_graph.wf()
    }

    /// An empty context with the default exchange rates loaded.
    pub fn new() -> (r: EvalContext)
        ensures
            r.wf(),
            r.variables@.len() == 0,
    {
        let mut g = RateGraph::new();
        crate::rates::load_defaults(&mut g);
        EvalContext { variables: Vec::new(), rate_graph: g }
    }

    /// An empty context with no rates at all.
    pub fn empty() -> (r: EvalContext)
        ensures
            r.wf(),
            r.variables@.len() == 0,
            r.rate_graph.edges@.len() == 0,
    {
        EvalContext { variables: Vec::new(), rate_graph: RateGraph::new() }
    }

    /// Store an exchange rate (and its inverse).
    pub fn set_exchange_rate(&mut self, from: Currency, to: Currency, rate: Dec)
        requires
            old(self).wf(),
            rate.wf(),
        ensures
            final (self).wf(),
            final (self).variables@ == old(self).variables@,
            final (self).rate_graph.edges@ == crate::rates::spec_set_rate(
                old(self).rate_graph.edges@,
                from,
                to,
                rate,
            ),
    {
        self.rate_graph.set_rate(from, to, rate);
    }

    /// The value of a variable, if bound.
    #[verifier::loop_isolation(false)]
    pub fn get_variable(&self, name: &str) -> (r: Option<Value>)
        requires
            self.wf(),
        ensures
            r == spec_var_get(self.variables@, name@, 0),
            r matches Some(v) ==> v.wf(),
    {
        let n = self.variables.len();
        let mut i: usize = 0;
        while i < n
            invariant
                i <= n,
                n == self.variables@.len(),
                spec_var_get(self.variables@, name@, 0) == spec_var_get(
                    self.variables@,
                    name@,
                    i as int,
                ),
            decreases n - i,
        {
            let key = &self.variables[i].0;
            if chars_eq_str(str_chars(name).as_slice(), key.as_str()) {
                return Some(self.variables[i].1.duplicate());
            }
            i = i + 1;
        }
        None
    }

    /// The value of a variable given as characters, if bound.
    #[verifier::loop_isolation(false)]
    pub fn get_variable_chars(&self, name: &[char]) -> (r: Option<Value>)
        requires
            self.wf(),
        ensures
            r == spec_var_get(self.variables@, name@, 0),
            r matches Some(v) ==> v.wf(),
    {
        let n = self.variables.len();
        let mut i: usize = 0;
        while i < n
            invariant
                i <= n,
                n == self.variables@.len(),
                spec_var_get(self.variables@, name@, 0) == spec_var_get(
                    self.variables@,
                    name@,
                    i as int,
                ),
            decreases n - i,
        {
            let key = &self.variables[i].0;
            if chars_eq_str(name, key.as_str()) {
                return Some(self.variables[i].1.duplicate());
            }
            i = i + 1;
        }
        None
    }

    /// Bind a variable: an existing binding is overwritten in place, a new
    /// one appended.
    #[verifier::loop_isolation(false)]
    pub fn set_variable(&mut self, name: String, value: Value)
        requires
            old(self).wf(),
            value.wf(),
        ensures
            final (self).wf(),
            final (self).rate_graph == old(self).rate_graph,
            spec_var_get(final (self).variables@, name@, 0) == Some(value),
            vars_view(final (self).variables@) == spec_var_set(
                vars_view(old(self).variables@),
                name@,
                value@,
            ),
    {
        let n = self.variables.len();
        let mut i: usize = 0;
        while i < n
            invariant
                i <= n,
                n == self.variables@.len(),
                self == old(self),
                forall|j: int| 0 <= j < i ==> (#[trigger] self.variables@[j]).0@ != name@,
            decreases n - i,
        {
            let key_matches = {
                let key = &self.variables[i].0;
                chars_eq_str(str_chars(name.as_str()).as_slice(), key.as_str())
            };
            if key_matches {
                let ghost vv0 = vars_view(old(self).variables@);
                self.variables.set(i, (name, value));
                proof {
                    assert(vars_wf(self.variables@));
                    lemma_var_get_found(self.variables@, name@, i as int);
                    assert(forall|j: int| 0 <= j < i ==> (#[trigger] vv0[j]).0 != name@);
                    assert(vv0[i as int].0 == name@);
                    lemma_var_set_found(vv0, name@, value@, i as int);
                    assert(vars_view(self.variables@) =~= vv0.update(i as int, (name@, value@)));
                }
                return ;
            }
            i = i + 1;
        }
        let ghost vv0 = vars_view(old(self).variables@);
        self.variables.push((name, value));
        proof {
            assert(vars_wf(self.variables@));
            lemma_var_get_found(self.variables@, name@, n as int);
            assert(forall|j: int| 0 <= j < vv0.len() ==> (#[trigger] vv0[j]).0 != name@);
            lemma_var_set_missing(vv0, name@, value@);
            assert(vars_view(self.variables@) =~= vv0.push((name@, value@)));
        }
    }

    /// Drop every variable binding.
    pub fn clear_variables(&mut self)
        ensures
            final (self).variables@.len() == 0,
            final (self).rate_graph == old(self).rate_graph,
    {
        self.variables.clear();
    }
}

proof fn lemma_var_get_found(vars: Seq<(String, Value)>, name: Seq<char>, k: int)
    requires
        0 <= k < vars.len(),
        vars[k].0@ == name,
        forall|j: int| 0 <= j < k ==> (#[trigger] vars[j]).0@ != name,
    ensures
        spec_var_get(vars, name, 0) == Some(vars[k].1),
    decreases vars.len(),
{
    lemma_var_get_from(vars, name, 0, k);
}

proof fn lemma_var_get_from(vars: Seq<(String, Value)>, name: Seq<char>, i: int, k: int)
    requires
        0 <= i <= k < vars.len(),
        vars[k].0@ == name,
        forall|j: int| 0 <= j < k ==> (#[trigger] vars[j]).0@ != name,
    ensures
        spec_var_get(vars, name, i) == Some(vars[k].1),
    decreases k - i,
{
    if i < k {
        lemma_var_get_from(vars, name, i + 1, k);
    }
}

/// An error value with this message.
fn err(msg: &str) -> (r: Value)
    ensures
        r matches Value::Error(m) && m@ == msg@,
        r.wf(),
{
    let mut s = String::new();
    s.append(msg);
    Value::Error(s)
}

/// An error value from an already built message.
fn err_string(msg: String) -> (r: Value)
    ensures
        r == Value::Error(msg),
        r.wf(),
{
    Value::Error(msg)
}

/// Evaluate one line against the context.  An assignment evaluates its
/// right-hand side and, unless that is an error, binds the name; the
/// computed value is returned either way.
pub fn evaluate(ast: &Ast, ctx: &mut EvalContext) -> (r: Value)
    requires
        ast.wf(),
        old(ctx).wf(),
    ensures
        r.wf(),
        final (ctx).wf(),
        final (ctx).rate_graph == old(ctx).rate_graph,
        (*ast) is Empty ==> r == Value::Empty && *final (ctx) == *old(ctx),
        (*ast) is Expression ==> *final (ctx) == *old(ctx),
        (*ast) matches Ast::Assignment { name, .. } ==> ((r is Error ==> *final (ctx) == *old(ctx)) && (
        !(r is Error) ==> spec_var_get(final (ctx).variables@, name@, 0) == Some(r))),
        ({
            let out = spec_evaluate(
                ast@,
                vars_view(old(ctx).variables@),
                old(ctx).rate_graph.edges@,
            );
            r@ == out.0 && vars_view(final (ctx).variables@) == out.1
        }),
{
    match ast {
        Ast::Empty => Value::Empty,
        Ast::Assignment { name, expr } => {
            let value = eval_expr(expr, ctx);
            if !value.is_error() {
                ctx.set_variable(name.clone(), value.duplicate());
            }
            value
        }
        Ast::Expression(expr) => eval_expr(expr, ctx),
    }
}

/// Evaluate an expression against the (read-only) context.
pub fn eval_expr(expr: &Expr, ctx: &EvalContext) -> (r: Value)
    requires
        expr.wf(),
        ctx.wf(),
    ensures
        r.wf(),
        r@ == spec_eval_expr(expr_view(*expr), vars_view(ctx.variables@), ctx.rate_graph.edges@),
    decreases *expr,
{
    match expr {
        Expr::Number(n) => Value::Number(*n),
        Expr::Percentage(p) => Value::Percentage(*p),
        Expr::Currency { amount, currency } => Value::Currency {
            amount: *amount,
            currency: *currency,
        },
        Expr::WithUnit { amount, unit } => Value::WithUnit { amount: *amount, unit: *unit },
        Expr::WithCompoundUnit { amount, unit } => Value::WithCompoundUnit {
            amount: *amount,
            unit: unit.duplicate(),
        },
        Expr::Variable(name) => {
            proof {
                lemma_lookup_view(ctx.variables@, name@, 0);
            }
            match ctx.get_variable(name.as_str()) {
                Some(v) => v,
                None => {
                    let mut m = String::new();
                    m.append("Unknown variable: ");
                    m.append(name.as_str());
                    proof {
                        assert(m@ =~= "Unknown variable: "@ + name@);
                    }
                    err_string(m)
                }
            }
        }
        Expr::BinaryOp { op, left, right } => {
            let lval = eval_expr(left, ctx);
            let rval = eval_expr(right, ctx);
            eval_binary_op(*op, lval, rval, ctx)
        }
        Expr::PercentageOf { percentage, value } => {
            let val = eval_expr(value, ctx);
            match val {
                Value::Number(n) => {
                    match dec_mul(&n, percentage) {
                        Some(x) => Value::Number(x),
                        None => err("Arithmetic overflow"),
                    }
                }
                Value::Currency { amount, currency } => {
                    match dec_mul(&amount, percentage) {
                        Some(x) => Value::Currency { amount: x, currency },
                        None => err("Arithmetic overflow"),
                    }
                }
                Value::WithUnit { amount, unit } => {
                    match dec_mul(&amount, percentage) {
                        Some(x) => Value::WithUnit { amount: x, unit },
                        None => err("Arithmetic overflow"),
                    }
                }
                _ => err("Cannot calculate percentage of this value"),
            }
        }
        Expr::Conversion { value, target_unit } => {
            let val = eval_expr(value, ctx);
            eval_conversion(val, target_unit.as_str(), ctx)
        }
        Expr::FunctionCall { name, args } => {
            proof {
                assert(forall|j: int| 0 <= j < args@.len() ==> (#[trigger] args@[j]).wf());
                crate::parser::lemma_args_view_from(args@, 0);
            }
            let ghost argsv = args_view(args@, 0);
            let ghost vv = vars_view(ctx.variables@);
            let ghost ee = ctx.rate_graph.edges@;
            let mut evaluated: Vec<Value> = Vec::new();
            let n = args.len();
            let mut i: usize = 0;
            while i < n
                invariant
                    i <= n,
                    n == args@.len(),
                    ctx.wf(),
                    expr == (Expr::FunctionCall { name: *name, args: *args }),
                    forall|j: int| 0 <= j < args@.len() ==> (#[trigger] args@[j]).wf(),
                    evaluated@.len() == i,
                    values_wf(evaluated@),
                    argsv == args_view(args@, 0),
                    vv == vars_view(ctx.variables@),
                    ee == ctx.rate_graph.edges@,
                    spec_eval_args(argsv, 0, vv, ee) == vals_view(evaluated@) + spec_eval_args(
                        argsv,
                        i as int,
                        vv,
                        ee,
                    ),
                decreases n - i,
            {
                proof {
                    assert(args@[i as int].wf());
                    assert(expr->args == *args);
                    assert(decreases_to!(*expr => expr->args));
                    assert(decreases_to!(expr->args => expr->args@));
                    assert(decreases_to!(expr->args@ => expr->args@[i as int]));
                    assert(args@[i as int] == expr->args@[i as int]);
                    crate::parser::lemma_args_view_from(args@, 0);
                    assert(argsv[i as int] == expr_view(args@[i as int]));
                }
                let v = eval_expr(&args[i], ctx);
                let ghost e0 = evaluated@;
                evaluated.push(v);
                proof {
                    assert forall|j: int| 0 <= j < evaluated@.len() implies (#[trigger] evaluated@[j]).wf() by {
                        if j < e0.len() {
                            assert(evaluated@[j] == e0[j]);
                        } else {
                            assert(evaluated@[j] == v);
                        }
                    }
                    assert(vals_view(evaluated@) =~= vals_view(e0) + seq![v@]);
                    assert(vals_view(e0) + (seq![v@] + spec_eval_args(argsv, i + 1, vv, ee))
                        =~= vals_view(evaluated@) + spec_eval_args(argsv, i + 1, vv, ee));
                }
                i = i + 1;
            }
            proof {
                assert(values_wf(evaluated@));
                assert(spec_eval_args(argsv, n as int, vv, ee) =~= Seq::<ValueV>::empty());
                assert(vals_view(evaluated@) + Seq::<ValueV>::empty() =~= vals_view(evaluated@));
            }
            eval_function(name.as_str(), &evaluated)
        }
    }
}

/// Every value in the sequence is well-formed.
pub open spec fn values_wf(s: Seq<Value>) -> bool {
    forall|i: int| 0 <= i < s.len() ==> (#[trigger] s[i]).wf()
}

/// The result tag a coercion chooses.
pub enum ResultType {
    Currency(Currency),
    Unit(Unit),
    CompoundTag(CompoundUnit),
    Number,
}

/// Evaluate a binary operation: percentage rules first, the mixed
/// multiplications next, then the dimensional composition of two unit
/// values under `*` or `/`, and last the general coercion.
fn eval_binary_op(op: BinaryOp, left: Value, right: Value, ctx: &EvalContext) -> (r: Value)
    requires
        left.wf(),
        right.wf(),
        ctx.wf(),
    ensures
        r.wf(),
        r@ == spec_binop(op, left@, right@, ctx.rate_graph.edges@),
{
    match try_percentage_op(op, &left, &right) {
        Some(v) => {
            return v;
        }
        None => {}
    }
    if matches!(op, BinaryOp::Multiply) {
        match try_multiply_mixed(&left, &right) {
            Some(v) => {
                return v;
            }
            None => {}
        }
    }
    if matches!(op, BinaryOp::Multiply) || matches!(op, BinaryOp::Divide) {
        match try_unit_compose(op, &left, &right) {
            Some(v) => {
                return v;
            }
            None => {}
        }
    }
    let (l_val, r_val, result_type) = match coerce_operands(&left, &right, op, ctx) {
        Ok(t) => t,
        Err(e) => {
            return err_string(e);
        }
    };
    let result = match apply_op(op, &l_val, &r_val) {
        Ok(d) => d,
        Err(e) => {
            return err_string(e);
        }
    };
    match result_type {
        ResultType::Currency(c) => Value::Currency { amount: result, currency: c },
        ResultType::Unit(u) => Value::WithUnit { amount: result, unit: u },
        ResultType::CompoundTag(cu) => Value::WithCompoundUnit { amount: result, unit: cu },
        ResultType::Number => Value::Number(result),
    }
}

/// Percentage rules: with a percentage on the right and a magnitude on the
/// left, `+`/`-` scale the left value (keeping its tag), `*` and `/` make a
/// plain number, `^` raises the magnitude; dividing by a zero percentage is
/// a division by zero.
fn try_percentage_op(op: BinaryOp, left: &Value, right: &Value) -> (r: Option<Value>)
    requires
        left.wf(),
        right.wf(),
    ensures
        r matches Some(v) ==> v.wf(),
        opt_view(r) == spec_pct_op(op, left@, right@),
{
    let p = match right {
        Value::Percentage(p) => *p,
        _ => {
            return None;
        }
    };
    let base = match left.as_decimal() {
        Some(b) => b,
        None => {
            return None;
        }
    };
    let one = Dec::one();
    match op {
        BinaryOp::Add => {
            let f = match dec_add(&one, &p) {
                Some(f) => f,
                None => {
                    return Some(err("Arithmetic overflow"));
                }
            };
            match dec_mul(&base, &f) {
                Some(x) => Some(left.with_scaled_amount(x)),
                None => Some(err("Arithmetic overflow")),
            }
        }
        BinaryOp::Subtract => {
            let f = match dec_sub(&one, &p) {
                Some(f) => f,
                None => {
                    return Some(err("Arithmetic overflow"));
                }
            };
            match dec_mul(&base, &f) {
                Some(x) => Some(left.with_scaled_amount(x)),
                None => Some(err("Arithmetic overflow")),
            }
        }
        BinaryOp::Multiply => {
            match dec_mul(&base, &p) {
                Some(x) => Some(Value::Number(x)),
                None => Some(err("Arithmetic overflow")),
            }
        }
        BinaryOp::Divide => {
            if p.mag == 0 {
                return Some(err("Division by zero"));
            }
            match dec_div(&base, &p) {
                Some(x) => Some(Value::Number(x)),
                None => Some(err("Arithmetic overflow")),
            }
        }
        BinaryOp::Power => {
            match dec_powd(&base, &p) {
                Some(x) => Some(Value::Number(x)),
                None => Some(err("Arithmetic overflow")),
            }
        }
        BinaryOp::Conversion => None,
    }
}

/// The mixed multiplications: a unit amount by a currency amount makes a
/// currency amount (hours by rate makes money), and a currency amount by a
/// plain number stays a currency amount.
fn try_multiply_mixed(left: &Value, right: &Value) -> (r: Option<Value>)
    requires
        left.wf(),
        right.wf(),
    ensures
        r matches Some(v) ==> v.wf(),
        opt_view(r) == spec_try_mixed(left@, right@),
{
    let pair: Option<(Dec, Dec, Currency)> = match (left, right) {
        (Value::WithUnit { amount: l, .. }, Value::Currency { amount: r, currency }) => Some(
            (*l, *r, *currency),
        ),
        (Value::Currency { amount: l, currency }, Value::WithUnit { amount: r, .. }) => Some(
            (*l, *r, *currency),
        ),
        (Value::Currency { amount, currency }, Value::Number(n)) => Some((*amount, *n, *currency)),
        (Value::Number(n), Value::Currency { amount, currency }) => Some((*n, *amount, *currency)),
        _ => None,
    };
    match pair {
        Some((l, r, c)) => {
            match dec_mul(&l, &r) {
                Some(x) => Some(Value::Currency { amount: x, currency: c }),
                None => Some(err("Arithmetic overflow")),
            }
        }
        None => None,
    }
}

/// The compound unit of a unit-tagged value, if it has one.
fn unit_of_value(v: &Value) -> (r: Option<CompoundUnit>)
    requires
        v.wf(),
    ensures
        r matches Some(u) ==> u.wf() && Some(u@) == spec_unit_of(v@),
        (r is Some) == (spec_unit_of(v@) is Some),
{
    match v {
        Value::WithUnit { unit, .. } => {
            let cu = unit.to_compound();
            proof {
                assert(cu@ == unit_cv(*unit));
            }
            Some(cu)
        }
        Value::WithCompoundUnit { unit, .. } => Some(unit.duplicate()),
        _ => None,
    }
}

/// Dimensional composition: multiplying or dividing two unit amounts
/// composes the units; a dimensionless outcome collapses to a plain number
/// scaled by the combined factor.
fn try_unit_compose(op: BinaryOp, left: &Value, right: &Value) -> (r: Option<Value>)
    requires
        left.wf(),
        right.wf(),
        op is Multiply || op is Divide,
    ensures
        r matches Some(v) ==> v.wf(),
        opt_view(r) == spec_compose(op, left@, right@),
{
    let lu = match unit_of_value(left) {
        Some(u) => u,
        None => {
            return None;
        }
    };
    let ru = match unit_of_value(right) {
        Some(u) => u,
        None => {
            return None;
        }
    };
    let l = match left.as_decimal() {
        Some(d) => d,
        None => {
            return None;
        }
    };
    let rv = match right.as_decimal() {
        Some(d) => d,
        None => {
            return None;
        }
    };
    let amount = if matches!(op, BinaryOp::Multiply) {
        match dec_mul(&l, &rv) {
            Some(x) => x,
            None => {
                return Some(err("Arithmetic overflow"));
            }
        }
    } else {
        if rv.mag == 0 {
            return Some(err("Division by zero"));
        }
        match dec_div(&l, &rv) {
            Some(x) => x,
            None => {
                return Some(err("Arithmetic overflow"));
            }
        }
    };
    let combined = if matches!(op, BinaryOp::Multiply) {
        lu.multiply(&ru)
    } else {
        lu.divide(&ru)
    };
    let cu = match combined {
        Some(u) => u,
        None => {
            return Some(err("Arithmetic overflow"));
        }
    };
    if cu.dimensions.is_dimensionless() {
        match dec_mul(&amount, &cu.factor) {
            Some(x) => Some(Value::Number(x)),
            None => Some(err("Arithmetic overflow")),
        }
    } else {
        Some(Value::WithCompoundUnit { amount, unit: cu })
    }
}

fn convert_err(from_sym: &str, to_sym: &str) -> (r: Value)
    ensures
        r.wf(),
        r@ == ValueV::Error(convert_msg(from_sym@, to_sym@)),
{
    let mut m = String::new();
    m.append("Cannot convert ");
    m.append(from_sym);
    m.append(" to ");
    m.append(to_sym);
    proof {
        assert(m@ =~= convert_msg(from_sym@, to_sym@));
    }
    err_string(m)
}

fn no_rate_err(from: Currency, to: Currency) -> (r: Value)
    ensures
        r.wf(),
        r@ == ValueV::Error(no_rate_msg(from, to)),
{
    let mut m = String::new();
    m.append("No exchange rate for ");
    m.append(from.code().as_str());
    m.append(" to ");
    m.append(to.code().as_str());
    proof {
        assert(m@ =~= no_rate_msg(from, to));
    }
    err_string(m)
}

/// True iff the executable coercion outcome is the specified one.
pub open spec fn coerce_matches(r: Result<(Dec, Dec, ResultType), String>, o: CoerceV) -> bool {
    match o {
        CoerceV::Good(l, rr, tag) => r matches Ok(t) && t.0 == l && t.1 == rr && tag_matches(
            t.2,
            tag,
        ),
        CoerceV::Fail(m) => r matches Err(e) && e@ == m,
    }
}

/// True iff the executable tag is the specified one.
pub open spec fn tag_matches(t: ResultType, tag: TagV) -> bool {
    match (t, tag) {
        (ResultType::Currency(c1), TagV::Cur(c2)) => c1 == c2,
        (ResultType::Unit(u1), TagV::Un(u2)) => u1 == u2,
        (ResultType::CompoundTag(c1), TagV::Comp(c2)) => c1@ == c2,
        (ResultType::Number, TagV::Num) => true,
        _ => false,
    }
}

/// Coerce two operands to decimal magnitudes and a result tag: same
/// currency directly, a differing currency through the rate graph into the
/// left one; same unit directly, a differing unit of equal dimensions
/// converted into the left one; a unit against a currency is an error; a
/// plain number inherits the other side's tag.
fn coerce_operands(left: &Value, right: &Value, op: BinaryOp, ctx: &EvalContext) -> (r: Result<
    (Dec, Dec, ResultType),
    String,
>)
    requires
        left.wf(),
        right.wf(),
        ctx.wf(),
    ensures
        r matches Ok(t) ==> t.0.wf() && t.1.wf() && (t.2 matches ResultType::CompoundTag(u)
            ==> u.wf()),
        coerce_matches(r, spec_coerce(left@, right@, op, ctx.rate_graph.edges@)),
{
    match (left, right) {
        (
            Value::Currency { amount: l, currency: lc },
            Value::Currency { amount: r, currency: rc },
        ) => {
            if *lc == *rc {
                Ok((*l, *r, ResultType::Currency(*lc)))
            } else {
                match ctx.rate_graph.get_rate(*rc, *lc) {
                    Some(rate) => {
                        match dec_mul(r, &rate) {
                            Some(x) => Ok((*l, x, ResultType::Currency(*lc))),
                            None => {
                                let mut m = String::new();
                                m.append("Arithmetic overflow");
                                Err(m)
                            }
                        }
                    }
                    None => {
                        let mut m = String::new();
                        m.append("No exchange rate for ");
                        m.append(rc.code().as_str());
                        m.append(" to ");
                        m.append(lc.code().as_str());
                        Err(m)
                    }
                }
            }
        }
        (Value::WithUnit { amount: l, unit: lu }, Value::WithUnit { amount: r, unit: ru }) => {
            if *lu == *ru {
                Ok((*l, *r, ResultType::Unit(*lu)))
            } else {
                let from = ru.to_compound();
                let to = lu.to_compound();
                match crate::unit::convert(r, &from, &to) {
                    Some(converted) => Ok((*l, converted, ResultType::Unit(*lu))),
                    None => {
                        let mut m = String::new();
                        m.append("Cannot convert ");
                        m.append(ru.short_name());
                        m.append(" to ");
                        m.append(lu.short_name());
                        Err(m)
                    }
                }
            }
        }
        // a unit amount and a currency amount never coerce
        (Value::WithUnit { .. }, Value::Currency { .. })
        | (Value::Currency { .. }, Value::WithUnit { .. })
        | (Value::WithCompoundUnit { .. }, Value::Currency { .. })
        | (Value::Currency { .. }, Value::WithCompoundUnit { .. }) => {
            if matches!(op, BinaryOp::Add) || matches!(op, BinaryOp::Subtract) {
                let mut m = String::new();
                m.append("Cannot add/subtract units and currency");
                Err(m)
            } else {
                let mut m = String::new();
                m.append("Invalid operands");
                Err(m)
            }
        }
        (Value::Number(l), Value::Currency { amount: r, currency }) => Ok(
            (*l, *r, ResultType::Currency(*currency)),
        ),
        (Value::Currency { amount: l, currency }, Value::Number(r)) => Ok(
            (*l, *r, ResultType::Currency(*currency)),
        ),
        (Value::Number(l), Value::WithUnit { amount: r, unit }) => Ok(
            (*l, *r, ResultType::Unit(*unit)),
        ),
        (Value::WithUnit { amount: l, unit }, Value::Number(r)) => Ok(
            (*l, *r, ResultType::Unit(*unit)),
        ),
        // compound units: equal dimensions convert into the left unit
        (
            Value::WithCompoundUnit { amount: l, unit: lu },
            Value::WithCompoundUnit { amount: r, unit: ru },
        ) => {
            match crate::unit::convert(r, ru, lu) {
                Some(converted) => Ok((*l, converted, ResultType::CompoundTag(lu.duplicate()))),
                None => {
                    let mut m = String::new();
                    m.append("Cannot convert ");
                    m.append(ru.symbol.as_str());
                    m.append(" to ");
                    m.append(lu.symbol.as_str());
                    Err(m)
                }
            }
        }
        (Value::WithCompoundUnit { amount: l, unit: lu }, Value::WithUnit { amount: r, unit: ru },
        ) => {
            let from = ru.to_compound();
            match crate::unit::convert(r, &from, lu) {
                Some(converted) => Ok((*l, converted, ResultType::CompoundTag(lu.duplicate()))),
                None => {
                    let mut m = String::new();
                    m.append("Cannot convert ");
                    m.append(ru.short_name());
                    m.append(" to ");
                    m.append(lu.symbol.as_str());
                    Err(m)
                }
            }
        }
        (Value::WithUnit { amount: l, unit: lu }, Value::WithCompoundUnit { amount: r, unit: ru },
        ) => {
            let to = lu.to_compound();
            match crate::unit::convert(r, ru, &to) {
                Some(converted) => Ok((*l, converted, ResultType::Unit(*lu))),
                None => {
                    let mut m = String::new();
                    m.append("Cannot convert ");
                    m.append(ru.symbol.as_str());
                    m.append(" to ");
                    m.append(lu.short_name());
                    Err(m)
                }
            }
        }
        (Value::Number(l), Value::WithCompoundUnit { amount: r, unit }) => Ok(
            (*l, *r, ResultType::CompoundTag(unit.duplicate())),
        ),
        (Value::WithCompoundUnit { amount: l, unit }, Value::Number(r)) => Ok(
            (*l, *r, ResultType::CompoundTag(unit.duplicate())),
        ),
        _ => {
            let ld = left.as_decimal();
            let rd = right.as_decimal();
            match (ld, rd) {
                (Some(l), Some(r)) => Ok((l, r, ResultType::Number)),
                _ => {
                    let mut m = String::new();
                    m.append("Invalid operands");
                    Err(m)
                }
            }
        }
    }
}

/// True iff the executable arithmetic outcome is the specified one.
pub open spec fn apply_matches(res: Result<Dec, String>, o: Result<Dec, Seq<char>>) -> bool {
    match o {
        Ok(d) => res == Ok::<Dec, String>(d),
        Err(m) => res matches Err(e) && e@ == m,
    }
}

/// Apply an arithmetic operator to two magnitudes; dividing by zero and an
/// unrepresentable result are errors.
fn apply_op(op: BinaryOp, l: &Dec, r: &Dec) -> (res: Result<Dec, String>)
    requires
        l.wf(),
        r.wf(),
    ensures
        res matches Ok(d) ==> d.wf(),
        apply_matches(res, spec_apply(op, *l, *r)),
{
    let out = match op {
        BinaryOp::Add => dec_add(l, r),
        BinaryOp::Subtract => dec_sub(l, r),
        BinaryOp::Multiply => dec_mul(l, r),
        BinaryOp::Divide => {
            if r.mag == 0 {
                let mut m = String::new();
                m.append("Division by zero");
                return Err(m);
            }
            dec_div(l, r)
        }
        BinaryOp::Power => dec_powd(l, r),
        BinaryOp::Conversion => {
            let mut m = String::new();
            m.append("Invalid operands");
            return Err(m);
        }
    };
    match out {
        Some(d) => Ok(d),
        None => {
            let mut m = String::new();
            m.append("Arithmetic overflow");
            Err(m)
        }
    }
}

/// Convert a value to a named target: a currency code first, then a simple
/// unit, then a compound unit; a plain number (or a currency ratio) simply
/// takes the target unit.
fn eval_conversion(value: Value, target: &str, ctx: &EvalContext) -> (r: Value)
    requires
        value.wf(),
        ctx.wf(),
    ensures
        r.wf(),
        r@ == spec_conversion(value@, target@, ctx.rate_graph.edges@),
{
    match Currency::parse(target) {
        Some(tc) => {
            match &value {
                Value::Currency { amount, currency } => {
                    if *currency == tc {
                        return Value::Currency { amount: *amount, currency: tc };
                    }
                    match ctx.rate_graph.get_rate(*currency, tc) {
                        Some(rate) => {
                            match dec_mul(amount, &rate) {
                                Some(x) => {
                                    return Value::Currency { amount: x, currency: tc };
                                }
                                None => {
                                    return err("Arithmetic overflow");
                                }
                            }
                        }
                        None => {
                            return no_rate_err(*currency, tc);
                        }
                    }
                }
                _ => {}
            }
        }
        None => {}
    }
    match Unit::parse(target) {
        Some(tu) => {
            match &value {
                Value::WithUnit { amount, unit: from_unit } => {
                    let from = from_unit.to_compound();
                    let to = tu.to_compound();
                    match crate::unit::convert(amount, &from, &to) {
                        Some(converted) => {
                            return Value::WithUnit { amount: converted, unit: tu };
                        }
                        None => {
                            return convert_err(from_unit.short_name(), tu.short_name());
                        }
                    }
                }
                Value::WithCompoundUnit { amount, unit: from_unit } => {
                    let to = tu.to_compound();
                    match crate::unit::convert(amount, from_unit, &to) {
                        Some(converted) => {
                            return Value::WithUnit { amount: converted, unit: tu };
                        }
                        None => {
                            return convert_err(from_unit.symbol.as_str(), tu.short_name());
                        }
                    }
                }
                Value::Number(n) => {
                    return Value::WithUnit { amount: *n, unit: tu };
                }
                Value::Currency { amount, .. } => {
                    return Value::WithUnit { amount: *amount, unit: tu };
                }
                _ => {}
            }
        }
        None => {}
    }
    match crate::unit::parse_unit(target) {
        Some(tcu) => {
            match &value {
                Value::WithUnit { amount, unit: from_unit } => {
                    let from = from_unit.to_compound();
                    match crate::unit::convert(amount, &from, &tcu) {
                        Some(converted) => {
                            return Value::WithCompoundUnit { amount: converted, unit: tcu };
                        }
                        None => {
                            return convert_err(from_unit.short_name(), tcu.symbol.as_str());
                        }
                    }
                }
                Value::WithCompoundUnit { amount, unit: from_unit } => {
                    match crate::unit::convert(amount, from_unit, &tcu) {
                        Some(converted) => {
                            return Value::WithCompoundUnit { amount: converted, unit: tcu };
                        }
                        None => {
                            return convert_err(from_unit.symbol.as_str(), tcu.symbol.as_str());
                        }
                    }
                }
                Value::Number(n) => {
                    return Value::WithCompoundUnit { amount: *n, unit: tcu };
                }
                Value::Currency { amount, .. } => {
                    return Value::WithCompoundUnit { amount: *amount, unit: tcu };
                }
                _ => {}
            }
        }
        None => {}
    }
    let mut m = String::new();
    m.append("Unknown target unit: ");
    m.append(target);
    err_string(m)
}

/// The magnitudes the argument values carry, in order, empty and error
/// values skipped.
pub open spec fn spec_arg_numbers(args: Seq<ValueV>, i: int) -> Seq<Dec>
    decreases args.len() - i,
{
    if i < 0 || i >= args.len() {
        Seq::empty()
    } else {
        match args[i].as_dec() {
            Some(d) => seq![d] + spec_arg_numbers(args, i + 1),
            None => spec_arg_numbers(args, i + 1),
        }
    }
}

/// The running sum of the magnitudes; `None` once a partial sum cannot be
/// represented.
pub open spec fn spec_sum_dec(nums: Seq<Dec>, i: int, acc: Dec) -> Option<Dec>
    decreases nums.len() - i,
{
    if i < 0 || i >= nums.len() {
        Some(acc)
    } else {
        match crate::decimal::s_add(acc, nums[i]) {
            Some(a) => spec_sum_dec(nums, i + 1, a),
            None => None,
        }
    }
}

/// The magnitudes of the argument values, skipping empty and error values.
#[verifier::loop_isolation(false)]
fn arg_numbers(args: &Vec<Value>) -> (r: Vec<Dec>)
    requires
        values_wf(args@),
    ensures
        forall|i: int| 0 <= i < r@.len() ==> (#[trigger] r@[i]).wf(),
        r@ == spec_arg_numbers(vals_view(args@), 0),
{
    let ghost av = vals_view(args@);
    let mut out: Vec<Dec> = Vec::new();
    let n = args.len();
    let mut i: usize = 0;
    while i < n
        invariant
            i <= n,
            n == args@.len(),
            av == vals_view(args@),
            av.len() == n,
            forall|j: int| 0 <= j < out@.len() ==> (#[trigger] out@[j]).wf(),
            spec_arg_numbers(av, 0) == out@ + spec_arg_numbers(av, i as int),
        decreases n - i,
    {
        proof {
            assert(args@[i as int].wf());
            assert(av[i as int] == args@[i as int]@);
        }
        let ghost o0 = out@;
        match args[i].as_decimal() {
            Some(d) => {
                out.push(d);
                proof {
                    assert(out@ =~= o0 + seq![d]);
                    assert(o0 + (seq![d] + spec_arg_numbers(av, i + 1)) =~= out@
                        + spec_arg_numbers(av, i + 1));
                }
            }
            None => {}
        }
        i = i + 1;
    }
    proof {
        assert(spec_arg_numbers(av, n as int) =~= Seq::<Dec>::empty());
        assert(out@ + Seq::<Dec>::empty() =~= out@);
    }
    out
}

/// The sum of the magnitudes; `None` when a partial sum cannot be
/// represented.
#[verifier::loop_isolation(false)]
fn sum_numbers(nums: &Vec<Dec>) -> (r: Option<Dec>)
    requires
        forall|i: int| 0 <= i < nums@.len() ==> (#[trigger] nums@[i]).wf(),
    ensures
        r matches Some(d) ==> d.wf(),
        r == spec_sum_dec(nums@, 0, Dec { neg: false, mag: 0, scale: 0 }),
{
    let mut acc = Dec::zero();
    let n = nums.len();
    let mut i: usize = 0;
    while i < n
        invariant
            i <= n,
            n == nums@.len(),
            acc.wf(),
            spec_sum_dec(nums@, 0, Dec { neg: false, mag: 0, scale: 0 }) == spec_sum_dec(
                nums@,
                i as int,
                acc,
            ),
        decreases n - i,
    {
        match dec_add(&acc, &nums[i]) {
            Some(x) => {
                acc = x;
            }
            None => {
                return None;
            }
        }
        i = i + 1;
    }
    Some(acc)
}

/// Evaluate a built-in function over the magnitudes of its arguments:
/// `sum`/`total`, `avg`/`average`, `min`, `max`, `abs`, `round`, `floor`,
/// `ceil` and `sqrt`, case-insensitive; an unknown name is an error naming
/// the function; `min`/`max` of nothing and the square root of a negative
/// value are errors.
#[verifier::loop_isolation(false)]
pub fn eval_function(name: &str, args: &Vec<Value>) -> (r: Value)
    requires
        values_wf(args@),
    ensures
        r.wf(),
        r@ == spec_function(name@, vals_view(args@)),
{
    proof {
        lemma_function_names_distinct();
    }
    let lname = lower_chars(str_chars(name).as_slice());
    let l = lname.as_slice();
    let nums = arg_numbers(args);
    if chars_eq_str(l, "sum") || chars_eq_str(l, "total") {
        match sum_numbers(&nums) {
            Some(d) => Value::Number(d),
            None => err("Arithmetic overflow"),
        }
    } else if chars_eq_str(l, "avg") || chars_eq_str(l, "average") {
        if nums.len() == 0 {
            return Value::Number(Dec::zero());
        }
        let total = match sum_numbers(&nums) {
            Some(d) => d,
            None => {
                return err("Arithmetic overflow");
            }
        };
        let count = Dec::new(nums.len() as u64, 0);
        proof {
            assert(count.mag == nums@.len() as u128);
        }
        match dec_div(&total, &count) {
            Some(d) => Value::Number(d),
            None => err("Arithmetic overflow"),
        }
    } else if chars_eq_str(l, "min") {
        if nums.len() == 0 {
            return err("No values for min");
        }
        let mut best = nums[0];
        let mut i: usize = 1;
        while i < nums.len()
            invariant
                1 <= i <= nums@.len(),
                best.wf(),
                spec_min_fold(nums@, 1, nums@[0]) == spec_min_fold(nums@, i as int, best),
            decreases nums@.len() - i,
        {
            if dec_lt(&nums[i], &best) {
                best = nums[i];
            }
            i = i + 1;
        }
        Value::Number(best)
    } else if chars_eq_str(l, "max") {
        if nums.len() == 0 {
            return err("No values for max");
        }
        let mut best = nums[0];
        let mut i: usize = 1;
        while i < nums.len()
            invariant
                1 <= i <= nums@.len(),
                best.wf(),
                spec_max_fold(nums@, 1, nums@[0]) == spec_max_fold(nums@, i as int, best),
            decreases nums@.len() - i,
        {
            if dec_lt(&best, &nums[i]) {
                best = nums[i];
            }
            i = i + 1;
        }
        Value::Number(best)
    } else if chars_eq_str(l, "abs") {
        match first_number(&nums) {
            Some(d) => Value::Number(d.abs()),
            None => requires_number_err(name),
        }
    } else if chars_eq_str(l, "round") {
        match first_number(&nums) {
            Some(d) => Value::Number(d.round_to_scale(0)),
            None => requires_number_err(name),
        }
    } else if chars_eq_str(l, "floor") {
        match first_number(&nums) {
            Some(d) => Value::Number(d.floor_int()),
            None => requires_number_err(name),
        }
    } else if chars_eq_str(l, "ceil") {
        match first_number(&nums) {
            Some(d) => Value::Number(d.ceil_int()),
            None => requires_number_err(name),
        }
    } else if chars_eq_str(l, "sqrt") {
        match first_number(&nums) {
            Some(d) => {
                if d.is_negative() {
                    err("Cannot take sqrt of negative number")
                } else {
                    match dec_sqrt(&d) {
                        Some(x) => Value::Number(x),
                        None => err("Cannot take sqrt of this value"),
                    }
                }
            }
            None => requires_number_err(name),
        }
    } else {
        let mut m = String::new();
        m.append("Unknown function: ");
        m.append(name);
        proof {
            assert(m@ =~= "Unknown function: "@ + name@);
        }
        err_string(m)
    }
}

fn first_number(nums: &Vec<Dec>) -> (r: Option<Dec>)
    requires
        forall|i: int| 0 <= i < nums@.len() ==> (#[trigger] nums@[i]).wf(),
    ensures
        r matches Some(d) ==> d.wf(),
        r == first_num(nums@),
{
    if nums.len() > 0 {
        Some(nums[0])
    } else {
        None
    }
}

fn requires_number_err(name: &str) -> (r: Value)
    ensures
        r.wf(),
        r@ == ValueV::Error(name@ + " requires a number"@),
{
    let mut m = String::new();
    m.append(name);
    m.append(" requires a number");
    proof {
        assert(m@ =~= name@ + " requires a number"@);
    }
    err_string(m)
}

/// The built-in function names are pairwise distinct as character
/// sequences.
proof fn lemma_function_names_distinct()
    ensures
        ("sum"@) != ("total"@),
        ("sum"@) != ("avg"@),
        ("sum"@) != ("average"@),
        ("sum"@) != ("min"@),
        ("sum"@) != ("max"@),
        ("sum"@) != ("abs"@),
        ("sum"@) != ("round"@),
        ("sum"@) != ("floor"@),
        ("sum"@) != ("ceil"@),
        ("sum"@) != ("sqrt"@),
        ("total"@) != ("avg"@),
        ("total"@) != ("average"@),
        ("total"@) != ("min"@),
        ("total"@) != ("max"@),
        ("total"@) != ("abs"@),
        ("total"@) != ("round"@),
        ("total"@) != ("floor"@),
        ("total"@) != ("ceil"@),
        ("total"@) != ("sqrt"@),
        ("min"@) != ("avg"@),
        ("min"@) != ("average"@),
        ("min"@) != ("max"@),
        ("min"@) != ("abs"@),
        ("min"@) != ("round"@),
        ("min"@) != ("floor"@),
        ("min"@) != ("ceil"@),
        ("min"@) != ("sqrt"@),
        ("max"@) != ("avg"@),
        ("max"@) != ("average"@),
        ("max"@) != ("abs"@),
        ("max"@) != ("round"@),
        ("max"@) != ("floor"@),
        ("max"@) != ("ceil"@),
        ("max"@) != ("sqrt"@),
{
    reveal_strlit("sum");
    reveal_strlit("total");
    reveal_strlit("avg");
    reveal_strlit("average");
    reveal_strlit("min");
    reveal_strlit("max");
    reveal_strlit("abs");
    reveal_strlit("round");
    reveal_strlit("floor");
    reveal_strlit("ceil");
    reveal_strlit("sqrt");
    assert(("sum"@).len() != ("total"@).len());
    assert(("sum"@)[0] == 115 as char && ("avg"@)[0] == 97 as char);
    assert(("sum"@) != ("avg"@));
    assert(("sum"@).len() != ("average"@).len());
    assert(("sum"@)[0] == 115 as char && ("min"@)[0] == 109 as char);
    assert(("sum"@) != ("min"@));
    assert(("sum"@)[0] == 115 as char && ("max"@)[0] == 109 as char);
    assert(("sum"@) != ("max"@));
    assert(("sum"@)[0] == 115 as char && ("abs"@)[0] == 97 as char);
    assert(("sum"@) != ("abs"@));
    assert(("sum"@).len() != ("round"@).len());
    assert(("sum"@).len() != ("floor"@).len());
    assert(("sum"@).len() != ("ceil"@).len());
    assert(("sum"@).len() != ("sqrt"@).len());
    assert(("total"@).len() != ("avg"@).len());
    assert(("total"@).len() != ("average"@).len());
    assert(("total"@).len() != ("min"@).len());
    assert(("total"@).len() != ("max"@).len());
    assert(("total"@).len() != ("abs"@).len());
    assert(("total"@)[0] == 116 as char && ("round"@)[0] == 114 as char);
    assert(("total"@) != ("round"@));
    assert(("total"@)[0] == 116 as char && ("floor"@)[0] == 102 as char);
    assert(("total"@) != ("floor"@));
    assert(("total"@).len() != ("ceil"@).len());
    assert(("total"@).len() != ("sqrt"@).len());
    assert(("min"@)[0] == 109 as char && ("avg"@)[0] == 97 as char);
    assert(("min"@) != ("avg"@));
    assert(("min"@).len() != ("average"@).len());
    assert(("min"@)[1] == 105 as char && ("max"@)[1] == 97 as char);
    assert(("min"@) != ("max"@));
    assert(("min"@)[0] == 109 as char && ("abs"@)[0] == 97 as char);
    assert(("min"@) != ("abs"@));
    assert(("min"@).len() != ("round"@).len());
    assert(("min"@).len() != ("floor"@).len());
    assert(("min"@).len() != ("ceil"@).len());
    assert(("min"@).len() != ("sqrt"@).len());
    assert(("max"@)[0] == 109 as char && ("avg"@)[0] == 97 as char);
    assert(("max"@) != ("avg"@));
    assert(("max"@).len() != ("average"@).len());
    assert(("max"@)[0] == 109 as char && ("abs"@)[0] == 97 as char);
    assert(("max"@) != ("abs"@));
    assert(("max"@).len() != ("round"@).len());
    assert(("max"@).len() != ("floor"@).len());
    assert(("max"@).len() != ("ceil"@).len());
    assert(("max"@).len() != ("sqrt"@).len());
}

} // verus!
