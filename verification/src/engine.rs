//! The session engine.
//!
//! Owns the ordered history of evaluated lines, the variable context and the
//! rate graph.  Before a line is evaluated the pseudo-variables `total`,
//! `_`, `ANS` and `ans` are refreshed; if a previous valid result exists,
//! `"_ "` prepended to the input is tried first as an exact parse, and when
//! that evaluates without error the previous valid line is marked as
//! consumed by the continuation.  Aggregates (`sum`, `grouped_totals`) skip
//! consumed lines, so a chain is not counted twice.

use vstd::prelude::*;

verus! {

use crate::currency::Currency;
use crate::decimal::{Dec, dec_add, dec_mul, s_add};
use crate::eval::{EvalContext, spec_var_get, spec_var_set, spec_lookup, vars_view, spec_evaluate,
    evaluate};
use crate::parser::{parse_line, try_parse_exact, spec_parse_exact, spec_parse_line, PFailV};
use crate::rates::RateGraph;
use crate::text::{str_chars, lower_chars, chars_eq_str, char_is_alphanumeric};
use crate::unit::{Unit, UnitType, CompoundUnit};
use crate::value::{Value, ValueV};

/// The record of one evaluated line.
#[derive(Debug)]
pub struct LineResult {
    pub input: String,
    pub value: Value,
    /// True once the next line consumed this value as its `_`.
    pub is_continuation_source: bool,
}

/// Every line value is well-formed.
pub open spec fn lines_wf(lines: Seq<LineResult>) -> bool {
    forall|i: int| 0 <= i < lines.len() ==> (#[trigger] lines[i]).value.wf()
}

/// A last-valid index lies within the history.
pub proof fn lemma_last_valid_bound(lines: Seq<LineResult>)
    ensures
        (match spec_last_valid(lines) {
            Some(k) => 0 <= k < lines.len(),
            None => true,
        }),
    decreases lines.len(),
{
    if lines.len() > 0 {
        lemma_last_valid_bound(lines.drop_last());
    }
}

/// The index of the last valid (non-empty, non-error) line.
pub open spec fn spec_last_valid(lines: Seq<LineResult>) -> Option<int>
    decreases lines.len(),
{
    if lines.len() == 0 {
        None
    } else {
        let k = lines.len() - 1;
        if !(lines[k].value is Empty) && !(lines[k].value is Error) {
            Some(k)
        } else {
            spec_last_valid(lines.drop_last())
        }
    }
}

/// The sum of the magnitudes of the lines that were not consumed by a
/// continuation; `None` when a partial sum cannot be represented.
pub open spec fn spec_sum_lines(lines: Seq<LineResult>, i: int, acc: Dec) -> Option<Dec>
    decreases lines.len() - i,
{
    if i < 0 || i >= lines.len() {
        Some(acc)
    } else if !lines[i].is_continuation_source && lines[i].value.spec_as_decimal() is Some {
        match s_add(acc, lines[i].value.spec_as_decimal().unwrap()) {
            Some(a) => spec_sum_lines(lines, i + 1, a),
            None => None,
        }
    } else {
        spec_sum_lines(lines, i + 1, acc)
    }
}

/// The calculator session.
pub struct Engine {
    pub context: EvalContext,
    pub lines: Vec<LineResult>,
}

impl Engine {
    /// Everything stored is well-formed.
    pub open spec fn wf(self) -> bool {
        self.context.wf() && lines_wf(self.lines@)
    }

    /// A fresh session with the default rates and no history.
    pub fn new() -> (r: Engine)
        ensures
            r.wf(),
            r.lines@.len() == 0,
    {
        Engine { context: EvalContext::new(), lines: Vec::new() }
    }

    /// The recorded lines.
    pub fn lines(&self) -> (r: &Vec<LineResult>)
        ensures
            r == &self.lines,
    {
        &self.lines
    }

    /// Store an exchange rate (and its inverse).
    pub fn set_exchange_rate(&mut self, from: Currency, to: Currency, rate: Dec)
        requires
            old(self).wf(),
            rate.wf(),
        ensures
            final (self).wf(),
            final (self).lines@ == old(self).lines@,
    {
        self.context.set_exchange_rate(from, to, rate);
    }

    /// The edges after one raw rate is absorbed: a recognized fiat code
    /// stores what one US dollar buys, a recognized crypto code stores the
    /// token's dollar price, an unknown code changes nothing.
    pub open spec fn spec_apply_one(
        edges: Seq<crate::rates::Edge>,
        code: Seq<char>,
        rate: Dec,
    ) -> Seq<crate::rates::Edge> {
        match Currency::spec_parse(code) {
            Some(c) => if crate::currency::spec_def(c).is_crypto {
                crate::rates::spec_set_rate(edges, c, Currency::USD, rate)
            } else {
                crate::rates::spec_set_rate(edges, Currency::USD, c, rate)
            },
            None => edges,
        }
    }

    /// The edges after a whole raw rate list is absorbed, in order.
    pub open spec fn spec_apply_raw(
        edges: Seq<crate::rates::Edge>,
        rates: Seq<(String, Dec)>,
        i: int,
    ) -> Seq<crate::rates::Edge>
        decreases rates.len() - i,
    {
        if i < 0 || i >= rates.len() {
            edges
        } else {
            Engine::spec_apply_raw(
                Engine::spec_apply_one(edges, rates[i].0@, rates[i].1),
                rates,
                i + 1,
            )
        }
    }

    /// Absorb a completed rate fetch: a fiat code carries what one US
    /// dollar buys, a crypto code carries the token's dollar price; unknown
    /// codes are ignored.
    #[verifier::loop_isolation(false)]
    pub fn apply_raw_rates(&mut self, raw_rates: &Vec<(String, Dec)>)
        requires
            old(self).wf(),
            forall|i: int| 0 <= i < raw_rates@.len() ==> (#[trigger] raw_rates@[i]).1.wf(),
        ensures
            final (self).wf(),
            final (self).lines@ == old(self).lines@,
            final (self).context.variables@ == old(self).context.variables@,
            final (self).context.rate_graph.edges@ == Engine::spec_apply_raw(
                old(self).context.rate_graph.edges@,
                raw_rates@,
                0,
            ),
    {
        let n = raw_rates.len();
        let mut i: usize = 0;
        while i < n
            invariant
                i <= n,
                n == raw_rates@.len(),
                self.wf(),
                self.lines@ == old(self).lines@,
                self.context.variables@ == old(self).context.variables@,
                Engine::spec_apply_raw(old(self).context.rate_graph.edges@, raw_rates@, 0)
                    == Engine::spec_apply_raw(self.context.rate_graph.edges@, raw_rates@, i as int),
            decreases n - i,
        {
            let code = &raw_rates[i].0;
            let rate = raw_rates[i].1;
            match Currency::parse(code.as_str()) {
                Some(c) => {
                    if c.is_crypto() {
                        self.context.set_exchange_rate(c, Currency::USD, rate);
                    } else {
                        self.context.set_exchange_rate(Currency::USD, c, rate);
                    }
                }
                None => {}
            }
            i = i + 1;
        }
    }

    /// Drop all history and user variables; the rate graph persists.
    pub fn clear(&mut self)
        requires
            old(self).wf(),
        ensures
            final (self).wf(),
            final (self).lines@.len() == 0,
            final (self).context.variables@.len() == 0,
            final (self).context.rate_graph == old(self).context.rate_graph,
    {
        self.lines.clear();
        self.context.clear_variables();
    }

    /// The index of the last valid (non-empty, non-error) line.
    #[verifier::loop_isolation(false)]
    fn last_valid_index(&self) -> (r: Option<usize>)
        requires
            self.wf(),
        ensures
            (match r {
                Some(k) => spec_last_valid(self.lines@) == Some(k as int) && k
                    < self.lines@.len(),
                None => spec_last_valid(self.lines@) is None,
            }),
    {
        let n = self.lines.len();
        proof {
            assert(self.lines@.take(n as int) =~= self.lines@);
        }
        let mut i: usize = n;
        while i > 0
            invariant
                i <= n,
                n == self.lines@.len(),
                spec_last_valid(self.lines@) == spec_last_valid(self.lines@.take(i as int)),
            decreases i,
        {
            i = i - 1;
            let valid = {
                let v = &self.lines[i].value;
                !v.is_empty() && !v.is_error()
            };
            proof {
                assert(self.lines@.take(i + 1).drop_last() =~= self.lines@.take(i as int));
                assert(self.lines@.take(i + 1)[i as int] == self.lines@[i as int]);
            }
            if valid {
                return Some(i);
            }
        }
        proof {
            assert(self.lines@.take(0).len() == 0);
        }
        None
    }

    /// The sum of all non-consumed line magnitudes, as a plain number; an
    /// unrepresentable sum is an error value.
    #[verifier::loop_isolation(false)]
    pub fn sum(&self) -> (r: Value)
        requires
            self.wf(),
        ensures
            r.wf(),
            (match spec_sum_lines(self.lines@, 0, Dec { neg: false, mag: 0, scale: 0 }) {
                Some(d) => r == Value::Number(d),
                None => r@ == ValueV::Error("Arithmetic overflow"@),
            }),
    {
        let mut acc = Dec::zero();
        let n = self.lines.len();
        let mut i: usize = 0;
        while i < n
            invariant
                i <= n,
                n == self.lines@.len(),
                acc.wf(),
                spec_sum_lines(self.lines@, 0, Dec { neg: false, mag: 0, scale: 0 })
                    == spec_sum_lines(self.lines@, i as int, acc),
            decreases n - i,
        {
            let lr = &self.lines[i];
            if !lr.is_continuation_source {
                match lr.value.as_decimal() {
                    Some(d) => {
                        match dec_add(&acc, &d) {
                            Some(a) => {
                                acc = a;
                            }
                            None => {
                                let mut m = String::new();
                                m.append("Arithmetic overflow");
                                proof {
                                    assert(m@ =~= "Arithmetic overflow"@);
                                }
                                return Value::Error(m);
                            }
                        }
                    }
                    None => {}
                }
            }
            i = i + 1;
        }
        Value::Number(acc)
    }

    /// Parse and evaluate an input verbatim.
    fn parse_and_eval(&mut self, input: &str) -> (r: Value)
        requires
            old(self).wf(),
        ensures
            r.wf(),
            final (self).wf(),
            final (self).lines@ == old(self).lines@,
            final (self).context.rate_graph == old(self).context.rate_graph,
            ({
                let vars0 = vars_view(old(self).context.variables@);
                let edges = old(self).context.rate_graph.edges@;
                match spec_parse_line(input@) {
                    Ok(ast) => {
                        let out = spec_evaluate(ast, vars0, edges);
                        r@ == out.0 && vars_view(final (self).context.variables@) == out.1
                    },
                    Err(m) => r@ == ValueV::Error(m) && vars_view(
                        final (self).context.variables@,
                    ) == vars0,
                }
            }),
    {
        match parse_line(input) {
            Ok(ast) => evaluate(&ast, &mut self.context),
            Err(e) => Value::Error(e),
        }
    }

    /// The variable store after the pseudo-variables are refreshed: `total`
    /// holds the current sum (an error value when it cannot be
    /// represented), and when a valid line exists its value is bound to
    /// `_`, `ANS` and `ans`.
    pub open spec fn spec_refresh(
        vars: Seq<(Seq<char>, ValueV)>,
        lines: Seq<LineResult>,
    ) -> Seq<(Seq<char>, ValueV)> {
        let total: ValueV = match spec_sum_lines(lines, 0, Dec { neg: false, mag: 0, scale: 0 }) {
            Some(d) => ValueV::Number(d),
            None => ValueV::Error("Arithmetic overflow"@),
        };
        let v1 = spec_var_set(vars, "total"@, total);
        match spec_last_valid(lines) {
            Some(k) => {
                let lv = lines[k].value@;
                spec_var_set(spec_var_set(spec_var_set(v1, "_"@, lv), "ANS"@, lv), "ans"@, lv)
            },
            None => v1,
        }
    }

    /// One input evaluated continuation-first: when `_` is bound, the exact
    /// parse of `"_ "` plus the input is tried and its evaluation used
    /// unless it errors; otherwise the input is parsed with fuzzy recovery
    /// and evaluated, a parse failure becoming an error value.  Yields the
    /// value, whether the continuation won, and the variables after.
    pub open spec fn spec_eval_input(
        input: Seq<char>,
        vars: Seq<(Seq<char>, ValueV)>,
        edges: Seq<crate::rates::Edge>,
    ) -> (ValueV, bool, Seq<(Seq<char>, ValueV)>) {
        let cont: Option<(ValueV, Seq<(Seq<char>, ValueV)>)> = if spec_lookup(vars, "_"@, 0)
            is Some {
            match spec_parse_exact("_ "@ + input) {
                Ok(a) => {
                    let out = spec_evaluate(a, vars, edges);
                    if !(out.0 is Error) {
                        Some(out)
                    } else {
                        None
                    }
                },
                Err(_) => None,
            }
        } else {
            None
        };
        match cont {
            Some(out) => (out.0, true, out.1),
            None => match spec_parse_line(input) {
                Ok(ast) => {
                    let out = spec_evaluate(ast, vars, edges);
                    (out.0, false, out.1)
                },
                Err(m) => (ValueV::Error(m), false, vars),
            },
        }
    }

    /// What one session step yields: the pseudo-variables refreshed, then
    /// the continuation-first evaluation of the input.
    pub open spec fn spec_engine_eval(
        input: Seq<char>,
        vars: Seq<(Seq<char>, ValueV)>,
        lines: Seq<LineResult>,
        edges: Seq<crate::rates::Edge>,
    ) -> (ValueV, bool, Seq<(Seq<char>, ValueV)>) {
        Engine::spec_eval_input(input, Engine::spec_refresh(vars, lines), edges)
    }

    /// What a preview yields: like a session step, but `total` is not
    /// refreshed and nothing is recorded.
    pub open spec fn spec_preview(
        input: Seq<char>,
        vars: Seq<(Seq<char>, ValueV)>,
        lines: Seq<LineResult>,
        edges: Seq<crate::rates::Edge>,
    ) -> ValueV {
        let v1 = match spec_last_valid(lines) {
            Some(k) => {
                let lv = lines[k].value@;
                spec_var_set(
                    spec_var_set(spec_var_set(vars, "_"@, lv), "ANS"@, lv),
                    "ans"@,
                    lv,
                )
            },
            None => vars,
        };
        Engine::spec_eval_input(input, v1, edges).0
    }

    /// Refresh `total`, `_`, `ANS` and `ans` before evaluating a line.
    fn refresh_pseudo_variables(&mut self)
        requires
            old(self).wf(),
        ensures
            final (self).wf(),
            final (self).lines@ == old(self).lines@,
            final (self).context.rate_graph == old(self).context.rate_graph,
            vars_view(final (self).context.variables@) == Engine::spec_refresh(
                vars_view(old(self).context.variables@),
                old(self).lines@,
            ),
    {
        let total = self.sum();
        let mut name = String::new();
        name.append("total");
        proof {
            assert(name@ =~= "total"@);
        }
        self.context.set_variable(name, total);
        match self.last_valid_index() {
            Some(k) => {
                let last_value = self.lines[k].value.duplicate();
                let mut n1 = String::new();
                n1.append("_");
                proof {
                    assert(n1@ =~= "_"@);
                }
                self.context.set_variable(n1, last_value.duplicate());
                let mut n2 = String::new();
                n2.append("ANS");
                proof {
                    assert(n2@ =~= "ANS"@);
                }
                self.context.set_variable(n2, last_value.duplicate());
                let mut n3 = String::new();
                n3.append("ans");
                proof {
                    assert(n3@ =~= "ans"@);
                }
                self.context.set_variable(n3, last_value);
            }
            None => {}
        }
    }

    /// Try the continuation parse (`"_ "` prepended, exact) and fall back
    /// to the verbatim input; the flag says whether the continuation won.
    fn eval_with_continuation(&mut self, input: &str) -> (r: (Value, bool))
        requires
            old(self).wf(),
        ensures
            r.0.wf(),
            final (self).wf(),
            final (self).lines@ == old(self).lines@,
            final (self).context.rate_graph == old(self).context.rate_graph,
            ({
                let out = Engine::spec_eval_input(
                    input@,
                    vars_view(old(self).context.variables@),
                    old(self).context.rate_graph.edges@,
                );
                r.0@ == out.0 && r.1 == out.1 && vars_view(final (self).context.variables@)
                    == out.2
            }),
    {
        let mut underscore = String::new();
        underscore.append("_");
        proof {
            assert(underscore@ =~= "_"@);
            crate::eval::lemma_lookup_view(self.context.variables@, "_"@, 0);
        }
        let has_prev = match self.context.get_variable(underscore.as_str()) {
            Some(_) => true,
            None => false,
        };
        if has_prev {
            let mut continued = String::new();
            continued.append("_ ");
            continued.append(input);
            proof {
                assert(continued@ =~= "_ "@ + input@);
            }
            match try_parse_exact(continued.as_str()) {
                Ok(ast) => {
                    let result = evaluate(&ast, &mut self.context);
                    if !result.is_error() {
                        return (result, true);
                    }
                }
                Err(_) => {}
            }
        }
        (self.parse_and_eval(input), false)
    }

    /// Mark the last valid line as consumed by a continuation.
    #[verifier::loop_isolation(false)]
    fn mark_last_valid_consumed(&mut self)
        requires
            old(self).wf(),
        ensures
            final (self).wf(),
            final (self).context == old(self).context,
            final (self).lines@.len() == old(self).lines@.len(),
            forall|j: int|
                0 <= j < old(self).lines@.len() && Some(j) != spec_last_valid(old(self).lines@)
                    ==> final (self).lines@[j] == old(self).lines@[j],
            (match spec_last_valid(old(self).lines@) {
                Some(k) => final (self).lines@[k].is_continuation_source && final (
                self).lines@[k].value == old(self).lines@[k].value && final (
                self).lines@[k].input == old(self).lines@[k].input,
                None => final (self).lines@ == old(self).lines@,
            }),
    {
        match self.last_valid_index() {
            Some(k) => {
                let input = self.lines[k].input.clone();
                let value = self.lines[k].value.duplicate();
                self.lines.set(k, LineResult { input, value, is_continuation_source: true });
                proof {
                    assert(lines_wf(self.lines@));
                }
            }
            None => {
                proof {
                    assert(final (self).lines@ =~= old(self).lines@);
                }
            }
        }
    }

    /// True iff a word is `_` or folds to `ans`.
    pub open spec fn spec_word_hit(w: Seq<char>) -> bool {
        w == "_"@ || crate::text::spec_lower(w) == "ans"@
    }

    /// True iff the input mentions `_` or `ans` (any ASCII case) as a word
    /// of its own: scanning runs of word characters, any completed run
    /// hits.
    pub open spec fn spec_references(s: Seq<char>, i: int, word: Seq<char>) -> bool
        decreases s.len() - i,
    {
        if i < 0 || i >= s.len() {
            Engine::spec_word_hit(word)
        } else if crate::text::alphanumeric_of(s[i]) || s[i] == '_' {
            Engine::spec_references(s, i + 1, word.push(s[i]))
        } else {
            Engine::spec_word_hit(word) || Engine::spec_references(s, i + 1, Seq::empty())
        }
    }

    /// True iff the input mentions `_` or `ans` (any ASCII case) as a word
    /// of its own.
    #[verifier::loop_isolation(false)]
    fn references_underscore(input: &str) -> (r: bool)
        ensures
            r == Engine::spec_references(input@, 0, Seq::empty()),
    {
        let v = str_chars(input);
        let n = v.len();
        let mut i: usize = 0;
        let mut word: Vec<char> = Vec::new();
        proof {
            assert(word@ =~= Seq::<char>::empty());
        }
        while i < n
            invariant
                i <= n,
                n == v@.len(),
                Engine::spec_references(v@, 0, Seq::empty()) == Engine::spec_references(
                    v@,
                    i as int,
                    word@,
                ),
            decreases n - i,
        {
            let c = v[i];
            if char_is_alphanumeric(c) || c == '_' {
                word.push(c);
            } else {
                if word_hits(&word) {
                    return true;
                }
                word = Vec::new();
                proof {
                    assert(word@ =~= Seq::<char>::empty());
                }
            }
            i = i + 1;
        }
        word_hits(&word)
    }

    /// Evaluate a line and record the result.
    pub fn eval(&mut self, input: &str) -> (r: Value)
        requires
            old(self).wf(),
        ensures
            r.wf(),
            final (self).wf(),
            final (self).lines@.len() == old(self).lines@.len() + 1,
            final (self).lines@.last().value == r,
            final (self).lines@.last().input@ == input@,
            !final (self).lines@.last().is_continuation_source,
            final (self).context.rate_graph == old(self).context.rate_graph,
            forall|j: int|
                0 <= j < old(self).lines@.len() ==> (#[trigger] final (self).lines@[j]).value
                    == old(self).lines@[j].value && final (self).lines@[j].input == old(
                    self,
                ).lines@[j].input,
            forall|j: int|
                0 <= j < old(self).lines@.len() && Some(j) != spec_last_valid(old(self).lines@)
                    ==> (#[trigger] final (self).lines@[j]).is_continuation_source == old(
                    self,
                ).lines@[j].is_continuation_source,
            ({
                let out = Engine::spec_engine_eval(
                    input@,
                    vars_view(old(self).context.variables@),
                    old(self).lines@,
                    old(self).context.rate_graph.edges@,
                );
                &&& r@ == out.0
                &&& vars_view(final (self).context.variables@) == out.2
                &&& (match spec_last_valid(old(self).lines@) {
                    Some(k) => final (self).lines@[k].is_continuation_source == (old(
                        self,
                    ).lines@[k].is_continuation_source || out.1 || Engine::spec_references(
                        input@,
                        0,
                        Seq::empty(),
                    )),
                    None => true,
                })
            }),
    {
        self.refresh_pseudo_variables();
        let (result, continuation_succeeded) = self.eval_with_continuation(input);
        if continuation_succeeded || Engine::references_underscore(input) {
            self.mark_last_valid_consumed();
        }
        let mut owned = String::new();
        owned.append(input);
        self.lines.push(
            LineResult { input: owned, value: result.duplicate(), is_continuation_source: false },
        );
        proof {
            assert(lines_wf(self.lines@));
            lemma_last_valid_bound(old(self).lines@);
        }
        result
    }

    /// Evaluate a line against a copy of the context, recording nothing
    /// (for live previews).
    pub fn eval_preview(&self, input: &str) -> (r: Value)
        requires
            self.wf(),
        ensures
            r.wf(),
            r@ == Engine::spec_preview(
                input@,
                vars_view(self.context.variables@),
                self.lines@,
                self.context.rate_graph.edges@,
            ),
    {
        let mut ctx = duplicate_context(&self.context);
        match self.last_valid_index() {
            Some(k) => {
                let last_value = self.lines[k].value.duplicate();
                let mut n1 = String::new();
                n1.append("_");
                proof {
                    assert(n1@ =~= "_"@);
                }
                ctx.set_variable(n1, last_value.duplicate());
                let mut n2 = String::new();
                n2.append("ANS");
                proof {
                    assert(n2@ =~= "ANS"@);
                }
                ctx.set_variable(n2, last_value.duplicate());
                let mut n3 = String::new();
                n3.append("ans");
                proof {
                    assert(n3@ =~= "ans"@);
                }
                ctx.set_variable(n3, last_value);
            }
            None => {}
        }
        let mut underscore = String::new();
        underscore.append("_");
        proof {
            assert(underscore@ =~= "_"@);
            crate::eval::lemma_lookup_view(ctx.variables@, "_"@, 0);
        }
        let has_prev = match ctx.get_variable(underscore.as_str()) {
            Some(_) => true,
            None => false,
        };
        if has_prev {
            let mut continued = String::new();
            continued.append("_ ");
            continued.append(input);
            proof {
                assert(continued@ =~= "_ "@ + input@);
            }
            match try_parse_exact(continued.as_str()) {
                Ok(ast) => {
                    let result = evaluate(&ast, &mut ctx);
                    if !result.is_error() {
                        return result;
                    }
                }
                Err(_) => {}
            }
        }
        match parse_line(input) {
            Ok(ast) => evaluate(&ast, &mut ctx),
            Err(e) => Value::Error(e),
        }
    }

    /// True iff the name is one of the pseudo-variables `total`, `_`,
    /// `ANS`, `ans`.
    pub open spec fn spec_pseudo(name: Seq<char>) -> bool {
        name == "total"@ || name == "_"@ || name == "ANS"@ || name == "ans"@
    }

    /// The user bindings, in store order, pseudo-variables left out.
    pub open spec fn spec_user_vars(vars: Seq<(String, Value)>, i: int) -> Seq<(String, Value)>
        decreases vars.len() - i,
    {
        if i < 0 || i >= vars.len() {
            Seq::empty()
        } else if Engine::spec_pseudo(vars[i].0@) {
            Engine::spec_user_vars(vars, i + 1)
        } else {
            seq![vars[i]] + Engine::spec_user_vars(vars, i + 1)
        }
    }

    /// The user-defined variables, in insertion order; the pseudo-variables
    /// `total`, `_`, `ANS` and `ans` are left out.
    #[verifier::loop_isolation(false)]
    pub fn variables(&self) -> (r: Vec<(String, Value)>)
        requires
            self.wf(),
        ensures
            forall|i: int| 0 <= i < r@.len() ==> (#[trigger] r@[i]).1.wf(),
            crate::eval::vars_view(r@) == crate::eval::vars_view(
                Engine::spec_user_vars(self.context.variables@, 0),
            ),
    {
        let mut out: Vec<(String, Value)> = Vec::new();
        let n = self.context.variables.len();
        let mut i: usize = 0;
        while i < n
            invariant
                i <= n,
                n == self.context.variables@.len(),
                forall|j: int| 0 <= j < out@.len() ==> (#[trigger] out@[j]).1.wf(),
                crate::eval::vars_view(Engine::spec_user_vars(self.context.variables@, 0))
                    =~= crate::eval::vars_view(out@) + crate::eval::vars_view(
                    Engine::spec_user_vars(self.context.variables@, i as int),
                ),
            decreases n - i,
        {
            let keep = {
                let name = &self.context.variables[i].0;
                let nv = str_chars(name.as_str());
                let ns = nv.as_slice();
                !chars_eq_str(ns, "total") && !chars_eq_str(ns, "_") && !chars_eq_str(ns, "ANS")
                    && !chars_eq_str(ns, "ans")
            };
            if keep {
                let name = self.context.variables[i].0.clone();
                let value = self.context.variables[i].1.duplicate();
                let ghost o0 = out@;
                out.push((name, value));
                proof {
                    assert forall|j: int| 0 <= j < out@.len() implies (#[trigger] out@[j]).1.wf() by {
                        if j < o0.len() {
                            assert(out@[j] == o0[j]);
                        }
                    }
                    assert(crate::eval::vars_view(out@) =~= crate::eval::vars_view(o0).push(
                        (name@, value@),
                    ));
                    assert(crate::eval::vars_view(seq![self.context.variables@[i as int]])
                        =~= seq![(name@, value@)]);
                    assert(crate::eval::vars_view(
                        seq![self.context.variables@[i as int]] + Engine::spec_user_vars(
                            self.context.variables@,
                            i + 1,
                        ),
                    ) =~= seq![(name@, value@)] + crate::eval::vars_view(Engine::spec_user_vars(
                        self.context.variables@,
                        i + 1,
                    )));
                }
            }
            i = i + 1;
        }
        proof {
            assert(crate::eval::vars_view(Engine::spec_user_vars(
                self.context.variables@,
                n as int,
            )) =~= Seq::<(Seq<char>, crate::value::ValueV)>::empty());
            assert(crate::eval::vars_view(out@) + Seq::<(Seq<char>, crate::value::ValueV)>::empty()
                =~= crate::eval::vars_view(out@));
        }
        out
    }

    /// Totals grouped by kind, at the specification level: the collected
    /// currency amounts, simple-unit totals, last units per family, and
    /// compound totals of the non-consumed lines.
    pub open spec fn spec_collect(
        lines: Seq<LineResult>,
        i: int,
        cams: Seq<(Currency, Dec)>,
        ut: Seq<(Unit, Dec)>,
        lu: Seq<(UnitType, Unit)>,
        ct: Seq<(crate::unit::CompoundUnitV, Dec)>,
    ) -> (
        Seq<(Currency, Dec)>,
        Seq<(Unit, Dec)>,
        Seq<(UnitType, Unit)>,
        Seq<(crate::unit::CompoundUnitV, Dec)>,
    )
        decreases lines.len() - i,
    {
        if i < 0 || i >= lines.len() {
            (cams, ut, lu, ct)
        } else if lines[i].is_continuation_source {
            Engine::spec_collect(lines, i + 1, cams, ut, lu, ct)
        } else {
            match lines[i].value {
                Value::Currency { amount, currency } => Engine::spec_collect(
                    lines,
                    i + 1,
                    cams.push((currency, amount)),
                    ut,
                    lu,
                    ct,
                ),
                Value::WithUnit { amount, unit } => Engine::spec_collect(
                    lines,
                    i + 1,
                    cams,
                    spec_unit_add(ut, unit, amount),
                    spec_last_set(lu, unit),
                    ct,
                ),
                Value::WithCompoundUnit { amount, unit } => Engine::spec_collect(
                    lines,
                    i + 1,
                    cams,
                    ut,
                    lu,
                    spec_comp_add(ct, unit@, amount),
                ),
                _ => Engine::spec_collect(lines, i + 1, cams, ut, lu, ct),
            }
        }
    }

    /// The currency amounts folded into the target currency: through the
    /// rate graph when a rate resolves, raw otherwise; an unrepresentable
    /// product or sum sets the overflow flag.
    pub open spec fn spec_cur_fold(
        cams: Seq<(Currency, Dec)>,
        i: int,
        target: Currency,
        total: Dec,
        ovf: bool,
        edges: Seq<crate::rates::Edge>,
    ) -> (Dec, bool)
        decreases cams.len() - i,
    {
        if i < 0 || i >= cams.len() {
            (total, ovf)
        } else {
            let c = cams[i].0;
            let amount = cams[i].1;
            let step: (Dec, bool) = if c == target {
                (amount, ovf)
            } else {
                match crate::rates::spec_get_rate(edges, c, target) {
                    Some(rate) => match crate::decimal::s_mul(amount, rate) {
                        Some(x) => (x, ovf),
                        None => (amount, true),
                    },
                    None => (amount, ovf),
                }
            };
            match crate::decimal::s_add(total, step.0) {
                Some(t) => Engine::spec_cur_fold(cams, i + 1, target, t, step.1, edges),
                None => Engine::spec_cur_fold(cams, i + 1, target, total, true, edges),
            }
        }
    }

    /// The currency entry of the totals: everything converted into the last
    /// currency seen; nothing when no currency line exists, the fold
    /// overflowed, or the total is zero.
    pub open spec fn spec_currency_part(
        cams: Seq<(Currency, Dec)>,
        edges: Seq<crate::rates::Edge>,
    ) -> Seq<ValueV> {
        if cams.len() == 0 {
            Seq::empty()
        } else {
            let target = cams.last().0;
            let f = Engine::spec_cur_fold(
                cams,
                0,
                target,
                Dec { neg: false, mag: 0, scale: 0 },
                false,
                edges,
            );
            if !f.1 && f.0.mag != 0 {
                seq![ValueV::Currency { amount: f.0, currency: target }]
            } else {
                Seq::empty()
            }
        }
    }

    /// The last unit recorded for a family rank.
    pub open spec fn spec_pick_last(lu: Seq<(UnitType, Unit)>, rank: int) -> Option<
        (UnitType, Unit),
    >
        decreases lu.len(),
    {
        if lu.len() == 0 {
            None
        } else if lu.last().0.spec_rank() == rank {
            Some(lu.last())
        } else {
            Engine::spec_pick_last(lu.drop_last(), rank)
        }
    }

    /// The family's amounts folded into its last unit (an inconvertible or
    /// unrepresentable step keeps the total).
    pub open spec fn spec_unit_sum(
        ut: Seq<(Unit, Dec)>,
        k: int,
        rank: int,
        target: Unit,
        total: Dec,
    ) -> Dec
        decreases ut.len() - k,
    {
        if k < 0 || k >= ut.len() {
            total
        } else {
            let u = ut[k].0;
            let amount = ut[k].1;
            if u.spec_unit_type().spec_rank() == rank {
                let converted = if u == target {
                    amount
                } else {
                    match crate::unit::spec_convert_v(
                        amount,
                        crate::eval::unit_cv(u),
                        crate::eval::unit_cv(target),
                    ) {
                        Some(x) => x,
                        None => amount,
                    }
                };
                match crate::decimal::s_add(total, converted) {
                    Some(x) => Engine::spec_unit_sum(ut, k + 1, rank, target, x),
                    None => Engine::spec_unit_sum(ut, k + 1, rank, target, total),
                }
            } else {
                Engine::spec_unit_sum(ut, k + 1, rank, target, total)
            }
        }
    }

    /// The unit entries of the totals, families in their fixed order,
    /// zero totals omitted.
    pub open spec fn spec_unit_parts(
        lu: Seq<(UnitType, Unit)>,
        ut: Seq<(Unit, Dec)>,
        rank: int,
    ) -> Seq<ValueV>
        decreases 5 - rank,
    {
        if rank < 0 || rank >= 5 {
            Seq::empty()
        } else {
            let part: Seq<ValueV> = match Engine::spec_pick_last(lu, rank) {
                None => Seq::empty(),
                Some(p) => {
                    let tot = Engine::spec_unit_sum(
                        ut,
                        0,
                        rank,
                        p.1,
                        Dec { neg: false, mag: 0, scale: 0 },
                    );
                    if tot.mag != 0 {
                        seq![ValueV::WithUnit { amount: tot, unit: p.1 }]
                    } else {
                        Seq::empty()
                    }
                },
            };
            part + Engine::spec_unit_parts(lu, ut, rank + 1)
        }
    }

    /// The compound-unit entries of the totals, one per dimension vector,
    /// zero totals omitted.
    pub open spec fn spec_comp_parts(
        ct: Seq<(crate::unit::CompoundUnitV, Dec)>,
        c: int,
    ) -> Seq<ValueV>
        decreases ct.len() - c,
    {
        if c < 0 || c >= ct.len() {
            Seq::empty()
        } else {
            let part: Seq<ValueV> = if ct[c].1.mag != 0 {
                seq![ValueV::WithCompoundUnit { amount: ct[c].1, unit: ct[c].0 }]
            } else {
                Seq::empty()
            };
            part + Engine::spec_comp_parts(ct, c + 1)
        }
    }

    /// What the grouped totals hold: the currency entry first, then the
    /// unit families in their fixed order, then the compound units, all
    /// over the non-consumed lines.
    pub open spec fn spec_grouped_totals(
        lines: Seq<LineResult>,
        edges: Seq<crate::rates::Edge>,
    ) -> Seq<ValueV> {
        let col = Engine::spec_collect(
            lines,
            0,
            Seq::empty(),
            Seq::empty(),
            Seq::empty(),
            Seq::empty(),
        );
        Engine::spec_currency_part(col.0, edges) + Engine::spec_unit_parts(col.2, col.1, 0)
            + Engine::spec_comp_parts(col.3, 0)
    }

    /// Totals grouped by kind: all currency amounts summed into the last
    /// currency seen (an unconvertible amount is added raw), simple unit
    /// amounts summed per family into the last unit of that family, and
    /// compound unit amounts summed per dimension vector into the last
    /// compound unit seen; currencies come first, then unit families in
    /// their fixed order, then compound units.  Consumed lines are skipped.
    #[verifier::loop_isolation(false)]
    #[verifier::rlimit(100)]
    pub fn grouped_totals(&self) -> (r: Vec<Value>)
        requires
            self.wf(),
        ensures
            forall|i: int| 0 <= i < r@.len() ==> (#[trigger] r@[i]).wf(),
            crate::eval::vals_view(r@) == Engine::spec_grouped_totals(
                self.lines@,
                self.context.rate_graph.edges@,
            ),
    {
        let ghost col0 = Engine::spec_collect(
            self.lines@,
            0,
            Seq::empty(),
            Seq::empty(),
            Seq::empty(),
            Seq::empty(),
        );
        let ghost edges = self.context.rate_graph.edges@;
        let n = self.lines.len();
        let mut currency_amounts: Vec<(Currency, Dec)> = Vec::new();
        let mut unit_totals: Vec<(Unit, Dec)> = Vec::new();
        let mut last_unit_by_type: Vec<(UnitType, Unit)> = Vec::new();
        let mut compound_totals: Vec<(CompoundUnit, Dec)> = Vec::new();
        proof {
            assert(currency_amounts@ =~= Seq::<(Currency, Dec)>::empty());
            assert(unit_totals@ =~= Seq::<(Unit, Dec)>::empty());
            assert(last_unit_by_type@ =~= Seq::<(UnitType, Unit)>::empty());
            assert(comp_view(compound_totals@) =~= Seq::<(
                crate::unit::CompoundUnitV,
                Dec,
            )>::empty());
        }
        let mut i: usize = 0;
        while i < n
            invariant
                i <= n,
                n == self.lines@.len(),
                self.wf(),
                forall|j: int| 0 <= j < currency_amounts@.len() ==> (#[trigger] currency_amounts@[j]).1.wf(),
                forall|j: int| 0 <= j < unit_totals@.len() ==> (#[trigger] unit_totals@[j]).1.wf(),
                forall|j: int| 0 <= j < compound_totals@.len() ==> (#[trigger] compound_totals@[j]).1.wf()
                    && (#[trigger] compound_totals@[j]).0.wf(),
                Engine::spec_collect(
                    self.lines@,
                    i as int,
                    currency_amounts@,
                    unit_totals@,
                    last_unit_by_type@,
                    comp_view(compound_totals@),
                ) == col0,
            decreases n - i,
        {
            proof {
                assert(self.lines@[i as int].value.wf());
            }
            let skip = self.lines[i].is_continuation_source;
            if !skip {
                match &self.lines[i].value {
                    Value::Currency { amount, currency } => {
                        let ghost c0 = currency_amounts@;
                        currency_amounts.push((*currency, *amount));
                        proof {
                            assert forall|j: int|
                                0 <= j < currency_amounts@.len() implies (#[trigger] currency_amounts@[j]).1.wf() by {
                                if j < c0.len() {
                                    assert(currency_amounts@[j] == c0[j]);
                                }
                            }
                        }
                    }
                    Value::WithUnit { amount, unit } => {
                        add_unit_total(&mut unit_totals, *unit, *amount);
                        set_last_unit(&mut last_unit_by_type, *unit);
                    }
                    Value::WithCompoundUnit { amount, unit } => {
                        add_compound_total(&mut compound_totals, unit, *amount);
                    }
                    _ => {}
                }
            }
            i = i + 1;
        }
        proof {
            assert(col0 == (
                currency_amounts@,
                unit_totals@,
                last_unit_by_type@,
                comp_view(compound_totals@),
            ));
        }
        let mut result: Vec<Value> = Vec::new();
        // currencies: convert everything into the last currency seen
        if currency_amounts.len() > 0 {
            let target = currency_amounts[currency_amounts.len() - 1].0;
            let mut total = Dec::zero();
            let mut k: usize = 0;
            let mut overflow = false;
            while k < currency_amounts.len()
                invariant
                    k <= currency_amounts@.len(),
                    total.wf(),
                    self.wf(),
                    target == currency_amounts@.last().0,
                    forall|j: int| 0 <= j < currency_amounts@.len() ==> (#[trigger] currency_amounts@[j]).1.wf(),
                    Engine::spec_cur_fold(
                        currency_amounts@,
                        0,
                        target,
                        Dec { neg: false, mag: 0, scale: 0 },
                        false,
                        edges,
                    ) == Engine::spec_cur_fold(
                        currency_amounts@,
                        k as int,
                        target,
                        total,
                        overflow,
                        edges,
                    ),
                decreases currency_amounts@.len() - k,
            {
                let c = currency_amounts[k].0;
                let amount = currency_amounts[k].1;
                let converted: Dec = if c == target {
                    amount
                } else {
                    match self.context.rate_graph.get_rate(c, target) {
                        Some(rate) => {
                            match dec_mul(&amount, &rate) {
                                Some(x) => x,
                                None => {
                                    overflow = true;
                                    amount
                                }
                            }
                        }
                        None => amount,  // unconvertible: add the raw amount
                    }
                };
                match dec_add(&total, &converted) {
                    Some(t) => {
                        total = t;
                    }
                    None => {
                        overflow = true;
                    }
                }
                k = k + 1;
            }
            if !overflow && !total.is_zero() {
                proof {
                    crate::decimal::lemma_zero_iff(total);
                }
                result.push(Value::Currency { amount: total, currency: target });
            }
            proof {
                crate::decimal::lemma_zero_iff(total);
                assert(crate::eval::vals_view(result@) =~= Engine::spec_currency_part(
                    currency_amounts@,
                    edges,
                ));
            }
        }
        proof {
            assert(crate::eval::vals_view(result@) =~= Engine::spec_currency_part(
                currency_amounts@,
                edges,
            ));
        }
        // simple units: convert each family's amounts into its last unit,
        // families emitted in their fixed display order
        let mut rank: u8 = 0;
        while rank < 5
            invariant
                rank <= 5,
                self.wf(),
                forall|j: int| 0 <= j < unit_totals@.len() ==> (#[trigger] unit_totals@[j]).1.wf(),
                forall|j: int| 0 <= j < result@.len() ==> (#[trigger] result@[j]).wf(),
                crate::eval::vals_view(result@) + Engine::spec_unit_parts(
                    last_unit_by_type@,
                    unit_totals@,
                    rank as int,
                ) =~= Engine::spec_currency_part(currency_amounts@, edges)
                    + Engine::spec_unit_parts(last_unit_by_type@, unit_totals@, 0),
            decreases 5 - rank,
        {
            let mut pick: Option<(UnitType, Unit)> = None;
            let mut t: usize = last_unit_by_type.len();
            proof {
                assert(last_unit_by_type@.take(t as int) =~= last_unit_by_type@);
            }
            while t > 0
                invariant
                    t <= last_unit_by_type@.len(),
                    pick is None,
                    Engine::spec_pick_last(last_unit_by_type@, rank as int)
                        == Engine::spec_pick_last(
                        last_unit_by_type@.take(t as int),
                        rank as int,
                    ),
                decreases t,
            {
                t = t - 1;
                proof {
                    assert(last_unit_by_type@.take(t + 1).drop_last() =~= last_unit_by_type@.take(
                        t as int,
                    ));
                    assert(last_unit_by_type@.take(t + 1).last() == last_unit_by_type@[t as int]);
                }
                if last_unit_by_type[t].0.rank() == rank {
                    pick = Some(last_unit_by_type[t]);
                    break ;
                }
            }
            proof {
                if pick is None {
                    assert(last_unit_by_type@.take(0).len() == 0);
                }
            }
            let ghost r0 = crate::eval::vals_view(result@);
            match pick {
                Some(p) => {
                    let family = p.0;
                    let target = p.1;
                    let mut total = Dec::zero();
                    let mut k: usize = 0;
                    while k < unit_totals.len()
                        invariant
                            k <= unit_totals@.len(),
                            total.wf(),
                            forall|j: int| 0 <= j < unit_totals@.len() ==> (#[trigger] unit_totals@[j]).1.wf(),
                            Engine::spec_unit_sum(
                                unit_totals@,
                                0,
                                rank as int,
                                target,
                                Dec { neg: false, mag: 0, scale: 0 },
                            ) == Engine::spec_unit_sum(
                                unit_totals@,
                                k as int,
                                rank as int,
                                target,
                                total,
                            ),
                        decreases unit_totals@.len() - k,
                    {
                        let u = unit_totals[k].0;
                        let amount = unit_totals[k].1;
                        if u.unit_type().rank() == rank {
                            let converted: Dec = if u == target {
                                amount
                            } else {
                                let from = u.to_compound();
                                let to = target.to_compound();
                                match crate::unit::convert(&amount, &from, &to) {
                                    Some(x) => x,
                                    None => amount,
                                }
                            };
                            match dec_add(&total, &converted) {
                                Some(x) => {
                                    total = x;
                                }
                                None => {}
                            }
                        }
                        k = k + 1;
                    }
                    if !total.is_zero() {
                        proof {
                            crate::decimal::lemma_zero_iff(total);
                        }
                        result.push(Value::WithUnit { amount: total, unit: target });
                        proof {
                            assert forall|j: int| 0 <= j < result@.len() implies (#[trigger] result@[j]).wf() by {
                            }
                            assert(crate::eval::vals_view(result@) =~= r0.push(
                                ValueV::WithUnit { amount: total, unit: target },
                            ));
                        }
                    }
                    proof {
                        crate::decimal::lemma_zero_iff(total);
                        assert(crate::eval::vals_view(result@) + Engine::spec_unit_parts(
                            last_unit_by_type@,
                            unit_totals@,
                            rank + 1,
                        ) =~= r0 + Engine::spec_unit_parts(
                            last_unit_by_type@,
                            unit_totals@,
                            rank as int,
                        ));
                    }
                }
                None => {
                    proof {
                        assert(crate::eval::vals_view(result@) + Engine::spec_unit_parts(
                            last_unit_by_type@,
                            unit_totals@,
                            rank + 1,
                        ) =~= r0 + Engine::spec_unit_parts(
                            last_unit_by_type@,
                            unit_totals@,
                            rank as int,
                        ));
                    }
                }
            }
            rank = rank + 1;
        }
        // compound units, one total per dimension vector
        let mut c: usize = 0;
        while c < compound_totals.len()
            invariant
                c <= compound_totals@.len(),
                forall|j: int| 0 <= j < compound_totals@.len() ==> (#[trigger] compound_totals@[j]).1.wf()
                    && (#[trigger] compound_totals@[j]).0.wf(),
                forall|j: int| 0 <= j < result@.len() ==> (#[trigger] result@[j]).wf(),
                crate::eval::vals_view(result@) + Engine::spec_comp_parts(
                    comp_view(compound_totals@),
                    c as int,
                ) =~= Engine::spec_currency_part(currency_amounts@, edges)
                    + Engine::spec_unit_parts(last_unit_by_type@, unit_totals@, 0)
                    + Engine::spec_comp_parts(comp_view(compound_totals@), 0),
            decreases compound_totals@.len() - c,
        {
            let amount = compound_totals[c].1;
            let ghost r0 = crate::eval::vals_view(result@);
            if amount.mag != 0 {
                let unit = compound_totals[c].0.duplicate();
                result.push(Value::WithCompoundUnit { amount, unit });
                proof {
                    assert forall|j: int| 0 <= j < result@.len() implies (#[trigger] result@[j]).wf() by {
                    }
                    assert(crate::eval::vals_view(result@) =~= r0.push(
                        ValueV::WithCompoundUnit {
                            amount,
                            unit: compound_totals@[c as int].0@,
                        },
                    ));
                    assert(comp_view(compound_totals@)[c as int]
                        == (compound_totals@[c as int].0@, amount));
                }
            }
            c = c + 1;
        }
        proof {
            assert(Engine::spec_comp_parts(
                comp_view(compound_totals@),
                compound_totals@.len() as int,
            ) =~= Seq::<ValueV>::empty());
            assert(crate::eval::vals_view(result@) + Seq::<ValueV>::empty()
                =~= crate::eval::vals_view(result@));
        }
        result
    }
}

/// True iff the word is `_` or `ans` in any ASCII case.
fn word_hits(word: &Vec<char>) -> (r: bool)
    ensures
        r == Engine::spec_word_hit(word@),
{
    if chars_eq_str(word.as_slice(), "_") {
        return true;
    }
    let l = lower_chars(word.as_slice());
    chars_eq_str(l.as_slice(), "ans")
}

/// A deep copy of a context.
#[verifier::loop_isolation(false)]
fn duplicate_context(ctx: &EvalContext) -> (r: EvalContext)
    requires
        ctx.wf(),
    ensures
        r.wf(),
        r.variables@ == ctx.variables@,
        r.rate_graph.edges@ == ctx.rate_graph.edges@,
{
    let mut vars: Vec<(String, Value)> = Vec::new();
    let n = ctx.variables.len();
    let mut i: usize = 0;
    while i < n
        invariant
            i <= n,
            vars@ == ctx.variables@.take(i as int),
        decreases n - i,
    {
        proof {
            assert(ctx.variables@[i as int].1.wf());
        }
        let name = ctx.variables[i].0.clone();
        let value = ctx.variables[i].1.duplicate();
        vars.push((name, value));
        proof {
            assert(vars@ =~= ctx.variables@.take(i + 1));
        }
        i = i + 1;
    }
    let mut edges: Vec<crate::rates::Edge> = Vec::new();
    let m = ctx.rate_graph.edges.len();
    let mut k: usize = 0;
    while k < m
        invariant
            k <= m,
            edges@ == ctx.rate_graph.edges@.take(k as int),
        decreases m - k,
    {
        let e = ctx.rate_graph.edges[k];
        edges.push(e);
        proof {
            assert(edges@ =~= ctx.rate_graph.edges@.take(k + 1));
        }
        k = k + 1;
    }
    proof {
        assert(vars@ =~= ctx.variables@);
        assert(edges@ =~= ctx.rate_graph.edges@);
    }
    EvalContext { variables: vars, rate_graph: RateGraph { edges } }
}

/// A unit's running total extended by an amount: the first entry of the
/// unit is raised (kept unchanged when the sum is unrepresentable), a new
/// unit is appended.
pub open spec fn spec_unit_add(totals: Seq<(Unit, Dec)>, unit: Unit, amount: Dec) -> Seq<
    (Unit, Dec),
>
    decreases totals.len(),
{
    if totals.len() == 0 {
        seq![(unit, amount)]
    } else if totals[0].0 == unit {
        match crate::decimal::s_add(totals[0].1, amount) {
            Some(x) => seq![(unit, x)] + totals.drop_first(),
            None => totals,
        }
    } else {
        seq![totals[0]] + spec_unit_add(totals.drop_first(), unit, amount)
    }
}

/// The last-seen unit of a family replaced or recorded.
pub open spec fn spec_last_set(last: Seq<(UnitType, Unit)>, unit: Unit) -> Seq<(UnitType, Unit)>
    decreases last.len(),
{
    if last.len() == 0 {
        seq![(unit.spec_unit_type(), unit)]
    } else if last[0].0.spec_rank() == unit.spec_unit_type().spec_rank() {
        seq![(unit.spec_unit_type(), unit)] + last.drop_first()
    } else {
        seq![last[0]] + spec_last_set(last.drop_first(), unit)
    }
}

/// The views of the compound totals.
pub open spec fn comp_view(s: Seq<(CompoundUnit, Dec)>) -> Seq<(crate::unit::CompoundUnitV, Dec)> {
    Seq::new(s.len(), |i: int| (s[i].0@, s[i].1))
}

/// A compound total extended by an amount: the first entry of the same
/// dimension vector takes the newer unit, its old total converted into it
/// (kept raw when unconvertible) and the amount added (total kept when the
/// sum is unrepresentable); a new dimension vector is appended.
pub open spec fn spec_comp_add(
    acc: Seq<(crate::unit::CompoundUnitV, Dec)>,
    unit: crate::unit::CompoundUnitV,
    amount: Dec,
) -> Seq<(crate::unit::CompoundUnitV, Dec)>
    decreases acc.len(),
{
    if acc.len() == 0 {
        seq![(unit, amount)]
    } else if acc[0].0.dimensions == unit.dimensions {
        let converted = match crate::unit::spec_convert_v(acc[0].1, acc[0].0, unit) {
            Some(x) => x,
            None => acc[0].1,
        };
        let new_total = match crate::decimal::s_add(converted, amount) {
            Some(x) => x,
            None => converted,
        };
        seq![(unit, new_total)] + acc.drop_first()
    } else {
        seq![acc[0]] + spec_comp_add(acc.drop_first(), unit, amount)
    }
}

proof fn lemma_unit_add_found(totals: Seq<(Unit, Dec)>, unit: Unit, amount: Dec, k: int)
    requires
        0 <= k < totals.len(),
        totals[k].0 == unit,
        forall|j: int| 0 <= j < k ==> (#[trigger] totals[j]).0 != unit,
    ensures
        spec_unit_add(totals, unit, amount) =~= (match crate::decimal::s_add(
            totals[k].1,
            amount,
        ) {
            Some(x) => totals.update(k, (unit, x)),
            None => totals,
        }),
    decreases k,
{
    if k == 0 {
    } else {
        assert(totals.drop_first()[k - 1] == totals[k]);
        assert(forall|j: int| 0 <= j < k - 1 ==> (#[trigger] totals.drop_first()[j]).0 != unit);
        lemma_unit_add_found(totals.drop_first(), unit, amount, k - 1);
        match crate::decimal::s_add(totals[k].1, amount) {
            Some(x) => {
                assert(seq![totals[0]] + totals.drop_first().update(k - 1, (unit, x))
                    =~= totals.update(k, (unit, x)));
            }
            None => {
                assert(seq![totals[0]] + totals.drop_first() =~= totals);
            }
        }
    }
}

proof fn lemma_unit_add_missing(totals: Seq<(Unit, Dec)>, unit: Unit, amount: Dec)
    requires
        forall|j: int| 0 <= j < totals.len() ==> (#[trigger] totals[j]).0 != unit,
    ensures
        spec_unit_add(totals, unit, amount) =~= totals.push((unit, amount)),
    decreases totals.len(),
{
    if totals.len() > 0 {
        lemma_unit_add_missing(totals.drop_first(), unit, amount);
        assert(seq![totals[0]] + totals.drop_first().push((unit, amount)) =~= totals.push(
            (unit, amount),
        ));
    }
}

proof fn lemma_last_set_found(last: Seq<(UnitType, Unit)>, unit: Unit, k: int)
    requires
        0 <= k < last.len(),
        last[k].0.spec_rank() == unit.spec_unit_type().spec_rank(),
        forall|j: int|
            0 <= j < k ==> (#[trigger] last[j]).0.spec_rank() != unit.spec_unit_type().spec_rank(),
    ensures
        spec_last_set(last, unit) =~= last.update(k, (unit.spec_unit_type(), unit)),
    decreases k,
{
    if k == 0 {
    } else {
        assert(last.drop_first()[k - 1] == last[k]);
        assert(forall|j: int|
            0 <= j < k - 1 ==> (#[trigger] last.drop_first()[j]).0.spec_rank()
                != unit.spec_unit_type().spec_rank());
        lemma_last_set_found(last.drop_first(), unit, k - 1);
        assert(seq![last[0]] + last.drop_first().update(k - 1, (unit.spec_unit_type(), unit))
            =~= last.update(k, (unit.spec_unit_type(), unit)));
    }
}

proof fn lemma_last_set_missing(last: Seq<(UnitType, Unit)>, unit: Unit)
    requires
        forall|j: int|
            0 <= j < last.len() ==> (#[trigger] last[j]).0.spec_rank()
                != unit.spec_unit_type().spec_rank(),
    ensures
        spec_last_set(last, unit) =~= last.push((unit.spec_unit_type(), unit)),
    decreases last.len(),
{
    if last.len() > 0 {
        lemma_last_set_missing(last.drop_first(), unit);
        assert(seq![last[0]] + last.drop_first().push((unit.spec_unit_type(), unit)) =~= last.push(
            (unit.spec_unit_type(), unit),
        ));
    }
}

proof fn lemma_comp_add_found(
    acc: Seq<(crate::unit::CompoundUnitV, Dec)>,
    unit: crate::unit::CompoundUnitV,
    amount: Dec,
    k: int,
)
    requires
        0 <= k < acc.len(),
        acc[k].0.dimensions == unit.dimensions,
        forall|j: int| 0 <= j < k ==> (#[trigger] acc[j]).0.dimensions != unit.dimensions,
    ensures
        spec_comp_add(acc, unit, amount) =~= acc.update(
            k,
            (
                unit,
                ({
                    let converted = match crate::unit::spec_convert_v(acc[k].1, acc[k].0, unit) {
                        Some(x) => x,
                        None => acc[k].1,
                    };
                    match crate::decimal::s_add(converted, amount) {
                        Some(x) => x,
                        None => converted,
                    }
                }),
            ),
        ),
    decreases k,
{
    if k == 0 {
    } else {
        assert(acc.drop_first()[k - 1] == acc[k]);
        assert(forall|j: int|
            0 <= j < k - 1 ==> (#[trigger] acc.drop_first()[j]).0.dimensions != unit.dimensions);
        lemma_comp_add_found(acc.drop_first(), unit, amount, k - 1);
        let v = ({
            let converted = match crate::unit::spec_convert_v(acc[k].1, acc[k].0, unit) {
                Some(x) => x,
                None => acc[k].1,
            };
            match crate::decimal::s_add(converted, amount) {
                Some(x) => x,
                None => converted,
            }
        });
        assert(seq![acc[0]] + acc.drop_first().update(k - 1, (unit, v)) =~= acc.update(
            k,
            (unit, v),
        ));
    }
}

proof fn lemma_comp_add_missing(
    acc: Seq<(crate::unit::CompoundUnitV, Dec)>,
    unit: crate::unit::CompoundUnitV,
    amount: Dec,
)
    requires
        forall|j: int| 0 <= j < acc.len() ==> (#[trigger] acc[j]).0.dimensions != unit.dimensions,
    ensures
        spec_comp_add(acc, unit, amount) =~= acc.push((unit, amount)),
    decreases acc.len(),
{
    if acc.len() > 0 {
        lemma_comp_add_missing(acc.drop_first(), unit, amount);
        assert(seq![acc[0]] + acc.drop_first().push((unit, amount)) =~= acc.push((unit, amount)));
    }
}

/// Add an amount to a unit's running total, inserting the unit on first
/// sight.
#[verifier::loop_isolation(false)]
fn add_unit_total(totals: &mut Vec<(Unit, Dec)>, unit: Unit, amount: Dec)
    requires
        amount.wf(),
        forall|i: int| 0 <= i < old(totals)@.len() ==> (#[trigger] old(totals)@[i]).1.wf(),
    ensures
        forall|i: int| 0 <= i < final (totals)@.len() ==> (#[trigger] final (totals)@[i]).1.wf(),
        final (totals)@ == spec_unit_add(old(totals)@, unit, amount),
{
    let n = totals.len();
    let mut i: usize = 0;
    while i < n
        invariant
            i <= n,
            n == totals@.len(),
            totals == old(totals),
            amount.wf(),
            forall|j: int| 0 <= j < totals@.len() ==> (#[trigger] totals@[j]).1.wf(),
            forall|j: int| 0 <= j < i ==> (#[trigger] totals@[j]).0 != unit,
        decreases n - i,
    {
        if totals[i].0 == unit {
            proof {
                assert(totals@[i as int].1.wf());
                lemma_unit_add_found(totals@, unit, amount, i as int);
            }
            let cur = totals[i].1;
            match dec_add(&cur, &amount) {
                Some(x) => {
                    totals.set(i, (unit, x));
                }
                None => {}
            }
            proof {
                assert forall|j: int| 0 <= j < totals@.len() implies (#[trigger] totals@[j]).1.wf() by {
                }
            }
            return ;
        }
        i = i + 1;
    }
    let ghost t0 = totals@;
    totals.push((unit, amount));
    proof {
        lemma_unit_add_missing(t0, unit, amount);
        assert forall|j: int| 0 <= j < totals@.len() implies (#[trigger] totals@[j]).1.wf() by {
            if j < t0.len() {
                assert(totals@[j] == t0[j]);
            }
        }
    }
}

/// Remember the last unit seen for its family.
#[verifier::loop_isolation(false)]
fn set_last_unit(last: &mut Vec<(UnitType, Unit)>, unit: Unit)
    ensures
        final (last)@ == spec_last_set(old(last)@, unit),
{
    let family = unit.unit_type();
    let n = last.len();
    let mut i: usize = 0;
    while i < n
        invariant
            i <= n,
            n == last@.len(),
            last@ == old(last)@,
            family == unit.spec_unit_type(),
            forall|j: int|
                0 <= j < i ==> (#[trigger] last@[j]).0.spec_rank()
                    != unit.spec_unit_type().spec_rank(),
        decreases n - i,
    {
        if last[i].0.rank() == family.rank() {
            proof {
                lemma_last_set_found(last@, unit, i as int);
            }
            last.set(i, (family, unit));
            return ;
        }
        i = i + 1;
    }
    proof {
        lemma_last_set_missing(last@, unit);
    }
    last.push((family, unit));
}

/// Add an amount to a compound-unit total, converting into the last unit
/// seen for the dimension vector (the stored unit is replaced by the newer
/// one and the old total converted into it; an unconvertible amount is
/// added raw).
#[verifier::loop_isolation(false)]
fn add_compound_total(totals: &mut Vec<(CompoundUnit, Dec)>, unit: &CompoundUnit, amount: Dec)
    requires
        amount.wf(),
        unit.wf(),
        forall|i: int| 0 <= i < old(totals)@.len() ==> (#[trigger] old(totals)@[i]).1.wf() && (
        #[trigger] old(totals)@[i]).0.wf(),
    ensures
        forall|i: int| 0 <= i < final (totals)@.len() ==> (#[trigger] final (totals)@[i]).1.wf()
            && (#[trigger] final (totals)@[i]).0.wf(),
        comp_view(final (totals)@) == spec_comp_add(comp_view(old(totals)@), unit@, amount),
{
    let n = totals.len();
    let mut i: usize = 0;
    while i < n
        invariant
            i <= n,
            n == totals@.len(),
            totals == old(totals),
            amount.wf(),
            unit.wf(),
            forall|j: int| 0 <= j < totals@.len() ==> (#[trigger] totals@[j]).1.wf() && (
            #[trigger] totals@[j]).0.wf(),
            forall|j: int|
                0 <= j < i ==> (#[trigger] comp_view(totals@)[j]).0.dimensions
                    != unit@.dimensions,
        decreases n - i,
    {
        let same_dims = totals[i].0.dimensions == unit.dimensions;
        if same_dims {
            proof {
                assert(totals@[i as int].1.wf());
                assert(totals@[i as int].0.wf());
            }
            let old_total = totals[i].1;
            let old_unit = &totals[i].0;
            // convert the old total into the newer unit
            let converted_old: Dec = match crate::unit::convert(&old_total, old_unit, unit) {
                Some(x) => x,
                None => old_total,
            };
            let new_total: Dec = match dec_add(&converted_old, &amount) {
                Some(x) => x,
                None => converted_old,
            };
            let ghost cv0 = comp_view(totals@);
            proof {
                assert(cv0[i as int] == (totals@[i as int].0@, totals@[i as int].1));
                lemma_comp_add_found(cv0, unit@, amount, i as int);
            }
            totals.set(i, (unit.duplicate(), new_total));
            proof {
                assert forall|j: int|
                    0 <= j < totals@.len() implies (#[trigger] totals@[j]).1.wf() && (
                #[trigger] totals@[j]).0.wf() by {
                }
                assert(comp_view(totals@) =~= cv0.update(i as int, (unit@, new_total)));
            }
            return ;
        }
        i = i + 1;
    }
    let ghost t0 = totals@;
    let ghost cv0 = comp_view(totals@);
    totals.push((unit.duplicate(), amount));
    proof {
        lemma_comp_add_missing(cv0, unit@, amount);
        assert forall|j: int|
            0 <= j < totals@.len() implies (#[trigger] totals@[j]).1.wf() && (
        #[trigger] totals@[j]).0.wf() by {
            if j < t0.len() {
                assert(totals@[j] == t0[j]);
            }
        }
        assert(comp_view(totals@) =~= cv0.push((unit@, amount)));
    }
}

/// Law: the session sum never counts a line consumed by a continuation.
/// Two histories that agree on which lines are consumed and on the values
/// of the lines that are not have the same sum, whatever values the
/// consumed lines hold.
pub proof fn lemma_sum_skips_consumed(a: Seq<LineResult>, b: Seq<LineResult>, i: int, acc: Dec)
    requires
        a.len() == b.len(),
        forall|j: int|
            0 <= j < a.len() ==> (#[trigger] a[j]).is_continuation_source
                == b[j].is_continuation_source,
        forall|j: int|
            0 <= j < a.len() && !(#[trigger] a[j]).is_continuation_source ==> a[j].value
                == b[j].value,
    ensures
        spec_sum_lines(a, i, acc) == spec_sum_lines(b, i, acc),
    decreases a.len() - i,
{
    if i < 0 || i >= a.len() {
    } else if !a[i].is_continuation_source && a[i].value.spec_as_decimal() is Some {
        match crate::decimal::s_add(acc, a[i].value.spec_as_decimal().unwrap()) {
            Some(x) => {
                lemma_sum_skips_consumed(a, b, i + 1, x);
            }
            None => {
            }
        }
    } else {
        lemma_sum_skips_consumed(a, b, i + 1, acc);
    }
}

} // verus!
