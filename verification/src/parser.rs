//! The tolerant line parser.
//!
//! A line is tokenized into numbers (group separators stripped), words and
//! symbol characters, and parsed into an [`Ast`]: an assignment, an
//! expression, or nothing (an empty line or comment).  Operator precedence,
//! tightest first: `^` (right-associative), then `*` and `/`, then `+`, `-`
//! and the `in`/`to` conversion pseudo-operator at one level, left to right.
//! If the full line does not parse, every non-empty character suffix is
//! tried left to right and the first that parses wins, so prose prefixes are
//! silently discarded; a parse that reduces to a bare variable followed by
//! trailing prose is rejected so that the retry can find a better suffix.

use vstd::prelude::*;

verus! {

use crate::currency::Currency;
use crate::decimal::{Dec, parse_dec_chars, dec_div, s_div};

use crate::text::{str_chars, lower_chars, chars_eq_str, char_is_alphabetic,
    char_is_alphanumeric};
use crate::unit::{CompoundUnit, Unit, parse_unit_chars};

/// A binary operator (conversion is a pseudo-operator at the additive
/// precedence level).
#[derive(Clone, Copy, Debug, PartialEq, Eq, Structural)]
pub enum BinaryOp {
    Add,
    Subtract,
    Multiply,
    Divide,
    Power,
    Conversion,
}

/// An expression node.
#[derive(Debug)]
pub enum Expr {
    /// A numeric literal.
    Number(Dec),
    /// A percentage literal, stored as a fraction (20% is 0.20).
    Percentage(Dec),
    /// A currency amount literal.
    Currency { amount: Dec, currency: Currency },
    /// An amount with a simple unit.
    WithUnit { amount: Dec, unit: Unit },
    /// An amount with a compound unit (`50 kph`, `100 m2`).
    WithCompoundUnit { amount: Dec, unit: CompoundUnit },
    /// A variable reference.
    Variable(String),
    /// A binary operation.
    BinaryOp { op: BinaryOp, left: Box<Expr>, right: Box<Expr> },
    /// `P% of VALUE`.
    PercentageOf { percentage: Dec, value: Box<Expr> },
    /// A conversion: `VALUE in NAME` or `VALUE to NAME`.
    Conversion { value: Box<Expr>, target_unit: String },
    /// A function call: `sum(...)`, `avg(...)`.
    FunctionCall { name: String, args: Vec<Expr> },
}

/// A line of input.
#[derive(Debug)]
pub enum Ast {
    /// An empty line or comment.
    Empty,
    /// `name = expr`.
    Assignment { name: String, expr: Box<Expr> },
    /// A bare expression.
    Expression(Expr),
}

/// An expression at the specification level: strings as character
/// sequences, argument lists as sequences.
pub enum ExprV {
    Number(Dec),
    Percentage(Dec),
    Currency { amount: Dec, currency: Currency },
    WithUnit { amount: Dec, unit: Unit },
    WithCompoundUnit { amount: Dec, unit: crate::unit::CompoundUnitV },
    Variable(Seq<char>),
    BinaryOp { op: BinaryOp, left: Box<ExprV>, right: Box<ExprV> },
    PercentageOf { percentage: Dec, value: Box<ExprV> },
    Conversion { value: Box<ExprV>, target_unit: Seq<char> },
    FunctionCall { name: Seq<char>, args: Seq<ExprV> },
}

/// The specification-level forms of an argument list, from index `i` on.
pub open spec fn args_view(s: Seq<Expr>, i: int) -> Seq<ExprV>
    decreases s, s.len() - i,
{
    if i < 0 || i >= s.len() {
        Seq::empty()
    } else {
        seq![expr_view(s[i])] + args_view(s, i + 1)
    }
}

/// The argument views line up with the arguments.
pub proof fn lemma_args_view_from(s: Seq<Expr>, i: int)
    requires
        0 <= i <= s.len(),
    ensures
        args_view(s, i).len() == s.len() - i,
        forall|k: int| i <= k < s.len() ==> args_view(s, i)[k - i] == expr_view(s[k]),
    decreases s.len() - i,
{
    if i < s.len() {
        lemma_args_view_from(s, i + 1);
        assert forall|k: int| i <= k < s.len() implies args_view(s, i)[k - i] == expr_view(
            s[k],
        ) by {
            if k == i {
            } else {
                assert(args_view(s, i)[k - i] == args_view(s, i + 1)[k - i - 1]);
            }
        }
    }
}

/// Appending an argument appends its view.
pub proof fn lemma_args_view_push(s: Seq<Expr>, a: Expr)
    ensures
        args_view(s.push(a), 0) =~= args_view(s, 0).push(expr_view(a)),
{
    lemma_args_view_from(s, 0);
    lemma_args_view_from(s.push(a), 0);
    assert forall|k: int| 0 <= k < s.len() + 1 implies args_view(s.push(a), 0)[k] == args_view(
        s,
        0,
    ).push(expr_view(a))[k] by {
        if k < s.len() {
            assert(s.push(a)[k] == s[k]);
            assert(args_view(s.push(a), 0)[k] == expr_view(s.push(a)[k]));
        } else {
            assert(s.push(a)[k] == a);
            assert(args_view(s.push(a), 0)[k] == expr_view(a));
        }
    }
}

/// The specification-level form of an expression.
pub open spec fn expr_view(e: Expr) -> ExprV
    decreases e, 0int,
{
    match e {
        Expr::Number(n) => ExprV::Number(n),
        Expr::Percentage(p) => ExprV::Percentage(p),
        Expr::Currency { amount, currency } => ExprV::Currency { amount, currency },
        Expr::WithUnit { amount, unit } => ExprV::WithUnit { amount, unit },
        Expr::WithCompoundUnit { amount, unit } => ExprV::WithCompoundUnit {
            amount,
            unit: unit@,
        },
        Expr::Variable(name) => ExprV::Variable(name@),
        Expr::BinaryOp { op, left, right } => ExprV::BinaryOp {
            op,
            left: Box::new(expr_view(*left)),
            right: Box::new(expr_view(*right)),
        },
        Expr::PercentageOf { percentage, value } => ExprV::PercentageOf {
            percentage,
            value: Box::new(expr_view(*value)),
        },
        Expr::Conversion { value, target_unit } => ExprV::Conversion {
            value: Box::new(expr_view(*value)),
            target_unit: target_unit@,
        },
        Expr::FunctionCall { name, args } => ExprV::FunctionCall {
            name: name@,
            args: args_view(args@, 0),
        },
    }
}

impl View for Expr {
    type V = ExprV;

    open spec fn view(&self) -> ExprV {
        expr_view(*self)
    }
}

/// A line at the specification level.
pub enum AstV {
    Empty,
    Assignment { name: Seq<char>, expr: ExprV },
    Expression(ExprV),
}

impl View for Ast {
    type V = AstV;

    open spec fn view(&self) -> AstV {
        match self {
            Ast::Empty => AstV::Empty,
            Ast::Assignment { name, expr } => AstV::Assignment {
                name: name@,
                expr: expr_view(**expr),
            },
            Ast::Expression(e) => AstV::Expression(expr_view(*e)),
        }
    }
}

impl ExprV {
    /// Every decimal inside is well-formed.
    pub open spec fn wf(self) -> bool
        decreases self,
    {
        match self {
            ExprV::Number(n) => n.wf(),
            ExprV::Percentage(p) => p.wf(),
            ExprV::Currency { amount, .. } => amount.wf(),
            ExprV::WithUnit { amount, .. } => amount.wf(),
            ExprV::WithCompoundUnit { amount, unit } => amount.wf() && unit.wf(),
            ExprV::Variable(_) => true,
            ExprV::BinaryOp { left, right, .. } => left.wf() && right.wf(),
            ExprV::PercentageOf { percentage, value } => percentage.wf() && value.wf(),
            ExprV::Conversion { value, .. } => value.wf(),
            ExprV::FunctionCall { args, .. } => forall|i: int|
                0 <= i < args.len() ==> (#[trigger] args[i]).wf(),
        }
    }
}

impl Expr {
    /// Every decimal inside is well-formed.
    pub open spec fn wf(self) -> bool
        decreases self,
    {
        match self {
            Expr::Number(n) => n.wf(),
            Expr::Percentage(p) => p.wf(),
            Expr::Currency { amount, .. } => amount.wf(),
            Expr::WithUnit { amount, .. } => amount.wf(),
            Expr::WithCompoundUnit { amount, unit } => amount.wf() && unit.wf(),
            Expr::Variable(_) => true,
            Expr::BinaryOp { left, right, .. } => left.wf() && right.wf(),
            Expr::PercentageOf { percentage, value } => percentage.wf() && value.wf(),
            Expr::Conversion { value, .. } => value.wf(),
            Expr::FunctionCall { args, .. } => forall|i: int|
                0 <= i < args@.len() ==> (#[trigger] args@[i]).wf(),
        }
    }
}

impl Ast {
    /// Every decimal inside is well-formed.
    pub open spec fn wf(self) -> bool {
        match self {
            Ast::Empty => true,
            Ast::Assignment { expr, .. } => expr.wf(),
            Ast::Expression(e) => e.wf(),
        }
    }
}

/// One token of a line.
#[derive(Clone, Debug)]
pub enum Tok {
    /// A numeric literal, group separators stripped.
    Num(Dec),
    /// A word: identifier, unit or currency name, keyword.
    Ident(Vec<char>),
    /// A single symbol character.
    Sym(char),
}

impl Tok {
    /// A numeric token carries a well-formed decimal.
    pub open spec fn wf(self) -> bool {
        match self {
            Tok::Num(d) => d.wf(),
            _ => true,
        }
    }
}

/// Every token is well-formed.
pub open spec fn toks_wf(s: Seq<Tok>) -> bool {
    forall|i: int| 0 <= i < s.len() ==> (#[trigger] s[i]).wf()
}

/// A token at the specification level.
pub enum TokV {
    Num(Dec),
    Ident(Seq<char>),
    Sym(char),
}

impl View for Tok {
    type V = TokV;

    open spec fn view(&self) -> TokV {
        match self {
            Tok::Num(d) => TokV::Num(*d),
            Tok::Ident(w) => TokV::Ident(w@),
            Tok::Sym(c) => TokV::Sym(*c),
        }
    }
}

/// The views of a token stream.
pub open spec fn toks_view(s: Seq<Tok>) -> Seq<TokV> {
    Seq::new(s.len(), |i: int| s[i]@)
}

/// An ASCII digit.
pub open spec fn sp_digit(c: char) -> bool {
    '0' <= c && c <= '9'
}

/// True iff a `-` here starts a number: at the start of the token stream or
/// right after an operator, an opening parenthesis, a comma or `=`.
pub open spec fn spec_minus_starts_number(toks: Seq<TokV>) -> bool {
    if toks.len() == 0 {
        true
    } else {
        match toks.last() {
            TokV::Sym(c) => c == '+' || c == '-' || c == '*' || c == '/' || c == '^' || c == '('
                || c == ',' || c == '=',
            _ => false,
        }
    }
}

/// The continuation of a number literal from position `i`: digits and
/// points collected, `,` group separators and spaces before exactly three
/// digits skipped; yields the collected characters and the end position.
pub open spec fn spec_scan_number(s: Seq<char>, i: int) -> (Seq<char>, int)
    decreases s.len() - i,
{
    if i < 0 || i >= s.len() {
        (Seq::empty(), i)
    } else {
        let d = s[i];
        if sp_digit(d) || d == '.' {
            let rest = spec_scan_number(s, i + 1);
            (seq![d] + rest.0, rest.1)
        } else if d == ',' && i + 1 < s.len() && sp_digit(s[i + 1]) {
            spec_scan_number(s, i + 1)
        } else if d == ' ' && s.len() - i > 3 && sp_digit(s[i + 1]) && sp_digit(s[i + 2])
            && sp_digit(s[i + 3]) && (s.len() - i <= 4 || !sp_digit(s[i + 4])) {
            spec_scan_number(s, i + 1)
        } else {
            (Seq::empty(), i)
        }
    }
}

/// The continuation of a word from position `i`: letters, digits and
/// underscores collected; yields the collected characters and the end
/// position.
pub open spec fn spec_scan_word(s: Seq<char>, i: int) -> (Seq<char>, int)
    decreases s.len() - i,
{
    if i < 0 || i >= s.len() {
        (Seq::empty(), i)
    } else {
        let d = s[i];
        if d == '_' || crate::text::alphanumeric_of(d) {
            let rest = spec_scan_word(s, i + 1);
            (seq![d] + rest.0, rest.1)
        } else {
            (Seq::empty(), i)
        }
    }
}

/// The first currency in registry order whose display symbol is exactly
/// this one character.
#[verifier::opaque]
pub open spec fn spec_currency_of_symbol(c: char, i: int) -> Option<Currency>
    decreases crate::currency::spec_table().len() - i,
{
    if i < 0 || i >= crate::currency::spec_table().len() {
        None
    } else {
        let cur = crate::currency::spec_table()[i];
        if crate::currency::spec_def(cur).symbol == seq![c] {
            Some(cur)
        } else {
            spec_currency_of_symbol(c, i + 1)
        }
    }
}

/// The token stream of a line, or nothing when a numeric literal is
/// malformed.
pub open spec fn spec_tokenize(s: Seq<char>, i: int, toks: Seq<TokV>) -> Option<Seq<TokV>>
    decreases s.len() - i,
{
    if i < 0 || i >= s.len() {
        Some(toks)
    } else {
        let c = s[i];
        if c == ' ' || c == '\t' {
            spec_tokenize(s, i + 1, toks)
        } else if sp_digit(c) || (c == '-' && i + 1 < s.len() && sp_digit(s[i + 1])
            && spec_minus_starts_number(toks)) {
            let scan = spec_scan_number(s, i + 1);
            let lit = seq![c] + scan.0;
            if scan.1 <= i || scan.1 > s.len() {
                None
            } else {
                match crate::decimal::spec_parse_dec(lit) {
                    Some(d) => spec_tokenize(s, scan.1, toks.push(TokV::Num(d))),
                    None => None,
                }
            }
        } else if spec_currency_of_symbol(c, 0) is Some {
            spec_tokenize(s, i + 1, toks.push(TokV::Sym(c)))
        } else if c == '_' || crate::text::alphabetic_of(c) {
            let scan = spec_scan_word(s, i + 1);
            if scan.1 <= i || scan.1 > s.len() {
                None
            } else {
                spec_tokenize(s, scan.1, toks.push(TokV::Ident(seq![c] + scan.0)))
            }
        } else if c == '×' {
            spec_tokenize(s, i + 1, toks.push(TokV::Sym('*')))
        } else if c == '÷' {
            spec_tokenize(s, i + 1, toks.push(TokV::Sym('/')))
        } else {
            spec_tokenize(s, i + 1, toks.push(TokV::Sym(c)))
        }
    }
}

proof fn lemma_scan_number_bounds(s: Seq<char>, i: int)
    requires
        0 <= i <= s.len(),
    ensures
        i <= spec_scan_number(s, i).1 <= s.len(),
    decreases s.len() - i,
{
    if i < s.len() {
        lemma_scan_number_bounds(s, i + 1);
    }
}

proof fn lemma_scan_word_bounds(s: Seq<char>, i: int)
    requires
        0 <= i <= s.len(),
    ensures
        i <= spec_scan_word(s, i).1 <= s.len(),
    decreases s.len() - i,
{
    if i < s.len() {
        lemma_scan_word_bounds(s, i + 1);
    }
}

/// How a failed parse is treated: a hard failure names a malformed literal
/// and stops the line; a soft failure lets the fuzzy retry look further.
pub enum ParseFail {
    Hard(String),
    Soft,
}

fn is_digit_char(c: char) -> (r: bool)
    ensures
        r == ('0' <= c && c <= '9'),
{
    '0' <= c && c <= '9'
}

fn is_word_char(c: char) -> (r: bool)
    ensures
        r == (c == '_' || crate::text::alphanumeric_of(c)),
{
    c == '_' || char_is_alphanumeric(c)
}

fn is_word_start(c: char) -> (r: bool)
    ensures
        r == (c == '_' || crate::text::alphabetic_of(c)),
{
    c == '_' || char_is_alphabetic(c)
}

/// True iff a `-` here starts a number: at the start of the token stream or
/// right after an operator, an opening parenthesis, a comma or `=`.
fn minus_starts_number(toks: &Vec<Tok>) -> (r: bool)
    ensures
        r == spec_minus_starts_number(toks_view(toks@)),
{
    if toks.len() == 0 {
        return true;
    }
    proof {
        assert(toks_view(toks@).last() == toks@.last()@);
    }
    match &toks[toks.len() - 1] {
        Tok::Sym(c) => *c == '+' || *c == '-' || *c == '*' || *c == '/' || *c == '^' || *c == '('
            || *c == ',' || *c == '=',
        _ => false,
    }
}

fn push_tok(toks: &mut Vec<Tok>, t: Tok)
    requires
        toks_wf(old(toks)@),
        t.wf(),
    ensures
        final (toks)@ == old(toks)@.push(t),
        toks_wf(final (toks)@),
        toks_view(final (toks)@) == toks_view(old(toks)@).push(t@),
{
    let ghost t0 = toks@;
    toks.push(t);
    proof {
        assert forall|k: int| 0 <= k < toks@.len() implies (#[trigger] toks@[k]).wf() by {
            if k < t0.len() {
                assert(toks@[k] == t0[k]);
                assert(t0[k].wf());
            } else {
                assert(toks@[k] == t);
            }
        }
        assert forall|k: int| 0 <= k < toks_view(toks@).len() implies toks_view(toks@)[k]
            == toks_view(t0).push(t@)[k] by {
            if k < t0.len() {
                assert(toks@[k] == t0[k]);
            } else {
                assert(toks@[k] == t);
            }
        }
        assert(toks_view(toks@) =~= toks_view(t0).push(t@));
    }
}

fn mk_sym(c: char) -> (t: Tok)
    ensures
        t == Tok::Sym(c),
        t@ == TokV::Sym(c),
        t.wf(),
{
    Tok::Sym(c)
}


fn push_sym_owned(toks: Vec<Tok>, c: char) -> (r: Vec<Tok>)
    requires
        toks_wf(toks@),
    ensures
        toks_wf(r@),
        toks_view(r@) == toks_view(toks@).push(TokV::Sym(c)),
{
    let mut out = toks;
    let t = mk_sym(c);
    push_tok(&mut out, t);
    out
}

/// Collect the continuation of a number literal from `j`.
#[verifier::loop_isolation(false)]
fn scan_number_exec(v: &[char], j: usize, first: char) -> (r: (Vec<char>, usize))
    requires
        j <= v@.len(),
    ensures
        r.0@ == seq![first] + spec_scan_number(v@, j as int).0,
        r.1 == spec_scan_number(v@, j as int).1,
        j <= r.1 <= v@.len(),
{
    let n = v.len();
    let ghost j0 = j as int;
    let mut buf: Vec<char> = Vec::new();
    buf.push(first);
    let mut i = j;
    proof {
        lemma_scan_number_bounds(v@, j0);
        assert(buf@ =~= seq![first]);
    }
    while i < n
        invariant
            j0 <= i <= n,
            n == v@.len(),
            buf@ + spec_scan_number(v@, i as int).0 =~= seq![first] + spec_scan_number(v@, j0).0,
            spec_scan_number(v@, i as int).1 == spec_scan_number(v@, j0).1,
        decreases n - i,
    {
        let d = v[i];
        if is_digit_char(d) || d == '.' {
            buf.push(d);
            proof {
                assert(buf@ + spec_scan_number(v@, i + 1).0 =~= buf@.drop_last() + (seq![d]
                    + spec_scan_number(v@, i + 1).0));
            }
            i = i + 1;
        } else if d == ',' && i + 1 < n && is_digit_char(v[i + 1]) {
            i = i + 1;
        } else if d == ' ' && n - i > 3 && is_digit_char(v[i + 1]) && is_digit_char(v[i + 2])
            && is_digit_char(v[i + 3]) && (n - i <= 4 || !is_digit_char(v[i + 4])) {
            i = i + 1;
        } else {
            break ;
        }
    }
    proof {
        assert(spec_scan_number(v@, i as int) == (Seq::<char>::empty(), i as int));
        assert(buf@ + Seq::<char>::empty() =~= buf@);
    }
    (buf, i)
}

/// Collect the continuation of a word from `j`.
#[verifier::loop_isolation(false)]
fn scan_word_exec(v: &[char], j: usize, first: char) -> (r: (Vec<char>, usize))
    requires
        j <= v@.len(),
    ensures
        r.0@ == seq![first] + spec_scan_word(v@, j as int).0,
        r.1 == spec_scan_word(v@, j as int).1,
        j <= r.1 <= v@.len(),
{
    let n = v.len();
    let ghost j0 = j as int;
    let mut buf: Vec<char> = Vec::new();
    buf.push(first);
    let mut i = j;
    proof {
        lemma_scan_word_bounds(v@, j0);
        assert(buf@ =~= seq![first]);
    }
    while i < n
        invariant
            j0 <= i <= n,
            n == v@.len(),
            buf@ + spec_scan_word(v@, i as int).0 =~= seq![first] + spec_scan_word(v@, j0).0,
            spec_scan_word(v@, i as int).1 == spec_scan_word(v@, j0).1,
        decreases n - i,
    {
        let d = v[i];
        if is_word_char(d) {
            buf.push(d);
            proof {
                assert(buf@ + spec_scan_word(v@, i + 1).0 =~= buf@.drop_last() + (seq![d]
                    + spec_scan_word(v@, i + 1).0));
            }
            i = i + 1;
        } else {
            break ;
        }
    }
    proof {
        assert(spec_scan_word(v@, i as int) == (Seq::<char>::empty(), i as int));
        assert(buf@ + Seq::<char>::empty() =~= buf@);
    }
    (buf, i)
}

/// One tokenizer step at position `i`: consumes at least one character and
/// extends the tokens, or reports the malformed numeric literal.
#[verifier::rlimit(100)]
fn tok_step(v: &[char], i: usize, toks: Vec<Tok>) -> (res: Result<(usize, Vec<Tok>), String>)
    requires
        toks_wf(toks@),
        i < v@.len(),
    ensures
        res matches Ok(p) ==> i < p.0 <= v@.len() && toks_wf(p.1@) && spec_tokenize(
            v@,
            i as int,
            toks_view(toks@),
        ) == spec_tokenize(v@, p.0 as int, toks_view(p.1@)),
        res matches Err(m) ==> spec_tokenize(v@, i as int, toks_view(toks@)) is None && m@
            == "Invalid number literal"@,
{
    let ghost ii = i as int;
    let ghost tv0 = toks_view(toks@);
    let n = v.len();
    let mut toks = toks;
    let c = v[i];
    let is_minus_number = c == '-' && i + 1 < n && is_digit_char(v[i + 1]) && minus_starts_number(
        &toks,
    );
    if c == ' ' || c == '\t' {
        Ok((i + 1, toks))
    } else if is_digit_char(c) || is_minus_number {
        let scan = scan_number_exec(v, i + 1, c);
        let buf = scan.0;
        let ni = scan.1;
        match parse_dec_chars(buf.as_slice()) {
            Some(d) => {
                push_tok(&mut toks, Tok::Num(d));
                proof {
                    assert(toks_view(toks@) =~= tv0.push(TokV::Num(d)));
                }
                Ok((ni, toks))
            }
            None => {
                let mut msg = String::new();
                msg.append("Invalid number literal");
                Err(msg)
            }
        }
    } else if currency_of_symbol(c).is_some() {
        // single-character currency symbols, some of which are letters
        let t = mk_sym(c);
        push_tok(&mut toks, t);
        proof {
            assert(toks_view(toks@) == tv0.push(t@));
            assert(t@ == TokV::Sym(c));
        }
        Ok((i + 1, toks))
    } else if is_word_start(c) {
        let scan = scan_word_exec(v, i + 1, c);
        let buf = scan.0;
        let ni = scan.1;
        proof {
            assert(buf@ =~= seq![c] + spec_scan_word(v@, ii + 1).0);
        }
        push_tok(&mut toks, Tok::Ident(buf));
        proof {
            assert(toks_view(toks@) =~= tv0.push(TokV::Ident(seq![c] + spec_scan_word(
                v@,
                ii + 1,
            ).0)));
        }
        Ok((ni, toks))
    } else if c == '×' {
        push_tok(&mut toks, Tok::Sym('*'));
        proof {
            assert(toks_view(toks@) =~= tv0.push(TokV::Sym('*')));
        }
        Ok((i + 1, toks))
    } else if c == '÷' {
        push_tok(&mut toks, Tok::Sym('/'));
        proof {
            assert(toks_view(toks@) =~= tv0.push(TokV::Sym('/')));
        }
        Ok((i + 1, toks))
    } else {
        let t = mk_sym(c);
        push_tok(&mut toks, t);
        proof {
            assert(toks_view(toks@) == tv0.push(t@));
            assert(t@ == TokV::Sym(c));
        }
        Ok((i + 1, toks))
    }
}

/// Tokenize a line: numbers may carry `,` group separators and spaces
/// before three-digit groups; words are letters, digits and underscores
/// starting with a letter or underscore; any other character is one symbol
/// token (`×` and `÷` read as `*` and `/`).  A malformed numeric literal is
/// a hard error.
#[verifier::loop_isolation(false)]
pub fn tokenize_line(v: &[char]) -> (r: Result<Vec<Tok>, String>)
    ensures
        r matches Ok(toks) ==> toks_wf(toks@) && spec_tokenize(v@, 0, Seq::empty())
            == Some(toks_view(toks@)),
        r matches Err(m) ==> spec_tokenize(v@, 0, Seq::empty()) is None && m@
            == "Invalid number literal"@,
{
    let n = v.len();
    let mut toks: Vec<Tok> = Vec::new();
    let mut i: usize = 0;
    proof {
        assert(toks_view(toks@) =~= Seq::<TokV>::empty());
    }
    while i < n
        invariant
            i <= n,
            n == v@.len(),
            toks_wf(toks@),
            spec_tokenize(v@, 0, Seq::empty()) == spec_tokenize(v@, i as int, toks_view(toks@)),
        decreases n - i,
    {
        match tok_step(v, i, toks) {
            Ok(p) => {
                i = p.0;
                toks = p.1;
            }
            Err(m) => {
                return Err(m);
            }
        }
    }
    Ok(toks)
}

/// True iff the word is the keyword, ASCII case folded.
fn word_is(w: &[char], kw: &str) -> (r: bool)
    ensures
        r == (crate::text::spec_lower(w@) == kw@),
{
    let l = lower_chars(w);
    chars_eq_str(l.as_slice(), kw)
}

fn dec_over_100(n: &Dec) -> (r: Option<Dec>)
    requires
        n.wf(),
    ensures
        r == s_div(*n, Dec { neg: false, mag: 100u128, scale: 0 }),
        r matches Some(d) ==> d.wf(),
{
    let hundred = Dec { neg: false, mag: 100, scale: 0 };
    dec_div(n, &hundred)
}

/// One token copied out of the stream.
enum TokView {
    Num(Dec),
    Ident(Vec<char>),
    Sym(char),
}

fn tok_at(toks: &Vec<Tok>, i: usize) -> (r: TokView)
    requires
        toks_wf(toks@),
        i < toks@.len(),
    ensures
        (match r {
            TokView::Num(n) => toks@[i as int] == Tok::Num(n) && n.wf(),
            TokView::Ident(w) => toks@[i as int] matches Tok::Ident(w0) && w0@ == w@,
            TokView::Sym(c) => toks@[i as int] == Tok::Sym(c),
        }),
{
    proof {
        assert(toks@[i as int].wf());
    }
    match &toks[i] {
        Tok::Num(n) => TokView::Num(*n),
        Tok::Ident(w) => TokView::Ident(crate::text::copy_chars(w)),
        Tok::Sym(c) => TokView::Sym(*c),
    }
}

/// Parse terms and operators at one level, then reduce by precedence:
/// `^` right to left, `*` and `/` left to right, then `+`, `-` and the
/// conversion pseudo-operator left to right.
#[verifier::loop_isolation(false)]
fn build_calculation(toks: &Vec<Tok>, i: &mut usize) -> (r: Result<Expr, ParseFail>)
    requires
        toks_wf(toks@),
        *old(i) <= toks@.len(),
    ensures
        *final (i) <= toks@.len(),
        *final (i) >= *old(i),
        pres_match(r, *final (i) as int, spec_build_calculation(toks_view(toks@), *old(i) as int)),
        r matches Ok(e) ==> e.wf(),
    decreases toks@.len() - *old(i), 1int,
{
    let ghost tv = toks_view(toks@);
    let ghost i0 = *old(i) as int;
    let mut terms: Vec<Expr> = Vec::new();
    let mut ops: Vec<BinaryOp> = Vec::new();
    let first = match build_term(toks, i) {
        Ok(e) => e,
        Err(f) => {
            return Err(f);
        }
    };
    let ghost ni0 = *i as int;
    terms.push(first);
    proof {
        assert(terms_view(terms@) =~= seq![expr_view(first)]);
    }
    loop
        invariant
            *i <= toks@.len(),
            *i > *old(i),
            terms@.len() == ops@.len() + 1,
            exprs_wf(terms@),
            tv == toks_view(toks@),
            spec_collect(tv, ni0, seq![expr_view(first)], Seq::empty()) == spec_collect(
                tv,
                *i as int,
                terms_view(terms@),
                ops@,
            ),
        decreases toks@.len() - *i,
    {
        let op = match next_operator(toks, i) {
            Some(o) => o,
            None => {
                break ;
            }
        };
        if op == BinaryOp::Conversion {
            // the conversion target must be a bare identifier
            let target = match take_ident(toks, i) {
                Some(w) => w,
                None => {
                    return Err(ParseFail::Soft);
                }
            };
            let ghost t0 = terms@;
            ops.push(BinaryOp::Conversion);
            terms.push(Expr::Variable(crate::text::chars_string(target.as_slice())));
            proof {
                assert(terms_view(terms@) =~= terms_view(t0).push(ExprV::Variable(target@)));
            }
        } else {
            let t = match build_term(toks, i) {
                Ok(e) => e,
                Err(_) => {
                    return Err(ParseFail::Soft);
                }
            };
            let ghost t0 = terms@;
            ops.push(op);
            terms.push(t);
            proof {
                assert(terms_view(terms@) =~= terms_view(t0).push(expr_view(t)));
            }
        }
    }
    let ghost pos = *i as int;
    let ghost ctv = terms_view(terms@);
    let ghost cops = ops@;
    process_ops_right_assoc(&mut terms, &mut ops, BinaryOp::Power);
    process_ops(&mut terms, &mut ops, BinaryOp::Multiply, BinaryOp::Divide);
    match process_ops_with_conversions(&mut terms, &mut ops) {
        Ok(()) => {}
        Err(f) => {
            return Err(f);
        }
    }
    if terms.len() != 1 {
        return Err(ParseFail::Soft);
    }
    let e = match terms.pop() {
        Some(e) => e,
        None => {
            return Err(ParseFail::Soft);
        }
    };
    proof {
        let p1 = spec_process_right(ctv, cops, cops.len() as int, BinaryOp::Power);
        let p2 = spec_process_lr(p1.0, p1.1, BinaryOp::Multiply, BinaryOp::Divide, 0);
        let p3 = spec_process_conv(p2.0, p2.1, 0);
        assert(expr_view(e) == p3.unwrap().0[0]);
    }
    Ok(e)
}

/// Every expression in the sequence is well-formed./// Every expression in the sequence is well-formed.
pub open spec fn exprs_wf(s: Seq<Expr>) -> bool {
    forall|i: int| 0 <= i < s.len() ==> (#[trigger] s[i]).wf()
}

/// The operator at the cursor: an arithmetic symbol, or `in`/`to` followed
/// by an identifier (the conversion); the cursor moves past it.
fn next_operator(toks: &Vec<Tok>, i: &mut usize) -> (r: Option<BinaryOp>)
    requires
        *old(i) <= toks@.len(),
    ensures
        *final (i) <= toks@.len(),
        r is Some ==> *final (i) > *old(i),
        r is None ==> *final (i) == *old(i),
        (match spec_next_operator(toks_view(toks@), *old(i) as int) {
            Some(p) => r == Some(p.0) && *final (i) == p.1,
            None => r is None,
        }),
{
    if *i >= toks.len() {
        return None;
    }
    proof {
        assert(toks_view(toks@)[*i as int] == toks@[*i as int]@);
        if *i + 1 < toks@.len() {
            assert(toks_view(toks@)[*i + 1] == toks@[*i + 1]@);
        }
    }
    match &toks[*i] {
        Tok::Sym(c) => {
            let op = if *c == '+' {
                Some(BinaryOp::Add)
            } else if *c == '-' {
                Some(BinaryOp::Subtract)
            } else if *c == '*' {
                Some(BinaryOp::Multiply)
            } else if *c == '/' {
                Some(BinaryOp::Divide)
            } else if *c == '^' {
                Some(BinaryOp::Power)
            } else {
                None
            };
            if op.is_some() {
                *i = *i + 1;
            }
            op
        }
        Tok::Ident(w) => {
            // `in` / `to` act as the conversion operator only before an identifier
            if (word_is(w.as_slice(), "in") || word_is(w.as_slice(), "to")) && *i + 1 < toks.len()
                && matches!(&toks[*i + 1], Tok::Ident(_)) {
                *i = *i + 1;
                Some(BinaryOp::Conversion)
            } else {
                None
            }
        }
        _ => None,
    }
}

/// The identifier at the cursor, the cursor moved past it.
fn take_ident(toks: &Vec<Tok>, i: &mut usize) -> (r: Option<Vec<char>>)
    requires
        *old(i) <= toks@.len(),
    ensures
        *final (i) <= toks@.len(),
        r is Some ==> *final (i) > *old(i),
        r is None ==> *final (i) == *old(i),
        *old(i) < toks@.len() && toks_view(toks@)[*old(i) as int] is Ident ==> (r matches Some(w)
            && w@ == toks_view(toks@)[*old(i) as int]->Ident_0 && *final (i) == *old(i) + 1),
        !(*old(i) < toks@.len() && toks_view(toks@)[*old(i) as int] is Ident) ==> r is None,
{
    if *i >= toks.len() {
        return None;
    }
    proof {
        assert(toks_view(toks@)[*i as int] == toks@[*i as int]@);
    }
    match &toks[*i] {
        Tok::Ident(w) => {
            let out = crate::text::copy_chars(w);
            *i = *i + 1;
            Some(out)
        }
        _ => None,
    }
}

/// One term: a literal with its suffixes, a variable or call, or a
/// parenthesized expression.
#[verifier::loop_isolation(false)]
fn build_term(toks: &Vec<Tok>, i: &mut usize) -> (r: Result<Expr, ParseFail>)
    requires
        toks_wf(toks@),
        *old(i) <= toks@.len(),
    ensures
        *final (i) <= toks@.len(),
        *final (i) >= *old(i),
        r is Ok ==> *final (i) > *old(i),
        r matches Ok(e) ==> e.wf(),
        pres_match(r, *final (i) as int, spec_build_term(toks_view(toks@), *old(i) as int)),
    decreases toks@.len() - *old(i), 0int,
{
    let ghost tv = toks_view(toks@);
    let ghost i0 = *old(i) as int;
    if *i >= toks.len() {
        return Err(ParseFail::Soft);
    }
    proof {
        assert(tv[i0] == toks@[i0]@);
        if i0 + 1 < tv.len() {
            assert(tv[i0 + 1] == toks@[i0 + 1]@);
        }
        if i0 + 2 < tv.len() {
            assert(tv[i0 + 2] == toks@[i0 + 2]@);
        }
    }
    let tok = tok_at(toks, *i);
    match tok {
        TokView::Num(n) => {
            *i = *i + 1;
            // percentage: N% and N% of TERM
            let pct_next = *i < toks.len() && matches!(&toks[*i], Tok::Sym('%'));
            if pct_next {
                *i = *i + 1;
                let pct = match dec_over_100(&n) {
                    Some(d) => d,
                    None => {
                        let mut m = String::new();
                        m.append("Invalid percentage");
                        return Err(ParseFail::Hard(m));
                    }
                };
                let of_next = if *i < toks.len() {
                    match &toks[*i] {
                        Tok::Ident(w) => word_is(w.as_slice(), "of"),
                        _ => false,
                    }
                } else {
                    false
                };
                if of_next {
                    *i = *i + 1;
                    let val = match build_term(toks, i) {
                        Ok(e) => e,
                        Err(f) => {
                            return Err(f);
                        }
                    };
                    let out = Expr::PercentageOf { percentage: pct, value: Box::new(val) };
                    proof {
                        assert(expr_view(out) == ExprV::PercentageOf {
                            percentage: pct,
                            value: Box::new(expr_view(val)),
                        });
                    }
                    return Ok(out);
                }
                return Ok(Expr::Percentage(pct));
            }
            // suffixed number: currency code/alias, unit, or implicit multiplication
            if *i < toks.len() {
                let is_ident = matches!(&toks[*i], Tok::Ident(_));
                if is_ident {
                    let w = match &toks[*i] {
                        Tok::Ident(w) => crate::text::copy_chars(w),
                        _ => Vec::new(),
                    };
                    // `in`/`to` before an identifier stay a conversion operator
                    let conv_follows = (word_is(w.as_slice(), "in") || word_is(
                        w.as_slice(),
                        "to",
                    )) && *i + 1 < toks.len() && matches!(&toks[*i + 1], Tok::Ident(_));
                    if !conv_follows {
                        *i = *i + 1;
                        return Ok(suffixed_number(n, &w));
                    }
                }
                // symbol-suffixed currency: `100$`
                let cur_sym = match &toks[*i] {
                    Tok::Sym(c) => currency_of_symbol(*c),
                    _ => None,
                };
                match cur_sym {
                    Some(c) => {
                        *i = *i + 1;
                        return Ok(Expr::Currency { amount: n, currency: c });
                    }
                    None => {}
                }
            }
            Ok(Expr::Number(n))
        }
        TokView::Ident(w) => {
            *i = *i + 1;
            // function call: name(args, ...)
            let open_next = *i < toks.len() && matches!(&toks[*i], Tok::Sym('('));
            if open_next {
                *i = *i + 1;
                let mut args: Vec<Expr> = Vec::new();
                let close_next = *i < toks.len() && matches!(&toks[*i], Tok::Sym(')'));
                if close_next {
                    *i = *i + 1;
                    proof {
                        assert(args_view(args@, 0) =~= Seq::<ExprV>::empty());
                    }
                } else {
                    proof {
                        assert(args_view(args@, 0) =~= Seq::<ExprV>::empty());
                    }
                    let ghost ia = *i as int;
                    loop
                        invariant
                            *i <= toks@.len(),
                            *i > *old(i),
                            exprs_wf(args@),
                            tv == toks_view(toks@),
                            spec_args(tv, ia, Seq::empty()) == spec_args(
                                tv,
                                *i as int,
                                args_view(args@, 0),
                            ),
                        decreases toks@.len() - *i,
                    {
                        let i_before = *i;
                        let a = match build_calculation(toks, i) {
                            Ok(e) => e,
                            Err(f) => {
                                return Err(f);
                            }
                        };
                        let ghost a0 = args@;
                        args.push(a);
                        proof {
                            lemma_args_view_push(a0, a);
                        }
                        let comma = *i < toks.len() && matches!(&toks[*i], Tok::Sym(','));
                        let close = *i < toks.len() && matches!(&toks[*i], Tok::Sym(')'));
                        proof {
                            if *i < toks@.len() {
                                assert(tv[*i as int] == toks@[*i as int]@);
                            }
                        }
                        if comma {
                            *i = *i + 1;
                        } else if close {
                            *i = *i + 1;
                            break ;
                        } else {
                            return Err(ParseFail::Soft);
                        }
                        if *i <= i_before {
                            return Err(ParseFail::Soft);
                        }
                    }
                }
                let name = crate::text::chars_string(w.as_slice());
                let out = Expr::FunctionCall { name, args };
                proof {
                    assert(expr_view(out) == ExprV::FunctionCall {
                        name: w@,
                        args: args_view(out->args@, 0),
                    });
                }
                return Ok(out);
            }
            Ok(Expr::Variable(crate::text::chars_string(w.as_slice())))
        }
        TokView::Sym(c) => {
            // symbol-prefixed currency: `$100`
            match currency_of_symbol(c) {
                Some(cur) => {
                    if *i + 1 < toks.len() {
                        let amt = match &toks[*i + 1] {
                            Tok::Num(n) => Some(*n),
                            _ => None,
                        };
                        match amt {
                            Some(n) => {
                                proof {
                                    assert(toks@[*i + 1].wf());
                                }
                                *i = *i + 2;
                                return Ok(Expr::Currency { amount: n, currency: cur });
                            }
                            None => {
                                return Err(ParseFail::Soft);
                            }
                        }
                    }
                    return Err(ParseFail::Soft);
                }
                None => {}
            }
            if c == '(' {
                *i = *i + 1;
                let inner = match build_calculation(toks, i) {
                    Ok(e) => e,
                    Err(f) => {
                        return Err(f);
                    }
                };
                let close = *i < toks.len() && matches!(&toks[*i], Tok::Sym(')'));
                proof {
                    if *i < toks@.len() {
                        assert(tv[*i as int] == toks@[*i as int]@);
                    }
                }
                if close {
                    *i = *i + 1;
                    return Ok(inner);
                }
                return Err(ParseFail::Soft);
            }
            Err(ParseFail::Soft)
        }
    }
}

/// The expression of a number followed by a word: a currency amount, a unit
/// amount, a compound-unit amount, or an implicit multiplication with a
/// variable, tried in that order.
fn suffixed_number(n: Dec, w: &Vec<char>) -> (r: Expr)
    requires
        n.wf(),
    ensures
        r.wf(),
        expr_view(r) == spec_suffixed(n, w@),
{
    match Currency::parse_chars(w.as_slice()) {
        Some(c) => {
            return Expr::Currency { amount: n, currency: c };
        }
        None => {}
    }
    match Unit::parse_token(w.as_slice()) {
        Some(u) => {
            return Expr::WithUnit { amount: n, unit: u };
        }
        None => {}
    }
    match parse_unit_chars(w.as_slice()) {
        Some(cu) => {
            proof {
                assert(cu@ == crate::unit::entry_cv(
                    crate::unit::spec_parse_unit(w@).unwrap(),
                ));
            }
            return Expr::WithCompoundUnit { amount: n, unit: cu };
        }
        None => {}
    }
    let lhs = Expr::Number(n);
    let rhs = Expr::Variable(crate::text::chars_string(w.as_slice()));
    proof {
        assert(lhs.wf());
        assert(rhs.wf());
        assert(expr_view(lhs) == ExprV::Number(n));
        assert(expr_view(rhs) == ExprV::Variable(w@));
    }
    let r = Expr::BinaryOp { op: BinaryOp::Multiply, left: Box::new(lhs), right: Box::new(rhs) };
    proof {
        assert(r.wf());
        assert(expr_view(r) == ExprV::BinaryOp {
            op: BinaryOp::Multiply,
            left: Box::new(ExprV::Number(n)),
            right: Box::new(ExprV::Variable(w@)),
        });
    }
    r
}

/// The currency whose display symbol is this single character, if any.
#[verifier::loop_isolation(false)]
fn currency_of_symbol(c: char) -> (r: Option<Currency>)
    ensures
        r == spec_currency_of_symbol(c, 0),
{
    let cs = Currency::all();
    let mut i: usize = 0;
    while i < cs.len()
        invariant
            i <= cs@.len(),
            spec_currency_of_symbol(c, 0) == spec_currency_of_symbol(c, i as int),
        decreases cs@.len() - i,
    {
        let d = cs[i].def();
        let sym = str_chars(d.symbol.as_str());
        if sym.len() == 1 && sym[0] == c {
            proof {
                reveal(spec_currency_of_symbol);
                assert(crate::currency::spec_def(cs@[i as int]).symbol =~= seq![c]);
            }
            return Some(cs[i]);
        }
        proof {
            reveal(spec_currency_of_symbol);
            assert(crate::currency::spec_def(cs@[i as int]).symbol != seq![c]) by {
                if crate::currency::spec_def(cs@[i as int]).symbol == seq![c] {
                    assert(sym@[0] == c);
                }
            }
        }
        i = i + 1;
    }
    proof {
        reveal(spec_currency_of_symbol);
    }
    None
}

/// The views of a term stack.
pub open spec fn terms_view(s: Seq<Expr>) -> Seq<ExprV> {
    Seq::new(s.len(), |i: int| expr_view(s[i]))
}

/// One reduction: the two terms at `i` fuse under the operator.
pub open spec fn spec_fuse(terms: Seq<ExprV>, i: int, op: BinaryOp) -> Seq<ExprV>
    recommends
        0 <= i,
        i + 1 < terms.len(),
{
    terms.remove(i + 1).update(
        i,
        ExprV::BinaryOp {
            op,
            left: Box::new(terms[i]),
            right: Box::new(terms[i + 1]),
        },
    )
}

/// The right-to-left reduction of one right-associative operator: indices
/// at or above `i` are already reduced.
pub open spec fn spec_process_right(
    terms: Seq<ExprV>,
    ops: Seq<BinaryOp>,
    i: int,
    target: BinaryOp,
) -> (Seq<ExprV>, Seq<BinaryOp>)
    decreases i,
{
    if i <= 0 || i > ops.len() {
        (terms, ops)
    } else {
        let k = i - 1;
        if ops[k] == target && k + 1 < terms.len() {
            spec_process_right(spec_fuse(terms, k, target), ops.remove(k), k, target)
        } else {
            spec_process_right(terms, ops, k, target)
        }
    }
}

/// The left-to-right reduction of two same-precedence operators, from
/// index `i` on.
pub open spec fn spec_process_lr(
    terms: Seq<ExprV>,
    ops: Seq<BinaryOp>,
    t1: BinaryOp,
    t2: BinaryOp,
    i: int,
) -> (Seq<ExprV>, Seq<BinaryOp>)
    decreases ops.len() - i,
{
    if i < 0 || i >= ops.len() {
        (terms, ops)
    } else if (ops[i] == t1 || ops[i] == t2) && i + 1 < terms.len() {
        spec_process_lr(spec_fuse(terms, i, ops[i]), ops.remove(i), t1, t2, i)
    } else {
        spec_process_lr(terms, ops, t1, t2, i + 1)
    }
}

/// The left-to-right reduction of the additive level: `+`, `-`, and the
/// conversion pseudo-operator, whose right operand must be a bare
/// identifier; `None` when it is not.
pub open spec fn spec_process_conv(
    terms: Seq<ExprV>,
    ops: Seq<BinaryOp>,
    i: int,
) -> Option<(Seq<ExprV>, Seq<BinaryOp>)>
    decreases ops.len() - i,
{
    if i < 0 || i >= ops.len() {
        Some((terms, ops))
    } else if ops[i] == BinaryOp::Conversion && i + 1 < terms.len() {
        match terms[i + 1] {
            ExprV::Variable(name) => spec_process_conv(
                terms.remove(i + 1).update(
                    i,
                    ExprV::Conversion { value: Box::new(terms[i]), target_unit: name },
                ),
                ops.remove(i),
                i,
            ),
            _ => None,
        }
    } else if (ops[i] == BinaryOp::Add || ops[i] == BinaryOp::Subtract) && i + 1 < terms.len() {
        spec_process_conv(spec_fuse(terms, i, ops[i]), ops.remove(i), i)
    } else {
        spec_process_conv(terms, ops, i + 1)
    }
}

proof fn lemma_terms_view_remove(s: Seq<Expr>, i: int)
    requires
        0 <= i < s.len(),
    ensures
        terms_view(s.remove(i)) =~= terms_view(s).remove(i),
{
    assert forall|j: int| 0 <= j < s.len() - 1 implies terms_view(s.remove(i))[j] == terms_view(
        s,
    ).remove(i)[j] by {
        if j < i {
            assert(s.remove(i)[j] == s[j]);
        } else {
            assert(s.remove(i)[j] == s[j + 1]);
        }
    }
}

proof fn lemma_terms_view_update(s: Seq<Expr>, i: int, e: Expr)
    requires
        0 <= i < s.len(),
    ensures
        terms_view(s.update(i, e)) =~= terms_view(s).update(i, expr_view(e)),
{
    assert forall|j: int| 0 <= j < s.len() implies terms_view(s.update(i, e))[j] == terms_view(
        s,
    ).update(i, expr_view(e))[j] by {
        if j != i {
            assert(s.update(i, e)[j] == s[j]);
        } else {
            assert(s.update(i, e)[j] == e);
        }
    }
}

proof fn lemma_terms_view_insert(s: Seq<Expr>, i: int, e: Expr)
    requires
        0 <= i <= s.len(),
    ensures
        terms_view(s.insert(i, e)) =~= terms_view(s).insert(i, expr_view(e)),
{
    assert forall|j: int| 0 <= j < s.len() + 1 implies terms_view(s.insert(i, e))[j] == terms_view(
        s,
    ).insert(i, expr_view(e))[j] by {
        if j < i {
            assert(s.insert(i, e)[j] == s[j]);
        } else if j == i {
            assert(s.insert(i, e)[j] == e);
        } else {
            assert(s.insert(i, e)[j] == s[j - 1]);
        }
    }
}

/// Reduce one right-associative operator, right to left.
#[verifier::loop_isolation(false)]
fn process_ops_right_assoc(terms: &mut Vec<Expr>, ops: &mut Vec<BinaryOp>, target: BinaryOp)
    requires
        old(terms)@.len() == old(ops)@.len() + 1,
        exprs_wf(old(terms)@),
    ensures
        final (terms)@.len() == final (ops)@.len() + 1,
        exprs_wf(final (terms)@),
        final (ops)@.len() <= old(ops)@.len(),
        ({
            let out = spec_process_right(
                terms_view(old(terms)@),
                old(ops)@,
                old(ops)@.len() as int,
                target,
            );
            terms_view(final (terms)@) == out.0 && final (ops)@ == out.1
        }),
{
    let ghost out0 = spec_process_right(
        terms_view(terms@),
        ops@,
        ops@.len() as int,
        target,
    );
    let mut i = ops.len();
    while i > 0
        invariant
            i <= ops@.len(),
            terms@.len() == ops@.len() + 1,
            exprs_wf(terms@),
            ops@.len() <= old(ops)@.len(),
            spec_process_right(terms_view(terms@), ops@, i as int, target) == out0,
        decreases i,
    {
        i = i - 1;
        let ghost tprev = terms@;
        let ghost oprev = ops@;
        if ops[i] == target {
            let op = ops.remove(i);
            let left = terms.remove(i);
            let right = terms.remove(i);
            terms.insert(
                i,
                Expr::BinaryOp { op, left: Box::new(left), right: Box::new(right) },
            );
            proof {
                assert(exprs_wf(terms@));
                lemma_terms_view_remove(tprev, i + 1);
                lemma_terms_view_remove(tprev.remove(i as int), i as int);
                lemma_terms_view_insert(
                    tprev.remove(i as int).remove(i as int),
                    i as int,
                    Expr::BinaryOp {
                        op: target,
                        left: Box::new(tprev[i as int]),
                        right: Box::new(tprev[i + 1]),
                    },
                );
                assert(terms@ =~= tprev.remove(i as int).remove(i as int).insert(
                    i as int,
                    Expr::BinaryOp {
                        op: target,
                        left: Box::new(tprev[i as int]),
                        right: Box::new(tprev[i + 1]),
                    },
                ));
                assert(terms_view(terms@) =~= spec_fuse(terms_view(tprev), i as int, target));
            }
        }
    }
    proof {
        assert(spec_process_right(terms_view(terms@), ops@, 0, target) == (
            terms_view(terms@),
            ops@,
        ));
    }
}

/// Reduce two same-precedence operators, left to right.
#[verifier::loop_isolation(false)]
fn process_ops(terms: &mut Vec<Expr>, ops: &mut Vec<BinaryOp>, t1: BinaryOp, t2: BinaryOp)
    requires
        old(terms)@.len() == old(ops)@.len() + 1,
        exprs_wf(old(terms)@),
    ensures
        final (terms)@.len() == final (ops)@.len() + 1,
        exprs_wf(final (terms)@),
        final (ops)@.len() <= old(ops)@.len(),
        ({
            let out = spec_process_lr(terms_view(old(terms)@), old(ops)@, t1, t2, 0);
            terms_view(final (terms)@) == out.0 && final (ops)@ == out.1
        }),
{
    let ghost out0 = spec_process_lr(terms_view(terms@), ops@, t1, t2, 0);
    let mut i: usize = 0;
    while i < ops.len()
        invariant
            terms@.len() == ops@.len() + 1,
            exprs_wf(terms@),
            i <= ops@.len(),
            ops@.len() <= old(ops)@.len(),
            spec_process_lr(terms_view(terms@), ops@, t1, t2, i as int) == out0,
        decreases ops@.len() - i,
    {
        let ghost tprev = terms@;
        let ghost oprev = ops@;
        if ops[i] == t1 || ops[i] == t2 {
            let op = ops.remove(i);
            let left = terms.remove(i);
            let right = terms.remove(i);
            terms.insert(
                i,
                Expr::BinaryOp { op, left: Box::new(left), right: Box::new(right) },
            );
            proof {
                assert(exprs_wf(terms@));
                lemma_terms_view_remove(tprev, i + 1);
                lemma_terms_view_remove(tprev.remove(i as int), i as int);
                lemma_terms_view_insert(
                    tprev.remove(i as int).remove(i as int),
                    i as int,
                    Expr::BinaryOp {
                        op: oprev[i as int],
                        left: Box::new(tprev[i as int]),
                        right: Box::new(tprev[i + 1]),
                    },
                );
                assert(terms@ =~= tprev.remove(i as int).remove(i as int).insert(
                    i as int,
                    Expr::BinaryOp {
                        op: oprev[i as int],
                        left: Box::new(tprev[i as int]),
                        right: Box::new(tprev[i + 1]),
                    },
                ));
                assert(terms_view(terms@) =~= spec_fuse(
                    terms_view(tprev),
                    i as int,
                    oprev[i as int],
                ));
            }
        } else {
            i = i + 1;
        }
    }
}

/// Reduce the additive level left to right: `+`, `-`, and the conversion
/// pseudo-operator, whose right operand must be a bare identifier naming
/// the target.
#[verifier::loop_isolation(false)]
fn process_ops_with_conversions(terms: &mut Vec<Expr>, ops: &mut Vec<BinaryOp>) -> (r: Result<
    (),
    ParseFail,
>)
    requires
        old(terms)@.len() == old(ops)@.len() + 1,
        exprs_wf(old(terms)@),
    ensures
        final (terms)@.len() == final (ops)@.len() + 1,
        exprs_wf(final (terms)@),
        (match spec_process_conv(terms_view(old(terms)@), old(ops)@, 0) {
            Some(out) => r is Ok && terms_view(final (terms)@) == out.0 && final (ops)@ == out.1,
            None => r matches Err(f) && f matches ParseFail::Hard(m) && m@
                == "Conversion target must be a unit identifier"@,
        }),
{
    let ghost out0 = spec_process_conv(terms_view(terms@), ops@, 0);
    let mut i: usize = 0;
    while i < ops.len()
        invariant
            terms@.len() == ops@.len() + 1,
            exprs_wf(terms@),
            i <= ops@.len(),
            spec_process_conv(terms_view(terms@), ops@, i as int) == out0,
        decreases ops@.len() - i,
    {
        let ghost tprev = terms@;
        let ghost oprev = ops@;
        let o = ops[i];
        if o == BinaryOp::Conversion {
            let _ = ops.remove(i);
            let left = terms.remove(i);
            let right = terms.remove(i);
            let target = match right {
                Expr::Variable(name) => name,
                _ => {
                    // put the pair back to keep the shape, then fail
                    terms.insert(i, left);
                    proof {
                        assert(!(expr_view(tprev[i + 1]) is Variable));
                        assert(out0 is None);
                        assert(terms@.len() == ops@.len() + 1);
                    }
                    let mut m = String::new();
                    m.append("Conversion target must be a unit identifier");
                    return Err(ParseFail::Hard(m));
                }
            };
            terms.insert(i, Expr::Conversion { value: Box::new(left), target_unit: target });
            proof {
                assert(exprs_wf(terms@));
                lemma_terms_view_remove(tprev, i + 1);
                lemma_terms_view_remove(tprev.remove(i as int), i as int);
                lemma_terms_view_insert(
                    tprev.remove(i as int).remove(i as int),
                    i as int,
                    Expr::Conversion { value: Box::new(tprev[i as int]), target_unit: target },
                );
                assert(terms@ =~= tprev.remove(i as int).remove(i as int).insert(
                    i as int,
                    Expr::Conversion { value: Box::new(tprev[i as int]), target_unit: target },
                ));
                assert(expr_view(tprev[i + 1]) matches ExprV::Variable(nm) && nm == target@);
                assert(terms_view(terms@) =~= terms_view(tprev).remove(i + 1).update(
                    i as int,
                    ExprV::Conversion {
                        value: Box::new(terms_view(tprev)[i as int]),
                        target_unit: target@,
                    },
                ));
            }
        } else if o == BinaryOp::Add || o == BinaryOp::Subtract {
            let op = ops.remove(i);
            let left = terms.remove(i);
            let right = terms.remove(i);
            terms.insert(
                i,
                Expr::BinaryOp { op, left: Box::new(left), right: Box::new(right) },
            );
            proof {
                assert(exprs_wf(terms@));
                lemma_terms_view_remove(tprev, i + 1);
                lemma_terms_view_remove(tprev.remove(i as int), i as int);
                lemma_terms_view_insert(
                    tprev.remove(i as int).remove(i as int),
                    i as int,
                    Expr::BinaryOp {
                        op: oprev[i as int],
                        left: Box::new(tprev[i as int]),
                        right: Box::new(tprev[i + 1]),
                    },
                );
                assert(terms@ =~= tprev.remove(i as int).remove(i as int).insert(
                    i as int,
                    Expr::BinaryOp {
                        op: oprev[i as int],
                        left: Box::new(tprev[i as int]),
                        right: Box::new(tprev[i + 1]),
                    },
                ));
                assert(terms_view(terms@) =~= spec_fuse(
                    terms_view(tprev),
                    i as int,
                    oprev[i as int],
                ));
            }
        } else {
            i = i + 1;
        }
    }
    Ok(())
}

// ---------------------------------------------------------------------------
// The parser at the specification level.
// ---------------------------------------------------------------------------
/// A parse outcome: the expression and the next position, a soft failure
/// that lets the suffix retry look further, or a hard failure with its
/// message.
pub enum PRes {
    POk(ExprV, int),
    PSoft,
    PHard(Seq<char>),
}

/// An argument-list outcome.
pub enum ARes {
    AOk(Seq<ExprV>, int),
    ASoft,
    AHard(Seq<char>),
}

/// A term-and-operator collection outcome.
pub enum CRes {
    COk(Seq<ExprV>, Seq<BinaryOp>, int),
    CSoft,
    CHard(Seq<char>),
}

/// The operator at a position: an arithmetic symbol, or `in`/`to` before an
/// identifier (the conversion), with the position just past it.
pub open spec fn spec_next_operator(toks: Seq<TokV>, i: int) -> Option<(BinaryOp, int)> {
    if i < 0 || i >= toks.len() {
        None
    } else {
        match toks[i] {
            TokV::Sym(c) => {
                if c == '+' {
                    Some((BinaryOp::Add, i + 1))
                } else if c == '-' {
                    Some((BinaryOp::Subtract, i + 1))
                } else if c == '*' {
                    Some((BinaryOp::Multiply, i + 1))
                } else if c == '/' {
                    Some((BinaryOp::Divide, i + 1))
                } else if c == '^' {
                    Some((BinaryOp::Power, i + 1))
                } else {
                    None
                }
            },
            TokV::Ident(w) => {
                if (crate::text::spec_lower(w) == "in"@ || crate::text::spec_lower(w) == "to"@)
                    && i + 1 < toks.len() && toks[i + 1] is Ident {
                    Some((BinaryOp::Conversion, i + 1))
                } else {
                    None
                }
            },
            _ => None,
        }
    }
}

/// The expression of a number followed by a word: a currency, a simple
/// unit, a compound unit, or an implicit multiplication with a variable,
/// tried in that order.
pub open spec fn spec_suffixed(n: Dec, w: Seq<char>) -> ExprV {
    match Currency::spec_parse(w) {
        Some(c) => ExprV::Currency { amount: n, currency: c },
        None => match Unit::spec_parse(w) {
            Some(u) => ExprV::WithUnit { amount: n, unit: u },
            None => match crate::unit::spec_parse_unit(w) {
                Some(k) => ExprV::WithCompoundUnit { amount: n, unit: crate::unit::entry_cv(k) },
                None => ExprV::BinaryOp {
                    op: BinaryOp::Multiply,
                    left: Box::new(ExprV::Number(n)),
                    right: Box::new(ExprV::Variable(w)),
                },
            },
        },
    }
}

/// One term: a literal with its suffixes, a variable or call, or a
/// parenthesized expression.
pub open spec fn spec_build_term(toks: Seq<TokV>, i: int) -> PRes
    decreases toks.len() - i, 0int,
{
    if i < 0 || i >= toks.len() {
        PRes::PSoft
    } else {
        match toks[i] {
            TokV::Num(n) => {
                if i + 1 < toks.len() && toks[i + 1] == TokV::Sym('%') {
                    match crate::decimal::s_div(n, Dec { neg: false, mag: 100u128, scale: 0 }) {
                        None => PRes::PHard("Invalid percentage"@),
                        Some(pct) => {
                            let of_next = i + 2 < toks.len() && (match toks[i + 2] {
                                TokV::Ident(w) => crate::text::spec_lower(w) == "of"@,
                                _ => false,
                            });
                            if of_next {
                                match spec_build_term(toks, i + 3) {
                                    PRes::POk(v, ni) => PRes::POk(
                                        ExprV::PercentageOf {
                                            percentage: pct,
                                            value: Box::new(v),
                                        },
                                        ni,
                                    ),
                                    e => e,
                                }
                            } else {
                                PRes::POk(ExprV::Percentage(pct), i + 2)
                            }
                        },
                    }
                } else {
                    let word_suffix: Option<Seq<char>> = if i + 1 < toks.len() {
                        match toks[i + 1] {
                            TokV::Ident(w) => {
                                let conv_follows = (crate::text::spec_lower(w) == "in"@
                                    || crate::text::spec_lower(w) == "to"@) && i + 2 < toks.len()
                                    && toks[i + 2] is Ident;
                                if conv_follows {
                                    None
                                } else {
                                    Some(w)
                                }
                            },
                            _ => None,
                        }
                    } else {
                        None
                    };
                    match word_suffix {
                        Some(w) => PRes::POk(spec_suffixed(n, w), i + 2),
                        None => {
                            let sym_cur: Option<Currency> = if i + 1 < toks.len() {
                                match toks[i + 1] {
                                    TokV::Sym(c) => spec_currency_of_symbol(c, 0),
                                    _ => None,
                                }
                            } else {
                                None
                            };
                            match sym_cur {
                                Some(c) => PRes::POk(
                                    ExprV::Currency { amount: n, currency: c },
                                    i + 2,
                                ),
                                None => PRes::POk(ExprV::Number(n), i + 1),
                            }
                        },
                    }
                }
            },
            TokV::Ident(w) => {
                if i + 1 < toks.len() && toks[i + 1] == TokV::Sym('(') {
                    if i + 2 < toks.len() && toks[i + 2] == TokV::Sym(')') {
                        PRes::POk(ExprV::FunctionCall { name: w, args: Seq::empty() }, i + 3)
                    } else {
                        match spec_args(toks, i + 2, Seq::empty()) {
                            ARes::AOk(args, ni) => PRes::POk(
                                ExprV::FunctionCall { name: w, args },
                                ni,
                            ),
                            ARes::ASoft => PRes::PSoft,
                            ARes::AHard(m) => PRes::PHard(m),
                        }
                    }
                } else {
                    PRes::POk(ExprV::Variable(w), i + 1)
                }
            },
            TokV::Sym(c) => {
                match spec_currency_of_symbol(c, 0) {
                    Some(cur) => {
                        if i + 1 < toks.len() {
                            match toks[i + 1] {
                                TokV::Num(n) => PRes::POk(
                                    ExprV::Currency { amount: n, currency: cur },
                                    i + 2,
                                ),
                                _ => PRes::PSoft,
                            }
                        } else {
                            PRes::PSoft
                        }
                    },
                    None => {
                        if c == '(' {
                            match spec_build_calculation(toks, i + 1) {
                                PRes::POk(e, ni) => {
                                    if ni < toks.len() && toks[ni] == TokV::Sym(')') {
                                        PRes::POk(e, ni + 1)
                                    } else {
                                        PRes::PSoft
                                    }
                                },
                                e => e,
                            }
                        } else {
                            PRes::PSoft
                        }
                    },
                }
            },
        }
    }
}

/// The comma-separated argument list of a call, ending at the closing
/// parenthesis.
pub open spec fn spec_args(toks: Seq<TokV>, i: int, args: Seq<ExprV>) -> ARes
    decreases toks.len() - i, 2int,
{
    if i < 0 || i > toks.len() {
        ARes::ASoft
    } else {
        match spec_build_calculation(toks, i) {
            PRes::PSoft => ARes::ASoft,
            PRes::PHard(m) => ARes::AHard(m),
            PRes::POk(a, ni) => {
                let args2 = args.push(a);
                if ni < toks.len() && toks[ni] == TokV::Sym(',') {
                    if ni + 1 <= i || ni + 1 > toks.len() {
                        ARes::ASoft
                    } else {
                        spec_args(toks, ni + 1, args2)
                    }
                } else if ni < toks.len() && toks[ni] == TokV::Sym(')') {
                    ARes::AOk(args2, ni + 1)
                } else {
                    ARes::ASoft
                }
            },
        }
    }
}

/// The terms and operators of one calculation, collected left to right
/// until no operator follows.
pub open spec fn spec_collect(
    toks: Seq<TokV>,
    i: int,
    terms: Seq<ExprV>,
    ops: Seq<BinaryOp>,
) -> CRes
    decreases toks.len() - i, 2int,
{
    if i < 0 || i > toks.len() {
        CRes::CSoft
    } else {
        match spec_next_operator(toks, i) {
            None => CRes::COk(terms, ops, i),
            Some(p) => {
                if p.0 == BinaryOp::Conversion {
                    if p.1 < toks.len() && toks[p.1] is Ident {
                        let w = toks[p.1]->Ident_0;
                        spec_collect(
                            toks,
                            p.1 + 1,
                            terms.push(ExprV::Variable(w)),
                            ops.push(BinaryOp::Conversion),
                        )
                    } else {
                        CRes::CSoft
                    }
                } else {
                    match spec_build_term(toks, p.1) {
                        PRes::POk(t, mi) => {
                            if mi <= i || mi > toks.len() {
                                CRes::CSoft
                            } else {
                                spec_collect(toks, mi, terms.push(t), ops.push(p.0))
                            }
                        },
                        _ => CRes::CSoft,
                    }
                }
            },
        }
    }
}

/// One calculation: the first term, the collected operator chain, and the
/// three precedence passes; exactly one term must remain.
pub open spec fn spec_build_calculation(toks: Seq<TokV>, i: int) -> PRes
    decreases toks.len() - i, 1int,
{
    if i < 0 || i > toks.len() {
        PRes::PSoft
    } else {
        match spec_build_term(toks, i) {
            PRes::PSoft => PRes::PSoft,
            PRes::PHard(m) => PRes::PHard(m),
            PRes::POk(first, ni) => {
                if ni <= i || ni > toks.len() {
                    PRes::PSoft
                } else {
                    match spec_collect(toks, ni, seq![first], Seq::empty()) {
                        CRes::CSoft => PRes::PSoft,
                        CRes::CHard(m) => PRes::PHard(m),
                        CRes::COk(terms, ops, pos) => {
                            let p1 = spec_process_right(
                                terms,
                                ops,
                                ops.len() as int,
                                BinaryOp::Power,
                            );
                            let p2 = spec_process_lr(
                                p1.0,
                                p1.1,
                                BinaryOp::Multiply,
                                BinaryOp::Divide,
                                0,
                            );
                            match spec_process_conv(p2.0, p2.1, 0) {
                                None => PRes::PHard(
                                    "Conversion target must be a unit identifier"@,
                                ),
                                Some(p3) => {
                                    if p3.0.len() == 1 {
                                        PRes::POk(p3.0[0], pos)
                                    } else {
                                        PRes::PSoft
                                    }
                                },
                            }
                        },
                    }
                }
            },
        }
    }
}

/// A failed exact parse: hard (a malformed literal or bad conversion
/// target, reported at once) or soft (the suffix retry may go on).
pub enum PFailV {
    FHard(Seq<char>),
    FSoft,
}

/// What parsing one line exactly yields: empty lines and comments are
/// `Empty`; a leading `name =` makes an assignment; otherwise the longest
/// calculation from the start, trailing prose tolerated unless the
/// expression is a bare variable.
pub open spec fn spec_parse_exact(s: Seq<char>) -> Result<AstV, PFailV> {
    if spec_blank_or_comment(s, 0) {
        Ok(AstV::Empty)
    } else {
        match spec_tokenize(s, 0, Seq::empty()) {
            None => Err(PFailV::FHard("Invalid number literal"@)),
            Some(toks) => {
                let is_assign = toks.len() >= 2 && toks[0] is Ident && toks[1] == TokV::Sym('=');
                if is_assign {
                    let name = toks[0]->Ident_0;
                    match spec_build_calculation(toks, 2) {
                        PRes::POk(e, _pos) => Ok(AstV::Assignment { name, expr: e }),
                        PRes::PSoft => Err(PFailV::FSoft),
                        PRes::PHard(m) => Err(PFailV::FHard(m)),
                    }
                } else if toks.len() == 0 {
                    Ok(AstV::Empty)
                } else {
                    match spec_build_calculation(toks, 0) {
                        PRes::POk(e, pos) => {
                            if pos < toks.len() && e is Variable {
                                Err(PFailV::FSoft)
                            } else {
                                Ok(AstV::Expression(e))
                            }
                        },
                        PRes::PSoft => Err(PFailV::FSoft),
                        PRes::PHard(m) => Err(PFailV::FHard(m)),
                    }
                }
            },
        }
    }
}

/// True iff the line's first non-blank characters start a comment.
pub open spec fn spec_blank_or_comment(s: Seq<char>, i: int) -> bool
    decreases s.len() - i,
{
    if i < 0 || i >= s.len() {
        true
    } else if s[i] == ' ' || s[i] == '\t' {
        spec_blank_or_comment(s, i + 1)
    } else {
        s[i] == '#' || (s[i] == '/' && i + 1 < s.len() && s[i + 1] == '/')
    }
}

/// True iff some character from `k` on is not a blank.
pub open spec fn spec_nonblank(s: Seq<char>, k: int) -> bool
    decreases s.len() - k,
{
    if k < 0 || k >= s.len() {
        false
    } else if s[k] != ' ' && s[k] != '\t' {
        true
    } else {
        spec_nonblank(s, k + 1)
    }
}

/// The fuzzy retry: the first character-offset suffix, left to right, that
/// parses exactly (all-blank suffixes skipped, any failed suffix passed
/// over); `None` when none does.
pub open spec fn spec_fuzzy(s: Seq<char>, start: int) -> Option<AstV>
    decreases s.len() - start,
{
    if start < 1 || start >= s.len() {
        None
    } else {
        let suffix = s.skip(start);
        let tail = spec_fuzzy(s, start + 1);
        if spec_nonblank(suffix, 0) {
            match spec_parse_exact(suffix) {
                Ok(a) => Some(a),
                Err(_) => tail,
            }
        } else {
            tail
        }
    }
}

/// What parsing a line with fuzzy recovery yields: the exact parse when it
/// succeeds; a hard failure's message at once; otherwise the first parsing
/// suffix, or the generic failure message.
pub open spec fn spec_parse_line(s: Seq<char>) -> Result<AstV, Seq<char>> {
    match spec_parse_exact(s) {
        Ok(a) => Ok(a),
        Err(PFailV::FHard(m)) => Err(m),
        Err(PFailV::FSoft) => match spec_fuzzy(s, 1) {
            Some(a) => Ok(a),
            None => Err("Parse error: Could not understand line"@),
        },
    }
}

/// True iff the executable parse outcome is the specified one.
pub open spec fn pres_match(r: Result<Expr, ParseFail>, ni: int, o: PRes) -> bool {
    match o {
        PRes::POk(ev, pi) => r matches Ok(e) && expr_view(e) == ev && ni == pi,
        PRes::PSoft => r matches Err(f) && f is Soft,
        PRes::PHard(m) => r matches Err(f) && f matches ParseFail::Hard(mm) && mm@ == m,
    }
}

/// True iff the trimmed line is empty or starts a comment (`#` or `//`).
#[verifier::loop_isolation(false)]
fn line_is_blank_or_comment(v: &[char]) -> (r: bool)
    ensures
        r == spec_blank_or_comment(v@, 0),
{
    let mut i: usize = 0;
    while i < v.len()
        invariant
            i <= v@.len(),
            spec_blank_or_comment(v@, 0) == spec_blank_or_comment(v@, i as int),
        decreases v@.len() - i,
    {
        let c = v[i];
        if c == ' ' || c == '\t' {
            i = i + 1;
        } else if c == '#' {
            return true;
        } else if c == '/' && i + 1 < v.len() && v[i + 1] == '/' {
            return true;
        } else {
            return false;
        }
    }
    true
}

/// True iff the executable line-parse outcome is the specified one.
pub open spec fn parse_res_match(r: Result<Ast, ParseFail>, o: Result<AstV, PFailV>) -> bool {
    match o {
        Ok(a) => r matches Ok(ast) && ast@ == a,
        Err(PFailV::FHard(m)) => r matches Err(f) && f matches ParseFail::Hard(mm) && mm@ == m,
        Err(PFailV::FSoft) => r matches Err(f) && f is Soft,
    }
}

/// True iff some character of the slice is not a blank.
#[verifier::loop_isolation(false)]
fn has_nonblank(v: &[char]) -> (r: bool)
    ensures
        r == spec_nonblank(v@, 0),
{
    let mut k: usize = 0;
    while k < v.len()
        invariant
            k <= v@.len(),
            spec_nonblank(v@, 0) == spec_nonblank(v@, k as int),
        decreases v@.len() - k,
    {
        if v[k] != ' ' && v[k] != '\t' {
            return true;
        }
        k = k + 1;
    }
    false
}

/// Parse one line exactly: empty lines and comments are `Empty`; a leading
/// `name =` makes an assignment; otherwise the longest expression from the
/// start, with anything after it ignored as trailing prose unless the
/// expression was a bare variable.
fn parse_exact_chars(v: &[char]) -> (r: Result<Ast, ParseFail>)
    ensures
        r matches Ok(a) ==> a.wf(),
        parse_res_match(r, spec_parse_exact(v@)),
{
    if line_is_blank_or_comment(v) {
        return Ok(Ast::Empty);
    }
    let toks = match tokenize_line(v) {
        Ok(t) => t,
        Err(m) => {
            return Err(ParseFail::Hard(m));
        }
    };
    let ghost tv = toks_view(toks@);
    proof {
        if 0 < tv.len() {
            assert(tv[0] == toks@[0]@);
        }
        if 1 < tv.len() {
            assert(tv[1] == toks@[1]@);
        }
    }
    // assignment: IDENT = EXPR
    if toks.len() >= 2 {
        let is_assign = match (&toks[0], &toks[1]) {
            (Tok::Ident(_), Tok::Sym(c)) => *c == '=',
            _ => false,
        };
        if is_assign {
            let name = match &toks[0] {
                Tok::Ident(w) => crate::text::chars_string(w.as_slice()),
                _ => String::new(),
            };
            let mut pos: usize = 2;
            let e = match build_calculation(&toks, &mut pos) {
                Ok(e) => e,
                Err(f) => {
                    return Err(f);
                }
            };
            let out = Ast::Assignment { name, expr: Box::new(e) };
            proof {
                assert(out@ == AstV::Assignment { name: tv[0]->Ident_0, expr: expr_view(e) });
            }
            return Ok(out);
        }
    }
    if toks.len() == 0 {
        return Ok(Ast::Empty);
    }
    let mut pos: usize = 0;
    let e = match build_calculation(&toks, &mut pos) {
        Ok(e) => e,
        Err(f) => {
            return Err(f);
        }
    };
    let trailing = pos < toks.len();
    if trailing && matches!(e, Expr::Variable(_)) {
        // likely leading prose; let the fuzzy retry find a better suffix
        return Err(ParseFail::Soft);
    }
    let out = Ast::Expression(e);
    proof {
        assert(out@ == AstV::Expression(expr_view(e)));
    }
    Ok(out)
}

/// Parse a line exactly, without the fuzzy suffix retry (used for
/// continuation detection).
pub fn try_parse_exact(input: &str) -> (r: Result<Ast, String>)
    ensures
        r matches Ok(a) ==> a.wf(),
        (match spec_parse_exact(input@) {
            Ok(a) => r matches Ok(ast) && ast@ == a,
            Err(PFailV::FHard(m)) => r matches Err(e) && e@ == m,
            Err(PFailV::FSoft) => r matches Err(e) && e@ == "Parse error"@,
        }),
{
    let v = str_chars(input);
    match parse_exact_chars(v.as_slice()) {
        Ok(a) => Ok(a),
        Err(ParseFail::Hard(m)) => Err(m),
        Err(ParseFail::Soft) => {
            let mut m = String::new();
            m.append("Parse error");
            Err(m)
        }
    }
}

/// Parse a line with fuzzy recovery: if the full line fails softly, every
/// non-empty character suffix is tried left to right and the first that
/// parses wins; a malformed numeric literal or a bad conversion target
/// stops the line at once.
#[verifier::loop_isolation(false)]
pub fn parse_line(input: &str) -> (r: Result<Ast, String>)
    ensures
        r matches Ok(a) ==> a.wf(),
        (match spec_parse_line(input@) {
            Ok(a) => r matches Ok(ast) && ast@ == a,
            Err(m) => r matches Err(e) && e@ == m,
        }),
{
    let v = str_chars(input);
    match parse_exact_chars(v.as_slice()) {
        Ok(a) => {
            return Ok(a);
        }
        Err(ParseFail::Hard(m)) => {
            return Err(m);
        }
        Err(ParseFail::Soft) => {}
    }
    let n = v.len();
    let mut start: usize = 1;
    while start < n
        invariant
            1 <= start,
            n == v@.len(),
            spec_fuzzy(v@, 1) == spec_fuzzy(v@, start as int),
        decreases n - start,
    {
        let suffix = &v.as_slice()[start..n];
        proof {
            assert(suffix@ =~= v@.skip(start as int));
        }
        if has_nonblank(suffix) {
            match parse_exact_chars(suffix) {
                Ok(a) => {
                    return Ok(a);
                }
                Err(_) => {}
            }
        }
        start = start + 1;
    }
    let mut m = String::new();
    m.append("Parse error: Could not understand line");
    Err(m)
}

} // verus!
