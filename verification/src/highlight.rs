//! Semantic tokens for syntax highlighting.
//!
//! A line is cut into tokens, each classified against the currency and unit
//! registries: numbers (with sign and a `%` suffix), operators (including a
//! contextual `x` between numbers), currency symbols and words, unit words,
//! the keywords `of`, `in` and `to`, the built-in function names, variable
//! definitions, comments, whitespace and leftover prose.

use vstd::prelude::*;

verus! {

use crate::currency::Currency;
use crate::text::{str_chars, lower_chars, chars_eq_str, chars_string, char_is_alphabetic,
    char_is_alphanumeric};
use crate::unit::{unit_count, unit_at};

/// What a token means.
#[derive(Clone, Copy, Debug, PartialEq, Eq, Structural)]
pub enum TokenType {
    Number,
    Operator,
    Variable,
    Unit,
    Currency,
    Keyword,
    Function,
    Comment,
    Text,
    Whitespace,
    Punctuation,
}

/// A token: its text and its meaning.
#[derive(Debug)]
pub struct Token {
    pub text: String,
    pub token_type: TokenType,
}

/// True iff the character is the single-character display symbol of a
/// currency.
#[verifier::loop_isolation(false)]
pub fn is_currency_symbol(c: char) -> (r: bool)
{
    let cs = Currency::all();
    let mut i: usize = 0;
    while i < cs.len()
        decreases cs@.len() - i,
    {
        let d = cs[i].def();
        let sym = str_chars(d.symbol.as_str());
        if sym.len() == 1 && sym[0] == c {
            return true;
        }
        i = i + 1;
    }
    false
}

/// True iff the word (after ASCII case folding) is a currency code or
/// alias.
pub fn is_currency_word(word: &str) -> (r: bool)
{
    let w = str_chars(word);
    is_currency_word_chars(w.as_slice())
}

#[verifier::loop_isolation(false)]
fn is_currency_word_chars(word: &[char]) -> (r: bool)
{
    let lower = lower_chars(word);
    let cs = Currency::all();
    let mut i: usize = 0;
    while i < cs.len()
        decreases cs@.len() - i,
    {
        let d = cs[i].def();
        let code_l = lower_chars(str_chars(d.code.as_str()).as_slice());
        if crate::text::chars_eq(lower.as_slice(), code_l.as_slice()) {
            return true;
        }
        let mut j: usize = 0;
        while j < d.aliases.len()
            decreases d.aliases@.len() - j,
        {
            let a_l = lower_chars(str_chars(d.aliases[j].as_str()).as_slice());
            if crate::text::chars_eq(lower.as_slice(), a_l.as_slice()) {
                return true;
            }
            j = j + 1;
        }
        i = i + 1;
    }
    false
}

/// True iff the word (after ASCII case folding) is a unit symbol or alias.
pub fn is_unit_word(word: &str) -> (r: bool)
{
    let w = str_chars(word);
    is_unit_word_chars(w.as_slice())
}

#[verifier::loop_isolation(false)]
fn is_unit_word_chars(word: &[char]) -> (r: bool)
{
    let lower = lower_chars(word);
    let n = unit_count();
    let mut i: usize = 0;
    while i < n
        decreases n - i,
    {
        let d = unit_at(i);
        let sym_l = lower_chars(str_chars(d.symbol.as_str()).as_slice());
        if crate::text::chars_eq(lower.as_slice(), sym_l.as_slice()) {
            return true;
        }
        let mut j: usize = 0;
        while j < d.aliases.len()
            decreases d.aliases@.len() - j,
        {
            let a_l = lower_chars(str_chars(d.aliases[j].as_str()).as_slice());
            if crate::text::chars_eq(lower.as_slice(), a_l.as_slice()) {
                return true;
            }
            j = j + 1;
        }
        i = i + 1;
    }
    false
}

fn is_keyword(lower: &[char]) -> (r: bool)
{
    chars_eq_str(lower, "of") || chars_eq_str(lower, "in") || chars_eq_str(lower, "to")
}

fn is_function_name(lower: &[char]) -> (r: bool)
{
    chars_eq_str(lower, "sum") || chars_eq_str(lower, "avg") || chars_eq_str(lower, "average")
        || chars_eq_str(lower, "min") || chars_eq_str(lower, "max") || chars_eq_str(lower, "abs")
        || chars_eq_str(lower, "sqrt") || chars_eq_str(lower, "round") || chars_eq_str(
        lower,
        "floor",
    ) || chars_eq_str(lower, "ceil") || chars_eq_str(lower, "total")
}

/// The variable name of an assignment line (`tax = 20%` names `tax`), if
/// the text before the first `=` is one identifier.
#[verifier::loop_isolation(false)]
pub fn find_assignment_variable(input: &str) -> (r: Option<Vec<char>>)
{
    let v = str_chars(input);
    let n = v.len();
    // find the first '='
    let mut eq: usize = 0;
    let mut found = false;
    let mut i: usize = 0;
    while i < n
        invariant
            i <= n,
            n == v@.len(),
            eq <= n,
        decreases n - i,
    {
        if v[i] == '=' {
            eq = i;
            found = true;
            break ;
        }
        i = i + 1;
    }
    if !found {
        return None;
    }
    // trim the left part
    let mut s: usize = 0;
    while s < eq
        invariant
            s <= eq,
            eq <= n,
            n == v@.len(),
        decreases eq - s,
    {
        if v[s] != ' ' && v[s] != '\t' {
            break ;
        }
        s = s + 1;
    }
    let mut e: usize = eq;
    while e > s
        invariant
            s <= e <= eq,
            eq <= n,
            n == v@.len(),
        decreases e,
    {
        if v[e - 1] != ' ' && v[e - 1] != '\t' {
            break ;
        }
        e = e - 1;
    }
    if s >= e {
        return None;
    }
    // the part must be one identifier
    let first = v[s];
    if !(char_is_alphabetic(first) || first == '_') {
        return None;
    }
    let mut k: usize = s;
    let mut word: Vec<char> = Vec::new();
    while k < e
        invariant
            s <= k <= e,
            e <= n,
            n == v@.len(),
        decreases e - k,
    {
        let c = v[k];
        if !(char_is_alphanumeric(c) || c == '_') {
            return None;
        }
        word.push(c);
        k = k + 1;
    }
    Some(word)
}

/// True iff the `x` at this position reads as multiplication: a digit, `)`
/// or `%` before it and a digit, `(` or a currency symbol after it,
/// whitespace skipped on both sides.
#[verifier::loop_isolation(false)]
pub fn is_multiply_context(chars: &[char], i: usize) -> (r: bool)
    requires
        i < chars@.len(),
{
    let n = chars.len();
    let mut j: usize = i;
    while j > 0
        invariant
            j <= i,
            i < chars@.len(),
        decreases j,
    {
        if chars[j - 1] == ' ' {
            j = j - 1;
        } else {
            break ;
        }
    }
    let prev_ok = j > 0 && {
        let p = chars[j - 1];
        ('0' <= p && p <= '9') || p == ')' || p == '%'
    };
    if !prev_ok {
        return false;
    }
    let mut k: usize = i + 1;
    while k < n
        invariant
            i < k <= n,
            n == chars@.len(),
        decreases n - k,
    {
        if chars[k] == ' ' {
            k = k + 1;
        } else {
            break ;
        }
    }
    k < n && {
        let c = chars[k];
        ('0' <= c && c <= '9') || c == '(' || is_currency_symbol(c)
    }
}

fn push_token(tokens: &mut Vec<Token>, text: Vec<char>, token_type: TokenType)
    ensures
        final (tokens)@.len() == old(tokens)@.len() + 1,
        final (tokens)@.last().token_type == token_type,
        final (tokens)@.last().text@ == text@,
        forall|j: int|
            0 <= j < old(tokens)@.len() ==> (#[trigger] final (tokens)@[j]) == old(tokens)@[j],
{
    let t = Token { text: chars_string(text.as_slice()), token_type };
    tokens.push(t);
}

/// True iff the line's first non-blank characters start a comment.
pub open spec fn spec_comment_line(s: Seq<char>, i: int) -> bool
    decreases s.len() - i,
{
    if i < 0 || i >= s.len() {
        false
    } else if s[i] == ' ' || s[i] == '\t' {
        spec_comment_line(s, i + 1)
    } else {
        s[i] == '#' || (s[i] == '/' && i + 1 < s.len() && s[i + 1] == '/')
    }
}

/// The texts of the tokens, joined in order.
pub open spec fn spec_token_texts(ts: Seq<Token>) -> Seq<char>
    decreases ts.len(),
{
    if ts.len() == 0 {
        Seq::empty()
    } else {
        spec_token_texts(ts.drop_last()) + ts.last().text@
    }
}

/// Appending a nonempty token appends its text.
proof fn lemma_texts_push(ts0: Seq<Token>, ts1: Seq<Token>, txt: Seq<char>)
    requires
        ts1.len() == ts0.len() + 1,
        ts1.last().text@ == txt,
        forall|j: int| 0 <= j < ts0.len() ==> (#[trigger] ts1[j]) == ts0[j],
        forall|j: int| 0 <= j < ts0.len() ==> (#[trigger] ts0[j]).text@.len() > 0,
        txt.len() > 0,
    ensures
        spec_token_texts(ts1) == spec_token_texts(ts0) + txt,
        forall|j: int| 0 <= j < ts1.len() ==> (#[trigger] ts1[j]).text@.len() > 0,
{
    assert(ts1.drop_last() =~= ts0);
    assert forall|j: int| 0 <= j < ts1.len() implies (#[trigger] ts1[j]).text@.len() > 0 by {
        if j < ts0.len() {
            assert(ts1[j] == ts0[j]);
        } else {
            assert(ts1[j] == ts1.last());
        }
    }
}

/// Cut a line into classified tokens.  A line whose first non-blank
/// characters start a comment (`#` or `//`) is one comment token; numbers
/// take an optional leading `-` and a trailing `%`; words are matched
/// against the keyword, function, unit and currency tables in that order,
/// then against the line's assignment variable; anything unrecognized is
/// prose or punctuation.
#[verifier::loop_isolation(false)]
#[verifier::rlimit(100)]
pub fn tokenize(input: &str) -> (r: Vec<Token>)
    ensures
        spec_comment_line(input@, 0) ==> r@.len() == 1 && r@[0].token_type == TokenType::Comment
            && r@[0].text@ == input@,
        spec_token_texts(r@) == input@,
        forall|j: int| 0 <= j < r@.len() ==> (#[trigger] r@[j]).text@.len() > 0,
{
    let v = str_chars(input);
    let n = v.len();
    // comment lines
    let mut t: usize = 0;
    while t < n
        invariant
            t <= n,
            n == v@.len(),
            spec_comment_line(v@, 0) == spec_comment_line(v@, t as int),
        decreases n - t,
    {
        if v[t] == ' ' || v[t] == '\t' {
            t = t + 1;
        } else {
            break ;
        }
    }
    if t < n && (v[t] == '#' || (v[t] == '/' && t + 1 < n && v[t + 1] == '/')) {
        let mut tokens: Vec<Token> = Vec::new();
        let mut all: Vec<char> = Vec::new();
        let mut q: usize = 0;
        while q < n
            invariant
                q <= n,
                n == v@.len(),
                all@ == v@.subrange(0, q as int),
            decreases n - q,
        {
            all.push(v[q]);
            proof {
                assert(all@ =~= v@.subrange(0, q + 1 as int));
            }
            q = q + 1;
        }
        proof {
            assert(all@ =~= v@);
        }
        let ghost toks0 = tokens@;
        push_token(&mut tokens, all, TokenType::Comment);
        proof {
            lemma_texts_push(toks0, tokens@, v@);
            assert(spec_token_texts(toks0) =~= Seq::<char>::empty());
            assert(spec_token_texts(tokens@) =~= input@);
        }
        return tokens;
    }
    proof {
        assert(!spec_comment_line(v@, 0));
    }
    let assignment_var = find_assignment_variable(input);
    let mut tokens: Vec<Token> = Vec::new();
    let mut i: usize = 0;
    proof {
        assert(spec_token_texts(tokens@) =~= v@.subrange(0, 0));
    }
    while i < n
        invariant
            i <= n,
            n == v@.len(),
            spec_token_texts(tokens@) == v@.subrange(0, i as int),
            forall|j: int| 0 <= j < tokens@.len() ==> (#[trigger] tokens@[j]).text@.len() > 0,
        decreases n - i,
    {
        let c = v[i];
        let minus_number = c == '-' && i + 1 < n && '0' <= v[i + 1] && v[i + 1] <= '9';
        if ('0' <= c && c <= '9') || minus_number {
            let ghost start = i as int;
            let mut buf: Vec<char> = Vec::new();
            buf.push(c);
            i = i + 1;
            proof {
                assert(buf@ =~= v@.subrange(start, i as int));
            }
            while i < n
                invariant
                    i <= n,
                    start < i as int,
                    n == v@.len(),
                    buf@ == v@.subrange(start, i as int),
                decreases n - i,
            {
                let d = v[i];
                if ('0' <= d && d <= '9') || d == '.' {
                    buf.push(d);
                    proof {
                        assert(buf@ =~= v@.subrange(start, i + 1));
                    }
                    i = i + 1;
                } else {
                    break ;
                }
            }
            if i < n && v[i] == '%' {
                buf.push('%');
                proof {
                    assert(buf@ =~= v@.subrange(start, i + 1));
                }
                i = i + 1;
            }
            let ghost toks0 = tokens@;
            let ghost b = buf@;
            push_token(&mut tokens, buf, TokenType::Number);
            proof {
                lemma_texts_push(toks0, tokens@, b);
                assert(v@.subrange(0, start) + v@.subrange(start, i as int) =~= v@.subrange(
                    0,
                    i as int,
                ));
            }
        } else if is_currency_symbol(c) {
            let mut buf: Vec<char> = Vec::new();
            buf.push(c);
            proof {
                assert(buf@ =~= v@.subrange(i as int, i + 1));
            }
            let ghost toks0 = tokens@;
            let ghost b = buf@;
            push_token(&mut tokens, buf, TokenType::Currency);
            proof {
                lemma_texts_push(toks0, tokens@, b);
                assert(v@.subrange(0, i as int) + v@.subrange(i as int, i + 1) =~= v@.subrange(
                    0,
                    i + 1,
                ));
            }
            i = i + 1;
        } else if c == '+' || c == '*' || c == '/' || c == '^' || c == '×' || c == '÷' {
            let mut buf: Vec<char> = Vec::new();
            buf.push(c);
            proof {
                assert(buf@ =~= v@.subrange(i as int, i + 1));
            }
            let ghost toks0 = tokens@;
            let ghost b = buf@;
            push_token(&mut tokens, buf, TokenType::Operator);
            proof {
                lemma_texts_push(toks0, tokens@, b);
                assert(v@.subrange(0, i as int) + v@.subrange(i as int, i + 1) =~= v@.subrange(
                    0,
                    i + 1,
                ));
            }
            i = i + 1;
        } else if c == 'x' && is_multiply_context(v.as_slice(), i) {
            let mut buf: Vec<char> = Vec::new();
            buf.push('x');
            proof {
                assert(buf@ =~= v@.subrange(i as int, i + 1));
            }
            let ghost toks0 = tokens@;
            let ghost b = buf@;
            push_token(&mut tokens, buf, TokenType::Operator);
            proof {
                lemma_texts_push(toks0, tokens@, b);
                assert(v@.subrange(0, i as int) + v@.subrange(i as int, i + 1) =~= v@.subrange(
                    0,
                    i + 1,
                ));
            }
            i = i + 1;
        } else if c == '-' {
            let mut buf: Vec<char> = Vec::new();
            buf.push('-');
            proof {
                assert(buf@ =~= v@.subrange(i as int, i + 1));
            }
            let ghost toks0 = tokens@;
            let ghost b = buf@;
            push_token(&mut tokens, buf, TokenType::Operator);
            proof {
                lemma_texts_push(toks0, tokens@, b);
                assert(v@.subrange(0, i as int) + v@.subrange(i as int, i + 1) =~= v@.subrange(
                    0,
                    i + 1,
                ));
            }
            i = i + 1;
        } else if c == '=' {
            let mut buf: Vec<char> = Vec::new();
            buf.push('=');
            proof {
                assert(buf@ =~= v@.subrange(i as int, i + 1));
            }
            let ghost toks0 = tokens@;
            let ghost b = buf@;
            push_token(&mut tokens, buf, TokenType::Operator);
            proof {
                lemma_texts_push(toks0, tokens@, b);
                assert(v@.subrange(0, i as int) + v@.subrange(i as int, i + 1) =~= v@.subrange(
                    0,
                    i + 1,
                ));
            }
            i = i + 1;
        } else if char_is_alphabetic(c) || c == '_' {
            let ghost start = i as int;
            let mut buf: Vec<char> = Vec::new();
            buf.push(c);
            i = i + 1;
            proof {
                assert(buf@ =~= v@.subrange(start, i as int));
            }
            while i < n
                invariant
                    i <= n,
                    start < i as int,
                    n == v@.len(),
                    buf@ == v@.subrange(start, i as int),
                decreases n - i,
            {
                let d = v[i];
                if char_is_alphanumeric(d) || d == '_' {
                    buf.push(d);
                    proof {
                        assert(buf@ =~= v@.subrange(start, i + 1));
                    }
                    i = i + 1;
                } else {
                    break ;
                }
            }
            let lower = lower_chars(buf.as_slice());
            let token_type = if is_keyword(lower.as_slice()) {
                TokenType::Keyword
            } else if is_function_name(lower.as_slice()) {
                TokenType::Function
            } else if is_unit_word_chars(buf.as_slice()) {
                TokenType::Unit
            } else if is_currency_word_chars(buf.as_slice()) {
                TokenType::Currency
            } else {
                let is_def = match &assignment_var {
                    Some(w) => crate::text::chars_eq(buf.as_slice(), w.as_slice()),
                    None => false,
                };
                if is_def {
                    TokenType::Variable
                } else {
                    TokenType::Text
                }
            };
            let ghost toks0 = tokens@;
            let ghost b = buf@;
            push_token(&mut tokens, buf, token_type);
            proof {
                lemma_texts_push(toks0, tokens@, b);
                assert(v@.subrange(0, start) + v@.subrange(start, i as int) =~= v@.subrange(
                    0,
                    i as int,
                ));
            }
        } else if c == '(' || c == ')' || c == ',' {
            let mut buf: Vec<char> = Vec::new();
            buf.push(c);
            proof {
                assert(buf@ =~= v@.subrange(i as int, i + 1));
            }
            let ghost toks0 = tokens@;
            let ghost b = buf@;
            push_token(&mut tokens, buf, TokenType::Punctuation);
            proof {
                lemma_texts_push(toks0, tokens@, b);
                assert(v@.subrange(0, i as int) + v@.subrange(i as int, i + 1) =~= v@.subrange(
                    0,
                    i + 1,
                ));
            }
            i = i + 1;
        } else if c == ' ' || c == '\t' {
            let ghost start = i as int;
            let mut buf: Vec<char> = Vec::new();
            buf.push(c);
            i = i + 1;
            proof {
                assert(buf@ =~= v@.subrange(start, i as int));
            }
            while i < n
                invariant
                    i <= n,
                    start < i as int,
                    n == v@.len(),
                    buf@ == v@.subrange(start, i as int),
                decreases n - i,
            {
                let d = v[i];
                if d == ' ' || d == '\t' {
                    buf.push(d);
                    proof {
                        assert(buf@ =~= v@.subrange(start, i + 1));
                    }
                    i = i + 1;
                } else {
                    break ;
                }
            }
            let ghost toks0 = tokens@;
            let ghost b = buf@;
            push_token(&mut tokens, buf, TokenType::Whitespace);
            proof {
                lemma_texts_push(toks0, tokens@, b);
                assert(v@.subrange(0, start) + v@.subrange(start, i as int) =~= v@.subrange(
                    0,
                    i as int,
                ));
            }
        } else {
            let mut buf: Vec<char> = Vec::new();
            buf.push(c);
            proof {
                assert(buf@ =~= v@.subrange(i as int, i + 1));
            }
            let ghost toks0 = tokens@;
            let ghost b = buf@;
            push_token(&mut tokens, buf, TokenType::Punctuation);
            proof {
                lemma_texts_push(toks0, tokens@, b);
                assert(v@.subrange(0, i as int) + v@.subrange(i as int, i + 1) =~= v@.subrange(
                    0,
                    i + 1,
                ));
            }
            i = i + 1;
        }
    }
    proof {
        assert(v@.subrange(0, n as int) =~= v@);
    }
    tokens
}

} // verus!
