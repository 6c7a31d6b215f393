//! Recursive-descent parser turning tokens into an [`Expr`].
//!
//! Supported syntax:
//! - binary operators `+ - * / ^` (with `^` right-associative)
//! - unary `-`
//! - implicit multiplication: `2x`, `3sin(x)`, `x(x+1)`
//! - functions: `sin cos tan asin acos atan sinh cosh tanh exp ln log sqrt abs`
//! - constants: `pi`, `e`
//! - variable: `x`
//! - `pow(a, b)` and `log(x, base)` two-argument forms
//!
//! A number token names its literal by position; the parser takes the value
//! of each literal (the bits of its double) from a list in that order.
use vstd::prelude::*;
use crate::ast::{is_unary_fn_name, make_unary_fn, mk_add, mk_div, mk_ln, mk_mul, mk_neg, mk_pow, mk_sub, unary_fn_of, Const, Expr};
use crate::text::str_eq;
use crate::lexer::{TokV, Tok, toks_view};

verus! {

/// A parse from some position: the expression and the position after it,
/// or an error message.
pub type Parsed = Result<(Expr, int), Seq<char>>;

/// The token at position `p`, if any.
pub open spec fn tok_at(ts: Seq<TokV>, p: int) -> Option<TokV> {
    if 0 <= p < ts.len() {
        Some(ts[p])
    } else {
        None
    }
}

/// The `{:?}` text of a token. (A number token never appears in a message.)
pub open spec fn tok_debug(t: TokV) -> Seq<char> {
    match t {
        TokV::Num(_) => "Num"@,
        TokV::Ident(s) => "Ident(\""@ + s + "\")"@,
        TokV::Plus => "Plus"@,
        TokV::Minus => "Minus"@,
        TokV::Star => "Star"@,
        TokV::Slash => "Slash"@,
        TokV::Caret => "Caret"@,
        TokV::LParen => "LParen"@,
        TokV::RParen => "RParen"@,
        TokV::Comma => "Comma"@,
    }
}

/// The `{:?}` text of an optional token.
pub open spec fn opt_tok_debug(t: Option<TokV>) -> Seq<char> {
    match t {
        None => "None"@,
        Some(t) => "Some("@ + tok_debug(t) + ")"@,
    }
}

pub open spec fn msg_expected_rparen() -> Seq<char> {
    "expected ')'"@
}

pub open spec fn msg_unexpected_token(t: Option<TokV>) -> Seq<char> {
    "unexpected token: "@ + opt_tok_debug(t)
}

pub open spec fn msg_pow_arity() -> Seq<char> {
    "pow() requires two arguments: pow(base, exp)"@
}

pub open spec fn msg_unknown_ident(name: Seq<char>) -> Seq<char> {
    "unknown identifier '"@ + name + "'"@
}

pub open spec fn msg_fn_paren() -> Seq<char> {
    "expected '(' after function name"@
}

pub open spec fn msg_empty() -> Seq<char> {
    "empty expression"@
}

pub open spec fn msg_trailing(t: TokV) -> Seq<char> {
    "unexpected trailing input: "@ + tok_debug(t)
}

/// `e` followed by `)` at `q`.
pub open spec fn close_paren(ts: Seq<TokV>, e: Expr, q: int) -> Parsed {
    if tok_at(ts, q) == Some(TokV::RParen) {
        Ok((e, q + 1))
    } else {
        Err(msg_expected_rparen())
    }
}

/// Additive layer: a product, then any number of `+ product` / `- product`.
pub open spec fn p_add(ts: Seq<TokV>, vs: Seq<u64>, p: int) -> Parsed
    decreases ts.len() - p, 6nat,
{
    match p_mul(ts, vs, p) {
        Err(m) => Err(m),
        Ok((lhs, q)) => if p < q <= ts.len() {
            p_add_rest(ts, vs, q, lhs)
        } else {
            Ok((lhs, q))
        },
    }
}

/// The `+ product` / `- product` tail of a sum whose left part is `lhs`.
pub open spec fn p_add_rest(ts: Seq<TokV>, vs: Seq<u64>, p: int, lhs: Expr) -> Parsed
    decreases ts.len() - p, 6nat,
{
    match tok_at(ts, p) {
        Some(TokV::Plus) => match p_mul(ts, vs, p + 1) {
            Err(m) => Err(m),
            Ok((rhs, q)) => if p + 1 < q <= ts.len() {
                p_add_rest(ts, vs, q, mk_add(lhs, rhs))
            } else {
                Ok((mk_add(lhs, rhs), q))
            },
        },
        Some(TokV::Minus) => match p_mul(ts, vs, p + 1) {
            Err(m) => Err(m),
            Ok((rhs, q)) => if p + 1 < q <= ts.len() {
                p_add_rest(ts, vs, q, mk_sub(lhs, rhs))
            } else {
                Ok((mk_sub(lhs, rhs), q))
            },
        },
        _ => Ok((lhs, p)),
    }
}

/// Multiplicative layer: a unary term, then any number of `* term`,
/// `/ term`, or terms written next to it (implicit multiplication).
pub open spec fn p_mul(ts: Seq<TokV>, vs: Seq<u64>, p: int) -> Parsed
    decreases ts.len() - p, 5nat,
{
    match p_unary(ts, vs, p) {
        Err(m) => Err(m),
        Ok((lhs, q)) => if p < q <= ts.len() {
            p_mul_rest(ts, vs, q, lhs)
        } else {
            Ok((lhs, q))
        },
    }
}

/// The tail of a product whose left part is `lhs`.
pub open spec fn p_mul_rest(ts: Seq<TokV>, vs: Seq<u64>, p: int, lhs: Expr) -> Parsed
    decreases ts.len() - p, 5nat,
{
    match tok_at(ts, p) {
        Some(TokV::Star) => match p_unary(ts, vs, p + 1) {
            Err(m) => Err(m),
            Ok((rhs, q)) => if p + 1 < q <= ts.len() {
                p_mul_rest(ts, vs, q, mk_mul(lhs, rhs))
            } else {
                Ok((mk_mul(lhs, rhs), q))
            },
        },
        Some(TokV::Slash) => match p_unary(ts, vs, p + 1) {
            Err(m) => Err(m),
            Ok((rhs, q)) => if p + 1 < q <= ts.len() {
                p_mul_rest(ts, vs, q, mk_div(lhs, rhs))
            } else {
                Ok((mk_div(lhs, rhs), q))
            },
        },
        Some(TokV::Num(_)) | Some(TokV::Ident(_)) | Some(TokV::LParen) => match p_unary(ts, vs, p) {
            Err(m) => Err(m),
            Ok((rhs, q)) => if p < q <= ts.len() {
                p_mul_rest(ts, vs, q, mk_mul(lhs, rhs))
            } else {
                Ok((mk_mul(lhs, rhs), q))
            },
        },
        _ => Ok((lhs, p)),
    }
}

/// Unary layer: `- unary`, or a power.
pub open spec fn p_unary(ts: Seq<TokV>, vs: Seq<u64>, p: int) -> Parsed
    decreases ts.len() - p, 4nat,
{
    if tok_at(ts, p) == Some(TokV::Minus) {
        match p_unary(ts, vs, p + 1) {
            Err(m) => Err(m),
            Ok((e, q)) => Ok((mk_neg(e), q)),
        }
    } else {
        p_power(ts, vs, p)
    }
}

/// A primary, optionally raised to `^ unary` (so `^` is right-associative).
pub open spec fn p_power(ts: Seq<TokV>, vs: Seq<u64>, p: int) -> Parsed
    decreases ts.len() - p, 3nat,
{
    match p_primary(ts, vs, p) {
        Err(m) => Err(m),
        Ok((base, q)) => if p <= q < ts.len() && tok_at(ts, q) == Some(TokV::Caret) {
            match p_unary(ts, vs, q + 1) {
                Err(m) => Err(m),
                Ok((exp, q2)) => Ok((mk_pow(base, exp), q2)),
            }
        } else {
            Ok((base, q))
        },
    }
}

/// A number, an identifier (variable, constant or function application), or
/// a parenthesised expression.
pub open spec fn p_primary(ts: Seq<TokV>, vs: Seq<u64>, p: int) -> Parsed
    decreases ts.len() - p, 2nat,
{
    match tok_at(ts, p) {
        Some(TokV::Num(k)) => Ok((Expr::Num(vs[k as int]), p + 1)),
        Some(TokV::Ident(name)) => p_ident(ts, vs, p + 1, name),
        Some(TokV::LParen) => match p_add(ts, vs, p + 1) {
            Err(m) => Err(m),
            Ok((e, q)) => close_paren(ts, e, q),
        },
        other => Err(msg_unexpected_token(other)),
    }
}

/// What follows the identifier `name`, whose token ends before `p`.
pub open spec fn p_ident(ts: Seq<TokV>, vs: Seq<u64>, p: int, name: Seq<char>) -> Parsed
    decreases ts.len() - p, 1nat,
{
    if name == "x"@ {
        Ok((Expr::Var, p))
    } else if name == "pi"@ {
        Ok((Expr::Const(Const::Pi), p))
    } else if name == "e"@ {
        Ok((Expr::Const(Const::E), p))
    } else if unary_fn_of(name, Expr::Var) is Some {
        match p_fn_arg(ts, vs, p) {
            Err(m) => Err(m),
            Ok((a, q)) => Ok((unary_fn_of(name, a).unwrap(), q)),
        }
    } else if name == "log"@ {
        // log(x) -> log10(x); log(x, b) -> ln(x)/ln(b)
        match p_fn_open(ts, vs, p) {
            Err(m) => Err(m),
            Ok((a, q)) => if p <= q < ts.len() && tok_at(ts, q) == Some(TokV::Comma) {
                match p_add(ts, vs, q + 1) {
                    Err(m) => Err(m),
                    Ok((b, q2)) => close_paren(ts, mk_div(mk_ln(a), mk_ln(b)), q2),
                }
            } else {
                close_paren(ts, Expr::Log(Box::new(a)), q)
            },
        }
    } else if name == "pow"@ {
        match p_fn_open(ts, vs, p) {
            Err(m) => Err(m),
            Ok((a, q)) => if p <= q < ts.len() && tok_at(ts, q) == Some(TokV::Comma) {
                match p_add(ts, vs, q + 1) {
                    Err(m) => Err(m),
                    Ok((b, q2)) => close_paren(ts, mk_pow(a, b), q2),
                }
            } else {
                Err(msg_pow_arity())
            },
        }
    } else {
        Err(msg_unknown_ident(name))
    }
}

/// An opening bracket and the first argument of a function.
pub open spec fn p_fn_open(ts: Seq<TokV>, vs: Seq<u64>, p: int) -> Parsed
    decreases ts.len() - p, 0nat,
{
    if tok_at(ts, p) == Some(TokV::LParen) {
        p_add(ts, vs, p + 1)
    } else {
        Err(msg_fn_paren())
    }
}

/// A parenthesised function argument.
pub open spec fn p_fn_arg(ts: Seq<TokV>, vs: Seq<u64>, p: int) -> Parsed
    decreases ts.len() - p, 0nat,
{
    if tok_at(ts, p) == Some(TokV::LParen) {
        match p_add(ts, vs, p + 1) {
            Err(m) => Err(m),
            Ok((e, q)) => close_paren(ts, e, q),
        }
    } else {
        Err(msg_fn_paren())
    }
}

/// The expression that a whole token sequence spells, or the first error.
pub open spec fn parse_of(ts: Seq<TokV>, vs: Seq<u64>) -> Result<Expr, Seq<char>> {
    if ts.len() == 0 {
        Err(msg_empty())
    } else {
        match p_add(ts, vs, 0) {
            Err(m) => Err(m),
            Ok((e, q)) => if 0 <= q < ts.len() {
                Err(msg_trailing(ts[q]))
            } else {
                Ok(e)
            },
        }
    }
}

/// The `{:?}` text of a token.
fn tok_debug_text(t: &Tok) -> (r: String)
    ensures
        r@ == tok_debug(t@),
{
    match t {
        Tok::Num(_) => String::from_str("Num"),
        Tok::Ident(s) => {
            let mut r = String::from_str("Ident(\"");
            r.append(s.as_str());
            r.append("\")");
            r
        },
        Tok::Plus => String::from_str("Plus"),
        Tok::Minus => String::from_str("Minus"),
        Tok::Star => String::from_str("Star"),
        Tok::Slash => String::from_str("Slash"),
        Tok::Caret => String::from_str("Caret"),
        Tok::LParen => String::from_str("LParen"),
        Tok::RParen => String::from_str("RParen"),
        Tok::Comma => String::from_str("Comma"),
    }
}

/// The message for a token that cannot start a primary.
fn unexpected_token_text(t: &Option<Tok>) -> (r: String)
    ensures
        r@ == msg_unexpected_token(
            match t {
                Some(t) => Some(t@),
                None => None::<TokV>,
            },
        ),
{
    let mut m = String::from_str("unexpected token: ");
    match t {
        None => {
            m.append("None");
        },
        Some(t) => {
            m.append("Some(");
            m.append(tok_debug_text(t).as_str());
            m.append(")");
        },
    }
    m
}

/// A copy of a token.
fn copy_tok(t: &Tok) -> (r: Tok)
    ensures
        r@ == t@,
{
    match t {
        Tok::Num(k) => Tok::Num(*k),
        Tok::Ident(s) => Tok::Ident(s.clone()),
        Tok::Plus => Tok::Plus,
        Tok::Minus => Tok::Minus,
        Tok::Star => Tok::Star,
        Tok::Slash => Tok::Slash,
        Tok::Caret => Tok::Caret,
        Tok::LParen => Tok::LParen,
        Tok::RParen => Tok::RParen,
        Tok::Comma => Tok::Comma,
    }
}

/// Parsing state: the tokens, the values of the number literals, and the
/// current position.
pub struct Parser {
    pub toks: Vec<Tok>,
    pub pos: usize,
    pub numbers: Vec<u64>,
}

impl Parser {
    pub open spec fn ts(&self) -> Seq<TokV> {
        toks_view(self.toks@)
    }

    /// Every number token names a literal that has a value.
    pub open spec fn numbers_cover(&self) -> bool {
        forall|i: int| 0 <= i < self.toks@.len() ==> (#[trigger] self.toks@[i] matches Tok::Num(k)
            ==> k < self.numbers@.len())
    }

    /// What a parse step leaves unchanged, and the outcome it must match.
    pub open spec fn step_ok(old: &Parser, new: &Parser, r: Result<Expr, String>, spec_r: Parsed) -> bool {
        &&& new.toks@ == old.toks@
        &&& new.numbers@ == old.numbers@
        &&& match r {
            Ok(e) => spec_r == Ok::<(Expr, int), Seq<char>>((e, new.pos as int)) && old.pos < new.pos
                <= new.toks@.len(),
            Err(m) => spec_r == Err::<(Expr, int), Seq<char>>(m@),
        }
    }

    fn peek(&self) -> (r: Option<&Tok>)
        ensures
            match r {
                Some(t) => self.pos < self.toks@.len() && t@ == self.ts()[self.pos as int],
                None => self.pos >= self.toks@.len(),
            },
    {
        if self.pos < self.toks.len() {
            Some(&self.toks[self.pos])
        } else {
            None
        }
    }

    fn bump(&mut self) -> (r: Option<Tok>)
        ensures
            final(self).toks@ == old(self).toks@,
            final(self).numbers@ == old(self).numbers@,
            match r {
                Some(t) => old(self).pos < old(self).toks@.len() && t@ == old(self).ts()[old(self).pos as int]
                    && final(self).pos == old(self).pos + 1,
                None => old(self).pos >= old(self).toks@.len() && final(self).pos == old(self).pos,
            },
    {
        if self.pos < self.toks.len() {
            let t = copy_tok(&self.toks[self.pos]);
            self.pos = self.pos + 1;
            Some(t)
        } else {
            None
        }
    }

    fn expect_rparen(&mut self) -> (r: Result<(), String>)
        ensures
            final(self).toks@ == old(self).toks@,
            final(self).numbers@ == old(self).numbers@,
            match r {
                Ok(_) => tok_at(old(self).ts(), old(self).pos as int) == Some(TokV::RParen) && final(self).pos
                    == old(self).pos + 1,
                Err(m) => tok_at(old(self).ts(), old(self).pos as int) != Some(TokV::RParen) && m@
                    == msg_expected_rparen(),
            },
    {
        match self.bump() {
            Some(Tok::RParen) => Ok(()),
            _ => Err(String::from_str("expected ')'")),
        }
    }

    /// Additive layer: `+` and `-`.
    fn parse_add(&mut self) -> (r: Result<Expr, String>)
        requires
            old(self).numbers_cover(),
            old(self).pos <= old(self).toks@.len(),
        ensures
            Self::step_ok(old(self), final(self), r, p_add(old(self).ts(), old(self).numbers@, old(self).pos as int)),
        decreases old(self).toks@.len() - old(self).pos, 6nat,
    {
        let ghost ts = self.ts();
        let ghost vs = self.numbers@;
        let ghost p0 = self.pos as int;
        let ghost t0 = self.toks@;
        let mut lhs = self.parse_mul()?;
        loop
            invariant
                self.toks@ == t0,
                t0 == old(self).toks@,
                p0 == old(self).pos as int,
                vs == old(self).numbers@,
                self.ts() == ts,
                self.numbers@ == vs,
                self.numbers_cover(),
                p0 < self.pos <= ts.len(),
                p_add(ts, vs, p0) == p_add_rest(ts, vs, self.pos as int, lhs),
            ensures
                self.toks@ == t0,
                self.numbers@ == vs,
                p0 < self.pos <= ts.len(),
                p_add(ts, vs, p0) == Ok::<(Expr, int), Seq<char>>((lhs, self.pos as int)),
            decreases ts.len() - self.pos,
        {
            match self.peek() {
                Some(Tok::Plus) => {
                    self.bump();
                    let rhs = self.parse_mul()?;
                    lhs = Expr::add(lhs, rhs);
                },
                Some(Tok::Minus) => {
                    self.bump();
                    let rhs = self.parse_mul()?;
                    lhs = Expr::sub(lhs, rhs);
                },
                _ => break,
            }
        }
        Ok(lhs)
    }

    /// Multiplicative layer: `*`, `/` and implicit multiplication.
    fn parse_mul(&mut self) -> (r: Result<Expr, String>)
        requires
            old(self).numbers_cover(),
            old(self).pos <= old(self).toks@.len(),
        ensures
            Self::step_ok(old(self), final(self), r, p_mul(old(self).ts(), old(self).numbers@, old(self).pos as int)),
        decreases old(self).toks@.len() - old(self).pos, 5nat,
    {
        let ghost ts = self.ts();
        let ghost vs = self.numbers@;
        let ghost p0 = self.pos as int;
        let ghost t0 = self.toks@;
        let mut lhs = self.parse_unary()?;
        loop
            invariant
                self.toks@ == t0,
                t0 == old(self).toks@,
                p0 == old(self).pos as int,
                vs == old(self).numbers@,
                self.ts() == ts,
                self.numbers@ == vs,
                self.numbers_cover(),
                p0 < self.pos <= ts.len(),
                p_mul(ts, vs, p0) == p_mul_rest(ts, vs, self.pos as int, lhs),
            ensures
                self.toks@ == t0,
                self.numbers@ == vs,
                p0 < self.pos <= ts.len(),
                p_mul(ts, vs, p0) == Ok::<(Expr, int), Seq<char>>((lhs, self.pos as int)),
            decreases ts.len() - self.pos,
        {
            match self.peek() {
                Some(Tok::Star) => {
                    self.bump();
                    let rhs = self.parse_unary()?;
                    lhs = Expr::mul(lhs, rhs);
                },
                Some(Tok::Slash) => {
                    self.bump();
                    let rhs = self.parse_unary()?;
                    lhs = Expr::div(lhs, rhs);
                },
                Some(Tok::Num(_)) | Some(Tok::Ident(_)) | Some(Tok::LParen) => {
                    let rhs = self.parse_unary()?;
                    lhs = Expr::mul(lhs, rhs);
                },
                _ => break,
            }
        }
        Ok(lhs)
    }

    /// Unary layer: `-` and power.
    fn parse_unary(&mut self) -> (r: Result<Expr, String>)
        requires
            old(self).numbers_cover(),
            old(self).pos <= old(self).toks@.len(),
        ensures
            Self::step_ok(old(self), final(self), r, p_unary(old(self).ts(), old(self).numbers@, old(self).pos as int)),
        decreases old(self).toks@.len() - old(self).pos, 4nat,
    {
        if let Some(Tok::Minus) = self.peek() {
            self.bump();
            let e = self.parse_unary()?;
            return Ok(Expr::neg(e));
        }
        self.parse_power()
    }

    /// A primary, optionally followed by `^ unary` (right-associative).
    fn parse_power(&mut self) -> (r: Result<Expr, String>)
        requires
            old(self).numbers_cover(),
            old(self).pos <= old(self).toks@.len(),
        ensures
            Self::step_ok(old(self), final(self), r, p_power(old(self).ts(), old(self).numbers@, old(self).pos as int)),
        decreases old(self).toks@.len() - old(self).pos, 3nat,
    {
        let base = self.parse_primary()?;
        if let Some(Tok::Caret) = self.peek() {
            self.bump();
            let exp = self.parse_unary()?;
            return Ok(Expr::pow(base, exp));
        }
        Ok(base)
    }

    /// A number, an identifier, or a parenthesised expression.
    fn parse_primary(&mut self) -> (r: Result<Expr, String>)
        requires
            old(self).numbers_cover(),
            old(self).pos <= old(self).toks@.len(),
        ensures
            Self::step_ok(old(self), final(self), r, p_primary(old(self).ts(), old(self).numbers@, old(self).pos as int)),
        decreases old(self).toks@.len() - old(self).pos, 2nat,
    {
        let ghost p0 = self.pos as int;
        match self.bump() {
            Some(Tok::Num(k)) => {
                proof {
                    assert(self.toks@[p0]@ == TokV::Num(k));
                    assert(self.toks@[p0] matches Tok::Num(_));
                }
                Ok(Expr::num(self.numbers[k]))
            },
            Some(Tok::Ident(name)) => self.parse_ident(name),
            Some(Tok::LParen) => {
                let e = self.parse_add()?;
                self.expect_rparen()?;
                Ok(e)
            },
            other => Err(unexpected_token_text(&other)),
        }
    }

    /// What follows an identifier: a variable, a constant, or a function
    /// applied to its argument(s).
    fn parse_ident(&mut self, name: String) -> (r: Result<Expr, String>)
        requires
            old(self).numbers_cover(),
            old(self).pos <= old(self).toks@.len(),
        ensures
            Self::step_ok_weak(old(self), final(self), r, p_ident(old(self).ts(), old(self).numbers@, old(self).pos as int, name@)),
        decreases old(self).toks@.len() - old(self).pos, 1nat,
    {
        let n = name.as_str();
        if str_eq(n, "x") {
            Ok(Expr::var())
        } else if str_eq(n, "pi") {
            Ok(Expr::Const(Const::Pi))
        } else if str_eq(n, "e") {
            Ok(Expr::Const(Const::E))
        } else if is_unary_fn_name(n) {
            let arg = self.parse_fn_arg()?;
            Ok(make_unary_fn(n, arg))
        } else if str_eq(n, "log") {
            let a = self.parse_fn_open()?;
            if let Some(Tok::Comma) = self.peek() {
                self.bump();
                let b = self.parse_add()?;
                self.expect_rparen()?;
                Ok(Expr::div(Expr::ln(a), Expr::ln(b)))
            } else {
                self.expect_rparen()?;
                Ok(Expr::Log(Box::new(a)))
            }
        } else if str_eq(n, "pow") {
            let a = self.parse_fn_open()?;
            if let Some(Tok::Comma) = self.peek() {
                self.bump();
                let b = self.parse_add()?;
                self.expect_rparen()?;
                Ok(Expr::pow(a, b))
            } else {
                Err(String::from_str("pow() requires two arguments: pow(base, exp)"))
            }
        } else {
            let mut m = String::from_str("unknown identifier '");
            m.append(n);
            m.append("'");
            Err(m)
        }
    }

    /// An opening bracket and the first argument of a function.
    fn parse_fn_open(&mut self) -> (r: Result<Expr, String>)
        requires
            old(self).numbers_cover(),
            old(self).pos <= old(self).toks@.len(),
        ensures
            Self::step_ok(old(self), final(self), r, p_fn_open(old(self).ts(), old(self).numbers@, old(self).pos as int)),
        decreases old(self).toks@.len() - old(self).pos, 0nat,
    {
        match self.bump() {
            Some(Tok::LParen) => self.parse_add(),
            _ => Err(String::from_str("expected '(' after function name")),
        }
    }

    /// A parenthesised function argument.
    fn parse_fn_arg(&mut self) -> (r: Result<Expr, String>)
        requires
            old(self).numbers_cover(),
            old(self).pos <= old(self).toks@.len(),
        ensures
            Self::step_ok(old(self), final(self), r, p_fn_arg(old(self).ts(), old(self).numbers@, old(self).pos as int)),
        decreases old(self).toks@.len() - old(self).pos, 0nat,
    {
        match self.bump() {
            Some(Tok::LParen) => {
                let e = self.parse_add()?;
                self.expect_rparen()?;
                Ok(e)
            },
            _ => Err(String::from_str("expected '(' after function name")),
        }
    }

    /// What a parse step leaves unchanged, and the outcome it must match,
    /// for a step that may consume nothing.
    pub open spec fn step_ok_weak(old: &Parser, new: &Parser, r: Result<Expr, String>, spec_r: Parsed) -> bool {
        &&& new.toks@ == old.toks@
        &&& new.numbers@ == old.numbers@
        &&& match r {
            Ok(e) => spec_r == Ok::<(Expr, int), Seq<char>>((e, new.pos as int)) && old.pos <= new.pos
                <= new.toks@.len(),
            Err(m) => spec_r == Err::<(Expr, int), Seq<char>>(m@),
        }
    }

    /// Parse all tokens as one expression.
    pub fn parse(self) -> (r: Result<Expr, String>)
        requires
            self.numbers_cover(),
            self.pos == 0,
        ensures
            match r {
                Ok(e) => parse_of(self.ts(), self.numbers@) == Ok::<Expr, Seq<char>>(e),
                Err(m) => parse_of(self.ts(), self.numbers@) == Err::<Expr, Seq<char>>(m@),
            },
    {
        let mut p = self;
        if p.toks.len() == 0 {
            return Err(String::from_str("empty expression"));
        }
        let e = p.parse_add()?;
        if let Some(t) = p.peek() {
            let mut m = String::from_str("unexpected trailing input: ");
            m.append(tok_debug_text(t).as_str());
            return Err(m);
        }
        Ok(e)
    }
}

/// Parse a token sequence, taking the value of the `k`-th number literal
/// from `numbers[k]`.
pub fn parse_tokens(toks: Vec<Tok>, numbers: Vec<u64>) -> (r: Result<Expr, String>)
    requires
        forall|i: int| 0 <= i < toks@.len() ==> (#[trigger] toks@[i] matches Tok::Num(k) ==> k < numbers@.len()),
    ensures
        match r {
            Ok(e) => parse_of(toks_view(toks@), numbers@) == Ok::<Expr, Seq<char>>(e),
            Err(m) => parse_of(toks_view(toks@), numbers@) == Err::<Expr, Seq<char>>(m@),
        },
{
    Parser { toks, pos: 0, numbers }.parse()
}

/// Whether a token can follow a complete sum: none, `)` or `,`.
pub open spec fn ends_sum(t: Option<TokV>) -> bool {
    t is None || t == Some(TokV::RParen) || t == Some(TokV::Comma)
}

/// Whether a token can follow a complete product: none of `* / ^`, a
/// number, an identifier or `(`.
pub open spec fn ends_product(t: Option<TokV>) -> bool {
    match t {
        Some(TokV::Star) | Some(TokV::Slash) | Some(TokV::Caret) | Some(TokV::Num(_)) | Some(
            TokV::Ident(_),
        ) | Some(TokV::LParen) => false,
        _ => true,
    }
}

proof fn lemma_add(ts: Seq<TokV>, vs: Seq<u64>, p: int)
    requires
        0 <= p <= ts.len(),
    ensures
        p_add(ts, vs, p) matches Ok((e, q)) ==> p < q <= ts.len() && ends_sum(tok_at(ts, q)),
    decreases ts.len() - p, 6nat,
{
    lemma_mul(ts, vs, p);
    if let Ok((lhs, q)) = p_mul(ts, vs, p) {
        lemma_add_rest(ts, vs, q, lhs);
    }
}

proof fn lemma_add_rest(ts: Seq<TokV>, vs: Seq<u64>, p: int, lhs: Expr)
    requires
        0 <= p <= ts.len(),
        ends_product(tok_at(ts, p)),
    ensures
        p_add_rest(ts, vs, p, lhs) matches Ok((e, q)) ==> p <= q <= ts.len() && ends_sum(tok_at(ts, q)),
    decreases ts.len() - p, 6nat,
{
    match tok_at(ts, p) {
        Some(TokV::Plus) => {
            lemma_mul(ts, vs, p + 1);
            if let Ok((rhs, q)) = p_mul(ts, vs, p + 1) {
                lemma_add_rest(ts, vs, q, mk_add(lhs, rhs));
            }
        },
        Some(TokV::Minus) => {
            lemma_mul(ts, vs, p + 1);
            if let Ok((rhs, q)) = p_mul(ts, vs, p + 1) {
                lemma_add_rest(ts, vs, q, mk_sub(lhs, rhs));
            }
        },
        _ => {},
    }
}

proof fn lemma_mul(ts: Seq<TokV>, vs: Seq<u64>, p: int)
    requires
        0 <= p <= ts.len(),
    ensures
        p_mul(ts, vs, p) matches Ok((e, q)) ==> p < q <= ts.len() && ends_product(tok_at(ts, q)),
    decreases ts.len() - p, 5nat,
{
    lemma_unary(ts, vs, p);
    if let Ok((lhs, q)) = p_unary(ts, vs, p) {
        lemma_mul_rest(ts, vs, q, lhs);
    }
}

proof fn lemma_mul_rest(ts: Seq<TokV>, vs: Seq<u64>, p: int, lhs: Expr)
    requires
        0 <= p <= ts.len(),
        tok_at(ts, p) != Some(TokV::Caret),
    ensures
        p_mul_rest(ts, vs, p, lhs) matches Ok((e, q)) ==> p <= q <= ts.len() && ends_product(tok_at(ts, q)),
    decreases ts.len() - p, 5nat,
{
    match tok_at(ts, p) {
        Some(TokV::Star) => {
            lemma_unary(ts, vs, p + 1);
            if let Ok((rhs, q)) = p_unary(ts, vs, p + 1) {
                lemma_mul_rest(ts, vs, q, mk_mul(lhs, rhs));
            }
        },
        Some(TokV::Slash) => {
            lemma_unary(ts, vs, p + 1);
            if let Ok((rhs, q)) = p_unary(ts, vs, p + 1) {
                lemma_mul_rest(ts, vs, q, mk_div(lhs, rhs));
            }
        },
        Some(TokV::Num(_)) | Some(TokV::Ident(_)) | Some(TokV::LParen) => {
            lemma_unary(ts, vs, p);
            if let Ok((rhs, q)) = p_unary(ts, vs, p) {
                lemma_mul_rest(ts, vs, q, mk_mul(lhs, rhs));
            }
        },
        _ => {},
    }
}

proof fn lemma_unary(ts: Seq<TokV>, vs: Seq<u64>, p: int)
    requires
        0 <= p <= ts.len(),
    ensures
        p_unary(ts, vs, p) matches Ok((e, q)) ==> p < q <= ts.len() && tok_at(ts, q) != Some(TokV::Caret),
    decreases ts.len() - p, 4nat,
{
    if tok_at(ts, p) == Some(TokV::Minus) {
        lemma_unary(ts, vs, p + 1);
    } else {
        lemma_power(ts, vs, p);
    }
}

proof fn lemma_power(ts: Seq<TokV>, vs: Seq<u64>, p: int)
    requires
        0 <= p <= ts.len(),
    ensures
        p_power(ts, vs, p) matches Ok((e, q)) ==> p < q <= ts.len() && tok_at(ts, q) != Some(TokV::Caret),
    decreases ts.len() - p, 3nat,
{
    lemma_primary(ts, vs, p);
    if let Ok((base, q)) = p_primary(ts, vs, p) {
        if p <= q < ts.len() && tok_at(ts, q) == Some(TokV::Caret) {
            lemma_unary(ts, vs, q + 1);
        }
    }
}

proof fn lemma_primary(ts: Seq<TokV>, vs: Seq<u64>, p: int)
    requires
        0 <= p <= ts.len(),
    ensures
        p_primary(ts, vs, p) matches Ok((e, q)) ==> p < q <= ts.len(),
    decreases ts.len() - p, 2nat,
{
    match tok_at(ts, p) {
        Some(TokV::Ident(name)) => {
            lemma_ident(ts, vs, p + 1, name);
        },
        Some(TokV::LParen) => {
            lemma_add(ts, vs, p + 1);
        },
        _ => {},
    }
}

proof fn lemma_ident(ts: Seq<TokV>, vs: Seq<u64>, p: int, name: Seq<char>)
    requires
        0 <= p <= ts.len(),
    ensures
        p_ident(ts, vs, p, name) matches Ok((e, q)) ==> p <= q <= ts.len(),
    decreases ts.len() - p, 1nat,
{
    lemma_fn_arg(ts, vs, p);
    lemma_fn_open(ts, vs, p);
    if let Ok((a, q)) = p_fn_open(ts, vs, p) {
        if p <= q < ts.len() && tok_at(ts, q) == Some(TokV::Comma) {
            lemma_add(ts, vs, q + 1);
        }
    }
}

proof fn lemma_fn_open(ts: Seq<TokV>, vs: Seq<u64>, p: int)
    requires
        0 <= p <= ts.len(),
    ensures
        p_fn_open(ts, vs, p) matches Ok((e, q)) ==> p < q <= ts.len(),
    decreases ts.len() - p, 0nat,
{
    if tok_at(ts, p) == Some(TokV::LParen) {
        lemma_add(ts, vs, p + 1);
    }
}

proof fn lemma_fn_arg(ts: Seq<TokV>, vs: Seq<u64>, p: int)
    requires
        0 <= p <= ts.len(),
    ensures
        p_fn_arg(ts, vs, p) matches Ok((e, q)) ==> p < q <= ts.len(),
    decreases ts.len() - p, 0nat,
{
    if tok_at(ts, p) == Some(TokV::LParen) {
        lemma_add(ts, vs, p + 1);
    }
}

/// A complete expression is followed only by the end of the input, `)` or
/// `,`: input left over after an expression is always one of those two
/// tokens (so the message about it never has to show a number).
pub proof fn law_expression_ends_at_bracket_or_comma(ts: Seq<TokV>, vs: Seq<u64>)
    ensures
        p_add(ts, vs, 0) matches Ok((e, q)) ==> 0 < q <= ts.len() && (q == ts.len() || ts[q] == TokV::RParen
            || ts[q] == TokV::Comma),
{
    lemma_add(ts, vs, 0);
}

} // verus!
