//! Reading the ASCII rendering back: the text that `ascii_text` writes for
//! an expression lexes and parses back to that expression.
use vstd::prelude::*;
use crate::ast::{const_name, mk_add, mk_div, mk_mul, mk_neg, mk_pow, mk_sub, unary_fn_of, Const, Expr};
use crate::lexer::{alphanumeric, ident_end, is_number_char, number_end, lemma_prepend_assoc, prepend, scan, symbol_tok, tokens_of, valid_number, TokV};
use crate::parser::{
    close_paren, p_add, p_add_rest, p_fn_arg, p_fn_open, p_ident, p_mul, p_mul_rest, p_power,
    p_primary, p_unary, parse_of, tok_at,
};
use crate::numeric::{Need, Tables};
use crate::render::{ascii_text, base_bracketed, parened, spec_prec};
use crate::text::is_ascii_letter;

verus! {

/// The numbers of `e`, left to right.
pub open spec fn leaves(e: Expr) -> Seq<u64>
    decreases e,
{
    match e {
        Expr::Num(n) => seq![n],
        Expr::Const(_) => seq![],
        Expr::Var => seq![],
        Expr::Add(a, b) => leaves(*a) + leaves(*b),
        Expr::Sub(a, b) => leaves(*a) + leaves(*b),
        Expr::Mul(a, b) => leaves(*a) + leaves(*b),
        Expr::Div(a, b) => leaves(*a) + leaves(*b),
        Expr::Pow(a, b) => leaves(*a) + leaves(*b),
        Expr::Neg(a) => leaves(*a),
        Expr::Sin(a) => leaves(*a),
        Expr::Cos(a) => leaves(*a),
        Expr::Tan(a) => leaves(*a),
        Expr::Asin(a) => leaves(*a),
        Expr::Acos(a) => leaves(*a),
        Expr::Atan(a) => leaves(*a),
        Expr::Sinh(a) => leaves(*a),
        Expr::Cosh(a) => leaves(*a),
        Expr::Tanh(a) => leaves(*a),
        Expr::Exp(a) => leaves(*a),
        Expr::Ln(a) => leaves(*a),
        Expr::Log(a) => leaves(*a),
        Expr::Sqrt(a) => leaves(*a),
        Expr::Abs(a) => leaves(*a),
    }
}

/// `ts` in round brackets when `c` holds.
pub open spec fn bracketed(ts: Seq<TokV>, c: bool) -> Seq<TokV> {
    if c {
        seq![TokV::LParen] + ts + seq![TokV::RParen]
    } else {
        ts
    }
}

/// The tokens of a one-argument function applied to `inner`.
pub open spec fn call(name: Seq<char>, inner: Seq<TokV>) -> Seq<TokV> {
    seq![TokV::Ident(name), TokV::LParen] + inner + seq![TokV::RParen]
}

/// The tokens of the ASCII text of `e` (as `ascii_text` writes it), its
/// numbers named by position from `k` on.
pub open spec fn printed(e: Expr, k: nat) -> Seq<TokV>
    decreases e,
{
    match e {
        Expr::Num(_) => seq![TokV::Num(k as usize)],
        Expr::Const(c) => seq![TokV::Ident(const_name(c))],
        Expr::Var => seq![TokV::Ident("x"@)],
        Expr::Add(a, b) => printed(*a, k) + seq![TokV::Plus] + printed(*b, k + leaves(*a).len()),
        Expr::Sub(a, b) => printed(*a, k) + seq![TokV::Minus] + bracketed(
            printed(*b, k + leaves(*a).len()),
            spec_prec(*b) <= 1,
        ),
        Expr::Mul(a, b) => bracketed(printed(*a, k), spec_prec(*a) < 2) + seq![TokV::Star] + bracketed(
            printed(*b, k + leaves(*a).len()),
            spec_prec(*b) < 2,
        ),
        Expr::Div(a, b) => bracketed(printed(*a, k), spec_prec(*a) < 2) + seq![TokV::Slash] + bracketed(
            printed(*b, k + leaves(*a).len()),
            spec_prec(*b) <= 2,
        ),
        Expr::Pow(a, b) => bracketed(printed(*a, k), base_bracketed(*a)) + seq![TokV::Caret] + bracketed(
            printed(*b, k + leaves(*a).len()),
            spec_prec(*b) <= 4,
        ),
        Expr::Neg(a) => seq![TokV::Minus] + bracketed(printed(*a, k), spec_prec(*a) <= 3),
        Expr::Sin(a) => call("sin"@, printed(*a, k)),
        Expr::Cos(a) => call("cos"@, printed(*a, k)),
        Expr::Tan(a) => call("tan"@, printed(*a, k)),
        Expr::Asin(a) => call("asin"@, printed(*a, k)),
        Expr::Acos(a) => call("acos"@, printed(*a, k)),
        Expr::Atan(a) => call("atan"@, printed(*a, k)),
        Expr::Sinh(a) => call("sinh"@, printed(*a, k)),
        Expr::Cosh(a) => call("cosh"@, printed(*a, k)),
        Expr::Tanh(a) => call("tanh"@, printed(*a, k)),
        Expr::Exp(a) => call("exp"@, printed(*a, k)),
        Expr::Ln(a) => call("ln"@, printed(*a, k)),
        Expr::Log(a) => call("log"@, printed(*a, k)),
        Expr::Sqrt(a) => call("sqrt"@, printed(*a, k)),
        Expr::Abs(a) => call("abs"@, printed(*a, k)),
    }
}

/// Whether the ASCII text of `e` reads back as `e` itself: a sum is not the
/// right operand of `+`, and a product or quotient is not the right operand
/// of `*` (there the text reads back regrouped to the left, as `a + b + c`
/// and `a*b/c` do).
pub open spec fn readable(e: Expr) -> bool
    decreases e,
{
    match e {
        Expr::Add(a, b) => !(*b is Add) && !(*b is Sub) && readable(*a) && readable(*b),
        Expr::Mul(a, b) => !(*b is Mul) && !(*b is Div) && readable(*a) && readable(*b),
        Expr::Sub(a, b) => readable(*a) && readable(*b),
        Expr::Div(a, b) => readable(*a) && readable(*b),
        Expr::Pow(a, b) => readable(*a) && readable(*b),
        Expr::Neg(a) => readable(*a),
        Expr::Sin(a) => readable(*a),
        Expr::Cos(a) => readable(*a),
        Expr::Tan(a) => readable(*a),
        Expr::Asin(a) => readable(*a),
        Expr::Acos(a) => readable(*a),
        Expr::Atan(a) => readable(*a),
        Expr::Sinh(a) => readable(*a),
        Expr::Cosh(a) => readable(*a),
        Expr::Tanh(a) => readable(*a),
        Expr::Exp(a) => readable(*a),
        Expr::Ln(a) => readable(*a),
        Expr::Log(a) => readable(*a),
        Expr::Sqrt(a) => readable(*a),
        Expr::Abs(a) => readable(*a),
        _ => true,
    }
}

/// `s` stands in `ts` from position `p` on.
pub open spec fn spelled(ts: Seq<TokV>, p: int, s: Seq<TokV>) -> bool {
    0 <= p && p + s.len() <= ts.len() && ts.subrange(p, p + s.len()) == s
}

/// The numbers of `e` stand in `vs` from position `k` on.
pub open spec fn numbered(vs: Seq<u64>, k: nat, e: Expr) -> bool {
    &&& k + leaves(e).len() <= vs.len()
    &&& vs.len() <= usize::MAX
    &&& vs.subrange(k as int, (k + leaves(e).len()) as int) == leaves(e)
}

/// A token after which no product goes on.
pub open spec fn ends_product(f: Option<TokV>) -> bool {
    match f {
        Some(TokV::Star) | Some(TokV::Slash) | Some(TokV::Num(_)) | Some(TokV::Ident(_))
        | Some(TokV::LParen) | Some(TokV::Caret) => false,
        _ => true,
    }
}

/// A token after which no sum goes on.
pub open spec fn ends_sum(f: Option<TokV>) -> bool {
    ends_product(f) && f != Some(TokV::Plus) && f != Some(TokV::Minus)
}

proof fn lemma_split<T>(s: Seq<T>, p: int, a: Seq<T>, b: Seq<T>)
    requires
        0 <= p,
        p + a.len() + b.len() <= s.len(),
        s.subrange(p, p + a.len() + b.len()) == a + b,
    ensures
        s.subrange(p, p + a.len()) == a,
        s.subrange(p + a.len(), p + a.len() + b.len()) == b,
{
    let w = s.subrange(p, p + a.len() + b.len());
    assert forall|i: int| 0 <= i < a.len() implies s.subrange(p, p + a.len())[i] == a[i] by {
        assert(w[i] == s[p + i]);
        assert(w[i] == (a + b)[i]);
    }
    assert forall|i: int| 0 <= i < b.len() implies s.subrange(p + a.len(), p + a.len() + b.len())[i] == b[i] by {
        let j = a.len() + i;
        assert(w[j] == s[p + j]);
        assert(w[j] == (a + b)[j]);
        assert((a + b)[j] == b[i]);
    }
    assert(s.subrange(p, p + a.len()) =~= a);
    assert(s.subrange(p + a.len(), p + a.len() + b.len()) =~= b);
}

proof fn lemma_numbered_split(vs: Seq<u64>, k: nat, a: Expr, b: Expr, e: Expr)
    requires
        numbered(vs, k, e),
        leaves(e) == leaves(a) + leaves(b),
    ensures
        numbered(vs, k, a),
        numbered(vs, k + leaves(a).len(), b),
{
    lemma_split(vs, k as int, leaves(a), leaves(b));
}

proof fn lemma_tok(ts: Seq<TokV>, p: int, s: Seq<TokV>, i: int)
    requires
        spelled(ts, p, s),
        0 <= i < s.len(),
    ensures
        tok_at(ts, p + i) == Some(s[i]),
{
    assert(ts.subrange(p, p + s.len())[i] == s[i]);
}

/// Splits a spelling `a + b` at the end of `a`.
proof fn lemma_spelled_split(ts: Seq<TokV>, p: int, a: Seq<TokV>, b: Seq<TokV>)
    requires
        spelled(ts, p, a + b),
    ensures
        spelled(ts, p, a),
        spelled(ts, p + a.len(), b),
{
    lemma_split(ts, p, a, b);
}

proof fn step_mul_start(ts: Seq<TokV>, vs: Seq<u64>, p: int, lhs: Expr, q: int)
    requires
        p_unary(ts, vs, p) == Ok::<(Expr, int), Seq<char>>((lhs, q)),
        p < q <= ts.len(),
    ensures
        p_mul(ts, vs, p) == p_mul_rest(ts, vs, q, lhs),
{
}

proof fn step_mul_op(ts: Seq<TokV>, vs: Seq<u64>, q: int, lhs: Expr, rhs: Expr, q2: int, op: TokV)
    requires
        tok_at(ts, q) == Some(op),
        op == TokV::Star || op == TokV::Slash,
        p_unary(ts, vs, q + 1) == Ok::<(Expr, int), Seq<char>>((rhs, q2)),
        q + 1 < q2 <= ts.len(),
    ensures
        p_mul_rest(ts, vs, q, lhs) == p_mul_rest(
            ts,
            vs,
            q2,
            if op == TokV::Star { mk_mul(lhs, rhs) } else { mk_div(lhs, rhs) },
        ),
{
}

proof fn step_mul_stop(ts: Seq<TokV>, vs: Seq<u64>, q: int, lhs: Expr)
    requires
        ends_product(tok_at(ts, q)),
    ensures
        p_mul_rest(ts, vs, q, lhs) == Ok::<(Expr, int), Seq<char>>((lhs, q)),
{
}

proof fn step_add_start(ts: Seq<TokV>, vs: Seq<u64>, p: int, lhs: Expr, q: int)
    requires
        p_mul(ts, vs, p) == Ok::<(Expr, int), Seq<char>>((lhs, q)),
        p < q <= ts.len(),
    ensures
        p_add(ts, vs, p) == p_add_rest(ts, vs, q, lhs),
{
}

proof fn step_add_op(ts: Seq<TokV>, vs: Seq<u64>, q: int, lhs: Expr, rhs: Expr, q2: int, op: TokV)
    requires
        tok_at(ts, q) == Some(op),
        op == TokV::Plus || op == TokV::Minus,
        p_mul(ts, vs, q + 1) == Ok::<(Expr, int), Seq<char>>((rhs, q2)),
        q + 1 < q2 <= ts.len(),
    ensures
        p_add_rest(ts, vs, q, lhs) == p_add_rest(
            ts,
            vs,
            q2,
            if op == TokV::Plus { mk_add(lhs, rhs) } else { mk_sub(lhs, rhs) },
        ),
{
}

proof fn step_add_stop(ts: Seq<TokV>, vs: Seq<u64>, q: int, lhs: Expr)
    requires
        ends_sum(tok_at(ts, q)),
    ensures
        p_add_rest(ts, vs, q, lhs) == Ok::<(Expr, int), Seq<char>>((lhs, q)),
{
}

proof fn step_neg(ts: Seq<TokV>, vs: Seq<u64>, p: int, a: Expr, q: int)
    requires
        tok_at(ts, p) == Some(TokV::Minus),
        p_unary(ts, vs, p + 1) == Ok::<(Expr, int), Seq<char>>((a, q)),
    ensures
        p_unary(ts, vs, p) == Ok::<(Expr, int), Seq<char>>((mk_neg(a), q)),
{
}

proof fn step_power_plain(ts: Seq<TokV>, vs: Seq<u64>, p: int, b: Expr, q: int)
    requires
        tok_at(ts, p) != Some(TokV::Minus),
        p_primary(ts, vs, p) == Ok::<(Expr, int), Seq<char>>((b, q)),
        tok_at(ts, q) != Some(TokV::Caret),
    ensures
        p_unary(ts, vs, p) == Ok::<(Expr, int), Seq<char>>((b, q)),
{
    assert(p_power(ts, vs, p) == Ok::<(Expr, int), Seq<char>>((b, q)));
}

proof fn step_power_caret(ts: Seq<TokV>, vs: Seq<u64>, p: int, b: Expr, q: int, x: Expr, q2: int)
    requires
        tok_at(ts, p) != Some(TokV::Minus),
        p_primary(ts, vs, p) == Ok::<(Expr, int), Seq<char>>((b, q)),
        p <= q,
        tok_at(ts, q) == Some(TokV::Caret),
        p_unary(ts, vs, q + 1) == Ok::<(Expr, int), Seq<char>>((x, q2)),
    ensures
        p_unary(ts, vs, p) == Ok::<(Expr, int), Seq<char>>((mk_pow(b, x), q2)),
{
    assert(p_power(ts, vs, p) == Ok::<(Expr, int), Seq<char>>((mk_pow(b, x), q2)));
}

proof fn step_paren(ts: Seq<TokV>, vs: Seq<u64>, p: int, e: Expr, q: int)
    requires
        tok_at(ts, p) == Some(TokV::LParen),
        p_add(ts, vs, p + 1) == Ok::<(Expr, int), Seq<char>>((e, q)),
        tok_at(ts, q) == Some(TokV::RParen),
    ensures
        p_primary(ts, vs, p) == Ok::<(Expr, int), Seq<char>>((e, q + 1)),
{
}

/// A bracketed group `( e )`: a primary and, when no `^` follows, a unary
/// term.
proof fn lemma_group(ts: Seq<TokV>, vs: Seq<u64>, p: int, e: Expr, k: nat)
    requires
        readable(e),
        numbered(vs, k, e),
        spelled(ts, p, bracketed(printed(e, k), true)),
    ensures
        p_primary(ts, vs, p) == Ok::<(Expr, int), Seq<char>>((e, p + printed(e, k).len() + 2)),
        tok_at(ts, p) == Some(TokV::LParen),
        tok_at(ts, p + printed(e, k).len() + 2) != Some(TokV::Caret) ==> p_unary(ts, vs, p) == Ok::<
            (Expr, int),
            Seq<char>,
        >((e, p + printed(e, k).len() + 2)),
    decreases e, 6nat,
{
    let s = printed(e, k);
    let n = s.len();
    lemma_spelled_split(ts, p, seq![TokV::LParen] + s, seq![TokV::RParen]);
    lemma_spelled_split(ts, p, seq![TokV::LParen], s);
    lemma_tok(ts, p, seq![TokV::LParen], 0);
    lemma_tok(ts, p + 1 + n, seq![TokV::RParen], 0);
    lemma_sum(ts, vs, p + 1, e, k);
    step_add_stop(ts, vs, p + 1 + n, e);
    step_paren(ts, vs, p, e, p + 1 + n);
    if tok_at(ts, p + n + 2) != Some(TokV::Caret) {
        step_power_plain(ts, vs, p, e, p + n + 2);
    }
}

/// A term of sign or power level, or anything in brackets: a unary term.
proof fn lemma_operand(ts: Seq<TokV>, vs: Seq<u64>, p: int, e: Expr, k: nat, c: bool)
    requires
        readable(e),
        numbered(vs, k, e),
        c || spec_prec(e) >= 3,
        spelled(ts, p, bracketed(printed(e, k), c)),
        tok_at(ts, p + bracketed(printed(e, k), c).len()) != Some(TokV::Caret),
    ensures
        p_unary(ts, vs, p) == Ok::<(Expr, int), Seq<char>>((e, p + bracketed(printed(e, k), c).len())),
    decreases e, 7nat,
{
    if c {
        lemma_group(ts, vs, p, e, k);
    } else {
        lemma_unary(ts, vs, p, e, k);
    }
}

/// A term of sign or power level.
proof fn lemma_unary(ts: Seq<TokV>, vs: Seq<u64>, p: int, e: Expr, k: nat)
    requires
        readable(e),
        numbered(vs, k, e),
        spec_prec(e) >= 3,
        spelled(ts, p, printed(e, k)),
        tok_at(ts, p + printed(e, k).len()) != Some(TokV::Caret),
    ensures
        p_unary(ts, vs, p) == Ok::<(Expr, int), Seq<char>>((e, p + printed(e, k).len())),
    decreases e, 3nat,
{
    let n = printed(e, k).len();
    match e {
        Expr::Neg(a) => {
            let ca = spec_prec(*a) <= 3;
            let ia = bracketed(printed(*a, k), ca);
            assert(printed(e, k) == seq![TokV::Minus] + ia);
            lemma_spelled_split(ts, p, seq![TokV::Minus], ia);
            lemma_tok(ts, p, seq![TokV::Minus], 0);
            lemma_operand(ts, vs, p + 1, *a, k, ca);
            step_neg(ts, vs, p, *a, p + n);
        },
        Expr::Pow(a, b) => {
            let ka = k + leaves(*a).len();
            lemma_numbered_split(vs, k, *a, *b, e);
            let ca = base_bracketed(*a);
            let cb = spec_prec(*b) <= 4;
            let ia = bracketed(printed(*a, k), ca);
            let ib = bracketed(printed(*b, ka), cb);
            assert(printed(e, k) == ia + seq![TokV::Caret] + ib);
            lemma_spelled_split(ts, p, ia + seq![TokV::Caret], ib);
            lemma_spelled_split(ts, p, ia, seq![TokV::Caret]);
            lemma_tok(ts, p + ia.len(), seq![TokV::Caret], 0);
            if ca {
                lemma_group(ts, vs, p, *a, k);
            } else {
                lemma_atom(ts, vs, p, *a, k);
            }
            lemma_operand(ts, vs, p + ia.len() + 1, *b, ka, cb);
            step_power_caret(ts, vs, p, *a, p + ia.len(), *b, p + n);
        },
        _ => {
            lemma_atom(ts, vs, p, e, k);
        },
    }
}

/// An atom: a number, a name, or a function applied to a bracketed argument.
/// It is a primary and, when no `^` follows, a unary term.
#[verifier::rlimit(80)]
proof fn lemma_atom(ts: Seq<TokV>, vs: Seq<u64>, p: int, e: Expr, k: nat)
    requires
        readable(e),
        numbered(vs, k, e),
        spec_prec(e) == 5,
        spelled(ts, p, printed(e, k)),
    ensures
        p_primary(ts, vs, p) == Ok::<(Expr, int), Seq<char>>((e, p + printed(e, k).len())),
        tok_at(ts, p) != Some(TokV::Minus),
        tok_at(ts, p + printed(e, k).len()) != Some(TokV::Caret) ==> p_unary(ts, vs, p) == Ok::<
            (Expr, int),
            Seq<char>,
        >((e, p + printed(e, k).len())),
    decreases e, 2nat,
{
    let s = printed(e, k);
    let n = s.len();
    lemma_tok(ts, p, s, 0);
    match e {
        Expr::Num(v) => {
            assert(vs.subrange(k as int, k + 1int)[0] == vs[k as int]);
            assert(p_primary(ts, vs, p) == Ok::<(Expr, int), Seq<char>>((e, p + 1)));
        },
        Expr::Const(Const::Pi) => {
            reveal_strlit("x");
            reveal_strlit("pi");
            assert("pi"@ != "x"@) by {
                assert("pi"@.len() != "x"@.len());
            }
            assert(p_ident(ts, vs, p + 1, "pi"@) == Ok::<(Expr, int), Seq<char>>((e, p + 1)));
        },
        Expr::Const(Const::E) => {
            reveal_strlit("x");
            reveal_strlit("e");
            reveal_strlit("pi");
            assert("e"@[0] != "x"@[0]);
            assert("e"@.len() != "pi"@.len());
            assert(p_ident(ts, vs, p + 1, "e"@) == Ok::<(Expr, int), Seq<char>>((e, p + 1)));
        },
        Expr::Var => {
            reveal_strlit("x");
            assert(p_ident(ts, vs, p + 1, "x"@) == Ok::<(Expr, int), Seq<char>>((e, p + 1)));
        },
        _ => {
            lemma_call(ts, vs, p, e, k);
        },
    }
    if tok_at(ts, p + n) != Some(TokV::Caret) {
        step_power_plain(ts, vs, p, e, p + n);
    }
}

/// A function applied to its bracketed argument.
proof fn lemma_call(ts: Seq<TokV>, vs: Seq<u64>, p: int, e: Expr, k: nat)
    requires
        readable(e),
        numbered(vs, k, e),
        spec_prec(e) == 5,
        !(e is Num),
        !(e is Const),
        !(e is Var),
        spelled(ts, p, printed(e, k)),
    ensures
        p_primary(ts, vs, p) == Ok::<(Expr, int), Seq<char>>((e, p + printed(e, k).len())),
    decreases e, 1nat,
{
    let s = printed(e, k);
    let n = s.len();
    let a = fn_arg(e);
    let name = fn_name(e);
    let ia = printed(a, k);
    let m = ia.len();
    assert(s == call(name, ia));
    assert(leaves(e) == leaves(a));
    lemma_spelled_split(ts, p, seq![TokV::Ident(name), TokV::LParen] + ia, seq![TokV::RParen]);
    lemma_spelled_split(ts, p, seq![TokV::Ident(name), TokV::LParen], ia);
    lemma_tok(ts, p, seq![TokV::Ident(name), TokV::LParen], 0);
    lemma_tok(ts, p, seq![TokV::Ident(name), TokV::LParen], 1);
    lemma_tok(ts, p + 2 + m, seq![TokV::RParen], 0);
    lemma_sum(ts, vs, p + 2, a, k);
    step_add_stop(ts, vs, p + 2 + m, a);
    lemma_fn_ident(ts, vs, p + 1, e, p + 2 + m);
}

/// The name under which a function is written.
pub open spec fn fn_name(e: Expr) -> Seq<char> {
    match e {
        Expr::Sin(_) => "sin"@,
        Expr::Cos(_) => "cos"@,
        Expr::Tan(_) => "tan"@,
        Expr::Asin(_) => "asin"@,
        Expr::Acos(_) => "acos"@,
        Expr::Atan(_) => "atan"@,
        Expr::Sinh(_) => "sinh"@,
        Expr::Cosh(_) => "cosh"@,
        Expr::Tanh(_) => "tanh"@,
        Expr::Exp(_) => "exp"@,
        Expr::Ln(_) => "ln"@,
        Expr::Log(_) => "log"@,
        Expr::Sqrt(_) => "sqrt"@,
        Expr::Abs(_) => "abs"@,
        _ => "x"@,
    }
}

proof fn lemma_fn_ident(ts: Seq<TokV>, vs: Seq<u64>, p: int, e: Expr, q: int)
    requires
        spec_prec(e) == 5,
        !(e is Num),
        !(e is Const),
        !(e is Var),
        tok_at(ts, p) == Some(TokV::LParen),
        p_add(ts, vs, p + 1) == Ok::<(Expr, int), Seq<char>>((fn_arg(e), q)),
        tok_at(ts, q) == Some(TokV::RParen),
    ensures
        p_ident(ts, vs, p, fn_name(e)) == Ok::<(Expr, int), Seq<char>>((e, q + 1)),
{
    lemma_fn_name(e);
    let a = fn_arg(e);
    if e is Log {
        assert(p_fn_open(ts, vs, p) == Ok::<(Expr, int), Seq<char>>((a, q)));
        assert(e == Expr::Log(Box::new(a)));
    } else {
        assert(p_fn_arg(ts, vs, p) == Ok::<(Expr, int), Seq<char>>((a, q + 1)));
    }
}

proof fn lemma_name_sin(a: Expr)
    ensures
        "sin"@ != "x"@,
        "sin"@ != "pi"@,
        "sin"@ != "e"@,
        unary_fn_of("sin"@, a) == Some(Expr::Sin(Box::new(a))),
{
    reveal_strlit("e");
    reveal_strlit("pi");
    reveal_strlit("sin");
    reveal_strlit("x");
    assert("sin"@.len() != "x"@.len());
    assert("sin"@.len() != "pi"@.len());
    assert("sin"@.len() != "e"@.len());
}

proof fn lemma_name_cos(a: Expr)
    ensures
        "cos"@ != "x"@,
        "cos"@ != "pi"@,
        "cos"@ != "e"@,
        unary_fn_of("cos"@, a) == Some(Expr::Cos(Box::new(a))),
{
    reveal_strlit("cos");
    reveal_strlit("e");
    reveal_strlit("pi");
    reveal_strlit("sin");
    reveal_strlit("x");
    assert("cos"@.len() != "x"@.len());
    assert("cos"@.len() != "pi"@.len());
    assert("cos"@.len() != "e"@.len());
    assert("cos"@[0] != "sin"@[0]);
}

proof fn lemma_name_tan(a: Expr)
    ensures
        "tan"@ != "x"@,
        "tan"@ != "pi"@,
        "tan"@ != "e"@,
        unary_fn_of("tan"@, a) == Some(Expr::Tan(Box::new(a))),
{
    reveal_strlit("cos");
    reveal_strlit("e");
    reveal_strlit("pi");
    reveal_strlit("sin");
    reveal_strlit("tan");
    reveal_strlit("x");
    assert("tan"@.len() != "x"@.len());
    assert("tan"@.len() != "pi"@.len());
    assert("tan"@.len() != "e"@.len());
    assert("tan"@[0] != "sin"@[0]);
    assert("tan"@[0] != "cos"@[0]);
}

proof fn lemma_name_asin(a: Expr)
    ensures
        "asin"@ != "x"@,
        "asin"@ != "pi"@,
        "asin"@ != "e"@,
        unary_fn_of("asin"@, a) == Some(Expr::Asin(Box::new(a))),
{
    reveal_strlit("asin");
    reveal_strlit("cos");
    reveal_strlit("e");
    reveal_strlit("pi");
    reveal_strlit("sin");
    reveal_strlit("tan");
    reveal_strlit("x");
    assert("asin"@.len() != "x"@.len());
    assert("asin"@.len() != "pi"@.len());
    assert("asin"@.len() != "e"@.len());
    assert("asin"@.len() != "sin"@.len());
    assert("asin"@.len() != "cos"@.len());
    assert("asin"@.len() != "tan"@.len());
}

proof fn lemma_name_acos(a: Expr)
    ensures
        "acos"@ != "x"@,
        "acos"@ != "pi"@,
        "acos"@ != "e"@,
        unary_fn_of("acos"@, a) == Some(Expr::Acos(Box::new(a))),
{
    reveal_strlit("acos");
    reveal_strlit("asin");
    reveal_strlit("cos");
    reveal_strlit("e");
    reveal_strlit("pi");
    reveal_strlit("sin");
    reveal_strlit("tan");
    reveal_strlit("x");
    assert("acos"@.len() != "x"@.len());
    assert("acos"@.len() != "pi"@.len());
    assert("acos"@.len() != "e"@.len());
    assert("acos"@.len() != "sin"@.len());
    assert("acos"@.len() != "cos"@.len());
    assert("acos"@.len() != "tan"@.len());
    assert("acos"@[1] != "asin"@[1]);
}

proof fn lemma_name_atan(a: Expr)
    ensures
        "atan"@ != "x"@,
        "atan"@ != "pi"@,
        "atan"@ != "e"@,
        unary_fn_of("atan"@, a) == Some(Expr::Atan(Box::new(a))),
{
    reveal_strlit("acos");
    reveal_strlit("asin");
    reveal_strlit("atan");
    reveal_strlit("cos");
    reveal_strlit("e");
    reveal_strlit("pi");
    reveal_strlit("sin");
    reveal_strlit("tan");
    reveal_strlit("x");
    assert("atan"@.len() != "x"@.len());
    assert("atan"@.len() != "pi"@.len());
    assert("atan"@.len() != "e"@.len());
    assert("atan"@.len() != "sin"@.len());
    assert("atan"@.len() != "cos"@.len());
    assert("atan"@.len() != "tan"@.len());
    assert("atan"@[1] != "asin"@[1]);
    assert("atan"@[1] != "acos"@[1]);
}

proof fn lemma_name_sinh(a: Expr)
    ensures
        "sinh"@ != "x"@,
        "sinh"@ != "pi"@,
        "sinh"@ != "e"@,
        unary_fn_of("sinh"@, a) == Some(Expr::Sinh(Box::new(a))),
{
    reveal_strlit("acos");
    reveal_strlit("asin");
    reveal_strlit("atan");
    reveal_strlit("cos");
    reveal_strlit("e");
    reveal_strlit("pi");
    reveal_strlit("sin");
    reveal_strlit("sinh");
    reveal_strlit("tan");
    reveal_strlit("x");
    assert("sinh"@.len() != "x"@.len());
    assert("sinh"@.len() != "pi"@.len());
    assert("sinh"@.len() != "e"@.len());
    assert("sinh"@.len() != "sin"@.len());
    assert("sinh"@.len() != "cos"@.len());
    assert("sinh"@.len() != "tan"@.len());
    assert("sinh"@[0] != "asin"@[0]);
    assert("sinh"@[0] != "acos"@[0]);
    assert("sinh"@[0] != "atan"@[0]);
}

proof fn lemma_name_cosh(a: Expr)
    ensures
        "cosh"@ != "x"@,
        "cosh"@ != "pi"@,
        "cosh"@ != "e"@,
        unary_fn_of("cosh"@, a) == Some(Expr::Cosh(Box::new(a))),
{
    reveal_strlit("acos");
    reveal_strlit("asin");
    reveal_strlit("atan");
    reveal_strlit("cos");
    reveal_strlit("cosh");
    reveal_strlit("e");
    reveal_strlit("pi");
    reveal_strlit("sin");
    reveal_strlit("sinh");
    reveal_strlit("tan");
    reveal_strlit("x");
    assert("cosh"@.len() != "x"@.len());
    assert("cosh"@.len() != "pi"@.len());
    assert("cosh"@.len() != "e"@.len());
    assert("cosh"@.len() != "sin"@.len());
    assert("cosh"@.len() != "cos"@.len());
    assert("cosh"@.len() != "tan"@.len());
    assert("cosh"@[0] != "asin"@[0]);
    assert("cosh"@[0] != "acos"@[0]);
    assert("cosh"@[0] != "atan"@[0]);
    assert("cosh"@[0] != "sinh"@[0]);
}

proof fn lemma_name_tanh(a: Expr)
    ensures
        "tanh"@ != "x"@,
        "tanh"@ != "pi"@,
        "tanh"@ != "e"@,
        unary_fn_of("tanh"@, a) == Some(Expr::Tanh(Box::new(a))),
{
    reveal_strlit("acos");
    reveal_strlit("asin");
    reveal_strlit("atan");
    reveal_strlit("cos");
    reveal_strlit("cosh");
    reveal_strlit("e");
    reveal_strlit("pi");
    reveal_strlit("sin");
    reveal_strlit("sinh");
    reveal_strlit("tan");
    reveal_strlit("tanh");
    reveal_strlit("x");
    assert("tanh"@.len() != "x"@.len());
    assert("tanh"@.len() != "pi"@.len());
    assert("tanh"@.len() != "e"@.len());
    assert("tanh"@.len() != "sin"@.len());
    assert("tanh"@.len() != "cos"@.len());
    assert("tanh"@.len() != "tan"@.len());
    assert("tanh"@[0] != "asin"@[0]);
    assert("tanh"@[0] != "acos"@[0]);
    assert("tanh"@[0] != "atan"@[0]);
    assert("tanh"@[0] != "sinh"@[0]);
    assert("tanh"@[0] != "cosh"@[0]);
}

proof fn lemma_name_exp(a: Expr)
    ensures
        "exp"@ != "x"@,
        "exp"@ != "pi"@,
        "exp"@ != "e"@,
        unary_fn_of("exp"@, a) == Some(Expr::Exp(Box::new(a))),
{
    reveal_strlit("acos");
    reveal_strlit("asin");
    reveal_strlit("atan");
    reveal_strlit("cos");
    reveal_strlit("cosh");
    reveal_strlit("e");
    reveal_strlit("exp");
    reveal_strlit("pi");
    reveal_strlit("sin");
    reveal_strlit("sinh");
    reveal_strlit("tan");
    reveal_strlit("tanh");
    reveal_strlit("x");
    assert("exp"@.len() != "x"@.len());
    assert("exp"@.len() != "pi"@.len());
    assert("exp"@.len() != "e"@.len());
    assert("exp"@[0] != "sin"@[0]);
    assert("exp"@[0] != "cos"@[0]);
    assert("exp"@[0] != "tan"@[0]);
    assert("exp"@.len() != "asin"@.len());
    assert("exp"@.len() != "acos"@.len());
    assert("exp"@.len() != "atan"@.len());
    assert("exp"@.len() != "sinh"@.len());
    assert("exp"@.len() != "cosh"@.len());
    assert("exp"@.len() != "tanh"@.len());
}

proof fn lemma_name_ln(a: Expr)
    ensures
        "ln"@ != "x"@,
        "ln"@ != "pi"@,
        "ln"@ != "e"@,
        unary_fn_of("ln"@, a) == Some(Expr::Ln(Box::new(a))),
{
    reveal_strlit("acos");
    reveal_strlit("asin");
    reveal_strlit("atan");
    reveal_strlit("cos");
    reveal_strlit("cosh");
    reveal_strlit("e");
    reveal_strlit("exp");
    reveal_strlit("ln");
    reveal_strlit("pi");
    reveal_strlit("sin");
    reveal_strlit("sinh");
    reveal_strlit("tan");
    reveal_strlit("tanh");
    reveal_strlit("x");
    assert("ln"@.len() != "x"@.len());
    assert("ln"@[0] != "pi"@[0]);
    assert("ln"@.len() != "e"@.len());
    assert("ln"@.len() != "sin"@.len());
    assert("ln"@.len() != "cos"@.len());
    assert("ln"@.len() != "tan"@.len());
    assert("ln"@.len() != "asin"@.len());
    assert("ln"@.len() != "acos"@.len());
    assert("ln"@.len() != "atan"@.len());
    assert("ln"@.len() != "sinh"@.len());
    assert("ln"@.len() != "cosh"@.len());
    assert("ln"@.len() != "tanh"@.len());
    assert("ln"@.len() != "exp"@.len());
}

proof fn lemma_name_sqrt(a: Expr)
    ensures
        "sqrt"@ != "x"@,
        "sqrt"@ != "pi"@,
        "sqrt"@ != "e"@,
        unary_fn_of("sqrt"@, a) == Some(Expr::Sqrt(Box::new(a))),
{
    reveal_strlit("acos");
    reveal_strlit("asin");
    reveal_strlit("atan");
    reveal_strlit("cos");
    reveal_strlit("cosh");
    reveal_strlit("e");
    reveal_strlit("exp");
    reveal_strlit("ln");
    reveal_strlit("pi");
    reveal_strlit("sin");
    reveal_strlit("sinh");
    reveal_strlit("sqrt");
    reveal_strlit("tan");
    reveal_strlit("tanh");
    reveal_strlit("x");
    assert("sqrt"@.len() != "x"@.len());
    assert("sqrt"@.len() != "pi"@.len());
    assert("sqrt"@.len() != "e"@.len());
    assert("sqrt"@.len() != "sin"@.len());
    assert("sqrt"@.len() != "cos"@.len());
    assert("sqrt"@.len() != "tan"@.len());
    assert("sqrt"@[0] != "asin"@[0]);
    assert("sqrt"@[0] != "acos"@[0]);
    assert("sqrt"@[0] != "atan"@[0]);
    assert("sqrt"@[1] != "sinh"@[1]);
    assert("sqrt"@[0] != "cosh"@[0]);
    assert("sqrt"@[0] != "tanh"@[0]);
    assert("sqrt"@.len() != "exp"@.len());
    assert("sqrt"@.len() != "ln"@.len());
}

proof fn lemma_name_abs(a: Expr)
    ensures
        "abs"@ != "x"@,
        "abs"@ != "pi"@,
        "abs"@ != "e"@,
        unary_fn_of("abs"@, a) == Some(Expr::Abs(Box::new(a))),
{
    reveal_strlit("abs");
    reveal_strlit("acos");
    reveal_strlit("asin");
    reveal_strlit("atan");
    reveal_strlit("cos");
    reveal_strlit("cosh");
    reveal_strlit("e");
    reveal_strlit("exp");
    reveal_strlit("ln");
    reveal_strlit("pi");
    reveal_strlit("sin");
    reveal_strlit("sinh");
    reveal_strlit("sqrt");
    reveal_strlit("tan");
    reveal_strlit("tanh");
    reveal_strlit("x");
    assert("abs"@.len() != "x"@.len());
    assert("abs"@.len() != "pi"@.len());
    assert("abs"@.len() != "e"@.len());
    assert("abs"@[0] != "sin"@[0]);
    assert("abs"@[0] != "cos"@[0]);
    assert("abs"@[0] != "tan"@[0]);
    assert("abs"@.len() != "asin"@.len());
    assert("abs"@.len() != "acos"@.len());
    assert("abs"@.len() != "atan"@.len());
    assert("abs"@.len() != "sinh"@.len());
    assert("abs"@.len() != "cosh"@.len());
    assert("abs"@.len() != "tanh"@.len());
    assert("abs"@[0] != "exp"@[0]);
    assert("abs"@.len() != "ln"@.len());
    assert("abs"@.len() != "sqrt"@.len());
}

proof fn lemma_name_log(a: Expr)
    ensures
        "log"@ != "x"@,
        "log"@ != "pi"@,
        "log"@ != "e"@,
        unary_fn_of("log"@, a) is None,
{
    reveal_strlit("abs");
    reveal_strlit("acos");
    reveal_strlit("asin");
    reveal_strlit("atan");
    reveal_strlit("cos");
    reveal_strlit("cosh");
    reveal_strlit("e");
    reveal_strlit("exp");
    reveal_strlit("ln");
    reveal_strlit("log");
    reveal_strlit("pi");
    reveal_strlit("sin");
    reveal_strlit("sinh");
    reveal_strlit("sqrt");
    reveal_strlit("tan");
    reveal_strlit("tanh");
    reveal_strlit("x");
    assert("log"@.len() != "x"@.len());
    assert("log"@.len() != "pi"@.len());
    assert("log"@.len() != "e"@.len());
    assert("log"@[0] != "sin"@[0]);
    assert("log"@[0] != "cos"@[0]);
    assert("log"@[0] != "tan"@[0]);
    assert("log"@.len() != "asin"@.len());
    assert("log"@.len() != "acos"@.len());
    assert("log"@.len() != "atan"@.len());
    assert("log"@.len() != "sinh"@.len());
    assert("log"@.len() != "cosh"@.len());
    assert("log"@.len() != "tanh"@.len());
    assert("log"@[0] != "exp"@[0]);
    assert("log"@.len() != "ln"@.len());
    assert("log"@.len() != "sqrt"@.len());
    assert("log"@[0] != "abs"@[0]);
}

/// The facts about a function's name that reading it back relies on.
proof fn lemma_fn_name(e: Expr)
    requires
        spec_prec(e) == 5,
        !(e is Num),
        !(e is Const),
        !(e is Var),
    ensures
        fn_name(e) != "x"@,
        fn_name(e) != "pi"@,
        fn_name(e) != "e"@,
        e is Log ==> fn_name(e) == "log"@ && unary_fn_of("log"@, Expr::Var) is None,
        !(e is Log) ==> unary_fn_of(fn_name(e), Expr::Var) is Some && unary_fn_of(fn_name(e), fn_arg(e)) == Some(e),
{
    match e {
        Expr::Sin(x) => {
            lemma_name_sin(*x);
            lemma_name_sin(Expr::Var);
        },
        Expr::Cos(x) => {
            lemma_name_cos(*x);
            lemma_name_cos(Expr::Var);
        },
        Expr::Tan(x) => {
            lemma_name_tan(*x);
            lemma_name_tan(Expr::Var);
        },
        Expr::Asin(x) => {
            lemma_name_asin(*x);
            lemma_name_asin(Expr::Var);
        },
        Expr::Acos(x) => {
            lemma_name_acos(*x);
            lemma_name_acos(Expr::Var);
        },
        Expr::Atan(x) => {
            lemma_name_atan(*x);
            lemma_name_atan(Expr::Var);
        },
        Expr::Sinh(x) => {
            lemma_name_sinh(*x);
            lemma_name_sinh(Expr::Var);
        },
        Expr::Cosh(x) => {
            lemma_name_cosh(*x);
            lemma_name_cosh(Expr::Var);
        },
        Expr::Tanh(x) => {
            lemma_name_tanh(*x);
            lemma_name_tanh(Expr::Var);
        },
        Expr::Exp(x) => {
            lemma_name_exp(*x);
            lemma_name_exp(Expr::Var);
        },
        Expr::Ln(x) => {
            lemma_name_ln(*x);
            lemma_name_ln(Expr::Var);
        },
        Expr::Sqrt(x) => {
            lemma_name_sqrt(*x);
            lemma_name_sqrt(Expr::Var);
        },
        Expr::Abs(x) => {
            lemma_name_abs(*x);
            lemma_name_abs(Expr::Var);
        },
        Expr::Log(x) => {
            lemma_name_log(*x);
            lemma_name_log(Expr::Var);
        },
        _ => {},
    }
}

/// The argument of a one-argument function.
pub open spec fn fn_arg(e: Expr) -> Expr {
    match e {
        Expr::Sin(a) | Expr::Cos(a) | Expr::Tan(a) | Expr::Asin(a) | Expr::Acos(a) | Expr::Atan(a)
        | Expr::Sinh(a) | Expr::Cosh(a) | Expr::Tanh(a) | Expr::Exp(a) | Expr::Ln(a) | Expr::Log(a)
        | Expr::Sqrt(a) | Expr::Abs(a) => *a,
        _ => e,
    }
}

/// A term of product level (or tighter): a product parse reaches its end
/// with the term as its left part.
#[verifier::rlimit(80)]
proof fn lemma_mul(ts: Seq<TokV>, vs: Seq<u64>, p: int, e: Expr, k: nat)
    requires
        readable(e),
        numbered(vs, k, e),
        spec_prec(e) >= 2,
        spelled(ts, p, printed(e, k)),
        tok_at(ts, p + printed(e, k).len()) != Some(TokV::Caret),
    ensures
        p_mul(ts, vs, p) == p_mul_rest(ts, vs, p + printed(e, k).len(), e),
    decreases e, 4nat,
{
    let n = printed(e, k).len();
    match e {
        Expr::Mul(a, b) | Expr::Div(a, b) => {
            let ka = k + leaves(*a).len();
            lemma_numbered_split(vs, k, *a, *b, e);
            let ca = spec_prec(*a) < 2;
            let cb = if e is Mul { spec_prec(*b) < 2 } else { spec_prec(*b) <= 2 };
            let op = if e is Mul { TokV::Star } else { TokV::Slash };
            let ia = bracketed(printed(*a, k), ca);
            let ib = bracketed(printed(*b, ka), cb);
            assert(printed(e, k) == ia + seq![op] + ib);
            lemma_spelled_split(ts, p, ia + seq![op], ib);
            lemma_spelled_split(ts, p, ia, seq![op]);
            lemma_tok(ts, p + ia.len(), seq![op], 0);
            if ca {
                lemma_operand(ts, vs, p, *a, k, true);
                step_mul_start(ts, vs, p, *a, p + ia.len());
            } else {
                lemma_mul(ts, vs, p, *a, k);
            }
            lemma_operand(ts, vs, p + ia.len() + 1, *b, ka, cb);
            step_mul_op(ts, vs, p + ia.len(), *a, *b, p + n, op);
        },
        _ => {
            lemma_unary(ts, vs, p, e, k);
            step_mul_start(ts, vs, p, e, p + n);
        },
    }
}

/// Any readable expression: a sum parse reaches its end with the expression
/// as its left part, when no product goes on after it.
#[verifier::rlimit(80)]
proof fn lemma_sum(ts: Seq<TokV>, vs: Seq<u64>, p: int, e: Expr, k: nat)
    requires
        readable(e),
        numbered(vs, k, e),
        spelled(ts, p, printed(e, k)),
        ends_product(tok_at(ts, p + printed(e, k).len())),
    ensures
        p_add(ts, vs, p) == p_add_rest(ts, vs, p + printed(e, k).len(), e),
    decreases e, 5nat,
{
    let n = printed(e, k).len();
    match e {
        Expr::Add(a, b) | Expr::Sub(a, b) => {
            let ka = k + leaves(*a).len();
            lemma_numbered_split(vs, k, *a, *b, e);
            let cb = if e is Add { false } else { spec_prec(*b) <= 1 };
            let op = if e is Add { TokV::Plus } else { TokV::Minus };
            let ia = printed(*a, k);
            let ib = bracketed(printed(*b, ka), cb);
            assert(printed(e, k) == ia + seq![op] + ib);
            lemma_spelled_split(ts, p, ia + seq![op], ib);
            lemma_spelled_split(ts, p, ia, seq![op]);
            lemma_tok(ts, p + ia.len(), seq![op], 0);
            lemma_sum(ts, vs, p, *a, k);
            let q = p + ia.len() + 1;
            if cb {
                lemma_operand(ts, vs, q, *b, ka, true);
                step_mul_start(ts, vs, q, *b, p + n);
            } else {
                lemma_mul(ts, vs, q, *b, ka);
            }
            step_mul_stop(ts, vs, p + n, *b);
            step_add_op(ts, vs, p + ia.len(), *a, *b, p + n, op);
        },
        _ => {
            lemma_mul(ts, vs, p, e, k);
            step_mul_stop(ts, vs, p + n, e);
            step_add_start(ts, vs, p, e, p + n);
        },
    }
}

/// The tokens of the ASCII text of a readable expression parse back to the
/// expression, its numbers taken in order from its own leaves.
pub proof fn law_ascii_tokens_read_back(e: Expr)
    requires
        readable(e),
        leaves(e).len() <= usize::MAX,
    ensures
        parse_of(printed(e, 0), leaves(e)) == Ok::<Expr, Seq<char>>(e),
{
    let ts = printed(e, 0);
    let vs = leaves(e);
    assert(ts.subrange(0, ts.len() as int) =~= ts);
    assert(vs.subrange(0, vs.len() as int) =~= vs);
    lemma_sum(ts, vs, 0, e, 0);
    step_add_stop(ts, vs, ts.len() as int, e);
}


/// A number text that lexes as one number literal: a nonempty run of digits
/// and dots with a digit and at most one dot.
pub open spec fn plain_literal(s: Seq<char>) -> bool {
    &&& s.len() > 0
    &&& forall|j: int| 0 <= j < s.len() ==> is_number_char(#[trigger] s[j])
    &&& valid_number(s)
}

/// Every number of `e` has a text in the tables, and it is a plain literal.
pub open spec fn literals_ok(e: Expr, t: Tables) -> bool
    decreases e,
{
    match e {
        Expr::Num(n) => t.text(n) matches Some(s) && plain_literal(s),
        Expr::Const(_) => true,
        Expr::Var => true,
        Expr::Add(a, b) => literals_ok(*a, t) && literals_ok(*b, t),
        Expr::Sub(a, b) => literals_ok(*a, t) && literals_ok(*b, t),
        Expr::Mul(a, b) => literals_ok(*a, t) && literals_ok(*b, t),
        Expr::Div(a, b) => literals_ok(*a, t) && literals_ok(*b, t),
        Expr::Pow(a, b) => literals_ok(*a, t) && literals_ok(*b, t),
        Expr::Neg(a) => literals_ok(*a, t),
        Expr::Sin(a) => literals_ok(*a, t),
        Expr::Cos(a) => literals_ok(*a, t),
        Expr::Tan(a) => literals_ok(*a, t),
        Expr::Asin(a) => literals_ok(*a, t),
        Expr::Acos(a) => literals_ok(*a, t),
        Expr::Atan(a) => literals_ok(*a, t),
        Expr::Sinh(a) => literals_ok(*a, t),
        Expr::Cosh(a) => literals_ok(*a, t),
        Expr::Tanh(a) => literals_ok(*a, t),
        Expr::Exp(a) => literals_ok(*a, t),
        Expr::Ln(a) => literals_ok(*a, t),
        Expr::Log(a) => literals_ok(*a, t),
        Expr::Sqrt(a) => literals_ok(*a, t),
        Expr::Abs(a) => literals_ok(*a, t),
    }
}

/// The texts of the numbers of `e`, left to right.
pub open spec fn literal_texts(e: Expr, t: Tables) -> Seq<Seq<char>>
    decreases e,
{
    match e {
        Expr::Num(n) => seq![t.text(n).unwrap()],
        Expr::Const(_) => seq![],
        Expr::Var => seq![],
        Expr::Add(a, b) => literal_texts(*a, t) + literal_texts(*b, t),
        Expr::Sub(a, b) => literal_texts(*a, t) + literal_texts(*b, t),
        Expr::Mul(a, b) => literal_texts(*a, t) + literal_texts(*b, t),
        Expr::Div(a, b) => literal_texts(*a, t) + literal_texts(*b, t),
        Expr::Pow(a, b) => literal_texts(*a, t) + literal_texts(*b, t),
        Expr::Neg(a) => literal_texts(*a, t),
        Expr::Sin(a) => literal_texts(*a, t),
        Expr::Cos(a) => literal_texts(*a, t),
        Expr::Tan(a) => literal_texts(*a, t),
        Expr::Asin(a) => literal_texts(*a, t),
        Expr::Acos(a) => literal_texts(*a, t),
        Expr::Atan(a) => literal_texts(*a, t),
        Expr::Sinh(a) => literal_texts(*a, t),
        Expr::Cosh(a) => literal_texts(*a, t),
        Expr::Tanh(a) => literal_texts(*a, t),
        Expr::Exp(a) => literal_texts(*a, t),
        Expr::Ln(a) => literal_texts(*a, t),
        Expr::Log(a) => literal_texts(*a, t),
        Expr::Sqrt(a) => literal_texts(*a, t),
        Expr::Abs(a) => literal_texts(*a, t),
    }
}

/// The ASCII text of `e` (empty where a number text is missing).
pub open spec fn shown(e: Expr, t: Tables) -> Seq<char> {
    match ascii_text(e, t) {
        Ok(s) => s,
        Err(_) => seq![],
    }
}

/// `w` stands in `s` from position `p` on.
pub open spec fn occurs<T>(s: Seq<T>, p: int, w: Seq<T>) -> bool {
    0 <= p && p + w.len() <= s.len() && s.subrange(p, p + w.len()) == w
}

/// Position `j` of `cs` ends a token: the end, or a character that neither
/// a number nor a name goes on with.
pub open spec fn stopper(cs: Seq<char>, j: int) -> bool {
    j >= cs.len() || (!is_number_char(cs[j]) && !alphanumeric(cs[j]))
}

proof fn lemma_occurs_split<T>(s: Seq<T>, p: int, a: Seq<T>, b: Seq<T>)
    requires
        occurs(s, p, a + b),
    ensures
        occurs(s, p, a),
        occurs(s, p + a.len(), b),
{
    lemma_split(s, p, a, b);
}

proof fn lemma_at<T>(s: Seq<T>, p: int, w: Seq<T>, j: int)
    requires
        occurs(s, p, w),
        0 <= j < w.len(),
    ensures
        s[p + j] == w[j],
{
    assert(s.subrange(p, p + w.len())[j] == w[j]);
}

proof fn lemma_texts_ok(e: Expr, t: Tables)
    requires
        literals_ok(e, t),
    ensures
        ascii_text(e, t) is Ok,
        literal_texts(e, t).len() == leaves(e).len(),
    decreases e,
{
    match e {
        Expr::Add(a, b) | Expr::Sub(a, b) | Expr::Mul(a, b) | Expr::Div(a, b) | Expr::Pow(a, b) => {
            lemma_texts_ok(*a, t);
            lemma_texts_ok(*b, t);
        },
        Expr::Neg(a) | Expr::Sin(a) | Expr::Cos(a) | Expr::Tan(a) | Expr::Asin(a) | Expr::Acos(a)
        | Expr::Atan(a) | Expr::Sinh(a) | Expr::Cosh(a) | Expr::Tanh(a) | Expr::Exp(a) | Expr::Ln(a)
        | Expr::Log(a) | Expr::Sqrt(a) | Expr::Abs(a) => {
            lemma_texts_ok(*a, t);
        },
        _ => {},
    }
}

proof fn lemma_chain(
    cs: Seq<char>,
    i: int,
    k: nat,
    t1: Seq<TokV>,
    l1: Seq<Seq<char>>,
    j: int,
    k1: nat,
    t2: Seq<TokV>,
    l2: Seq<Seq<char>>,
    m: int,
    k2: nat,
)
    requires
        scan(cs, i, k) == prepend(t1, l1, scan(cs, j, k1)),
        scan(cs, j, k1) == prepend(t2, l2, scan(cs, m, k2)),
    ensures
        scan(cs, i, k) == prepend(t1 + t2, l1 + l2, scan(cs, m, k2)),
{
    lemma_prepend_assoc(t1, l1, t2, l2, scan(cs, m, k2));
}

proof fn lemma_lex_symbol(cs: Seq<char>, i: int, k: nat, tk: TokV)
    requires
        0 <= i < cs.len(),
        symbol_tok(cs[i]) == Some(tk),
    ensures
        scan(cs, i, k) == prepend(seq![tk], seq![], scan(cs, i + 1, k)),
{
}

proof fn lemma_lex_space(cs: Seq<char>, i: int, k: nat)
    requires
        0 <= i < cs.len(),
        cs[i] == ' ',
    ensures
        scan(cs, i, k) == scan(cs, i + 1, k),
{
}

proof fn lemma_number_run(cs: Seq<char>, i: int, l: Seq<char>, j: int)
    requires
        occurs(cs, i, l),
        forall|x: int| 0 <= x < l.len() ==> is_number_char(#[trigger] l[x]),
        stopper(cs, i + l.len()),
        i <= j <= i + l.len(),
    ensures
        number_end(cs, j) == i + l.len(),
    decreases i + l.len() - j,
{
    if j < i + l.len() {
        lemma_at(cs, i, l, j - i);
        lemma_number_run(cs, i, l, j + 1);
    }
}

proof fn lemma_word_run(cs: Seq<char>, i: int, w: Seq<char>, j: int)
    requires
        occurs(cs, i, w),
        forall|x: int| 0 <= x < w.len() ==> is_ascii_letter(#[trigger] w[x]),
        stopper(cs, i + w.len()),
        i <= j <= i + w.len(),
    ensures
        ident_end(cs, j) == i + w.len(),
    decreases i + w.len() - j,
{
    if j < i + w.len() {
        lemma_at(cs, i, w, j - i);
        lemma_word_run(cs, i, w, j + 1);
    }
}

proof fn lemma_lex_number(cs: Seq<char>, i: int, k: nat, l: Seq<char>)
    requires
        occurs(cs, i, l),
        plain_literal(l),
        stopper(cs, i + l.len()),
    ensures
        scan(cs, i, k) == prepend(seq![TokV::Num(k as usize)], seq![l], scan(cs, i + l.len(), k + 1)),
{
    lemma_at(cs, i, l, 0);
    assert(is_number_char(l[0]));
    lemma_number_run(cs, i, l, i + 1);
}

proof fn lemma_lex_word(cs: Seq<char>, i: int, k: nat, w: Seq<char>)
    requires
        occurs(cs, i, w),
        w.len() > 0,
        forall|x: int| 0 <= x < w.len() ==> is_ascii_letter(#[trigger] w[x]),
        stopper(cs, i + w.len()),
    ensures
        scan(cs, i, k) == prepend(seq![TokV::Ident(w)], seq![], scan(cs, i + w.len(), k)),
{
    lemma_at(cs, i, w, 0);
    assert(is_ascii_letter(w[0]));
    lemma_word_run(cs, i, w, i + 1);
}

/// The name of a constant, the variable or a function is made of letters.
proof fn lemma_word_letters(w: Seq<char>)
    requires
        w == "x"@ || w == "pi"@ || w == "e"@ || w == "sin"@ || w == "cos"@ || w == "tan"@ || w == "asin"@
            || w == "acos"@ || w == "atan"@ || w == "sinh"@ || w == "cosh"@ || w == "tanh"@ || w == "exp"@
            || w == "ln"@ || w == "log"@ || w == "sqrt"@ || w == "abs"@,
    ensures
        w.len() > 0,
        forall|x: int| 0 <= x < w.len() ==> is_ascii_letter(#[trigger] w[x]),
{
    reveal_strlit("x");
    reveal_strlit("pi");
    reveal_strlit("e");
    reveal_strlit("sin");
    reveal_strlit("cos");
    reveal_strlit("tan");
    reveal_strlit("asin");
    reveal_strlit("acos");
    reveal_strlit("atan");
    reveal_strlit("sinh");
    reveal_strlit("cosh");
    reveal_strlit("tanh");
    reveal_strlit("exp");
    reveal_strlit("ln");
    reveal_strlit("log");
    reveal_strlit("sqrt");
    reveal_strlit("abs");
}


/// The text that opens a function call: its name, then `(`.
pub open spec fn fn_open_text(e: Expr) -> Seq<char> {
    match e {
        Expr::Sin(_) => "sin("@,
        Expr::Cos(_) => "cos("@,
        Expr::Tan(_) => "tan("@,
        Expr::Asin(_) => "asin("@,
        Expr::Acos(_) => "acos("@,
        Expr::Atan(_) => "atan("@,
        Expr::Sinh(_) => "sinh("@,
        Expr::Cosh(_) => "cosh("@,
        Expr::Tanh(_) => "tanh("@,
        Expr::Exp(_) => "exp("@,
        Expr::Ln(_) => "ln("@,
        Expr::Log(_) => "log("@,
        Expr::Sqrt(_) => "sqrt("@,
        Expr::Abs(_) => "abs("@,
        _ => seq![],
    }
}

proof fn lemma_fn_open_text(e: Expr)
    requires
        spec_prec(e) == 5,
        !(e is Num),
        !(e is Const),
        !(e is Var),
    ensures
        fn_open_text(e) == fn_name(e) + "("@,
{
    match e {
        Expr::Sin(_) => {
            reveal_strlit("sin");
            reveal_strlit("sin(");
            reveal_strlit("(");
            assert("sin("@ =~= "sin"@ + "("@);
        },
        Expr::Cos(_) => {
            reveal_strlit("cos");
            reveal_strlit("cos(");
            reveal_strlit("(");
            assert("cos("@ =~= "cos"@ + "("@);
        },
        Expr::Tan(_) => {
            reveal_strlit("tan");
            reveal_strlit("tan(");
            reveal_strlit("(");
            assert("tan("@ =~= "tan"@ + "("@);
        },
        Expr::Asin(_) => {
            reveal_strlit("asin");
            reveal_strlit("asin(");
            reveal_strlit("(");
            assert("asin("@ =~= "asin"@ + "("@);
        },
        Expr::Acos(_) => {
            reveal_strlit("acos");
            reveal_strlit("acos(");
            reveal_strlit("(");
            assert("acos("@ =~= "acos"@ + "("@);
        },
        Expr::Atan(_) => {
            reveal_strlit("atan");
            reveal_strlit("atan(");
            reveal_strlit("(");
            assert("atan("@ =~= "atan"@ + "("@);
        },
        Expr::Sinh(_) => {
            reveal_strlit("sinh");
            reveal_strlit("sinh(");
            reveal_strlit("(");
            assert("sinh("@ =~= "sinh"@ + "("@);
        },
        Expr::Cosh(_) => {
            reveal_strlit("cosh");
            reveal_strlit("cosh(");
            reveal_strlit("(");
            assert("cosh("@ =~= "cosh"@ + "("@);
        },
        Expr::Tanh(_) => {
            reveal_strlit("tanh");
            reveal_strlit("tanh(");
            reveal_strlit("(");
            assert("tanh("@ =~= "tanh"@ + "("@);
        },
        Expr::Exp(_) => {
            reveal_strlit("exp");
            reveal_strlit("exp(");
            reveal_strlit("(");
            assert("exp("@ =~= "exp"@ + "("@);
        },
        Expr::Ln(_) => {
            reveal_strlit("ln");
            reveal_strlit("ln(");
            reveal_strlit("(");
            assert("ln("@ =~= "ln"@ + "("@);
        },
        Expr::Log(_) => {
            reveal_strlit("log");
            reveal_strlit("log(");
            reveal_strlit("(");
            assert("log("@ =~= "log"@ + "("@);
        },
        Expr::Sqrt(_) => {
            reveal_strlit("sqrt");
            reveal_strlit("sqrt(");
            reveal_strlit("(");
            assert("sqrt("@ =~= "sqrt"@ + "("@);
        },
        Expr::Abs(_) => {
            reveal_strlit("abs");
            reveal_strlit("abs(");
            reveal_strlit("(");
            assert("abs("@ =~= "abs"@ + "("@);
        },
        _ => {},
    }
}

proof fn lemma_fn_shown(e: Expr, t: Tables)
    requires
        spec_prec(e) == 5,
        !(e is Num),
        !(e is Const),
        !(e is Var),
        ascii_text(fn_arg(e), t) is Ok,
    ensures
        shown(e, t) == fn_open_text(e) + shown(fn_arg(e), t) + ")"@,
        leaves(e) == leaves(fn_arg(e)),
        literal_texts(e, t) == literal_texts(fn_arg(e), t),
        literals_ok(e, t) == literals_ok(fn_arg(e), t),
{
}

/// A sub-expression's text, in round brackets when `c` holds.
proof fn lemma_relex_group(cs: Seq<char>, i: int, k: nat, e: Expr, t: Tables, c: bool)
    requires
        literals_ok(e, t),
        occurs(cs, i, parened(shown(e, t), c)),
        stopper(cs, i + parened(shown(e, t), c).len()),
    ensures
        scan(cs, i, k) == prepend(
            bracketed(printed(e, k), c),
            literal_texts(e, t),
            scan(cs, i + parened(shown(e, t), c).len(), k + leaves(e).len()),
        ),
    decreases e, 3nat,
{
    lemma_texts_ok(e, t);
    let s = shown(e, t);
    let n = s.len();
    if c {
        reveal_strlit("(");
        reveal_strlit(")");
        lemma_occurs_split(cs, i, "("@ + s, ")"@);
        lemma_occurs_split(cs, i, "("@, s);
        lemma_at(cs, i, "("@, 0);
        lemma_at(cs, i + 1 + n, ")"@, 0);
        let kk = k + leaves(e).len();
        lemma_lex_symbol(cs, i, k, TokV::LParen);
        lemma_relex(cs, i + 1, k, e, t);
        lemma_lex_symbol(cs, i + 1 + n, kk, TokV::RParen);
        lemma_chain(cs, i + 1, k, printed(e, k), literal_texts(e, t), i + 1 + n, kk, seq![TokV::RParen], seq![], i + 2 + n, kk);
        lemma_chain(cs, i, k, seq![TokV::LParen], seq![], i + 1, k, printed(e, k) + seq![TokV::RParen], literal_texts(e, t) + seq![], i + 2 + n, kk);
        assert(seq![TokV::LParen] + (printed(e, k) + seq![TokV::RParen]) =~= bracketed(printed(e, k), c));
        assert(Seq::<Seq<char>>::empty() + (literal_texts(e, t) + Seq::<Seq<char>>::empty()) =~= literal_texts(e, t));
    } else {
        lemma_relex(cs, i, k, e, t);
    }
}

/// The text of `e` lexes into its tokens and its number literals.
proof fn lemma_relex(cs: Seq<char>, i: int, k: nat, e: Expr, t: Tables)
    requires
        literals_ok(e, t),
        occurs(cs, i, shown(e, t)),
        stopper(cs, i + shown(e, t).len()),
    ensures
        scan(cs, i, k) == prepend(printed(e, k), literal_texts(e, t), scan(cs, i + shown(e, t).len(), k + leaves(e).len())),
    decreases e, 2nat,
{
    match e {
        Expr::Num(_) | Expr::Const(_) | Expr::Var => lemma_relex_leaf(cs, i, k, e, t),
        Expr::Add(_, _) | Expr::Sub(_, _) => lemma_relex_sum(cs, i, k, e, t),
        Expr::Mul(_, _) | Expr::Div(_, _) | Expr::Pow(_, _) => lemma_relex_product(cs, i, k, e, t),
        Expr::Neg(_) => lemma_relex_neg(cs, i, k, e, t),
        _ => lemma_relex_call(cs, i, k, e, t),
    }
}

#[verifier::rlimit(80)]
proof fn lemma_relex_leaf(cs: Seq<char>, i: int, k: nat, e: Expr, t: Tables)
    requires
        literals_ok(e, t),
        occurs(cs, i, shown(e, t)),
        stopper(cs, i + shown(e, t).len()),
        e is Num || e is Const || e is Var,
    ensures
        scan(cs, i, k) == prepend(printed(e, k), literal_texts(e, t), scan(cs, i + shown(e, t).len(), k + leaves(e).len())),
    decreases e, 1nat,
{
    lemma_texts_ok(e, t);
    let s = shown(e, t);
    let n = s.len();
    match e {
        Expr::Num(v) => {
            let l = t.text(v).unwrap();
            assert(s == l);
            lemma_lex_number(cs, i, k, l);
        },
        Expr::Const(c) => {
            lemma_word_letters(const_name(c));
            lemma_lex_word(cs, i, k, const_name(c));
        },
        Expr::Var => {
            lemma_word_letters("x"@);
            lemma_lex_word(cs, i, k, "x"@);
        },
        _ => {},
    }
}

#[verifier::rlimit(80)]
proof fn lemma_relex_sum(cs: Seq<char>, i: int, k: nat, e: Expr, t: Tables)
    requires
        literals_ok(e, t),
        occurs(cs, i, shown(e, t)),
        stopper(cs, i + shown(e, t).len()),
        e is Add || e is Sub,
    ensures
        scan(cs, i, k) == prepend(printed(e, k), literal_texts(e, t), scan(cs, i + shown(e, t).len(), k + leaves(e).len())),
    decreases e, 1nat,
{
    lemma_texts_ok(e, t);
    let s = shown(e, t);
    let n = s.len();
    match e {
        Expr::Add(a, b) | Expr::Sub(a, b) => {
            lemma_texts_ok(*a, t);
            lemma_texts_ok(*b, t);
            reveal_strlit(" + ");
            reveal_strlit(" - ");
            let ka = k + leaves(*a).len();
            let kk = k + leaves(e).len();
            let sa = shown(*a, t);
            let sep = if e is Add { " + "@ } else { " - "@ };
            let op = if e is Add { TokV::Plus } else { TokV::Minus };
            let cb = if e is Add { false } else { spec_prec(*b) <= 1 };
            let sb = parened(shown(*b, t), cb);
            assert(s == sa + sep + sb);
            lemma_occurs_split(cs, i, sa + sep, sb);
            lemma_occurs_split(cs, i, sa, sep);
            let j = i + sa.len();
            lemma_at(cs, j, sep, 0);
            lemma_at(cs, j, sep, 1);
            lemma_at(cs, j, sep, 2);
            lemma_relex(cs, i, k, *a, t);
            lemma_lex_space(cs, j, ka);
            lemma_lex_symbol(cs, j + 1, ka, op);
            lemma_lex_space(cs, j + 2, ka);
            lemma_relex_group(cs, j + 3, ka, *b, t, cb);
            lemma_chain(cs, j, ka, seq![op], seq![], j + 3, ka, bracketed(printed(*b, ka), cb), literal_texts(*b, t), i + n, kk);
            lemma_chain(cs, i, k, printed(*a, k), literal_texts(*a, t), j, ka, seq![op] + bracketed(printed(*b, ka), cb), seq![] + literal_texts(*b, t), i + n, kk);
            assert(printed(*a, k) + (seq![op] + bracketed(printed(*b, ka), cb)) =~= printed(e, k));
            assert(literal_texts(*a, t) + (Seq::<Seq<char>>::empty() + literal_texts(*b, t)) =~= literal_texts(e, t));
        },
        _ => {},
    }
}

#[verifier::rlimit(80)]
proof fn lemma_relex_product(cs: Seq<char>, i: int, k: nat, e: Expr, t: Tables)
    requires
        literals_ok(e, t),
        occurs(cs, i, shown(e, t)),
        stopper(cs, i + shown(e, t).len()),
        e is Mul || e is Div || e is Pow,
    ensures
        scan(cs, i, k) == prepend(printed(e, k), literal_texts(e, t), scan(cs, i + shown(e, t).len(), k + leaves(e).len())),
    decreases e, 1nat,
{
    lemma_texts_ok(e, t);
    let s = shown(e, t);
    let n = s.len();
    match e {
        Expr::Mul(a, b) | Expr::Div(a, b) | Expr::Pow(a, b) => {
            lemma_texts_ok(*a, t);
            lemma_texts_ok(*b, t);
            reveal_strlit("*");
            reveal_strlit("/");
            reveal_strlit("^");
            let ka = k + leaves(*a).len();
            let kk = k + leaves(e).len();
            let ca = if e is Pow { base_bracketed(*a) } else { spec_prec(*a) < 2 };
            let cb = if e is Mul { spec_prec(*b) < 2 } else if e is Div { spec_prec(*b) <= 2 } else { spec_prec(*b) <= 4 };
            let sym = if e is Mul { "*"@ } else if e is Div { "/"@ } else { "^"@ };
            let op = if e is Mul { TokV::Star } else if e is Div { TokV::Slash } else { TokV::Caret };
            let sa = parened(shown(*a, t), ca);
            let sb = parened(shown(*b, t), cb);
            assert(s == sa + sym + sb);
            lemma_occurs_split(cs, i, sa + sym, sb);
            lemma_occurs_split(cs, i, sa, sym);
            let j = i + sa.len();
            lemma_at(cs, j, sym, 0);
            lemma_relex_group(cs, i, k, *a, t, ca);
            lemma_lex_symbol(cs, j, ka, op);
            lemma_relex_group(cs, j + 1, ka, *b, t, cb);
            lemma_chain(cs, j, ka, seq![op], seq![], j + 1, ka, bracketed(printed(*b, ka), cb), literal_texts(*b, t), i + n, kk);
            lemma_chain(cs, i, k, bracketed(printed(*a, k), ca), literal_texts(*a, t), j, ka, seq![op] + bracketed(printed(*b, ka), cb), seq![] + literal_texts(*b, t), i + n, kk);
            assert(bracketed(printed(*a, k), ca) + (seq![op] + bracketed(printed(*b, ka), cb)) =~= printed(e, k));
            assert(literal_texts(*a, t) + (Seq::<Seq<char>>::empty() + literal_texts(*b, t)) =~= literal_texts(e, t));
        },
        _ => {},
    }
}

#[verifier::rlimit(80)]
proof fn lemma_relex_neg(cs: Seq<char>, i: int, k: nat, e: Expr, t: Tables)
    requires
        literals_ok(e, t),
        occurs(cs, i, shown(e, t)),
        stopper(cs, i + shown(e, t).len()),
        e is Neg,
    ensures
        scan(cs, i, k) == prepend(printed(e, k), literal_texts(e, t), scan(cs, i + shown(e, t).len(), k + leaves(e).len())),
    decreases e, 1nat,
{
    lemma_texts_ok(e, t);
    let s = shown(e, t);
    let n = s.len();
    match e {
        Expr::Neg(a) => {
            lemma_texts_ok(*a, t);
            reveal_strlit("-");
            let kk = k + leaves(e).len();
            let ca = spec_prec(*a) <= 3;
            let sa = parened(shown(*a, t), ca);
            assert(s == "-"@ + sa);
            lemma_occurs_split(cs, i, "-"@, sa);
            lemma_at(cs, i, "-"@, 0);
            lemma_lex_symbol(cs, i, k, TokV::Minus);
            lemma_relex_group(cs, i + 1, k, *a, t, ca);
            lemma_chain(cs, i, k, seq![TokV::Minus], seq![], i + 1, k, bracketed(printed(*a, k), ca), literal_texts(*a, t), i + n, kk);
            assert(Seq::<Seq<char>>::empty() + literal_texts(*a, t) =~= literal_texts(e, t));
        },
        _ => {},
    }
}

/// A function call: its name, `(`, its argument, `)`.
#[verifier::rlimit(80)]
proof fn lemma_relex_call(cs: Seq<char>, i: int, k: nat, e: Expr, t: Tables)
    requires
        literals_ok(e, t),
        spec_prec(e) == 5,
        !(e is Num),
        !(e is Const),
        !(e is Var),
        occurs(cs, i, shown(e, t)),
        stopper(cs, i + shown(e, t).len()),
    ensures
        scan(cs, i, k) == prepend(printed(e, k), literal_texts(e, t), scan(cs, i + shown(e, t).len(), k + leaves(e).len())),
    decreases e, 0nat,
{
    let a = fn_arg(e);
    let name = fn_name(e);
    assert(literals_ok(a, t));
    lemma_texts_ok(a, t);
    lemma_fn_shown(e, t);
    lemma_fn_open_text(e);
    lemma_fn_call_tokens(e, k);
    reveal_strlit("(");
    reveal_strlit(")");
    let sa = shown(a, t);
    let s = shown(e, t);
    let n = s.len();
    let w = name.len();
    let kk = k + leaves(e).len();
    assert(s == name + "("@ + sa + ")"@);
    lemma_occurs_split(cs, i, name + "("@ + sa, ")"@);
    lemma_occurs_split(cs, i, name + "("@, sa);
    lemma_occurs_split(cs, i, name, "("@);
    lemma_at(cs, i + w, "("@, 0);
    lemma_at(cs, i + w + 1 + sa.len(), ")"@, 0);
    lemma_word_letters(name);
    lemma_lex_word(cs, i, k, name);
    lemma_lex_symbol(cs, i + w, k, TokV::LParen);
    lemma_relex(cs, i + w + 1, k, a, t);
    lemma_lex_symbol(cs, i + n - 1, kk, TokV::RParen);
    lemma_chain(cs, i + w + 1, k, printed(a, k), literal_texts(a, t), i + n - 1, kk, seq![TokV::RParen], seq![], i + n, kk);
    lemma_chain(cs, i + w, k, seq![TokV::LParen], seq![], i + w + 1, k, printed(a, k) + seq![TokV::RParen], literal_texts(a, t) + seq![], i + n, kk);
    lemma_chain(cs, i, k, seq![TokV::Ident(name)], seq![], i + w, k, seq![TokV::LParen] + (printed(a, k) + seq![TokV::RParen]), seq![] + (literal_texts(a, t) + seq![]), i + n, kk);
    assert(seq![TokV::Ident(name)] + (seq![TokV::LParen] + (printed(a, k) + seq![TokV::RParen])) =~= printed(e, k));
    assert(Seq::<Seq<char>>::empty() + (Seq::<Seq<char>>::empty() + (literal_texts(a, t) + Seq::<Seq<char>>::empty())) =~= literal_texts(e, t));
}

proof fn lemma_fn_call_tokens(e: Expr, k: nat)
    requires
        spec_prec(e) == 5,
        !(e is Num),
        !(e is Const),
        !(e is Var),
    ensures
        printed(e, k) == call(fn_name(e), printed(fn_arg(e), k)),
{
}

/// The ASCII text of a readable expression whose number texts are plain
/// decimal literals lexes into tokens and literals that parse back to the
/// expression, when each literal is read as the number it was written for.
pub proof fn law_ascii_text_reads_back(e: Expr, t: Tables)
    requires
        readable(e),
        literals_ok(e, t),
        leaves(e).len() <= usize::MAX,
    ensures
        ascii_text(e, t) == Ok::<Seq<char>, Need>(shown(e, t)),
        tokens_of(shown(e, t)) == Ok::<(Seq<TokV>, Seq<Seq<char>>), Seq<char>>((printed(e, 0), literal_texts(e, t))),
        parse_of(printed(e, 0), leaves(e)) == Ok::<Expr, Seq<char>>(e),
{
    lemma_texts_ok(e, t);
    let s = shown(e, t);
    assert(s.subrange(0, s.len() as int) =~= s);
    lemma_relex(s, 0, 0, e, t);
    assert(printed(e, 0) + Seq::<TokV>::empty() =~= printed(e, 0));
    assert(literal_texts(e, t) + Seq::<Seq<char>>::empty() =~= literal_texts(e, t));
    law_ascii_tokens_read_back(e);
}

} // verus!
