//! Laws of the symbolic engine: properties that hold of every input and
//! span more than one function.
use vstd::prelude::*;
use crate::analysis::report;
use crate::ast::{spec_is_constant, Expr};
use crate::diff::derivative;
use crate::integrate::antiderivative;
use crate::numeric::{fold_in, text_in, FoldEntry, FoldOp, Need, NumText, Tables, ONE, ZERO};
use crate::render::{ascii_text, latex_text};
use crate::simplify::{pass_children, pass_of, passes, simplified, MAX_PASSES};

verus! {

proof fn lemma_passes_constant(e: Expr, k: nat, t: Tables)
    requires
        spec_is_constant(e),
    ensures
        passes(e, k, t) == Ok::<Expr, crate::numeric::Need>(e),
    decreases k,
{
    assert(crate::simplify::pass_children(e, t) == Ok::<Expr, crate::numeric::Need>(e));
    assert(pass_of(e, t) == Ok::<Expr, crate::numeric::Need>(e));
    if k > 0 {
        lemma_passes_constant(e, (k - 1) as nat, t);
    }
}

/// Simplification leaves a constant (a number or a named constant) as it is,
/// whatever arithmetic results are known.
pub proof fn law_simplify_keeps_constants(e: Expr, t: Tables)
    requires
        spec_is_constant(e),
    ensures
        simplified(e, t) == Ok::<Expr, crate::numeric::Need>(e),
{
    lemma_passes_constant(e, MAX_PASSES as nat, t);
}

/// The derivative of a constant simplifies to the number zero.
pub proof fn law_constant_derivative_is_zero(e: Expr, t: Tables)
    requires
        spec_is_constant(e),
    ensures
        simplified(derivative(e), t) == Ok::<Expr, crate::numeric::Need>(Expr::Num(ZERO)),
{
    law_simplify_keeps_constants(Expr::Num(ZERO), t);
}

/// The derivative of `x` simplifies to the number one.
pub proof fn law_variable_derivative_is_one(t: Tables)
    ensures
        simplified(derivative(Expr::Var), t) == Ok::<Expr, crate::numeric::Need>(Expr::Num(ONE)),
{
    law_simplify_keeps_constants(Expr::Num(ONE), t);
}

/// Whether the tables lack what `k` asks for.
pub open spec fn lacks(t: Tables, k: Need) -> bool {
    match k {
        Need::Fold(op, a, b) => t.fold(op, a, b) is None,
        Need::Text(n) => t.text(n) is None,
    }
}

/// Whether `k` asks for an arithmetic result that the tables lack.
pub open spec fn lacks_fold(t: Tables, k: Need) -> bool {
    k is Fold && lacks(t, k)
}

/// Whether `k` asks for a number text that the tables lack.
pub open spec fn lacks_text(t: Tables, k: Need) -> bool {
    k is Text && lacks(t, k)
}

proof fn lemma_pass_needs(e: Expr, t: Tables)
    ensures
        pass_children(e, t) matches Err(k) ==> lacks_fold(t, k),
        pass_of(e, t) matches Err(k) ==> lacks_fold(t, k),
    decreases e,
{
    match e {
        Expr::Add(a, b) | Expr::Sub(a, b) | Expr::Mul(a, b) | Expr::Div(a, b) | Expr::Pow(a, b) => {
            lemma_pass_needs(*a, t);
            lemma_pass_needs(*b, t);
            if let Expr::Mul(c, d) = *b {
                lemma_pass_needs(*d, t);
            }
        },
        Expr::Neg(a) => {
            lemma_pass_needs(*a, t);
            if let Expr::Neg(inner) = *a {
                lemma_pass_needs(*inner, t);
            }
        },
        Expr::Sin(a) | Expr::Cos(a) | Expr::Tan(a) | Expr::Asin(a) | Expr::Acos(a) | Expr::Atan(a)
        | Expr::Sinh(a) | Expr::Cosh(a) | Expr::Tanh(a) | Expr::Exp(a) | Expr::Ln(a) | Expr::Log(a)
        | Expr::Sqrt(a) | Expr::Abs(a) => {
            lemma_pass_needs(*a, t);
        },
        _ => {},
    }
}

proof fn lemma_passes_needs(e: Expr, k: nat, t: Tables)
    ensures
        passes(e, k, t) matches Err(n) ==> lacks_fold(t, n),
    decreases k,
{
    lemma_pass_needs(e, t);
    if k > 0 {
        if let Ok(next) = pass_of(e, t) {
            lemma_passes_needs(next, (k - 1) as nat, t);
        }
    }
}

/// Simplification stops only to ask for an arithmetic result that the
/// tables lack: supplying it lets the next run go further.
pub proof fn law_simplify_needs_are_missing(e: Expr, t: Tables)
    ensures
        simplified(e, t) matches Err(k) ==> lacks_fold(t, k),
{
    lemma_passes_needs(e, MAX_PASSES as nat, t);
}

/// Symbolic integration stops only to ask for an arithmetic result that the
/// tables lack.
pub proof fn law_integrate_needs_are_missing(e: Expr, t: Tables)
    ensures
        antiderivative(e, t) matches Err(k) ==> lacks_fold(t, k),
    decreases e,
{
    match e {
        Expr::Add(a, b) | Expr::Sub(a, b) | Expr::Mul(a, b) => {
            law_integrate_needs_are_missing(*a, t);
            law_integrate_needs_are_missing(*b, t);
        },
        Expr::Neg(a) => {
            law_integrate_needs_are_missing(*a, t);
        },
        Expr::Pow(_, b) => {
            law_simplify_needs_are_missing(*b, t);
        },
        _ => {},
    }
}

/// Rendering stops only to ask for a number text that the tables lack.
pub proof fn law_render_needs_are_missing(e: Expr, t: Tables)
    ensures
        ascii_text(e, t) matches Err(k) ==> lacks_text(t, k),
        latex_text(e, t) matches Err(k) ==> lacks_text(t, k),
    decreases e,
{
    match e {
        Expr::Add(a, b) | Expr::Sub(a, b) | Expr::Mul(a, b) | Expr::Div(a, b) | Expr::Pow(a, b) => {
            law_render_needs_are_missing(*a, t);
            law_render_needs_are_missing(*b, t);
        },
        Expr::Neg(a) | Expr::Sin(a) | Expr::Cos(a) | Expr::Tan(a) | Expr::Asin(a) | Expr::Acos(a)
        | Expr::Atan(a) | Expr::Sinh(a) | Expr::Cosh(a) | Expr::Tanh(a) | Expr::Exp(a) | Expr::Ln(a)
        | Expr::Log(a) | Expr::Sqrt(a) | Expr::Abs(a) => {
            law_render_needs_are_missing(*a, t);
        },
        _ => {},
    }
}

/// The symbolic report of a function stops only to ask for an arithmetic
/// result or a number text that the tables lack.
pub proof fn law_report_needs_are_missing(e: Expr, t: Tables)
    ensures
        report(e, t) matches Err(k) ==> lacks(t, k),
{
    law_simplify_needs_are_missing(derivative(e), t);
    law_integrate_needs_are_missing(e, t);
    law_render_needs_are_missing(e, t);
    if let Ok(d) = simplified(derivative(e), t) {
        law_render_needs_are_missing(d, t);
    }
    if let Ok(Some(a)) = antiderivative(e, t) {
        law_simplify_needs_are_missing(a, t);
        if let Ok(s) = simplified(a, t) {
            law_render_needs_are_missing(s, t);
        }
    }
}

/// Whether `big` gives every arithmetic result and number text that `small`
/// gives, and gives it unchanged.
pub open spec fn extends(big: Tables, small: Tables) -> bool {
    &&& forall|op: FoldOp, a: u64, b: u64| #[trigger] small.fold(op, a, b) is Some ==> big.fold(op, a, b) == small.fold(op, a, b)
    &&& forall|n: u64| #[trigger] small.text(n) is Some ==> big.text(n) == small.text(n)
}

proof fn lemma_fold_push(s: Seq<FoldEntry>, x: FoldEntry, op: FoldOp, a: u64, b: u64)
    ensures
        fold_in(s, op, a, b) is Some ==> fold_in(s.push(x), op, a, b) == fold_in(s, op, a, b),
    decreases s.len(),
{
    if s.len() > 0 {
        assert(s.push(x).drop_first() =~= s.drop_first().push(x));
        lemma_fold_push(s.drop_first(), x, op, a, b);
    }
}

proof fn lemma_text_push(s: Seq<NumText>, x: NumText, n: u64)
    ensures
        text_in(s, n) is Some ==> text_in(s.push(x), n) == text_in(s, n),
    decreases s.len(),
{
    if s.len() > 0 {
        assert(s.push(x).drop_first() =~= s.drop_first().push(x));
        lemma_text_push(s.drop_first(), x, n);
    }
}

/// Recording a result or a text at the end of the tables (as `add_fold` and
/// `add_text` do) changes nothing that the tables already gave.
pub proof fn law_recording_keeps_known_results(t: Tables, f: FoldEntry, x: NumText)
    ensures
        extends(Tables { folds: t.folds.push(f), texts: t.texts }, t),
        extends(Tables { folds: t.folds, texts: t.texts.push(x) }, t),
{
    assert forall|op: FoldOp, a: u64, b: u64| #[trigger] t.fold(op, a, b) is Some implies fold_in(t.folds.push(f), op, a, b) == t.fold(op, a, b) by {
        lemma_fold_push(t.folds, f, op, a, b);
    }
    assert forall|n: u64| #[trigger] t.text(n) is Some implies text_in(t.texts.push(x), n) == t.text(n) by {
        lemma_text_push(t.texts, x, n);
    }
}

proof fn lemma_pass_stable(e: Expr, t1: Tables, t2: Tables)
    requires
        extends(t2, t1),
    ensures
        pass_children(e, t1) is Ok ==> pass_children(e, t2) == pass_children(e, t1),
        pass_of(e, t1) is Ok ==> pass_of(e, t2) == pass_of(e, t1),
    decreases e,
{
    match e {
        Expr::Add(a, b) | Expr::Sub(a, b) | Expr::Mul(a, b) | Expr::Div(a, b) | Expr::Pow(a, b) => {
            lemma_pass_stable(*a, t1, t2);
            lemma_pass_stable(*b, t1, t2);
            if let Expr::Mul(c, d) = *b {
                lemma_pass_stable(*d, t1, t2);
            }
        },
        Expr::Neg(a) => {
            lemma_pass_stable(*a, t1, t2);
            if let Expr::Neg(inner) = *a {
                lemma_pass_stable(*inner, t1, t2);
            }
        },
        Expr::Sin(a) | Expr::Cos(a) | Expr::Tan(a) | Expr::Asin(a) | Expr::Acos(a) | Expr::Atan(a)
        | Expr::Sinh(a) | Expr::Cosh(a) | Expr::Tanh(a) | Expr::Exp(a) | Expr::Ln(a) | Expr::Log(a)
        | Expr::Sqrt(a) | Expr::Abs(a) => {
            lemma_pass_stable(*a, t1, t2);
        },
        _ => {},
    }
}

proof fn lemma_passes_stable(e: Expr, k: nat, t1: Tables, t2: Tables)
    requires
        extends(t2, t1),
    ensures
        passes(e, k, t1) is Ok ==> passes(e, k, t2) == passes(e, k, t1),
    decreases k,
{
    lemma_pass_stable(e, t1, t2);
    if k > 0 {
        if let Ok(next) = pass_of(e, t1) {
            lemma_passes_stable(next, (k - 1) as nat, t1, t2);
        }
    }
}

/// Once simplification finishes with some tables, it gives the same result
/// with any tables that extend them.
pub proof fn law_simplify_is_stable(e: Expr, t1: Tables, t2: Tables)
    requires
        extends(t2, t1),
        simplified(e, t1) is Ok,
    ensures
        simplified(e, t2) == simplified(e, t1),
{
    lemma_passes_stable(e, MAX_PASSES as nat, t1, t2);
}

proof fn lemma_integrate_stable(e: Expr, t1: Tables, t2: Tables)
    requires
        extends(t2, t1),
    ensures
        antiderivative(e, t1) is Ok ==> antiderivative(e, t2) == antiderivative(e, t1),
    decreases e,
{
    match e {
        Expr::Add(a, b) | Expr::Sub(a, b) | Expr::Mul(a, b) => {
            lemma_integrate_stable(*a, t1, t2);
            lemma_integrate_stable(*b, t1, t2);
        },
        Expr::Neg(a) => {
            lemma_integrate_stable(*a, t1, t2);
        },
        Expr::Pow(_, b) => {
            lemma_passes_stable(*b, MAX_PASSES as nat, t1, t2);
        },
        _ => {},
    }
}

/// Once symbolic integration finishes with some tables, it gives the same
/// result with any tables that extend them.
pub proof fn law_integrate_is_stable(e: Expr, t1: Tables, t2: Tables)
    requires
        extends(t2, t1),
        antiderivative(e, t1) is Ok,
    ensures
        antiderivative(e, t2) == antiderivative(e, t1),
{
    lemma_integrate_stable(e, t1, t2);
}

proof fn lemma_render_stable(e: Expr, t1: Tables, t2: Tables)
    requires
        extends(t2, t1),
    ensures
        ascii_text(e, t1) is Ok ==> ascii_text(e, t2) == ascii_text(e, t1),
        latex_text(e, t1) is Ok ==> latex_text(e, t2) == latex_text(e, t1),
    decreases e,
{
    match e {
        Expr::Add(a, b) | Expr::Sub(a, b) | Expr::Mul(a, b) | Expr::Div(a, b) | Expr::Pow(a, b) => {
            lemma_render_stable(*a, t1, t2);
            lemma_render_stable(*b, t1, t2);
        },
        Expr::Neg(a) | Expr::Sin(a) | Expr::Cos(a) | Expr::Tan(a) | Expr::Asin(a) | Expr::Acos(a)
        | Expr::Atan(a) | Expr::Sinh(a) | Expr::Cosh(a) | Expr::Tanh(a) | Expr::Exp(a) | Expr::Ln(a)
        | Expr::Log(a) | Expr::Sqrt(a) | Expr::Abs(a) => {
            lemma_render_stable(*a, t1, t2);
        },
        _ => {},
    }
}

/// Once the symbolic report of a function is complete with some tables, it
/// is the same with any tables that extend them: supplying more results
/// never changes an answer already given.
pub proof fn law_report_is_stable(e: Expr, t1: Tables, t2: Tables)
    requires
        extends(t2, t1),
        report(e, t1) is Ok,
    ensures
        report(e, t2) == report(e, t1),
{
    lemma_passes_stable(derivative(e), MAX_PASSES as nat, t1, t2);
    lemma_integrate_stable(e, t1, t2);
    lemma_render_stable(e, t1, t2);
    if let Ok(d) = simplified(derivative(e), t1) {
        lemma_render_stable(d, t1, t2);
    }
    if let Ok(Some(a)) = antiderivative(e, t1) {
        lemma_passes_stable(a, MAX_PASSES as nat, t1, t2);
        if let Ok(s) = simplified(a, t1) {
            lemma_render_stable(s, t1, t2);
        }
    }
}

} // verus!
