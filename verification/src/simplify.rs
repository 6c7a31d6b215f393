//! Best-effort algebraic simplification. Not a full CAS: it removes the
//! obvious cruft that differentiation produces (0s, 1s, constant folding) and
//! normalises a few common shapes so the printed result is readable.
//!
//! Folding two constants needs the double-precision result of an operation;
//! it is taken from the [`Numerics`] tables, and a missing one is reported as
//! a [`Need`].
use vstd::prelude::*;
use crate::ast::{mk_mul, mk_neg, spec_is_constant, Expr};
use crate::numeric::{
    const_bits, const_value, float_eq, float_eq_bits, fold_result, is_zero, is_zero_bits, negate_bits,
    negated, FoldOp, Need, Numerics, Tables, ONE, ZERO,
};

verus! {

/// The number of passes after which simplification stops even if it has not
/// reached a fixed point.
pub const MAX_PASSES: usize = 8;

/// The value of a constant expression (a number or a named constant).
pub open spec fn const_val(e: Expr) -> u64 {
    match e {
        Expr::Num(n) => n,
        Expr::Const(c) => const_bits(c),
        _ => ZERO,
    }
}

/// Whether `e` is a number equal to `0.0`.
pub open spec fn num_zero(e: Expr) -> bool {
    e matches Expr::Num(n) && is_zero(n)
}

/// Whether `e` is a number equal to `1.0`.
pub open spec fn num_one(e: Expr) -> bool {
    e matches Expr::Num(n) && n == ONE
}

/// `op(a, b)` folded into a number, for constant `a` and `b`.
pub open spec fn folded(t: Tables, op: FoldOp, a: Expr, b: Expr) -> Result<Expr, Need> {
    match fold_result(t, op, const_val(a), const_val(b)) {
        Ok(v) => Ok(Expr::Num(v)),
        Err(k) => Err(k),
    }
}

/// Two simplified operands joined by a binary node (left one first).
pub open spec fn join2(
    ra: Result<Expr, Need>,
    rb: Result<Expr, Need>,
    f: spec_fn(Expr, Expr) -> Expr,
) -> Result<Expr, Need> {
    match ra {
        Err(k) => Err(k),
        Ok(x) => match rb {
            Err(k) => Err(k),
            Ok(y) => Ok(f(x, y)),
        },
    }
}

/// A simplified operand under a unary node.
pub open spec fn join1(ra: Result<Expr, Need>, f: spec_fn(Expr) -> Expr) -> Result<Expr, Need> {
    match ra {
        Err(k) => Err(k),
        Ok(x) => Ok(f(x)),
    }
}

/// `e` with one pass applied to each of its children.
pub open spec fn pass_children(e: Expr, t: Tables) -> Result<Expr, Need>
    decreases e, 0nat,
{
    match e {
        Expr::Add(a, b) => join2(pass_of(*a, t), pass_of(*b, t), |x: Expr, y: Expr| Expr::Add(Box::new(x), Box::new(y))),
        Expr::Sub(a, b) => join2(pass_of(*a, t), pass_of(*b, t), |x: Expr, y: Expr| Expr::Sub(Box::new(x), Box::new(y))),
        Expr::Mul(a, b) => join2(pass_of(*a, t), pass_of(*b, t), |x: Expr, y: Expr| Expr::Mul(Box::new(x), Box::new(y))),
        Expr::Div(a, b) => join2(pass_of(*a, t), pass_of(*b, t), |x: Expr, y: Expr| Expr::Div(Box::new(x), Box::new(y))),
        Expr::Pow(a, b) => join2(pass_of(*a, t), pass_of(*b, t), |x: Expr, y: Expr| Expr::Pow(Box::new(x), Box::new(y))),
        Expr::Neg(a) => join1(pass_of(*a, t), |x: Expr| Expr::Neg(Box::new(x))),
        Expr::Sin(a) => join1(pass_of(*a, t), |x: Expr| Expr::Sin(Box::new(x))),
        Expr::Cos(a) => join1(pass_of(*a, t), |x: Expr| Expr::Cos(Box::new(x))),
        Expr::Tan(a) => join1(pass_of(*a, t), |x: Expr| Expr::Tan(Box::new(x))),
        Expr::Asin(a) => join1(pass_of(*a, t), |x: Expr| Expr::Asin(Box::new(x))),
        Expr::Acos(a) => join1(pass_of(*a, t), |x: Expr| Expr::Acos(Box::new(x))),
        Expr::Atan(a) => join1(pass_of(*a, t), |x: Expr| Expr::Atan(Box::new(x))),
        Expr::Sinh(a) => join1(pass_of(*a, t), |x: Expr| Expr::Sinh(Box::new(x))),
        Expr::Cosh(a) => join1(pass_of(*a, t), |x: Expr| Expr::Cosh(Box::new(x))),
        Expr::Tanh(a) => join1(pass_of(*a, t), |x: Expr| Expr::Tanh(Box::new(x))),
        Expr::Exp(a) => join1(pass_of(*a, t), |x: Expr| Expr::Exp(Box::new(x))),
        Expr::Ln(a) => join1(pass_of(*a, t), |x: Expr| Expr::Ln(Box::new(x))),
        Expr::Log(a) => join1(pass_of(*a, t), |x: Expr| Expr::Log(Box::new(x))),
        Expr::Sqrt(a) => join1(pass_of(*a, t), |x: Expr| Expr::Sqrt(Box::new(x))),
        Expr::Abs(a) => join1(pass_of(*a, t), |x: Expr| Expr::Abs(Box::new(x))),
        _ => Ok(e),
    }
}

/// One simplification pass: the first rule that matches rewrites the node,
/// then the pass continues into the children of the result (except after the
/// product normalisations, which end the pass at that node).
pub open spec fn pass_of(e: Expr, t: Tables) -> Result<Expr, Need>
    decreases e, 1nat,
{
    match e {
        Expr::Add(a, b) => {
            if spec_is_constant(*a) && spec_is_constant(*b) {
                folded(t, FoldOp::Add, *a, *b)
            } else if num_zero(*b) {
                pass_children(*a, t)
            } else if num_zero(*a) {
                pass_children(*b, t)
            } else {
                pass_children(e, t)
            }
        },
        Expr::Sub(a, b) => {
            if spec_is_constant(*a) && spec_is_constant(*b) {
                folded(t, FoldOp::Sub, *a, *b)
            } else if num_zero(*b) {
                pass_children(*a, t)
            } else if num_zero(*a) {
                join1(pass_of(*b, t), |x: Expr| Expr::Neg(Box::new(x)))
            } else {
                pass_children(e, t)
            }
        },
        Expr::Mul(a, b) => {
            if spec_is_constant(*a) && spec_is_constant(*b) {
                folded(t, FoldOp::Mul, *a, *b)
            } else if num_one(*b) {
                pass_children(*a, t)
            } else if num_one(*a) {
                pass_children(*b, t)
            } else if num_zero(*a) || num_zero(*b) {
                Ok(Expr::Num(ZERO))
            } else if (*b matches Expr::Mul(c, _) && *a is Num && *c is Num) {
                // fold numeric coefficients: 2*(3*d) -> 6*d
                match *b {
                    Expr::Mul(c, d) => match fold_result(t, FoldOp::Mul, const_val(*a), const_val(*c)) {
                        Ok(v) => Ok(mk_mul(Expr::Num(v), *d)),
                        Err(k) => Err(k),
                    },
                    _ => Ok(e),
                }
            } else if (*b matches Expr::Mul(c, _) && !(*a is Num) && *c is Num && !(*a is Mul)) {
                // float the numeric factor to the front: f*(2*x) -> (2*x)*f
                Ok(mk_mul(*b, *a))
            } else if (*b matches Expr::Neg(inner) && !(*a is Neg)) {
                // pull a negation out of the second factor: a*(-b) -> (-a)*b
                match *b {
                    Expr::Neg(inner) => Ok(mk_mul(mk_neg(*a), *inner)),
                    _ => Ok(e),
                }
            } else {
                pass_children(e, t)
            }
        },
        Expr::Div(a, b) => {
            if spec_is_constant(*a) && spec_is_constant(*b) {
                folded(t, FoldOp::Div, *a, *b)
            } else if num_one(*b) {
                pass_children(*a, t)
            } else if num_zero(*a) {
                Ok(Expr::Num(ZERO))
            } else {
                pass_children(e, t)
            }
        },
        Expr::Pow(a, b) => {
            if spec_is_constant(*a) && spec_is_constant(*b) {
                folded(t, FoldOp::Pow, *a, *b)
            } else if num_one(*b) {
                pass_children(*a, t)
            } else if num_zero(*b) {
                Ok(Expr::Num(ONE))
            } else if num_one(*a) {
                Ok(Expr::Num(ONE))
            } else if num_zero(*a) {
                Ok(Expr::Num(ZERO))
            } else {
                pass_children(e, t)
            }
        },
        Expr::Neg(a) => {
            if spec_is_constant(*a) {
                Ok(Expr::Num(negated(const_val(*a))))
            } else if *a is Neg {
                match *a {
                    Expr::Neg(inner) => pass_children(*inner, t),
                    _ => Ok(e),
                }
            } else if num_zero(*a) {
                Ok(Expr::Num(ZERO))
            } else {
                pass_children(e, t)
            }
        },
        _ => pass_children(e, t),
    }
}

/// Structural equality of expressions in which numbers compare as doubles
/// do (a NaN equals nothing, the two zeros are equal).
pub open spec fn expr_feq(a: Expr, b: Expr) -> bool
    decreases a,
{
    match (a, b) {
        (Expr::Num(x), Expr::Num(y)) => float_eq(x, y),
        (Expr::Const(x), Expr::Const(y)) => x == y,
        (Expr::Var, Expr::Var) => true,
        (Expr::Add(a1, a2), Expr::Add(b1, b2)) => expr_feq(*a1, *b1) && expr_feq(*a2, *b2),
        (Expr::Sub(a1, a2), Expr::Sub(b1, b2)) => expr_feq(*a1, *b1) && expr_feq(*a2, *b2),
        (Expr::Mul(a1, a2), Expr::Mul(b1, b2)) => expr_feq(*a1, *b1) && expr_feq(*a2, *b2),
        (Expr::Div(a1, a2), Expr::Div(b1, b2)) => expr_feq(*a1, *b1) && expr_feq(*a2, *b2),
        (Expr::Pow(a1, a2), Expr::Pow(b1, b2)) => expr_feq(*a1, *b1) && expr_feq(*a2, *b2),
        (Expr::Neg(x), Expr::Neg(y)) => expr_feq(*x, *y),
        (Expr::Sin(x), Expr::Sin(y)) => expr_feq(*x, *y),
        (Expr::Cos(x), Expr::Cos(y)) => expr_feq(*x, *y),
        (Expr::Tan(x), Expr::Tan(y)) => expr_feq(*x, *y),
        (Expr::Asin(x), Expr::Asin(y)) => expr_feq(*x, *y),
        (Expr::Acos(x), Expr::Acos(y)) => expr_feq(*x, *y),
        (Expr::Atan(x), Expr::Atan(y)) => expr_feq(*x, *y),
        (Expr::Sinh(x), Expr::Sinh(y)) => expr_feq(*x, *y),
        (Expr::Cosh(x), Expr::Cosh(y)) => expr_feq(*x, *y),
        (Expr::Tanh(x), Expr::Tanh(y)) => expr_feq(*x, *y),
        (Expr::Exp(x), Expr::Exp(y)) => expr_feq(*x, *y),
        (Expr::Ln(x), Expr::Ln(y)) => expr_feq(*x, *y),
        (Expr::Log(x), Expr::Log(y)) => expr_feq(*x, *y),
        (Expr::Sqrt(x), Expr::Sqrt(y)) => expr_feq(*x, *y),
        (Expr::Abs(x), Expr::Abs(y)) => expr_feq(*x, *y),
        _ => false,
    }
}

/// At most `k` more passes from `cur`, stopping when a pass changes nothing.
pub open spec fn passes(cur: Expr, k: nat, t: Tables) -> Result<Expr, Need>
    decreases k,
{
    if k == 0 {
        Ok(cur)
    } else {
        match pass_of(cur, t) {
            Err(n) => Err(n),
            Ok(next) => if expr_feq(next, cur) {
                Ok(cur)
            } else {
                passes(next, (k - 1) as nat, t)
            },
        }
    }
}

/// The simplified form of `e`: passes until a fixed point, at most
/// [`MAX_PASSES`] of them.
pub open spec fn simplified(e: Expr, t: Tables) -> Result<Expr, Need> {
    passes(e, MAX_PASSES as nat, t)
}

/// Structural equality of expressions, numbers compared as doubles.
pub fn same_expr(a: &Expr, b: &Expr) -> (r: bool)
    ensures
        r == expr_feq(*a, *b),
    decreases a,
{
    match (a, b) {
        (Expr::Num(x), Expr::Num(y)) => float_eq_bits(*x, *y),
        (Expr::Const(x), Expr::Const(y)) => *x == *y,
        (Expr::Var, Expr::Var) => true,
        (Expr::Add(a1, a2), Expr::Add(b1, b2)) => same_expr(a1, b1) && same_expr(a2, b2),
        (Expr::Sub(a1, a2), Expr::Sub(b1, b2)) => same_expr(a1, b1) && same_expr(a2, b2),
        (Expr::Mul(a1, a2), Expr::Mul(b1, b2)) => same_expr(a1, b1) && same_expr(a2, b2),
        (Expr::Div(a1, a2), Expr::Div(b1, b2)) => same_expr(a1, b1) && same_expr(a2, b2),
        (Expr::Pow(a1, a2), Expr::Pow(b1, b2)) => same_expr(a1, b1) && same_expr(a2, b2),
        (Expr::Neg(x), Expr::Neg(y)) => same_expr(x, y),
        (Expr::Sin(x), Expr::Sin(y)) => same_expr(x, y),
        (Expr::Cos(x), Expr::Cos(y)) => same_expr(x, y),
        (Expr::Tan(x), Expr::Tan(y)) => same_expr(x, y),
        (Expr::Asin(x), Expr::Asin(y)) => same_expr(x, y),
        (Expr::Acos(x), Expr::Acos(y)) => same_expr(x, y),
        (Expr::Atan(x), Expr::Atan(y)) => same_expr(x, y),
        (Expr::Sinh(x), Expr::Sinh(y)) => same_expr(x, y),
        (Expr::Cosh(x), Expr::Cosh(y)) => same_expr(x, y),
        (Expr::Tanh(x), Expr::Tanh(y)) => same_expr(x, y),
        (Expr::Exp(x), Expr::Exp(y)) => same_expr(x, y),
        (Expr::Ln(x), Expr::Ln(y)) => same_expr(x, y),
        (Expr::Log(x), Expr::Log(y)) => same_expr(x, y),
        (Expr::Sqrt(x), Expr::Sqrt(y)) => same_expr(x, y),
        (Expr::Abs(x), Expr::Abs(y)) => same_expr(x, y),
        _ => false,
    }
}

fn const_of(e: &Expr) -> (r: u64)
    ensures
        r == const_val(*e),
{
    match e {
        Expr::Num(n) => *n,
        Expr::Const(c) => const_value(*c),
        _ => ZERO,
    }
}

fn is_zero_num(e: &Expr) -> (r: bool)
    ensures
        r == num_zero(*e),
{
    match e {
        Expr::Num(n) => is_zero_bits(*n),
        _ => false,
    }
}

fn is_one_num(e: &Expr) -> (r: bool)
    ensures
        r == num_one(*e),
{
    match e {
        Expr::Num(n) => *n == ONE,
        _ => false,
    }
}

fn fold_consts(op: FoldOp, a: &Expr, b: &Expr, tab: &Numerics) -> (r: Result<Expr, Need>)
    ensures
        r == folded(tab.tables(), op, *a, *b),
{
    let v = tab.fold_or_need(op, const_of(a), const_of(b))?;
    Ok(Expr::Num(v))
}

/// `e` with one pass applied to each of its children.
fn pass_children_exec(e: &Expr, tab: &Numerics) -> (r: Result<Expr, Need>)
    ensures
        r == pass_children(*e, tab.tables()),
    decreases e, 0nat,
{
    match e {
        Expr::Add(a, b) => {
            let x = pass(a, tab)?;
            let y = pass(b, tab)?;
            Ok(Expr::add(x, y))
        },
        Expr::Sub(a, b) => {
            let x = pass(a, tab)?;
            let y = pass(b, tab)?;
            Ok(Expr::sub(x, y))
        },
        Expr::Mul(a, b) => {
            let x = pass(a, tab)?;
            let y = pass(b, tab)?;
            Ok(Expr::mul(x, y))
        },
        Expr::Div(a, b) => {
            let x = pass(a, tab)?;
            let y = pass(b, tab)?;
            Ok(Expr::div(x, y))
        },
        Expr::Pow(a, b) => {
            let x = pass(a, tab)?;
            let y = pass(b, tab)?;
            Ok(Expr::pow(x, y))
        },
        Expr::Neg(a) => Ok(Expr::neg(pass(a, tab)?)),
        Expr::Sin(a) => Ok(Expr::sin(pass(a, tab)?)),
        Expr::Cos(a) => Ok(Expr::cos(pass(a, tab)?)),
        Expr::Tan(a) => Ok(Expr::tan(pass(a, tab)?)),
        Expr::Asin(a) => Ok(Expr::asin(pass(a, tab)?)),
        Expr::Acos(a) => Ok(Expr::acos(pass(a, tab)?)),
        Expr::Atan(a) => Ok(Expr::atan(pass(a, tab)?)),
        Expr::Sinh(a) => Ok(Expr::sinh(pass(a, tab)?)),
        Expr::Cosh(a) => Ok(Expr::cosh(pass(a, tab)?)),
        Expr::Tanh(a) => Ok(Expr::tanh(pass(a, tab)?)),
        Expr::Exp(a) => Ok(Expr::exp(pass(a, tab)?)),
        Expr::Ln(a) => Ok(Expr::ln(pass(a, tab)?)),
        Expr::Log(a) => Ok(Expr::log(pass(a, tab)?)),
        Expr::Sqrt(a) => Ok(Expr::sqrt(pass(a, tab)?)),
        Expr::Abs(a) => Ok(Expr::abs(pass(a, tab)?)),
        _ => Ok(e.duplicate()),
    }
}

/// One simplification pass over `e`.
pub fn pass(e: &Expr, tab: &Numerics) -> (r: Result<Expr, Need>)
    ensures
        r == pass_of(*e, tab.tables()),
    decreases e, 1nat,
{
    match e {
        Expr::Add(a, b) => {
            if a.is_constant() && b.is_constant() {
                fold_consts(FoldOp::Add, a, b, tab)
            } else if is_zero_num(b) {
                pass_children_exec(a, tab)
            } else if is_zero_num(a) {
                pass_children_exec(b, tab)
            } else {
                pass_children_exec(e, tab)
            }
        },
        Expr::Sub(a, b) => {
            if a.is_constant() && b.is_constant() {
                fold_consts(FoldOp::Sub, a, b, tab)
            } else if is_zero_num(b) {
                pass_children_exec(a, tab)
            } else if is_zero_num(a) {
                Ok(Expr::neg(pass(b, tab)?))
            } else {
                pass_children_exec(e, tab)
            }
        },
        Expr::Mul(a, b) => {
            if a.is_constant() && b.is_constant() {
                fold_consts(FoldOp::Mul, a, b, tab)
            } else if is_one_num(b) {
                pass_children_exec(a, tab)
            } else if is_one_num(a) {
                pass_children_exec(b, tab)
            } else if is_zero_num(a) || is_zero_num(b) {
                Ok(Expr::num(ZERO))
            } else {
                if let Expr::Mul(c, d) = &**b {
                    match (&**a, &**c) {
                        (Expr::Num(x), Expr::Num(y)) => {
                            let v = tab.fold_or_need(FoldOp::Mul, *x, *y)?;
                            return Ok(Expr::mul(Expr::num(v), d.duplicate()));
                        },
                        (_, Expr::Num(_)) => {
                            if !matches!(**a, Expr::Mul(_, _)) {
                                return Ok(Expr::mul(b.duplicate(), a.duplicate()));
                            }
                        },
                        _ => {},
                    }
                }
                if let Expr::Neg(inner) = &**b {
                    if !matches!(**a, Expr::Neg(_)) {
                        return Ok(Expr::mul(Expr::neg(a.duplicate()), inner.duplicate()));
                    }
                }
                pass_children_exec(e, tab)
            }
        },
        Expr::Div(a, b) => {
            if a.is_constant() && b.is_constant() {
                fold_consts(FoldOp::Div, a, b, tab)
            } else if is_one_num(b) {
                pass_children_exec(a, tab)
            } else if is_zero_num(a) {
                Ok(Expr::num(ZERO))
            } else {
                pass_children_exec(e, tab)
            }
        },
        Expr::Pow(a, b) => {
            if a.is_constant() && b.is_constant() {
                fold_consts(FoldOp::Pow, a, b, tab)
            } else if is_one_num(b) {
                pass_children_exec(a, tab)
            } else if is_zero_num(b) {
                Ok(Expr::num(ONE))
            } else if is_one_num(a) {
                Ok(Expr::num(ONE))
            } else if is_zero_num(a) {
                Ok(Expr::num(ZERO))
            } else {
                pass_children_exec(e, tab)
            }
        },
        Expr::Neg(a) => {
            if a.is_constant() {
                Ok(Expr::num(negate_bits(const_of(a))))
            } else if let Expr::Neg(inner) = &**a {
                pass_children_exec(inner, tab)
            } else if is_zero_num(a) {
                Ok(Expr::num(ZERO))
            } else {
                pass_children_exec(e, tab)
            }
        },
        _ => pass_children_exec(e, tab),
    }
}

/// Simplify `e`: passes until nothing changes, at most [`MAX_PASSES`].
pub fn simplify(e: &Expr, tab: &Numerics) -> (r: Result<Expr, Need>)
    ensures
        r == simplified(*e, tab.tables()),
{
    let ghost t = tab.tables();
    let mut cur = e.duplicate();
    let mut k: usize = 0;
    while k < MAX_PASSES
        invariant
            k <= MAX_PASSES,
            t == tab.tables(),
            passes(cur, (MAX_PASSES - k) as nat, t) == simplified(*e, t),
        decreases MAX_PASSES - k,
    {
        let next = pass(&cur, tab)?;
        if same_expr(&next, &cur) {
            return Ok(cur);
        }
        cur = next;
        k = k + 1;
    }
    Ok(cur)
}

} // verus!
