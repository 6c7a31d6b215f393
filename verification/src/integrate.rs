//! Symbolic integration by a small table of rules. An expression outside the
//! table has no symbolic antiderivative here (`None`); callers then fall back
//! to numerical treatment.
use vstd::prelude::*;
use crate::ast::{mk_add, mk_div, mk_ln, mk_mul, mk_neg, mk_pow, mk_sub, spec_is_constant, Expr};
use crate::numeric::{fold_result, is_tiny, is_tiny_bits, FoldOp, Need, Numerics, Tables, ONE, TWO};
use crate::simplify::{const_val, simplified, simplify};

verus! {

/// An antiderivative of the operand of a linear rule, joined under `f`, or
/// no antiderivative when the operand has none.
pub open spec fn lift1(
    r: Result<Option<Expr>, Need>,
    f: spec_fn(Expr) -> Expr,
) -> Result<Option<Expr>, Need> {
    match r {
        Err(k) => Err(k),
        Ok(None) => Ok(None),
        Ok(Some(x)) => Ok(Some(f(x))),
    }
}

/// The antiderivatives of two operands joined under `f` (the left one is
/// looked for first; none if either has none).
pub open spec fn lift2(
    ra: Result<Option<Expr>, Need>,
    rb: Result<Option<Expr>, Need>,
    f: spec_fn(Expr, Expr) -> Expr,
) -> Result<Option<Expr>, Need> {
    match ra {
        Err(k) => Err(k),
        Ok(None) => Ok(None),
        Ok(Some(x)) => match rb {
            Err(k) => Err(k),
            Ok(None) => Ok(None),
            Ok(Some(y)) => Ok(Some(f(x, y))),
        },
    }
}

/// The power rule for `x^n` with constant `n`: `ln(x)` when `n + 1` is within
/// `1e-12` of zero, else `x^(n+1)/(n+1)`.
pub open spec fn power_rule(exp: Expr, t: Tables) -> Result<Option<Expr>, Need> {
    match simplified(exp, t) {
        Err(k) => Err(k),
        Ok(n) => match fold_result(t, FoldOp::Add, const_val(n), ONE) {
            Err(k) => Err(k),
            Ok(s) => if is_tiny(s) {
                Ok(Some(mk_ln(Expr::Var)))
            } else {
                Ok(Some(mk_div(mk_pow(Expr::Var, Expr::Num(s)), Expr::Num(s))))
            },
        },
    }
}

/// The antiderivative that the rule table gives for `e`.
pub open spec fn antiderivative(e: Expr, t: Tables) -> Result<Option<Expr>, Need>
    decreases e,
{
    match e {
        Expr::Num(_) => Ok(Some(mk_mul(e, Expr::Var))),
        Expr::Const(_) => Ok(Some(mk_mul(e, Expr::Var))),
        Expr::Var => Ok(Some(mk_div(mk_pow(Expr::Var, Expr::Num(TWO)), Expr::Num(TWO)))),
        Expr::Pow(base, exp) => {
            if *base is Var && spec_is_constant(*exp) {
                power_rule(*exp, t)
            } else {
                Ok(None)
            }
        },
        Expr::Div(a, b) => {
            if *a == Expr::Num(ONE) && *b is Var {
                Ok(Some(mk_ln(Expr::Var)))
            } else if spec_is_constant(*a) && *b is Var {
                Ok(Some(mk_mul(*a, mk_ln(Expr::Var))))
            } else {
                Ok(None)
            }
        },
        Expr::Sin(a) => if *a is Var {
            Ok(Some(mk_neg(Expr::Cos(Box::new(Expr::Var)))))
        } else {
            Ok(None)
        },
        Expr::Cos(a) => if *a is Var {
            Ok(Some(Expr::Sin(Box::new(Expr::Var))))
        } else {
            Ok(None)
        },
        Expr::Exp(a) => if *a is Var {
            Ok(Some(Expr::Exp(Box::new(Expr::Var))))
        } else {
            Ok(None)
        },
        Expr::Tan(a) => if *a is Var {
            Ok(Some(mk_neg(mk_ln(Expr::Cos(Box::new(Expr::Var))))))
        } else {
            Ok(None)
        },
        Expr::Add(a, b) => lift2(antiderivative(*a, t), antiderivative(*b, t), |x: Expr, y: Expr| mk_add(x, y)),
        Expr::Sub(a, b) => lift2(antiderivative(*a, t), antiderivative(*b, t), |x: Expr, y: Expr| mk_sub(x, y)),
        Expr::Neg(a) => lift1(antiderivative(*a, t), |x: Expr| mk_neg(x)),
        Expr::Mul(a, b) => {
            if spec_is_constant(*a) {
                lift1(antiderivative(*b, t), |x: Expr| mk_mul(*a, x))
            } else if spec_is_constant(*b) {
                lift1(antiderivative(*a, t), |x: Expr| mk_mul(*b, x))
            } else {
                Ok(None)
            }
        },
        _ => Ok(None),
    }
}

/// Attempt a symbolic antiderivative (indefinite integral) of `e`.
pub fn integrate_symbolic(e: &Expr, tab: &Numerics) -> (r: Result<Option<Expr>, Need>)
    ensures
        r == antiderivative(*e, tab.tables()),
    decreases e,
{
    match e {
        Expr::Num(_) | Expr::Const(_) => Ok(Some(Expr::mul(e.duplicate(), Expr::var()))),
        Expr::Var => Ok(Some(Expr::div(Expr::pow(Expr::var(), Expr::num(TWO)), Expr::num(TWO)))),
        Expr::Pow(base, exp) => {
            if matches!(**base, Expr::Var) && exp.is_constant() {
                let n = simplify(exp, tab)?;
                let n_val = match &n {
                    Expr::Num(v) => *v,
                    Expr::Const(c) => crate::numeric::const_value(*c),
                    _ => crate::numeric::ZERO,
                };
                let s = tab.fold_or_need(FoldOp::Add, n_val, ONE)?;
                if is_tiny_bits(s) {
                    Ok(Some(Expr::ln(Expr::var())))
                } else {
                    Ok(Some(Expr::div(Expr::pow(Expr::var(), Expr::num(s)), Expr::num(s))))
                }
            } else {
                Ok(None)
            }
        },
        Expr::Div(a, b) => {
            if matches!(**a, Expr::Num(v) if v == ONE) && matches!(**b, Expr::Var) {
                Ok(Some(Expr::ln(Expr::var())))
            } else if a.is_constant() && matches!(**b, Expr::Var) {
                Ok(Some(Expr::mul(a.duplicate(), Expr::ln(Expr::var()))))
            } else {
                Ok(None)
            }
        },
        Expr::Sin(a) => if matches!(**a, Expr::Var) {
            Ok(Some(Expr::neg(Expr::cos(Expr::var()))))
        } else {
            Ok(None)
        },
        Expr::Cos(a) => if matches!(**a, Expr::Var) {
            Ok(Some(Expr::sin(Expr::var())))
        } else {
            Ok(None)
        },
        Expr::Exp(a) => if matches!(**a, Expr::Var) {
            Ok(Some(Expr::exp(Expr::var())))
        } else {
            Ok(None)
        },
        Expr::Tan(a) => if matches!(**a, Expr::Var) {
            Ok(Some(Expr::neg(Expr::ln(Expr::cos(Expr::var())))))
        } else {
            Ok(None)
        },
        Expr::Add(a, b) => {
            let x = match integrate_symbolic(a, tab)? {
                Some(x) => x,
                None => return Ok(None),
            };
            let y = match integrate_symbolic(b, tab)? {
                Some(y) => y,
                None => return Ok(None),
            };
            Ok(Some(Expr::add(x, y)))
        },
        Expr::Sub(a, b) => {
            let x = match integrate_symbolic(a, tab)? {
                Some(x) => x,
                None => return Ok(None),
            };
            let y = match integrate_symbolic(b, tab)? {
                Some(y) => y,
                None => return Ok(None),
            };
            Ok(Some(Expr::sub(x, y)))
        },
        Expr::Neg(a) => match integrate_symbolic(a, tab)? {
            Some(x) => Ok(Some(Expr::neg(x))),
            None => Ok(None),
        },
        Expr::Mul(a, b) => {
            if a.is_constant() {
                match integrate_symbolic(b, tab)? {
                    Some(x) => Ok(Some(Expr::mul(a.duplicate(), x))),
                    None => Ok(None),
                }
            } else if b.is_constant() {
                match integrate_symbolic(a, tab)? {
                    Some(x) => Ok(Some(Expr::mul(b.duplicate(), x))),
                    None => Ok(None),
                }
            } else {
                Ok(None)
            }
        },
        _ => Ok(None),
    }
}

} // verus!
