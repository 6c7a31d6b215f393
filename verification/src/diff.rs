//! Symbolic differentiation.
use vstd::prelude::*;
use crate::ast::{mk_add, mk_div, mk_ln, mk_mul, mk_neg, mk_pow, mk_sub, spec_is_constant, Const, Expr};
use crate::numeric::{ONE, TWO, TEN, ZERO};

verus! {

/// The derivative of `e` with respect to `x`, by the rules of calculus
/// applied node by node (not simplified).
pub open spec fn derivative(e: Expr) -> Expr
    decreases e,
{
    match e {
        Expr::Num(_) => Expr::Num(ZERO),
        Expr::Const(_) => Expr::Num(ZERO),
        Expr::Var => Expr::Num(ONE),
        Expr::Add(a, b) => mk_add(derivative(*a), derivative(*b)),
        Expr::Sub(a, b) => mk_sub(derivative(*a), derivative(*b)),
        // product rule: a'*b + a*b'
        Expr::Mul(a, b) => mk_add(mk_mul(derivative(*a), *b), mk_mul(*a, derivative(*b))),
        // quotient rule: (a'*b - a*b') / b^2
        Expr::Div(a, b) => mk_div(
            mk_sub(mk_mul(derivative(*a), *b), mk_mul(*a, derivative(*b))),
            mk_pow(*b, Expr::Num(TWO)),
        ),
        Expr::Pow(base, exp) => {
            if *base == Expr::Const(Const::E) {
                // e^g * g'
                mk_mul(mk_pow(*base, *exp), derivative(*exp))
            } else if spec_is_constant(*exp) {
                // power rule: n * base^(n-1) * base'
                mk_mul(mk_mul(*exp, mk_pow(*base, mk_sub(*exp, Expr::Num(ONE)))), derivative(*base))
            } else if spec_is_constant(*base) {
                // a^g * ln(a) * g'
                mk_mul(mk_mul(mk_pow(*base, *exp), mk_ln(*base)), derivative(*exp))
            } else {
                // f^g * (g' ln f + g f'/f)
                mk_mul(
                    mk_pow(*base, *exp),
                    mk_add(
                        mk_mul(derivative(*exp), mk_ln(*base)),
                        mk_mul(*exp, mk_div(derivative(*base), *base)),
                    ),
                )
            }
        },
        Expr::Neg(a) => mk_neg(derivative(*a)),
        Expr::Sin(a) => mk_mul(Expr::Cos(a), derivative(*a)),
        Expr::Cos(a) => mk_neg(mk_mul(Expr::Sin(a), derivative(*a))),
        Expr::Tan(a) => mk_div(derivative(*a), mk_pow(Expr::Cos(a), Expr::Num(TWO))),
        Expr::Asin(a) => mk_div(
            derivative(*a),
            Expr::Sqrt(Box::new(mk_sub(Expr::Num(ONE), mk_pow(*a, Expr::Num(TWO))))),
        ),
        Expr::Acos(a) => mk_neg(
            mk_div(
                derivative(*a),
                Expr::Sqrt(Box::new(mk_sub(Expr::Num(ONE), mk_pow(*a, Expr::Num(TWO))))),
            ),
        ),
        Expr::Atan(a) => mk_div(derivative(*a), mk_add(Expr::Num(ONE), mk_pow(*a, Expr::Num(TWO)))),
        Expr::Sinh(a) => mk_mul(Expr::Cosh(a), derivative(*a)),
        Expr::Cosh(a) => mk_mul(Expr::Sinh(a), derivative(*a)),
        Expr::Tanh(a) => mk_div(derivative(*a), mk_pow(Expr::Cosh(a), Expr::Num(TWO))),
        Expr::Exp(a) => mk_mul(Expr::Exp(a), derivative(*a)),
        Expr::Ln(a) => mk_div(derivative(*a), *a),
        // d/dx log10(u) = u' / (u * ln(10))
        Expr::Log(a) => mk_div(derivative(*a), mk_mul(*a, mk_ln(Expr::Num(TEN)))),
        // d/dx sqrt(u) = u' / (2 sqrt(u))
        Expr::Sqrt(a) => mk_div(derivative(*a), mk_mul(Expr::Num(TWO), Expr::Sqrt(a))),
        // d/dx |u| = u' * u / |u|
        Expr::Abs(a) => mk_mul(derivative(*a), mk_div(*a, Expr::Abs(a))),
    }
}

/// Differentiate `e` with respect to `x`. The result is not simplified.
pub fn diff(e: &Expr) -> (r: Expr)
    ensures
        r == derivative(*e),
    decreases e,
{
    match e {
        Expr::Num(_) | Expr::Const(_) => Expr::num(ZERO),
        Expr::Var => Expr::num(ONE),
        Expr::Add(a, b) => Expr::add(diff(a), diff(b)),
        Expr::Sub(a, b) => Expr::sub(diff(a), diff(b)),
        Expr::Mul(a, b) => Expr::add(
            Expr::mul(diff(a), b.duplicate()),
            Expr::mul(a.duplicate(), diff(b)),
        ),
        Expr::Div(a, b) => {
            let num = Expr::sub(Expr::mul(diff(a), b.duplicate()), Expr::mul(a.duplicate(), diff(b)));
            let den = Expr::pow(b.duplicate(), Expr::num(TWO));
            Expr::div(num, den)
        },
        Expr::Pow(base, exp) => {
            if matches!(**base, Expr::Const(Const::E)) {
                return Expr::mul(Expr::pow(base.duplicate(), exp.duplicate()), diff(exp));
            }
            if exp.is_constant() {
                let n = exp.duplicate();
                let nm1 = Expr::sub(n.duplicate(), Expr::num(ONE));
                Expr::mul(Expr::mul(n, Expr::pow(base.duplicate(), nm1)), diff(base))
            } else if base.is_constant() {
                Expr::mul(
                    Expr::mul(Expr::pow(base.duplicate(), exp.duplicate()), Expr::ln(base.duplicate())),
                    diff(exp),
                )
            } else {
                let fg = Expr::pow(base.duplicate(), exp.duplicate());
                Expr::mul(
                    fg,
                    Expr::add(
                        Expr::mul(diff(exp), Expr::ln(base.duplicate())),
                        Expr::mul(exp.duplicate(), Expr::div(diff(base), base.duplicate())),
                    ),
                )
            }
        },
        Expr::Neg(a) => Expr::neg(diff(a)),
        Expr::Sin(a) => Expr::mul(Expr::cos(a.duplicate()), diff(a)),
        Expr::Cos(a) => Expr::neg(Expr::mul(Expr::sin(a.duplicate()), diff(a))),
        Expr::Tan(a) => {
            let cosu = Expr::cos(a.duplicate());
            Expr::div(diff(a), Expr::pow(cosu, Expr::num(TWO)))
        },
        Expr::Asin(a) => {
            let denom = Expr::sqrt(
                Expr::sub(Expr::num(ONE), Expr::pow(a.duplicate(), Expr::num(TWO))),
            );
            Expr::div(diff(a), denom)
        },
        Expr::Acos(a) => {
            let denom = Expr::sqrt(
                Expr::sub(Expr::num(ONE), Expr::pow(a.duplicate(), Expr::num(TWO))),
            );
            Expr::neg(Expr::div(diff(a), denom))
        },
        Expr::Atan(a) => {
            let denom = Expr::add(Expr::num(ONE), Expr::pow(a.duplicate(), Expr::num(TWO)));
            Expr::div(diff(a), denom)
        },
        Expr::Sinh(a) => Expr::mul(Expr::cosh(a.duplicate()), diff(a)),
        Expr::Cosh(a) => Expr::mul(Expr::sinh(a.duplicate()), diff(a)),
        Expr::Tanh(a) => {
            let coshu = Expr::cosh(a.duplicate());
            Expr::div(diff(a), Expr::pow(coshu, Expr::num(TWO)))
        },
        Expr::Exp(a) => Expr::mul(Expr::exp(a.duplicate()), diff(a)),
        Expr::Ln(a) => Expr::div(diff(a), a.duplicate()),
        Expr::Log(a) => {
            let ln10 = Expr::ln(Expr::num(TEN));
            Expr::div(diff(a), Expr::mul(a.duplicate(), ln10))
        },
        Expr::Sqrt(a) => {
            let two_sqrt = Expr::mul(Expr::num(TWO), Expr::sqrt(a.duplicate()));
            Expr::div(diff(a), two_sqrt)
        },
        Expr::Abs(a) => {
            let au = Expr::abs(a.duplicate());
            Expr::mul(diff(a), Expr::div(a.duplicate(), au))
        },
    }
}

} // verus!
