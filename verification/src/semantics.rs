//! What expressions mean, and that the engine keeps that meaning.
//!
//! A [`Model`] gives every number a value, and interprets division, powers
//! and the one-argument functions; sums, differences, products and
//! negation are those of the integers. The laws here hold in every model
//! that satisfies the arithmetic identities they name, so they do not depend
//! on how any rule of the engine is written.
use vstd::prelude::*;
use vstd::arithmetic::mul::{lemma_mul_is_associative, lemma_mul_is_commutative};
use crate::ast::{mk_add, mk_mul, mk_neg, mk_sub, spec_is_constant, Expr};
use crate::integrate::antiderivative;
use crate::diff::derivative;
use crate::numeric::{const_bits, is_zero, negated, FoldOp, Tables, ONE, TEN, TWO, ZERO};
use crate::simplify::{pass_children, pass_of, passes, simplified, MAX_PASSES};

verus! {

/// A meaning for expressions.
pub struct Model {
    /// The value of each number.
    pub num: spec_fn(u64) -> int,
    /// Division.
    pub div: spec_fn(int, int) -> int,
    /// Powers.
    pub pow: spec_fn(int, int) -> int,
    /// The one-argument functions, by [`fn_index`].
    pub fun: spec_fn(int, int) -> int,
    /// Their derivatives, by [`fn_index`].
    pub dfun: spec_fn(int, int) -> int,
    /// The second-order remainder of each function: `f(v + d)` is
    /// `f(v) + d * f'(v) + d * d * rem(v, d)`.
    pub rem: spec_fn(int, int, int) -> int,
    /// Reciprocals.
    pub inv: spec_fn(int) -> int,
}

/// The position of a one-argument function in the list `sin cos tan asin
/// acos atan sinh cosh tanh exp ln log sqrt abs`.
pub open spec fn fn_index(e: Expr) -> int {
    match e {
        Expr::Sin(_) => 0,
        Expr::Cos(_) => 1,
        Expr::Tan(_) => 2,
        Expr::Asin(_) => 3,
        Expr::Acos(_) => 4,
        Expr::Atan(_) => 5,
        Expr::Sinh(_) => 6,
        Expr::Cosh(_) => 7,
        Expr::Tanh(_) => 8,
        Expr::Exp(_) => 9,
        Expr::Ln(_) => 10,
        Expr::Log(_) => 11,
        Expr::Sqrt(_) => 12,
        Expr::Abs(_) => 13,
        _ => -1,
    }
}

/// The value of `e` at `x` in the model `m`.
pub open spec fn value(e: Expr, m: Model, x: int) -> int
    decreases e,
{
    match e {
        Expr::Num(n) => (m.num)(n),
        Expr::Const(c) => (m.num)(const_bits(c)),
        Expr::Var => x,
        Expr::Add(a, b) => value(*a, m, x) + value(*b, m, x),
        Expr::Sub(a, b) => value(*a, m, x) - value(*b, m, x),
        Expr::Mul(a, b) => value(*a, m, x) * value(*b, m, x),
        Expr::Div(a, b) => (m.div)(value(*a, m, x), value(*b, m, x)),
        Expr::Pow(a, b) => (m.pow)(value(*a, m, x), value(*b, m, x)),
        Expr::Neg(a) => -value(*a, m, x),
        Expr::Sin(a) => (m.fun)(0, value(*a, m, x)),
        Expr::Cos(a) => (m.fun)(1, value(*a, m, x)),
        Expr::Tan(a) => (m.fun)(2, value(*a, m, x)),
        Expr::Asin(a) => (m.fun)(3, value(*a, m, x)),
        Expr::Acos(a) => (m.fun)(4, value(*a, m, x)),
        Expr::Atan(a) => (m.fun)(5, value(*a, m, x)),
        Expr::Sinh(a) => (m.fun)(6, value(*a, m, x)),
        Expr::Cosh(a) => (m.fun)(7, value(*a, m, x)),
        Expr::Tanh(a) => (m.fun)(8, value(*a, m, x)),
        Expr::Exp(a) => (m.fun)(9, value(*a, m, x)),
        Expr::Ln(a) => (m.fun)(10, value(*a, m, x)),
        Expr::Log(a) => (m.fun)(11, value(*a, m, x)),
        Expr::Sqrt(a) => (m.fun)(12, value(*a, m, x)),
        Expr::Abs(a) => (m.fun)(13, value(*a, m, x)),
    }
}

/// The value of `op` applied to two values.
pub open spec fn apply(m: Model, op: FoldOp, a: int, b: int) -> int {
    match op {
        FoldOp::Add => a + b,
        FoldOp::Sub => a - b,
        FoldOp::Mul => a * b,
        FoldOp::Div => (m.div)(a, b),
        FoldOp::Pow => (m.pow)(a, b),
    }
}

/// The model agrees with the identities of arithmetic that simplification
/// uses (both zeros are 0, one is 1, flipping the sign bit negates,
/// `v / 1 = v`, `0 / v = 0`), and every result in the tables is the true
/// result of its operation.
pub open spec fn faithful(m: Model, t: Tables) -> bool {
    &&& forall|n: u64| #[trigger] is_zero(n) ==> (m.num)(n) == 0
    &&& (m.num)(ONE) == 1
    &&& forall|n: u64| #[trigger] (m.num)(negated(n)) == -(m.num)(n)
    &&& forall|v: int| #[trigger] (m.div)(v, 1) == v
    &&& forall|v: int| #[trigger] (m.div)(0, v) == 0
    &&& forall|op: FoldOp, a: u64, b: u64|
        #[trigger] t.fold(op, a, b) matches Some(r) ==> (m.num)(r) == apply(m, op, (m.num)(a), (m.num)(b))
}

/// Whether `e` has no power in it.
pub open spec fn pow_free(e: Expr) -> bool
    decreases e,
{
    match e {
        Expr::Pow(_, _) => false,
        Expr::Add(a, b) => pow_free(*a) && pow_free(*b),
        Expr::Sub(a, b) => pow_free(*a) && pow_free(*b),
        Expr::Mul(a, b) => pow_free(*a) && pow_free(*b),
        Expr::Div(a, b) => pow_free(*a) && pow_free(*b),
        Expr::Neg(a) => pow_free(*a),
        Expr::Sin(a) => pow_free(*a),
        Expr::Cos(a) => pow_free(*a),
        Expr::Tan(a) => pow_free(*a),
        Expr::Asin(a) => pow_free(*a),
        Expr::Acos(a) => pow_free(*a),
        Expr::Atan(a) => pow_free(*a),
        Expr::Sinh(a) => pow_free(*a),
        Expr::Cosh(a) => pow_free(*a),
        Expr::Tanh(a) => pow_free(*a),
        Expr::Exp(a) => pow_free(*a),
        Expr::Ln(a) => pow_free(*a),
        Expr::Log(a) => pow_free(*a),
        Expr::Sqrt(a) => pow_free(*a),
        Expr::Abs(a) => pow_free(*a),
        _ => true,
    }
}

proof fn lemma_zero_bits()
    ensures
        is_zero(ZERO),
{
    assert(0u64 & 0x7fff_ffff_ffff_ffffu64 == 0u64) by (bit_vector);
}

/// One pass over `z`, or over its children, keeps its value and adds no
/// power.
pub open spec fn pass_keeps(z: Expr, t: Tables, m: Model, x: int) -> bool {
    &&& (pass_children(z, t) matches Ok(r) ==> value(r, m, x) == value(z, m, x) && pow_free(r))
    &&& (pass_of(z, t) matches Ok(r) ==> value(r, m, x) == value(z, m, x) && pow_free(r))
}

#[verifier::rlimit(40)]
proof fn lemma_rule_add_sub(e: Expr, a: Expr, b: Expr, t: Tables, m: Model, x: int)
    requires
        faithful(m, t),
        e == mk_add(a, b) || e == mk_sub(a, b),
        pow_free(a),
        pow_free(b),
        pass_keeps(a, t, m, x),
        pass_keeps(b, t, m, x),
    ensures
        pass_keeps(e, t, m, x),
{
    lemma_zero_bits();
}

#[verifier::rlimit(40)]
proof fn lemma_rule_div(e: Expr, a: Expr, b: Expr, t: Tables, m: Model, x: int)
    requires
        faithful(m, t),
        e == Expr::Div(Box::new(a), Box::new(b)),
        pow_free(a),
        pow_free(b),
        pass_keeps(a, t, m, x),
        pass_keeps(b, t, m, x),
    ensures
        pass_keeps(e, t, m, x),
{
    lemma_zero_bits();
}

#[verifier::rlimit(40)]
proof fn lemma_rule_mul(e: Expr, a: Expr, b: Expr, t: Tables, m: Model, x: int)
    requires
        faithful(m, t),
        e == mk_mul(a, b),
        pow_free(a),
        pow_free(b),
        pass_keeps(a, t, m, x),
        pass_keeps(b, t, m, x),
        b matches Expr::Mul(_, d) ==> pass_keeps(*d, t, m, x),
    ensures
        pass_keeps(e, t, m, x),
{
    lemma_zero_bits();
    reveal_with_fuel(pow_free, 3);
    reveal_with_fuel(value, 3);
    let va = value(a, m, x);
    let vb = value(b, m, x);
    assert(va * 0 == 0 && 0 * vb == 0 && va * 1 == va && 1 * vb == vb) by (nonlinear_arith);
    if let Expr::Mul(c, d) = b {
        let vc = value(*c, m, x);
        let vd = value(*d, m, x);
        assert(pow_free(*c) && pow_free(*d));
        lemma_mul_is_associative(va, vc, vd);
        lemma_mul_is_commutative(va, vc * vd);
        assert(vb == vc * vd);
    }
    if let Expr::Neg(inner) = b {
        let vi = value(*inner, m, x);
        assert(pow_free(*inner));
        assert(va * (-vi) == (-va) * vi) by (nonlinear_arith);
    }
}

#[verifier::rlimit(40)]
proof fn lemma_rule_neg(e: Expr, a: Expr, t: Tables, m: Model, x: int)
    requires
        faithful(m, t),
        e == mk_neg(a),
        pow_free(a),
        pass_keeps(a, t, m, x),
        a matches Expr::Neg(inner) ==> pass_keeps(*inner, t, m, x),
    ensures
        pass_keeps(e, t, m, x),
{
    lemma_zero_bits();
    reveal_with_fuel(pow_free, 3);
    reveal_with_fuel(value, 3);
    if let Expr::Neg(inner) = a {
        assert(pow_free(*inner));
    }
}

#[verifier::rlimit(60)]
proof fn lemma_pass_value(e: Expr, t: Tables, m: Model, x: int)
    requires
        faithful(m, t),
        pow_free(e),
    ensures
        pass_keeps(e, t, m, x),
    decreases e,
{
    lemma_zero_bits();
    reveal_with_fuel(pow_free, 2);
    match e {
        Expr::Add(a, b) | Expr::Sub(a, b) => {
            lemma_pass_value(*a, t, m, x);
            lemma_pass_value(*b, t, m, x);
            lemma_rule_add_sub(e, *a, *b, t, m, x);
        },
        Expr::Mul(a, b) => {
            lemma_pass_value(*a, t, m, x);
            lemma_pass_value(*b, t, m, x);
            if let Expr::Mul(c, d) = *b {
                assert(pow_free(*d));
                lemma_pass_value(*d, t, m, x);
            }
            lemma_rule_mul(e, *a, *b, t, m, x);
        },
        Expr::Div(a, b) => {
            lemma_pass_value(*a, t, m, x);
            lemma_pass_value(*b, t, m, x);
            lemma_rule_div(e, *a, *b, t, m, x);
        },
        Expr::Neg(a) => {
            lemma_pass_value(*a, t, m, x);
            if let Expr::Neg(inner) = *a {
                assert(pow_free(*inner));
                lemma_pass_value(*inner, t, m, x);
            }
            lemma_rule_neg(e, *a, t, m, x);
        },
        Expr::Sin(a) | Expr::Cos(a) | Expr::Tan(a) | Expr::Asin(a) | Expr::Acos(a) | Expr::Atan(a)
        | Expr::Sinh(a) | Expr::Cosh(a) | Expr::Tanh(a) | Expr::Exp(a) | Expr::Ln(a) | Expr::Log(a)
        | Expr::Sqrt(a) | Expr::Abs(a) => {
            lemma_pass_value(*a, t, m, x);
        },
        _ => {},
    }
}

proof fn lemma_passes_value(e: Expr, k: nat, t: Tables, m: Model, x: int)
    requires
        faithful(m, t),
        pow_free(e),
    ensures
        passes(e, k, t) matches Ok(r) ==> value(r, m, x) == value(e, m, x),
    decreases k,
{
    lemma_pass_value(e, t, m, x);
    if k > 0 {
        if let Ok(next) = pass_of(e, t) {
            lemma_passes_value(next, (k - 1) as nat, t, m, x);
        }
    }
}

/// Simplification keeps the value of an expression without powers: in every
/// model that agrees with the identities simplification uses and with the
/// tables, the simplified expression has the value of the original at every
/// point. (`0 - u` becomes `-u`, never `u`.)
pub proof fn law_simplify_keeps_value(e: Expr, t: Tables, m: Model, x: int)
    requires
        faithful(m, t),
        pow_free(e),
        simplified(e, t) is Ok,
    ensures
        value(simplified(e, t)->Ok_0, m, x) == value(e, m, x),
{
    lemma_passes_value(e, MAX_PASSES as nat, t, m, x);
}

/// Whether `e` is built from numbers, constants, `x`, sums, differences,
/// products, negations and the one-argument functions.
pub open spec fn smooth(e: Expr) -> bool
    decreases e,
{
    match e {
        Expr::Num(_) => true,
        Expr::Const(_) => true,
        Expr::Var => true,
        Expr::Add(a, b) => smooth(*a) && smooth(*b),
        Expr::Sub(a, b) => smooth(*a) && smooth(*b),
        Expr::Mul(a, b) => smooth(*a) && smooth(*b),
        Expr::Div(_, _) => false,
        Expr::Pow(_, _) => false,
        Expr::Neg(a) => smooth(*a),
        Expr::Sin(a) => smooth(*a),
        Expr::Cos(a) => smooth(*a),
        Expr::Tan(a) => smooth(*a),
        Expr::Asin(a) => smooth(*a),
        Expr::Acos(a) => smooth(*a),
        Expr::Atan(a) => smooth(*a),
        Expr::Sinh(a) => smooth(*a),
        Expr::Cosh(a) => smooth(*a),
        Expr::Tanh(a) => smooth(*a),
        Expr::Exp(a) => smooth(*a),
        Expr::Ln(a) => smooth(*a),
        Expr::Log(a) => smooth(*a),
        Expr::Sqrt(a) => smooth(*a),
        Expr::Abs(a) => smooth(*a),
    }
}

/// `f'(v)` for the function with index `i`, as calculus gives it, written
/// with the model's functions, reciprocals and powers.
pub open spec fn calculus_derivative(m: Model, i: int, v: int) -> int {
    let sqrt_of = |w: int| (m.fun)(12, w);
    if i == 0 {
        (m.fun)(1, v)
    } else if i == 1 {
        -(m.fun)(0, v)
    } else if i == 2 {
        (m.inv)((m.pow)((m.fun)(1, v), 2))
    } else if i == 3 {
        (m.inv)(sqrt_of(1 - (m.pow)(v, 2)))
    } else if i == 4 {
        -(m.inv)(sqrt_of(1 - (m.pow)(v, 2)))
    } else if i == 5 {
        (m.inv)(1 + (m.pow)(v, 2))
    } else if i == 6 {
        (m.fun)(7, v)
    } else if i == 7 {
        (m.fun)(6, v)
    } else if i == 8 {
        (m.inv)((m.pow)((m.fun)(7, v), 2))
    } else if i == 9 {
        (m.fun)(9, v)
    } else if i == 10 {
        (m.inv)(v)
    } else if i == 11 {
        (m.inv)(v * (m.fun)(10, (m.num)(TEN)))
    } else if i == 12 {
        (m.inv)(2 * sqrt_of(v))
    } else {
        v * (m.inv)((m.fun)(13, v))
    }
}

/// The model's numbers 0, 1, 2 mean 0, 1, 2, its division multiplies by the
/// reciprocal, and its functions are differentiable with the derivatives of
/// calculus: `sin' = cos`, `cos' = -sin`, `tan' = 1/cos^2`,
/// `asin' = 1/sqrt(1 - v^2)`, `acos' = -1/sqrt(1 - v^2)`,
/// `atan' = 1/(1 + v^2)`, `sinh' = cosh`, `cosh' = sinh`,
/// `tanh' = 1/cosh^2`, `exp' = exp`, `ln' = 1/v`, `log' = 1/(v ln 10)`,
/// `sqrt' = 1/(2 sqrt v)`, `abs' = v/|v|`.
pub open spec fn calculus_model(m: Model) -> bool {
    &&& (m.num)(ZERO) == 0
    &&& (m.num)(ONE) == 1
    &&& (m.num)(TWO) == 2
    &&& forall|a: int, b: int| #[trigger] (m.div)(a, b) == a * (m.inv)(b)
    &&& forall|i: int, v: int, d: int|
        #[trigger] (m.fun)(i, v + d) == (m.fun)(i, v) + d * (m.dfun)(i, v) + d * d * (m.rem)(i, v, d)
    &&& forall|i: int, v: int| 0 <= i < 14 ==> #[trigger] (m.dfun)(i, v) == calculus_derivative(m, i, v)
}

/// The derivative of a one-argument function of `a` has the value
/// `f'(a) * a'`.
#[verifier::rlimit(60)]
proof fn lemma_fn_derivative_value(e: Expr, a: Expr, m: Model, x: int)
    requires
        calculus_model(m),
        0 <= fn_index(e) < 14,
        e matches Expr::Sin(u) ==> *u == a,
        e matches Expr::Cos(u) ==> *u == a,
        e matches Expr::Tan(u) ==> *u == a,
        e matches Expr::Asin(u) ==> *u == a,
        e matches Expr::Acos(u) ==> *u == a,
        e matches Expr::Atan(u) ==> *u == a,
        e matches Expr::Sinh(u) ==> *u == a,
        e matches Expr::Cosh(u) ==> *u == a,
        e matches Expr::Tanh(u) ==> *u == a,
        e matches Expr::Exp(u) ==> *u == a,
        e matches Expr::Ln(u) ==> *u == a,
        e matches Expr::Log(u) ==> *u == a,
        e matches Expr::Sqrt(u) ==> *u == a,
        e matches Expr::Abs(u) ==> *u == a,
    ensures
        value(derivative(e), m, x) == (m.dfun)(fn_index(e), value(a, m, x)) * value(derivative(a), m, x),
{
    reveal_with_fuel(value, 6);
    let va = value(a, m, x);
    let da = value(derivative(a), m, x);
    let dv = (m.dfun)(fn_index(e), va);
    assert(dv == calculus_derivative(m, fn_index(e), va));
    lemma_mul_is_commutative(dv, da);
    match e {
        Expr::Cos(_) => {
            let w = (m.fun)(0, va);
            assert(value(derivative(e), m, x) == -(w * da));
            assert(dv == -w);
            assert((-w) * da == -(w * da)) by (nonlinear_arith);
        },
        Expr::Acos(_) => {
            let w = (m.inv)((m.fun)(12, 1 - (m.pow)(va, 2)));
            assert(value(derivative(e), m, x) == -(da * w));
            assert(dv == -w);
            assert((-w) * da == -(da * w)) by (nonlinear_arith);
        },
        Expr::Abs(_) => {
            let w = (m.inv)((m.fun)(13, va));
            lemma_mul_is_commutative(va, w);
        },
        _ => {},
    }
}

proof fn lemma_chain_step(fv: int, dv: int, da: int, ra: int, h: int, big_r: int) -> (r: int)
    ensures
        fv + (h * (da + h * ra)) * dv + (h * (da + h * ra)) * (h * (da + h * ra)) * big_r == fv + h * (dv * da) + h
            * h * r,
{
    let p = da + h * ra;
    let r = ra * dv + p * p * big_r;
    assert((h * p) * dv == h * (dv * da) + h * h * (ra * dv)) by (nonlinear_arith)
        requires
            p == da + h * ra,
    ;
    assert((h * p) * (h * p) * big_r == h * h * (p * p * big_r)) by (nonlinear_arith);
    assert(h * h * (ra * dv) + h * h * (p * p * big_r) == h * h * r) by (nonlinear_arith)
        requires
            r == ra * dv + p * p * big_r,
    ;
    r
}

proof fn lemma_slope(e: Expr, m: Model, x: int, h: int) -> (r: int)
    requires
        smooth(e),
        calculus_model(m),
    ensures
        value(e, m, x + h) == value(e, m, x) + h * value(derivative(e), m, x) + h * h * r,
    decreases e,
{
    match e {
        Expr::Num(_) | Expr::Const(_) => {
            assert(value(derivative(e), m, x) == 0);
            assert(value(e, m, x + h) == value(e, m, x));
            assert(h * 0 == 0 && h * h * 0 == 0) by (nonlinear_arith);
            0
        },
        Expr::Var => {
            assert(h * 1 == h && h * h * 0 == 0) by (nonlinear_arith);
            0
        },
        Expr::Add(a, b) => {
            let ra = lemma_slope(*a, m, x, h);
            let rb = lemma_slope(*b, m, x, h);
            let da = value(derivative(*a), m, x);
            let db = value(derivative(*b), m, x);
            assert(h * da + h * h * ra + h * db + h * h * rb == h * (da + db) + h * h * (ra + rb)) by (nonlinear_arith);
            ra + rb
        },
        Expr::Sub(a, b) => {
            let ra = lemma_slope(*a, m, x, h);
            let rb = lemma_slope(*b, m, x, h);
            let da = value(derivative(*a), m, x);
            let db = value(derivative(*b), m, x);
            assert((h * da + h * h * ra) - (h * db + h * h * rb) == h * (da - db) + h * h * (ra - rb)) by (nonlinear_arith);
            ra - rb
        },
        Expr::Neg(a) => {
            let ra = lemma_slope(*a, m, x, h);
            let da = value(derivative(*a), m, x);
            assert(-(h * da + h * h * ra) == h * (-da) + h * h * (-ra)) by (nonlinear_arith);
            -ra
        },
        Expr::Mul(a, b) => {
            reveal_with_fuel(value, 3);
            let ra = lemma_slope(*a, m, x, h);
            let rb = lemma_slope(*b, m, x, h);
            let va = value(*a, m, x);
            let vb = value(*b, m, x);
            let da = value(derivative(*a), m, x);
            let db = value(derivative(*b), m, x);
            let p = da + h * ra;
            let q = db + h * rb;
            assert(h * da + h * h * ra == h * p) by (nonlinear_arith)
                requires
                    p == da + h * ra,
            ;
            assert(h * db + h * h * rb == h * q) by (nonlinear_arith)
                requires
                    q == db + h * rb,
            ;
            let u = h * p;
            let w = h * q;
            vstd::arithmetic::mul::lemma_mul_is_distributive_add_other_way(vb + w, va, u);
            vstd::arithmetic::mul::lemma_mul_is_distributive_add(va, vb, w);
            vstd::arithmetic::mul::lemma_mul_is_distributive_add(u, vb, w);
            assert(va * w == h * (va * q)) by (nonlinear_arith)
                requires
                    w == h * q,
            ;
            assert(u * vb == h * (p * vb)) by (nonlinear_arith)
                requires
                    u == h * p,
            ;
            assert(u * w == h * h * (p * q)) by (nonlinear_arith)
                requires
                    u == h * p,
                    w == h * q,
            ;
            vstd::arithmetic::mul::lemma_mul_is_distributive_add(h, va * q, p * vb);
            assert((va + u) * (vb + w) == va * vb + h * (va * q + p * vb) + h * h * (p * q));
            assert(va * q == va * db + h * (va * rb)) by (nonlinear_arith)
                requires
                    q == db + h * rb,
            ;
            assert(p * vb == da * vb + h * (ra * vb)) by (nonlinear_arith)
                requires
                    p == da + h * ra,
            ;
            vstd::arithmetic::mul::lemma_mul_is_distributive_add(h, va * rb, ra * vb);
            let y = va * rb + ra * vb;
            assert(h * ((da * vb + va * db) + h * y) == h * (da * vb + va * db) + h * h * y) by (nonlinear_arith);
            let r = y + p * q;
            assert(h * h * y + h * h * (p * q) == h * h * r) by (nonlinear_arith)
                requires
                    r == y + p * q,
            ;
            assert(value(derivative(e), m, x) == da * vb + va * db);
            r
        },
        Expr::Sin(a) | Expr::Cos(a) | Expr::Tan(a) | Expr::Asin(a) | Expr::Acos(a) | Expr::Atan(a)
        | Expr::Sinh(a) | Expr::Cosh(a) | Expr::Tanh(a) | Expr::Exp(a) | Expr::Ln(a) | Expr::Log(a)
        | Expr::Sqrt(a) | Expr::Abs(a) => {
            reveal_with_fuel(value, 2);
            let i = fn_index(e);
            let ra = lemma_slope(*a, m, x, h);
            let va = value(*a, m, x);
            let da = value(derivative(*a), m, x);
            let dd = h * (da + h * ra);
            assert(h * da + h * h * ra == dd) by (nonlinear_arith)
                requires
                    dd == h * (da + h * ra),
            ;
            assert(value(*a, m, x + h) == va + dd);
            let fv = (m.fun)(i, va);
            let dv = (m.dfun)(i, va);
            let big_r = (m.rem)(i, va, dd);
            assert((m.fun)(i, va + dd) == fv + dd * dv + dd * dd * big_r);
            assert(value(e, m, x + h) == (m.fun)(i, va + dd));
            assert(value(e, m, x) == fv);
            let r = lemma_chain_step(fv, dv, da, ra, h, big_r);
            lemma_fn_derivative_value(e, *a, m, x);
            r
        },
        _ => 0,
    }
}

/// `e(x + h)` is `e(x) + h * e'(x)` up to `h * h * r`.
pub open spec fn tangent_within(e: Expr, m: Model, x: int, h: int, r: int) -> bool {
    value(e, m, x + h) == value(e, m, x) + h * value(derivative(e), m, x) + h * h * r
}

/// The derivative is the slope: for an expression built from polynomials
/// and the one-argument functions, in every model whose functions have the
/// derivatives of calculus, `e(x + h) - e(x) - h * e'(x)` is a
/// multiple of `h * h` for all `x` and `h`. This fixes the value of the
/// derivative at every point, whatever the rules look like.
pub proof fn law_derivative_is_the_slope(e: Expr, m: Model, x: int, h: int)
    requires
        smooth(e),
        calculus_model(m),
    ensures
        exists|r: int| #[trigger] tangent_within(e, m, x, h, r),
{
    let r = lemma_slope(e, m, x, h);
    assert(tangent_within(e, m, x, h, r));
}

/// Whether `e` is made, by sums, differences, negations and constant
/// factors, of numbers, constants, `sin(x)`, `cos(x)` and `exp(x)`.
pub open spec fn trig_combination(e: Expr) -> bool
    decreases e,
{
    match e {
        Expr::Num(_) => true,
        Expr::Const(_) => true,
        Expr::Sin(a) => *a is Var,
        Expr::Cos(a) => *a is Var,
        Expr::Exp(a) => *a is Var,
        Expr::Add(a, b) => trig_combination(*a) && trig_combination(*b),
        Expr::Sub(a, b) => trig_combination(*a) && trig_combination(*b),
        Expr::Neg(a) => trig_combination(*a),
        Expr::Mul(a, b) => if spec_is_constant(*a) {
            trig_combination(*b)
        } else {
            spec_is_constant(*b) && trig_combination(*a)
        },
        _ => false,
    }
}

/// The antiderivative that integration gives is one: for every combination
/// of numbers, constants, `sin(x)`, `cos(x)` and `exp(x)` by sums,
/// differences, negations and constant factors, the derivative of the
/// antiderivative has the value of the integrand at every point, in every
/// model where the numbers 0 and 1 mean 0 and 1.
pub proof fn law_antiderivative_differentiates_back(e: Expr, t: Tables, m: Model, x: int)
    requires
        trig_combination(e),
        (m.num)(ZERO) == 0,
        (m.num)(ONE) == 1,
    ensures
        antiderivative(e, t) matches Ok(Some(f)) ==> value(derivative(f), m, x) == value(e, m, x),
    decreases e,
{
    reveal_with_fuel(value, 4);
    reveal_with_fuel(derivative, 3);
    assert(0 * x == 0 && x * 0 == 0) by (nonlinear_arith);
    match e {
        Expr::Add(a, b) | Expr::Sub(a, b) => {
            law_antiderivative_differentiates_back(*a, t, m, x);
            law_antiderivative_differentiates_back(*b, t, m, x);
        },
        Expr::Neg(a) => {
            law_antiderivative_differentiates_back(*a, t, m, x);
        },
        Expr::Mul(a, b) => {
            law_antiderivative_differentiates_back(*a, t, m, x);
            law_antiderivative_differentiates_back(*b, t, m, x);
            let va = value(*a, m, x);
            let vb = value(*b, m, x);
            if spec_is_constant(*a) {
                if let Ok(Some(fb)) = antiderivative(*b, t) {
                    let w = value(fb, m, x);
                    assert(0 * w == 0) by (nonlinear_arith);
                    assert(value(derivative(*a), m, x) == 0);
                }
            } else if let Ok(Some(fa)) = antiderivative(*a, t) {
                let w = value(fa, m, x);
                assert(0 * w == 0) by (nonlinear_arith);
                assert(value(derivative(*b), m, x) == 0);
                lemma_mul_is_commutative(va, vb);
            }
        },
        Expr::Num(_) | Expr::Const(_) => {
            let c = value(e, m, x);
            assert(c * 1 == c) by (nonlinear_arith);
        },
        _ => {
            assert(x * 1 == x) by (nonlinear_arith);
            assert(value(Expr::Sin(Box::new(Expr::Var)), m, x) * 1 == value(Expr::Sin(Box::new(Expr::Var)), m, x)) by (nonlinear_arith);
            assert(value(Expr::Cos(Box::new(Expr::Var)), m, x) * 1 == value(Expr::Cos(Box::new(Expr::Var)), m, x)) by (nonlinear_arith);
            assert(value(Expr::Exp(Box::new(Expr::Var)), m, x) * 1 == value(Expr::Exp(Box::new(Expr::Var)), m, x)) by (nonlinear_arith);
        },
    }
}

} // verus!
