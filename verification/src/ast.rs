//! Abstract syntax tree for mathematical expressions over the variable `x`.
use vstd::prelude::*;
use crate::text::str_eq;

verus! {

/// A named symbolic constant (`pi`, `e`).
#[derive(Debug, Clone, Copy, PartialEq, Eq, Structural)]
pub enum Const {
    Pi,
    E,
}

/// The name under which a constant is written.
pub open spec fn const_name(c: Const) -> Seq<char> {
    match c {
        Const::Pi => "pi"@,
        Const::E => "e"@,
    }
}

impl Const {
    /// The name under which the constant is written in input and output.
    pub fn name(self) -> (r: &'static str)
        ensures
            r@ == const_name(self),
    {
        match self {
            Const::Pi => "pi",
            Const::E => "e",
        }
    }
}

/// A mathematical expression over a single variable `x`.
///
/// A number is held as the bit pattern of the IEEE-754 double it denotes,
/// so that the symbolic engine stays exact about which value it carries.
#[derive(Debug)]
pub enum Expr {
    Num(u64),
    Const(Const),
    Var,
    Add(Box<Expr>, Box<Expr>),
    Sub(Box<Expr>, Box<Expr>),
    Mul(Box<Expr>, Box<Expr>),
    Div(Box<Expr>, Box<Expr>),
    Pow(Box<Expr>, Box<Expr>),
    Neg(Box<Expr>),
    Sin(Box<Expr>),
    Cos(Box<Expr>),
    Tan(Box<Expr>),
    Asin(Box<Expr>),
    Acos(Box<Expr>),
    Atan(Box<Expr>),
    Sinh(Box<Expr>),
    Cosh(Box<Expr>),
    Tanh(Box<Expr>),
    Exp(Box<Expr>),
    Ln(Box<Expr>),
    Log(Box<Expr>),
    Sqrt(Box<Expr>),
    Abs(Box<Expr>),
}

/// `a + b`
pub open spec fn mk_add(a: Expr, b: Expr) -> Expr {
    Expr::Add(Box::new(a), Box::new(b))
}

/// `a - b`
pub open spec fn mk_sub(a: Expr, b: Expr) -> Expr {
    Expr::Sub(Box::new(a), Box::new(b))
}

/// `a * b`
pub open spec fn mk_mul(a: Expr, b: Expr) -> Expr {
    Expr::Mul(Box::new(a), Box::new(b))
}

/// `a / b`
pub open spec fn mk_div(a: Expr, b: Expr) -> Expr {
    Expr::Div(Box::new(a), Box::new(b))
}

/// `a ^ b`
pub open spec fn mk_pow(a: Expr, b: Expr) -> Expr {
    Expr::Pow(Box::new(a), Box::new(b))
}

/// `-a`
pub open spec fn mk_neg(a: Expr) -> Expr {
    Expr::Neg(Box::new(a))
}

/// `ln(a)`
pub open spec fn mk_ln(a: Expr) -> Expr {
    Expr::Ln(Box::new(a))
}

/// Whether an expression is a plain constant (a number or a named constant).
pub open spec fn spec_is_constant(e: Expr) -> bool {
    e is Num || e is Const
}

/// The single-argument function node that `name` denotes, if it is one of the
/// names the parser hands to [`make_unary_fn`].
pub open spec fn unary_fn_of(name: Seq<char>, a: Expr) -> Option<Expr> {
    if name == "sin"@ {
        Some(Expr::Sin(Box::new(a)))
    } else if name == "cos"@ {
        Some(Expr::Cos(Box::new(a)))
    } else if name == "tan"@ {
        Some(Expr::Tan(Box::new(a)))
    } else if name == "asin"@ {
        Some(Expr::Asin(Box::new(a)))
    } else if name == "acos"@ {
        Some(Expr::Acos(Box::new(a)))
    } else if name == "atan"@ {
        Some(Expr::Atan(Box::new(a)))
    } else if name == "sinh"@ {
        Some(Expr::Sinh(Box::new(a)))
    } else if name == "cosh"@ {
        Some(Expr::Cosh(Box::new(a)))
    } else if name == "tanh"@ {
        Some(Expr::Tanh(Box::new(a)))
    } else if name == "exp"@ {
        Some(Expr::Exp(Box::new(a)))
    } else if name == "ln"@ {
        Some(Expr::Ln(Box::new(a)))
    } else if name == "sqrt"@ {
        Some(Expr::Sqrt(Box::new(a)))
    } else if name == "abs"@ {
        Some(Expr::Abs(Box::new(a)))
    } else {
        None
    }
}

impl Expr {
    pub fn num(n: u64) -> (r: Expr)
        ensures
            r == Expr::Num(n),
    {
        Expr::Num(n)
    }

    pub fn var() -> (r: Expr)
        ensures
            r == Expr::Var,
    {
        Expr::Var
    }

    pub fn add(a: Expr, b: Expr) -> (r: Expr)
        ensures
            r == Expr::Add(Box::new(a), Box::new(b)),
    {
        Expr::Add(Box::new(a), Box::new(b))
    }

    pub fn sub(a: Expr, b: Expr) -> (r: Expr)
        ensures
            r == Expr::Sub(Box::new(a), Box::new(b)),
    {
        Expr::Sub(Box::new(a), Box::new(b))
    }

    pub fn mul(a: Expr, b: Expr) -> (r: Expr)
        ensures
            r == Expr::Mul(Box::new(a), Box::new(b)),
    {
        Expr::Mul(Box::new(a), Box::new(b))
    }

    pub fn div(a: Expr, b: Expr) -> (r: Expr)
        ensures
            r == Expr::Div(Box::new(a), Box::new(b)),
    {
        Expr::Div(Box::new(a), Box::new(b))
    }

    pub fn pow(base: Expr, exp: Expr) -> (r: Expr)
        ensures
            r == Expr::Pow(Box::new(base), Box::new(exp)),
    {
        Expr::Pow(Box::new(base), Box::new(exp))
    }

    pub fn neg(a: Expr) -> (r: Expr)
        ensures
            r == Expr::Neg(Box::new(a)),
    {
        Expr::Neg(Box::new(a))
    }

    pub fn sin(a: Expr) -> (r: Expr)
        ensures
            r == Expr::Sin(Box::new(a)),
    {
        Expr::Sin(Box::new(a))
    }

    pub fn cos(a: Expr) -> (r: Expr)
        ensures
            r == Expr::Cos(Box::new(a)),
    {
        Expr::Cos(Box::new(a))
    }

    pub fn tan(a: Expr) -> (r: Expr)
        ensures
            r == Expr::Tan(Box::new(a)),
    {
        Expr::Tan(Box::new(a))
    }

    pub fn asin(a: Expr) -> (r: Expr)
        ensures
            r == Expr::Asin(Box::new(a)),
    {
        Expr::Asin(Box::new(a))
    }

    pub fn acos(a: Expr) -> (r: Expr)
        ensures
            r == Expr::Acos(Box::new(a)),
    {
        Expr::Acos(Box::new(a))
    }

    pub fn atan(a: Expr) -> (r: Expr)
        ensures
            r == Expr::Atan(Box::new(a)),
    {
        Expr::Atan(Box::new(a))
    }

    pub fn sinh(a: Expr) -> (r: Expr)
        ensures
            r == Expr::Sinh(Box::new(a)),
    {
        Expr::Sinh(Box::new(a))
    }

    pub fn cosh(a: Expr) -> (r: Expr)
        ensures
            r == Expr::Cosh(Box::new(a)),
    {
        Expr::Cosh(Box::new(a))
    }

    pub fn tanh(a: Expr) -> (r: Expr)
        ensures
            r == Expr::Tanh(Box::new(a)),
    {
        Expr::Tanh(Box::new(a))
    }

    pub fn exp(a: Expr) -> (r: Expr)
        ensures
            r == Expr::Exp(Box::new(a)),
    {
        Expr::Exp(Box::new(a))
    }

    pub fn ln(a: Expr) -> (r: Expr)
        ensures
            r == Expr::Ln(Box::new(a)),
    {
        Expr::Ln(Box::new(a))
    }

    pub fn log(a: Expr) -> (r: Expr)
        ensures
            r == Expr::Log(Box::new(a)),
    {
        Expr::Log(Box::new(a))
    }

    pub fn sqrt(a: Expr) -> (r: Expr)
        ensures
            r == Expr::Sqrt(Box::new(a)),
    {
        Expr::Sqrt(Box::new(a))
    }

    pub fn abs(a: Expr) -> (r: Expr)
        ensures
            r == Expr::Abs(Box::new(a)),
    {
        Expr::Abs(Box::new(a))
    }

    /// Whether the expression is a plain constant (independent of `x`).
    pub fn is_constant(&self) -> (r: bool)
        ensures
            r == spec_is_constant(*self),
    {
        match self {
            Expr::Num(_) | Expr::Const(_) => true,
            _ => false,
        }
    }

    /// A copy of the expression, equal to it node for node.
    pub fn duplicate(&self) -> (r: Expr)
        ensures
            r == *self,
        decreases self,
    {
        match self {
            Expr::Num(n) => Expr::Num(*n),
            Expr::Const(c) => Expr::Const(*c),
            Expr::Var => Expr::Var,
            Expr::Add(a, b) => Expr::add(a.duplicate(), b.duplicate()),
            Expr::Sub(a, b) => Expr::sub(a.duplicate(), b.duplicate()),
            Expr::Mul(a, b) => Expr::mul(a.duplicate(), b.duplicate()),
            Expr::Div(a, b) => Expr::div(a.duplicate(), b.duplicate()),
            Expr::Pow(a, b) => Expr::pow(a.duplicate(), b.duplicate()),
            Expr::Neg(a) => Expr::neg(a.duplicate()),
            Expr::Sin(a) => Expr::sin(a.duplicate()),
            Expr::Cos(a) => Expr::cos(a.duplicate()),
            Expr::Tan(a) => Expr::tan(a.duplicate()),
            Expr::Asin(a) => Expr::asin(a.duplicate()),
            Expr::Acos(a) => Expr::acos(a.duplicate()),
            Expr::Atan(a) => Expr::atan(a.duplicate()),
            Expr::Sinh(a) => Expr::sinh(a.duplicate()),
            Expr::Cosh(a) => Expr::cosh(a.duplicate()),
            Expr::Tanh(a) => Expr::tanh(a.duplicate()),
            Expr::Exp(a) => Expr::exp(a.duplicate()),
            Expr::Ln(a) => Expr::ln(a.duplicate()),
            Expr::Log(a) => Expr::log(a.duplicate()),
            Expr::Sqrt(a) => Expr::sqrt(a.duplicate()),
            Expr::Abs(a) => Expr::abs(a.duplicate()),
        }
    }
}

/// Whether `name` is one of the single-argument function names.
pub fn is_unary_fn_name(name: &str) -> (r: bool)
    ensures
        r == (unary_fn_of(name@, Expr::Var) is Some),
{
    str_eq(name, "sin") || str_eq(name, "cos") || str_eq(name, "tan") || str_eq(name, "asin")
        || str_eq(name, "acos") || str_eq(name, "atan") || str_eq(name, "sinh") || str_eq(name, "cosh")
        || str_eq(name, "tanh") || str_eq(name, "exp") || str_eq(name, "ln") || str_eq(name, "sqrt")
        || str_eq(name, "abs")
}

/// Build a single-argument function node from its name. The parser only
/// calls this with one of the known function names.
pub fn make_unary_fn(name: &str, arg: Expr) -> (r: Expr)
    requires
        unary_fn_of(name@, arg) is Some,
    ensures
        Some(r) == unary_fn_of(name@, arg),
{
    let b = Box::new(arg);
    if str_eq(name, "sin") {
        Expr::Sin(b)
    } else if str_eq(name, "cos") {
        Expr::Cos(b)
    } else if str_eq(name, "tan") {
        Expr::Tan(b)
    } else if str_eq(name, "asin") {
        Expr::Asin(b)
    } else if str_eq(name, "acos") {
        Expr::Acos(b)
    } else if str_eq(name, "atan") {
        Expr::Atan(b)
    } else if str_eq(name, "sinh") {
        Expr::Sinh(b)
    } else if str_eq(name, "cosh") {
        Expr::Cosh(b)
    } else if str_eq(name, "tanh") {
        Expr::Tanh(b)
    } else if str_eq(name, "exp") {
        Expr::Exp(b)
    } else if str_eq(name, "ln") {
        Expr::Ln(b)
    } else if str_eq(name, "sqrt") {
        Expr::Sqrt(b)
    } else {
        Expr::Abs(b)
    }
}

} // verus!
