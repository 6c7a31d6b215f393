//! Rendering an [`Expr`] to a plain ASCII string and to LaTeX. The text of
//! each number is taken from the [`Numerics`] tables; a missing one is
//! reported as a [`Need`].
use vstd::prelude::*;
use crate::ast::{const_name, Const, Expr};
use crate::numeric::{Need, Numerics, Tables, SIGN_BIT};
use crate::text::{is_ascii_letter, str_eq};

verus! {

/// Precedence used for parenthesisation decisions (higher binds tighter).
pub open spec fn spec_prec(e: Expr) -> u8 {
    match e {
        Expr::Add(_, _) => 1,
        Expr::Sub(_, _) => 1,
        Expr::Mul(_, _) => 2,
        Expr::Div(_, _) => 2,
        Expr::Neg(_) => 3,
        Expr::Pow(_, _) => 4,
        _ => 5,
    }
}

/// Whether `e` needs brackets as the base of a power: a power (so that
/// `(a^b)^c` does not read as `a^(b^c)`), anything that binds more loosely,
/// and a negative number (so that `(-2)^2` does not read as `-(2^2)`).
pub open spec fn base_bracketed(e: Expr) -> bool {
    spec_prec(e) <= 4 || (e matches Expr::Num(n) && n & SIGN_BIT != 0)
}

/// Whether `s` starts with an ASCII letter.
pub open spec fn starts_with_letter(s: Seq<char>) -> bool {
    s.len() > 0 && is_ascii_letter(s[0])
}

/// Whether the LaTeX command word `a` (such as `\pi`) would run into the
/// letter that starts `b` if they were written side by side.
pub open spec fn command_meets_letter(a: Seq<char>, b: Seq<char>) -> bool {
    a.len() > 0 && a[0] == '\\' && starts_with_letter(b)
}

/// `\cdot`, with a space when the right operand starts with a letter.
pub open spec fn cdot_before(b: Seq<char>) -> Seq<char> {
    if starts_with_letter(b) {
        "\\cdot "@
    } else {
        "\\cdot"@
    }
}

/// `s`, in round brackets when `cond` holds.
pub open spec fn parened(s: Seq<char>, cond: bool) -> Seq<char> {
    if cond {
        "("@ + s + ")"@
    } else {
        s
    }
}

/// `s`, in LaTeX `\left( .. \right)` brackets when `cond` holds.
pub open spec fn latex_parened(s: Seq<char>, cond: bool) -> Seq<char> {
    if cond {
        "\\left("@ + s + "\\right)"@
    } else {
        s
    }
}

/// The text of the number `n` in the tables, or the need for it.
pub open spec fn num_text(n: u64, t: Tables) -> Result<Seq<char>, Need> {
    match t.text(n) {
        Some(s) => Ok(s),
        None => Err(Need::Text(n)),
    }
}

/// `pre + a + post` when the operand rendered.
pub open spec fn wrap1(pre: Seq<char>, ra: Result<Seq<char>, Need>, post: Seq<char>) -> Result<Seq<char>, Need> {
    match ra {
        Err(k) => Err(k),
        Ok(a) => Ok(pre + a + post),
    }
}

/// Both operands rendered (the left one first), joined by `f`.
pub open spec fn wrap2(
    ra: Result<Seq<char>, Need>,
    rb: Result<Seq<char>, Need>,
    f: spec_fn(Seq<char>, Seq<char>) -> Seq<char>,
) -> Result<Seq<char>, Need> {
    match ra {
        Err(k) => Err(k),
        Ok(a) => match rb {
            Err(k) => Err(k),
            Ok(b) => Ok(f(a, b)),
        },
    }
}

/// The plain ASCII infix text of `e`, with `*` and `^`, bracketed wherever
/// precedence or the right associativity of `^` would regroup it.
pub open spec fn ascii_text(e: Expr, t: Tables) -> Result<Seq<char>, Need>
    decreases e,
{
    match e {
        Expr::Num(n) => num_text(n, t),
        Expr::Const(c) => Ok(const_name(c)),
        Expr::Var => Ok("x"@),
        Expr::Add(a, b) => wrap2(ascii_text(*a, t), ascii_text(*b, t), |x: Seq<char>, y: Seq<char>| x + " + "@ + y),
        Expr::Sub(a, b) => wrap2(
            ascii_text(*a, t),
            ascii_text(*b, t),
            |x: Seq<char>, y: Seq<char>| x + " - "@ + parened(y, spec_prec(*b) <= 1),
        ),
        Expr::Mul(a, b) => wrap2(
            ascii_text(*a, t),
            ascii_text(*b, t),
            |x: Seq<char>, y: Seq<char>| parened(x, spec_prec(*a) < 2) + "*"@ + parened(y, spec_prec(*b) < 2),
        ),
        Expr::Div(a, b) => wrap2(
            ascii_text(*a, t),
            ascii_text(*b, t),
            |x: Seq<char>, y: Seq<char>| parened(x, spec_prec(*a) < 2) + "/"@ + parened(y, spec_prec(*b) <= 2),
        ),
        Expr::Pow(a, b) => wrap2(
            ascii_text(*a, t),
            ascii_text(*b, t),
            |x: Seq<char>, y: Seq<char>| parened(x, base_bracketed(*a)) + "^"@ + parened(y, spec_prec(*b) <= 4),
        ),
        Expr::Neg(a) => match ascii_text(*a, t) {
            Err(k) => Err(k),
            Ok(x) => Ok("-"@ + parened(x, spec_prec(*a) <= 3)),
        },
        Expr::Sin(a) => wrap1("sin("@, ascii_text(*a, t), ")"@),
        Expr::Cos(a) => wrap1("cos("@, ascii_text(*a, t), ")"@),
        Expr::Tan(a) => wrap1("tan("@, ascii_text(*a, t), ")"@),
        Expr::Asin(a) => wrap1("asin("@, ascii_text(*a, t), ")"@),
        Expr::Acos(a) => wrap1("acos("@, ascii_text(*a, t), ")"@),
        Expr::Atan(a) => wrap1("atan("@, ascii_text(*a, t), ")"@),
        Expr::Sinh(a) => wrap1("sinh("@, ascii_text(*a, t), ")"@),
        Expr::Cosh(a) => wrap1("cosh("@, ascii_text(*a, t), ")"@),
        Expr::Tanh(a) => wrap1("tanh("@, ascii_text(*a, t), ")"@),
        Expr::Exp(a) => wrap1("exp("@, ascii_text(*a, t), ")"@),
        Expr::Ln(a) => wrap1("ln("@, ascii_text(*a, t), ")"@),
        Expr::Log(a) => wrap1("log("@, ascii_text(*a, t), ")"@),
        Expr::Sqrt(a) => wrap1("sqrt("@, ascii_text(*a, t), ")"@),
        Expr::Abs(a) => wrap1("abs("@, ascii_text(*a, t), ")"@),
    }
}

/// The coefficient form of a product `c * f` in LaTeX: `2x`, `-x`, `x`,
/// `\pi x` (a space where a letter would follow a command word).
pub open spec fn coefficient_form(coeff: Seq<char>, factor: Seq<char>) -> Seq<char> {
    if coeff == "1"@ {
        factor
    } else if coeff == "-1"@ {
        "-"@ + factor
    } else if command_meets_letter(coeff, factor) {
        coeff + " "@ + factor
    } else {
        coeff + factor
    }
}

/// The LaTeX text of `e`, for KaTeX / MathJax display.
pub open spec fn latex_text(e: Expr, t: Tables) -> Result<Seq<char>, Need>
    decreases e,
{
    match e {
        Expr::Num(n) => num_text(n, t),
        Expr::Const(Const::Pi) => Ok("\\pi"@),
        Expr::Const(Const::E) => Ok("e"@),
        Expr::Var => Ok("x"@),
        Expr::Add(a, b) => wrap2(latex_text(*a, t), latex_text(*b, t), |x: Seq<char>, y: Seq<char>| x + " + "@ + y),
        Expr::Sub(a, b) => wrap2(
            latex_text(*a, t),
            latex_text(*b, t),
            |x: Seq<char>, y: Seq<char>| x + " - "@ + latex_parened(y, spec_prec(*b) <= 1),
        ),
        Expr::Mul(a, b) => {
            if *a is Num || *a is Const {
                wrap2(
                    latex_text(*a, t),
                    latex_text(*b, t),
                    |x: Seq<char>, y: Seq<char>| coefficient_form(x, latex_parened(y, spec_prec(*b) <= 1)),
                )
            } else {
                wrap2(
                    latex_text(*a, t),
                    latex_text(*b, t),
                    |x: Seq<char>, y: Seq<char>|
                        latex_parened(x, spec_prec(*a) < 2) + cdot_before(latex_parened(y, spec_prec(*b) < 2))
                            + latex_parened(y, spec_prec(*b) < 2),
                )
            }
        },
        Expr::Div(a, b) => wrap2(
            latex_text(*a, t),
            latex_text(*b, t),
            |x: Seq<char>, y: Seq<char>| "\\frac{"@ + x + "}{"@ + y + "}"@,
        ),
        Expr::Pow(a, b) => wrap2(
            latex_text(*a, t),
            latex_text(*b, t),
            |x: Seq<char>, y: Seq<char>| latex_parened(x, base_bracketed(*a)) + "^{"@ + y + "}"@,
        ),
        Expr::Neg(a) => match latex_text(*a, t) {
            Err(k) => Err(k),
            Ok(x) => Ok("-"@ + latex_parened(x, spec_prec(*a) <= 3)),
        },
        Expr::Sin(a) => wrap1("\\sin\\left("@, latex_text(*a, t), "\\right)"@),
        Expr::Cos(a) => wrap1("\\cos\\left("@, latex_text(*a, t), "\\right)"@),
        Expr::Tan(a) => wrap1("\\tan\\left("@, latex_text(*a, t), "\\right)"@),
        Expr::Asin(a) => wrap1("\\arcsin\\left("@, latex_text(*a, t), "\\right)"@),
        Expr::Acos(a) => wrap1("\\arccos\\left("@, latex_text(*a, t), "\\right)"@),
        Expr::Atan(a) => wrap1("\\arctan\\left("@, latex_text(*a, t), "\\right)"@),
        Expr::Sinh(a) => wrap1("\\sinh\\left("@, latex_text(*a, t), "\\right)"@),
        Expr::Cosh(a) => wrap1("\\cosh\\left("@, latex_text(*a, t), "\\right)"@),
        Expr::Tanh(a) => wrap1("\\tanh\\left("@, latex_text(*a, t), "\\right)"@),
        Expr::Exp(a) => wrap1("e^{"@, latex_text(*a, t), "}"@),
        Expr::Ln(a) => wrap1("\\ln\\left("@, latex_text(*a, t), "\\right)"@),
        Expr::Log(a) => wrap1("\\log\\left("@, latex_text(*a, t), "\\right)"@),
        Expr::Sqrt(a) => wrap1("\\sqrt{"@, latex_text(*a, t), "}"@),
        Expr::Abs(a) => wrap1("\\left|"@, latex_text(*a, t), "\\right|"@),
    }
}

/// Precedence used for parenthesisation decisions (higher binds tighter).
pub fn prec(e: &Expr) -> (r: u8)
    ensures
        r == spec_prec(*e),
{
    match e {
        Expr::Add(_, _) | Expr::Sub(_, _) => 1,
        Expr::Mul(_, _) | Expr::Div(_, _) => 2,
        Expr::Neg(_) => 3,
        Expr::Pow(_, _) => 4,
        _ => 5,
    }
}

/// `s`, in round brackets when `cond` holds.
pub fn paren(s: String, cond: bool) -> (r: String)
    ensures
        r@ == parened(s@, cond),
{
    if cond {
        let mut r = String::new();
        r.append("(");
        r.append(s.as_str());
        r.append(")");
        r
    } else {
        s
    }
}

/// `s`, in LaTeX `\left( .. \right)` brackets when `cond` holds.
pub fn latex_paren(s: String, cond: bool) -> (r: String)
    ensures
        r@ == latex_parened(s@, cond),
{
    if cond {
        let mut r = String::new();
        r.append("\\left(");
        r.append(s.as_str());
        r.append("\\right)");
        r
    } else {
        s
    }
}

/// Whether `e` needs brackets as the base of a power.
pub fn needs_base_brackets(e: &Expr) -> (r: bool)
    ensures
        r == base_bracketed(*e),
{
    match e {
        Expr::Num(n) => *n & SIGN_BIT != 0,
        _ => prec(e) <= 4,
    }
}

fn ascii_letter(c: char) -> (r: bool)
    ensures
        r == is_ascii_letter(c),
{
    ('a' <= c && c <= 'z') || ('A' <= c && c <= 'Z')
}

/// Whether `s` starts with an ASCII letter.
fn letter_first(s: &str) -> (r: bool)
    ensures
        r == starts_with_letter(s@),
{
    s.unicode_len() > 0 && ascii_letter(s.get_char(0))
}

/// Whether the command word `a` would run into the letter that starts `b`.
fn command_then_letter(a: &str, b: &str) -> (r: bool)
    ensures
        r == command_meets_letter(a@, b@),
{
    a.unicode_len() > 0 && a.get_char(0) == '\\' && letter_first(b)
}

fn number_text(n: u64, tab: &Numerics) -> (r: Result<String, Need>)
    ensures
        match r {
            Ok(s) => num_text(n, tab.tables()) == Ok::<Seq<char>, Need>(s@),
            Err(k) => num_text(n, tab.tables()) == Err::<Seq<char>, Need>(k),
        },
{
    let s = tab.text(n)?;
    Ok(String::from_str(s.as_str()))
}

/// `pre + a + post`
fn surround(pre: &str, a: String, post: &str) -> (r: String)
    ensures
        r@ == pre@ + a@ + post@,
{
    let mut r = String::from_str(pre);
    r.append(a.as_str());
    r.append(post);
    r
}

/// `a + b`
fn cat(a: String, b: String) -> (r: String)
    ensures
        r@ == a@ + b@,
{
    let mut r = a;
    r.append(b.as_str());
    r
}

/// `a + mid + b`
fn join(a: String, mid: &str, b: String) -> (r: String)
    ensures
        r@ == a@ + mid@ + b@,
{
    let mut r = a;
    r.append(mid);
    r.append(b.as_str());
    r
}

#[verifier::rlimit(40)]
/// Plain ASCII infix rendering with `*` and `^`, bracketed wherever
/// precedence or the right associativity of `^` would otherwise change its
/// meaning (a power base that is itself a power, or a negative number, is
/// bracketed).
pub fn to_string(e: &Expr, tab: &Numerics) -> (r: Result<String, Need>)
    ensures
        match r {
            Ok(s) => ascii_text(*e, tab.tables()) == Ok::<Seq<char>, Need>(s@),
            Err(k) => ascii_text(*e, tab.tables()) == Err::<Seq<char>, Need>(k),
        },
    decreases e,
{
    match e {
        Expr::Num(n) => number_text(*n, tab),
        Expr::Const(c) => Ok(String::from_str(c.name())),
        Expr::Var => Ok(String::from_str("x")),
        Expr::Add(a, b) => {
            let x = to_string(a, tab)?;
            let y = to_string(b, tab)?;
            Ok(join(x, " + ", y))
        },
        Expr::Sub(a, b) => {
            let x = to_string(a, tab)?;
            let y = to_string(b, tab)?;
            Ok(join(x, " - ", paren(y, prec(b) <= 1)))
        },
        Expr::Mul(a, b) => {
            let x = to_string(a, tab)?;
            let y = to_string(b, tab)?;
            Ok(join(paren(x, prec(a) < 2), "*", paren(y, prec(b) < 2)))
        },
        Expr::Div(a, b) => {
            let x = to_string(a, tab)?;
            let y = to_string(b, tab)?;
            Ok(join(paren(x, prec(a) < 2), "/", paren(y, prec(b) <= 2)))
        },
        Expr::Pow(a, b) => {
            let x = to_string(a, tab)?;
            let y = to_string(b, tab)?;
            Ok(join(paren(x, needs_base_brackets(a)), "^", paren(y, prec(b) <= 4)))
        },
        Expr::Neg(a) => {
            let x = to_string(a, tab)?;
            Ok(cat(String::from_str("-"), paren(x, prec(a) <= 3)))
        },
        Expr::Sin(a) => Ok(surround("sin(", to_string(a, tab)?, ")")),
        Expr::Cos(a) => Ok(surround("cos(", to_string(a, tab)?, ")")),
        Expr::Tan(a) => Ok(surround("tan(", to_string(a, tab)?, ")")),
        Expr::Asin(a) => Ok(surround("asin(", to_string(a, tab)?, ")")),
        Expr::Acos(a) => Ok(surround("acos(", to_string(a, tab)?, ")")),
        Expr::Atan(a) => Ok(surround("atan(", to_string(a, tab)?, ")")),
        Expr::Sinh(a) => Ok(surround("sinh(", to_string(a, tab)?, ")")),
        Expr::Cosh(a) => Ok(surround("cosh(", to_string(a, tab)?, ")")),
        Expr::Tanh(a) => Ok(surround("tanh(", to_string(a, tab)?, ")")),
        Expr::Exp(a) => Ok(surround("exp(", to_string(a, tab)?, ")")),
        Expr::Ln(a) => Ok(surround("ln(", to_string(a, tab)?, ")")),
        Expr::Log(a) => Ok(surround("log(", to_string(a, tab)?, ")")),
        Expr::Sqrt(a) => Ok(surround("sqrt(", to_string(a, tab)?, ")")),
        Expr::Abs(a) => Ok(surround("abs(", to_string(a, tab)?, ")")),
    }
}

#[verifier::rlimit(40)]
/// LaTeX rendering for KaTeX / MathJax display.
pub fn to_latex(e: &Expr, tab: &Numerics) -> (r: Result<String, Need>)
    ensures
        match r {
            Ok(s) => latex_text(*e, tab.tables()) == Ok::<Seq<char>, Need>(s@),
            Err(k) => latex_text(*e, tab.tables()) == Err::<Seq<char>, Need>(k),
        },
    decreases e,
{
    match e {
        Expr::Num(n) => number_text(*n, tab),
        Expr::Const(Const::Pi) => Ok(String::from_str("\\pi")),
        Expr::Const(Const::E) => Ok(String::from_str("e")),
        Expr::Var => Ok(String::from_str("x")),
        Expr::Add(a, b) => {
            let x = to_latex(a, tab)?;
            let y = to_latex(b, tab)?;
            Ok(join(x, " + ", y))
        },
        Expr::Sub(a, b) => {
            let x = to_latex(a, tab)?;
            let y = to_latex(b, tab)?;
            Ok(join(x, " - ", latex_paren(y, prec(b) <= 1)))
        },
        Expr::Mul(a, b) => {
            if let Expr::Num(_) | Expr::Const(_) = &**a {
                let coeff = to_latex(a, tab)?;
                let factor = to_latex(b, tab)?;
                let factor = latex_paren(factor, prec(b) <= 1);
                if str_eq(coeff.as_str(), "1") {
                    Ok(factor)
                } else if str_eq(coeff.as_str(), "-1") {
                    Ok(cat(String::from_str("-"), factor))
                } else {
                    if command_then_letter(coeff.as_str(), factor.as_str()) {
                        Ok(join(coeff, " ", factor))
                    } else {
                        Ok(cat(coeff, factor))
                    }
                }
            } else {
                let x = to_latex(a, tab)?;
                let y = to_latex(b, tab)?;
                let y = latex_paren(y, prec(b) < 2);
                if letter_first(y.as_str()) {
                    Ok(join(latex_paren(x, prec(a) < 2), "\\cdot ", y))
                } else {
                    Ok(join(latex_paren(x, prec(a) < 2), "\\cdot", y))
                }
            }
        },
        Expr::Div(a, b) => {
            let x = to_latex(a, tab)?;
            let y = to_latex(b, tab)?;
            let mut r = String::from_str("\\frac{");
            r.append(x.as_str());
            r.append("}{");
            r.append(y.as_str());
            r.append("}");
            Ok(r)
        },
        Expr::Pow(a, b) => {
            let x = to_latex(a, tab)?;
            let y = to_latex(b, tab)?;
            let mut r = join(latex_paren(x, needs_base_brackets(a)), "^{", y);
            r.append("}");
            Ok(r)
        },
        Expr::Neg(a) => {
            let x = to_latex(a, tab)?;
            Ok(cat(String::from_str("-"), latex_paren(x, prec(a) <= 3)))
        },
        Expr::Sin(a) => Ok(surround("\\sin\\left(", to_latex(a, tab)?, "\\right)")),
        Expr::Cos(a) => Ok(surround("\\cos\\left(", to_latex(a, tab)?, "\\right)")),
        Expr::Tan(a) => Ok(surround("\\tan\\left(", to_latex(a, tab)?, "\\right)")),
        Expr::Asin(a) => Ok(surround("\\arcsin\\left(", to_latex(a, tab)?, "\\right)")),
        Expr::Acos(a) => Ok(surround("\\arccos\\left(", to_latex(a, tab)?, "\\right)")),
        Expr::Atan(a) => Ok(surround("\\arctan\\left(", to_latex(a, tab)?, "\\right)")),
        Expr::Sinh(a) => Ok(surround("\\sinh\\left(", to_latex(a, tab)?, "\\right)")),
        Expr::Cosh(a) => Ok(surround("\\cosh\\left(", to_latex(a, tab)?, "\\right)")),
        Expr::Tanh(a) => Ok(surround("\\tanh\\left(", to_latex(a, tab)?, "\\right)")),
        Expr::Exp(a) => Ok(surround("e^{", to_latex(a, tab)?, "}")),
        Expr::Ln(a) => Ok(surround("\\ln\\left(", to_latex(a, tab)?, "\\right)")),
        Expr::Log(a) => Ok(surround("\\log\\left(", to_latex(a, tab)?, "\\right)")),
        Expr::Sqrt(a) => Ok(surround("\\sqrt{", to_latex(a, tab)?, "}")),
        Expr::Abs(a) => Ok(surround("\\left|", to_latex(a, tab)?, "\\right|")),
    }
}

} // verus!
