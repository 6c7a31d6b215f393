//! The symbolic half of analysing one function: the input echoed back, its
//! simplified derivative and, where a rule matches, its simplified
//! antiderivative, each as ASCII and as LaTeX.
use vstd::prelude::*;
use crate::ast::Expr;
use crate::diff::{derivative, diff};
use crate::integrate::{antiderivative, integrate_symbolic};
use crate::numeric::{Need, Numerics, Tables};
use crate::render::{ascii_text, latex_text, to_latex, to_string};
use crate::simplify::{simplified, simplify};

verus! {

/// What the symbolic engine reports of one function.
pub struct Symbolic {
    /// The input, rendered back in readable form.
    pub input: String,
    pub input_latex: String,
    /// The simplified derivative.
    pub derivative: String,
    pub derivative_latex: String,
    /// The simplified antiderivative, or a note that only a numerical
    /// integral is available.
    pub integral: String,
    pub integral_latex: String,
    /// Whether a symbolic antiderivative was found.
    pub integral_symbolic: bool,
}

/// The texts of a [`Symbolic`] report.
pub struct SymbolicView {
    pub input: Seq<char>,
    pub input_latex: Seq<char>,
    pub derivative: Seq<char>,
    pub derivative_latex: Seq<char>,
    pub integral: Seq<char>,
    pub integral_latex: Seq<char>,
    pub integral_symbolic: bool,
}

impl View for Symbolic {
    type V = SymbolicView;

    open spec fn view(&self) -> SymbolicView {
        SymbolicView {
            input: self.input@,
            input_latex: self.input_latex@,
            derivative: self.derivative@,
            derivative_latex: self.derivative_latex@,
            integral: self.integral@,
            integral_latex: self.integral_latex@,
            integral_symbolic: self.integral_symbolic,
        }
    }
}

/// The two renderings of `e`, ASCII first.
pub open spec fn both_texts(e: Expr, t: Tables) -> Result<(Seq<char>, Seq<char>), Need> {
    match ascii_text(e, t) {
        Err(k) => Err(k),
        Ok(a) => match latex_text(e, t) {
            Err(k) => Err(k),
            Ok(l) => Ok((a, l)),
        },
    }
}

/// The integral's two texts and whether it is symbolic: the simplified
/// antiderivative where a rule matches, else a note.
pub open spec fn integral_texts(e: Expr, t: Tables) -> Result<(Seq<char>, Seq<char>, bool), Need> {
    match antiderivative(e, t) {
        Err(k) => Err(k),
        Ok(None) => Ok(("numerical only"@, "\\text{numerical only}"@, false)),
        Ok(Some(a)) => match simplified(a, t) {
            Err(k) => Err(k),
            Ok(s) => match both_texts(s, t) {
                Err(k) => Err(k),
                Ok((x, y)) => Ok((x, y, true)),
            },
        },
    }
}

/// The symbolic report of `e`; the first result it lacks, in the order in
/// which [`analyse`] asks, where the tables do not hold all of them.
pub open spec fn report(e: Expr, t: Tables) -> Result<SymbolicView, Need> {
    match simplified(derivative(e), t) {
        Err(k) => Err(k),
        Ok(d) => match integral_texts(e, t) {
            Err(k) => Err(k),
            Ok((i, il, sym)) => match both_texts(e, t) {
                Err(k) => Err(k),
                Ok((x, xl)) => match both_texts(d, t) {
                    Err(k) => Err(k),
                    Ok((dx, dl)) => Ok(
                        SymbolicView {
                            input: x,
                            input_latex: xl,
                            derivative: dx,
                            derivative_latex: dl,
                            integral: i,
                            integral_latex: il,
                            integral_symbolic: sym,
                        },
                    ),
                },
            },
        },
    }
}

fn texts(e: &Expr, tab: &Numerics) -> (r: Result<(String, String), Need>)
    ensures
        match r {
            Ok((a, l)) => both_texts(*e, tab.tables()) == Ok::<(Seq<char>, Seq<char>), Need>((a@, l@)),
            Err(k) => both_texts(*e, tab.tables()) == Err::<(Seq<char>, Seq<char>), Need>(k),
        },
{
    let a = to_string(e, tab)?;
    let l = to_latex(e, tab)?;
    Ok((a, l))
}

/// The integral's texts and whether a symbolic antiderivative was found.
pub fn integral_report(e: &Expr, tab: &Numerics) -> (r: Result<(String, String, bool), Need>)
    ensures
        match r {
            Ok((x, y, s)) => integral_texts(*e, tab.tables()) == Ok::<(Seq<char>, Seq<char>, bool), Need>((x@, y@, s)),
            Err(k) => integral_texts(*e, tab.tables()) == Err::<(Seq<char>, Seq<char>, bool), Need>(k),
        },
{
    match integrate_symbolic(e, tab)? {
        Some(anti) => {
            let anti = simplify(&anti, tab)?;
            let (x, y) = texts(&anti, tab)?;
            Ok((x, y, true))
        },
        None => Ok((String::from_str("numerical only"), String::from_str("\\text{numerical only}"), false)),
    }
}

/// Analyse `e` symbolically: echo it, differentiate and simplify, and
/// integrate where a rule matches.
pub fn analyse(e: &Expr, tab: &Numerics) -> (r: Result<Symbolic, Need>)
    ensures
        match r {
            Ok(s) => report(*e, tab.tables()) == Ok::<SymbolicView, Need>(s@),
            Err(k) => report(*e, tab.tables()) == Err::<SymbolicView, Need>(k),
        },
{
    let d = simplify(&diff(e), tab)?;
    let (integral, integral_latex, integral_symbolic) = integral_report(e, tab)?;
    let (input, input_latex) = texts(e, tab)?;
    let (derivative, derivative_latex) = texts(&d, tab)?;
    Ok(Symbolic { input, input_latex, derivative, derivative_latex, integral, integral_latex, integral_symbolic })
}

} // verus!
