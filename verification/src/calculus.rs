//! Laws that tie the engine's operations to what they are for: identities of
//! calculus between derivatives, the linearity of integration, the grouping
//! that the renderings keep, and implicit multiplication in the parser.
use vstd::prelude::*;
use crate::ast::{mk_add, mk_mul, mk_neg, mk_pow, mk_sub, spec_is_constant, Expr};
use crate::diff::derivative;
use crate::integrate::antiderivative;
use crate::lexer::TokV;
use crate::numeric::{Need, Tables};
use crate::parser::{p_mul_rest, tok_at};
use crate::render::{ascii_text, base_bracketed, latex_parened, latex_text, parened, spec_prec};

verus! {

/// `acos(u) + asin(u)` is constant, so the derivative of `acos(u)` is the
/// negated derivative of `asin(u)`, for every `u`.
pub proof fn law_acos_derivative_negates_asin(u: Expr)
    ensures
        derivative(Expr::Acos(Box::new(u))) == mk_neg(derivative(Expr::Asin(Box::new(u)))),
{
}

/// Differentiation is linear: the derivative of a sum, a difference and a
/// negation is the sum, difference and negation of the derivatives.
pub proof fn law_derivative_is_linear(a: Expr, b: Expr)
    ensures
        derivative(mk_add(a, b)) == mk_add(derivative(a), derivative(b)),
        derivative(mk_sub(a, b)) == mk_sub(derivative(a), derivative(b)),
        derivative(mk_neg(a)) == mk_neg(derivative(a)),
{
}

/// Integration is linear: where the rule table integrates `u` and `v`, it
/// integrates their negation, sum, difference and constant multiples to the
/// negation, sum, difference and constant multiples of their antiderivatives.
pub proof fn law_integration_is_linear(u: Expr, v: Expr, c: Expr, fu: Expr, fv: Expr, t: Tables)
    requires
        antiderivative(u, t) == Ok::<Option<Expr>, Need>(Some(fu)),
        antiderivative(v, t) == Ok::<Option<Expr>, Need>(Some(fv)),
        spec_is_constant(c),
        !spec_is_constant(u),
    ensures
        antiderivative(mk_neg(u), t) == Ok::<Option<Expr>, Need>(Some(mk_neg(fu))),
        antiderivative(mk_add(u, v), t) == Ok::<Option<Expr>, Need>(Some(mk_add(fu, fv))),
        antiderivative(mk_sub(u, v), t) == Ok::<Option<Expr>, Need>(Some(mk_sub(fu, fv))),
        antiderivative(mk_mul(c, u), t) == Ok::<Option<Expr>, Need>(Some(mk_mul(c, fu))),
        antiderivative(mk_mul(u, c), t) == Ok::<Option<Expr>, Need>(Some(mk_mul(c, fu))),
{
}

/// Integration has nothing to give for a negation, sum or difference whose
/// parts it cannot integrate.
pub proof fn law_integration_needs_every_part(u: Expr, v: Expr, t: Tables)
    requires
        antiderivative(u, t) == Ok::<Option<Expr>, Need>(None),
    ensures
        antiderivative(mk_neg(u), t) == Ok::<Option<Expr>, Need>(None),
        antiderivative(mk_add(u, v), t) == Ok::<Option<Expr>, Need>(None),
        antiderivative(mk_sub(u, v), t) == Ok::<Option<Expr>, Need>(None),
{
}

#[verifier::rlimit(40)]
proof fn lemma_grouping_latex(a: Expr, b: Expr, c: Expr, t: Tables)
    requires
        !(b is Add),
        !(b is Sub),
    ensures
        latex_text(mk_sub(a, mk_add(b, c)), t) is Ok ==> latex_text(mk_sub(a, mk_add(b, c)), t) != latex_text(
            mk_add(mk_sub(a, b), c),
            t,
        ),
        latex_text(mk_sub(a, mk_sub(b, c)), t) is Ok ==> latex_text(mk_sub(a, mk_sub(b, c)), t) != latex_text(
            mk_sub(mk_sub(a, b), c),
            t,
        ),
{
    reveal_strlit("\\left(");
    reveal_strlit("\\right)");
    reveal_strlit(" - ");
    reveal_strlit(" + ");
    if let (Ok(x), Ok(y), Ok(z)) = (latex_text(a, t), latex_text(b, t), latex_text(c, t)) {
        let l1 = x + " - "@ + ("\\left("@ + (y + " + "@ + z) + "\\right)"@);
        let l2 = (x + " - "@ + y) + " + "@ + z;
        assert(latex_text(mk_add(b, c), t) == Ok::<Seq<char>, Need>(y + " + "@ + z));
        assert(latex_text(mk_sub(a, mk_add(b, c)), t) == Ok::<Seq<char>, Need>(l1));
        assert(latex_text(mk_sub(a, b), t) == Ok::<Seq<char>, Need>(x + " - "@ + y));
        assert(latex_text(mk_add(mk_sub(a, b), c), t) == Ok::<Seq<char>, Need>(l2));
        assert(l1.len() != l2.len());
        let m1 = x + " - "@ + ("\\left("@ + (y + " - "@ + latex_parened(z, spec_prec(c) <= 1)) + "\\right)"@);
        let m2 = (x + " - "@ + y) + " - "@ + latex_parened(z, spec_prec(c) <= 1);
        assert(latex_text(mk_sub(b, c), t) == Ok::<Seq<char>, Need>(y + " - "@ + latex_parened(z, spec_prec(c) <= 1)));
        assert(latex_text(mk_sub(a, mk_sub(b, c)), t) == Ok::<Seq<char>, Need>(m1));
        assert(latex_text(mk_sub(mk_sub(a, b), c), t) == Ok::<Seq<char>, Need>(m2));
        assert(m1.len() != m2.len());
    }
}

#[verifier::rlimit(40)]
proof fn lemma_grouping_ascii(a: Expr, b: Expr, c: Expr, t: Tables)
    requires
        !(b is Add),
        !(b is Sub),
    ensures
        ascii_text(mk_sub(a, mk_add(b, c)), t) is Ok ==> ascii_text(mk_sub(a, mk_add(b, c)), t) != ascii_text(
            mk_add(mk_sub(a, b), c),
            t,
        ),
        ascii_text(mk_sub(a, mk_sub(b, c)), t) is Ok ==> ascii_text(mk_sub(a, mk_sub(b, c)), t) != ascii_text(
            mk_sub(mk_sub(a, b), c),
            t,
        ),
{
    reveal_strlit("(");
    reveal_strlit(")");
    reveal_strlit(" - ");
    reveal_strlit(" + ");
    if let (Ok(x), Ok(y), Ok(z)) = (ascii_text(a, t), ascii_text(b, t), ascii_text(c, t)) {
        let l1 = x + " - "@ + ("("@ + (y + " + "@ + z) + ")"@);
        let l2 = (x + " - "@ + y) + " + "@ + z;
        assert(ascii_text(mk_add(b, c), t) == Ok::<Seq<char>, Need>(y + " + "@ + z));
        assert(ascii_text(mk_sub(a, mk_add(b, c)), t) == Ok::<Seq<char>, Need>(l1));
        assert(ascii_text(mk_sub(a, b), t) == Ok::<Seq<char>, Need>(x + " - "@ + y));
        assert(ascii_text(mk_add(mk_sub(a, b), c), t) == Ok::<Seq<char>, Need>(l2));
        assert(l1.len() != l2.len());
        let m1 = x + " - "@ + ("("@ + (y + " - "@ + parened(z, spec_prec(c) <= 1)) + ")"@);
        let m2 = (x + " - "@ + y) + " - "@ + parened(z, spec_prec(c) <= 1);
        assert(ascii_text(mk_sub(b, c), t) == Ok::<Seq<char>, Need>(y + " - "@ + parened(z, spec_prec(c) <= 1)));
        assert(ascii_text(mk_sub(a, mk_sub(b, c)), t) == Ok::<Seq<char>, Need>(m1));
        assert(ascii_text(mk_sub(mk_sub(a, b), c), t) == Ok::<Seq<char>, Need>(m2));
        assert(m1.len() != m2.len());
    }
}

/// `a - (b + c)` and `(a - b) + c` (and likewise `a - (b - c)` and
/// `(a - b) - c`) never render to the same text, in ASCII or in LaTeX, for
/// any `a`, `c` and any `b` that is not itself a sum or difference: the right
/// operand of a difference is bracketed when it is a sum or a difference.
pub proof fn law_difference_keeps_its_grouping(a: Expr, b: Expr, c: Expr, t: Tables)
    requires
        !(b is Add),
        !(b is Sub),
    ensures
        latex_text(mk_sub(a, mk_add(b, c)), t) is Ok ==> latex_text(mk_sub(a, mk_add(b, c)), t) != latex_text(
            mk_add(mk_sub(a, b), c),
            t,
        ),
        latex_text(mk_sub(a, mk_sub(b, c)), t) is Ok ==> latex_text(mk_sub(a, mk_sub(b, c)), t) != latex_text(
            mk_sub(mk_sub(a, b), c),
            t,
        ),
        ascii_text(mk_sub(a, mk_add(b, c)), t) is Ok ==> ascii_text(mk_sub(a, mk_add(b, c)), t) != ascii_text(
            mk_add(mk_sub(a, b), c),
            t,
        ),
        ascii_text(mk_sub(a, mk_sub(b, c)), t) is Ok ==> ascii_text(mk_sub(a, mk_sub(b, c)), t) != ascii_text(
            mk_sub(mk_sub(a, b), c),
            t,
        ),
{
    lemma_grouping_latex(a, b, c, t);
    lemma_grouping_ascii(a, b, c, t);
}

#[verifier::rlimit(40)]
proof fn lemma_negation_grouping(a: Expr, b: Expr, t: Tables)
    requires
        spec_prec(a) > 3,
    ensures
        latex_text(mk_neg(mk_add(a, b)), t) is Ok ==> latex_text(mk_neg(mk_add(a, b)), t) != latex_text(
            mk_add(mk_neg(a), b),
            t,
        ),
        ascii_text(mk_neg(mk_add(a, b)), t) is Ok ==> ascii_text(mk_neg(mk_add(a, b)), t) != ascii_text(
            mk_add(mk_neg(a), b),
            t,
        ),
{
    reveal_strlit("\\left(");
    reveal_strlit("\\right)");
    reveal_strlit("(");
    reveal_strlit(")");
    reveal_strlit("-");
    reveal_strlit(" + ");
    if let (Ok(x), Ok(y)) = (latex_text(a, t), latex_text(b, t)) {
        let l1 = "-"@ + ("\\left("@ + (x + " + "@ + y) + "\\right)"@);
        let l2 = ("-"@ + x) + " + "@ + y;
        assert(latex_text(mk_add(a, b), t) == Ok::<Seq<char>, Need>(x + " + "@ + y));
        assert(latex_text(mk_neg(mk_add(a, b)), t) == Ok::<Seq<char>, Need>(l1));
        assert(latex_text(mk_neg(a), t) == Ok::<Seq<char>, Need>("-"@ + x));
        assert(latex_text(mk_add(mk_neg(a), b), t) == Ok::<Seq<char>, Need>(l2));
        assert(l1.len() != l2.len());
    }
    if let (Ok(x), Ok(y)) = (ascii_text(a, t), ascii_text(b, t)) {
        let l1 = "-"@ + ("("@ + (x + " + "@ + y) + ")"@);
        let l2 = ("-"@ + x) + " + "@ + y;
        assert(ascii_text(mk_add(a, b), t) == Ok::<Seq<char>, Need>(x + " + "@ + y));
        assert(ascii_text(mk_neg(mk_add(a, b)), t) == Ok::<Seq<char>, Need>(l1));
        assert(ascii_text(mk_neg(a), t) == Ok::<Seq<char>, Need>("-"@ + x));
        assert(ascii_text(mk_add(mk_neg(a), b), t) == Ok::<Seq<char>, Need>(l2));
        assert(l1.len() != l2.len());
    }
}

#[verifier::rlimit(40)]
proof fn lemma_power_grouping(a: Expr, b: Expr, c: Expr, t: Tables)
    requires
        !base_bracketed(b),
    ensures
        latex_text(mk_pow(mk_add(a, b), c), t) is Ok ==> latex_text(mk_pow(mk_add(a, b), c), t) != latex_text(
            mk_add(a, mk_pow(b, c)),
            t,
        ),
        ascii_text(mk_pow(mk_add(a, b), c), t) is Ok ==> ascii_text(mk_pow(mk_add(a, b), c), t) != ascii_text(
            mk_add(a, mk_pow(b, c)),
            t,
        ),
{
    reveal_strlit("\\left(");
    reveal_strlit("\\right)");
    reveal_strlit("(");
    reveal_strlit(")");
    reveal_strlit("^{");
    reveal_strlit("}");
    reveal_strlit("^");
    reveal_strlit(" + ");
    if let (Ok(x), Ok(y), Ok(z)) = (latex_text(a, t), latex_text(b, t), latex_text(c, t)) {
        let l1 = ("\\left("@ + (x + " + "@ + y) + "\\right)"@) + "^{"@ + z + "}"@;
        let l2 = x + " + "@ + (y + "^{"@ + z + "}"@);
        assert(latex_text(mk_add(a, b), t) == Ok::<Seq<char>, Need>(x + " + "@ + y));
        assert(latex_text(mk_pow(mk_add(a, b), c), t) == Ok::<Seq<char>, Need>(l1));
        assert(latex_text(mk_pow(b, c), t) == Ok::<Seq<char>, Need>(y + "^{"@ + z + "}"@));
        assert(latex_text(mk_add(a, mk_pow(b, c)), t) == Ok::<Seq<char>, Need>(l2));
        assert(l1.len() != l2.len());
    }
    if let (Ok(x), Ok(y), Ok(z)) = (ascii_text(a, t), ascii_text(b, t), ascii_text(c, t)) {
        let pz = parened(z, spec_prec(c) <= 4);
        let l1 = ("("@ + (x + " + "@ + y) + ")"@) + "^"@ + pz;
        let l2 = x + " + "@ + (y + "^"@ + pz);
        assert(ascii_text(mk_add(a, b), t) == Ok::<Seq<char>, Need>(x + " + "@ + y));
        assert(ascii_text(mk_pow(mk_add(a, b), c), t) == Ok::<Seq<char>, Need>(l1));
        assert(ascii_text(mk_pow(b, c), t) == Ok::<Seq<char>, Need>(y + "^"@ + pz));
        assert(ascii_text(mk_add(a, mk_pow(b, c)), t) == Ok::<Seq<char>, Need>(l2));
        assert(l1.len() != l2.len());
    }
}

/// A negated sum and a sum with a negated first term, and the power of a
/// sum and a sum ending in a power, never render to the same text, in ASCII
/// or in LaTeX: a sum under a sign or as the base of a power is bracketed.
/// (For `a` that binds at least as tightly as a power, and `b` that is no
/// bracketed base itself.)
pub proof fn law_sign_and_power_keep_their_grouping(a: Expr, b: Expr, c: Expr, t: Tables)
    requires
        spec_prec(a) > 3,
        !base_bracketed(b),
    ensures
        latex_text(mk_neg(mk_add(a, b)), t) is Ok ==> latex_text(mk_neg(mk_add(a, b)), t) != latex_text(
            mk_add(mk_neg(a), b),
            t,
        ),
        ascii_text(mk_neg(mk_add(a, b)), t) is Ok ==> ascii_text(mk_neg(mk_add(a, b)), t) != ascii_text(
            mk_add(mk_neg(a), b),
            t,
        ),
        latex_text(mk_pow(mk_add(a, b), c), t) is Ok ==> latex_text(mk_pow(mk_add(a, b), c), t) != latex_text(
            mk_add(a, mk_pow(b, c)),
            t,
        ),
        ascii_text(mk_pow(mk_add(a, b), c), t) is Ok ==> ascii_text(mk_pow(mk_add(a, b), c), t) != ascii_text(
            mk_add(a, mk_pow(b, c)),
            t,
        ),
{
    lemma_negation_grouping(a, b, t);
    lemma_power_grouping(a, b, c, t);
}

/// Implicit multiplication is multiplication: a term written right after a
/// product continues it exactly as it would after a `*`. Continuing a
/// product from a `*` at `p`, or from the term that follows it at `p + 1`,
/// gives the same parse.
pub proof fn law_implicit_product_is_product(ts: Seq<TokV>, vs: Seq<u64>, p: int, lhs: Expr)
    requires
        0 <= p,
        tok_at(ts, p) == Some(TokV::Star),
        tok_at(ts, p + 1) matches Some(t) && (t is Num || t is Ident || t is LParen),
    ensures
        p_mul_rest(ts, vs, p, lhs) == p_mul_rest(ts, vs, p + 1, lhs),
{
}

} // verus!
