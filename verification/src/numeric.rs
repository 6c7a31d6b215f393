//! Numbers of the symbolic engine and the arithmetic results it relies on.
//!
//! A number is the bit pattern of an IEEE-754 double. The facts about such
//! numbers that the engine decides itself (equality, zero, one, negation,
//! magnitude against a threshold) are exact statements on the bits. The
//! results of double-precision arithmetic and of number formatting are not
//! computed here: they are looked up in a [`Numerics`] table that the caller
//! fills, and a computation that meets a result it does not have stops with a
//! [`Need`] naming it.
use vstd::prelude::*;
use crate::ast::Const;

verus! {

/// Sign bit of a double.
pub const SIGN_BIT: u64 = 0x8000_0000_0000_0000u64;
/// Every bit but the sign bit.
pub const MAGNITUDE_MASK: u64 = 0x7fff_ffff_ffff_ffffu64;
/// Exponent field of a double.
pub const EXPONENT_MASK: u64 = 0x7ff0_0000_0000_0000u64;
/// Fraction field of a double.
pub const FRACTION_MASK: u64 = 0x000f_ffff_ffff_ffffu64;
/// `0.0`
pub const ZERO: u64 = 0u64;
/// `1.0`
pub const ONE: u64 = 0x3ff0_0000_0000_0000u64;
/// `2.0`
pub const TWO: u64 = 0x4000_0000_0000_0000u64;
/// `10.0`
pub const TEN: u64 = 0x4024_0000_0000_0000u64;
/// The double nearest to π.
pub const PI_BITS: u64 = 0x4009_21fb_5444_2d18u64;
/// The double nearest to e.
pub const E_BITS: u64 = 0x4005_bf0a_8b14_5769u64;
/// The double nearest to `1e-12`.
pub const TINY: u64 = 0x3d71_9799_812d_ea11u64;

/// Whether the bits denote a NaN.
pub open spec fn is_nan(n: u64) -> bool {
    (n & EXPONENT_MASK) == EXPONENT_MASK && (n & FRACTION_MASK) != 0
}

/// `n == 0.0` on doubles (true of both zeros).
pub open spec fn is_zero(n: u64) -> bool {
    (n & MAGNITUDE_MASK) == 0
}

/// `n == 1.0` on doubles.
pub open spec fn is_one(n: u64) -> bool {
    n == ONE
}

/// `a == b` on doubles: never for a NaN, always for the two zeros.
pub open spec fn float_eq(a: u64, b: u64) -> bool {
    !is_nan(a) && !is_nan(b) && (a == b || (is_zero(a) && is_zero(b)))
}

/// `-n` on doubles: the sign bit flipped.
pub open spec fn negated(n: u64) -> u64 {
    n ^ SIGN_BIT
}

/// `|n| < 1e-12` on doubles (false for a NaN).
pub open spec fn is_tiny(n: u64) -> bool {
    (n & MAGNITUDE_MASK) < TINY
}

/// The value of a named constant.
pub open spec fn const_bits(c: Const) -> u64 {
    match c {
        Const::Pi => PI_BITS,
        Const::E => E_BITS,
    }
}

pub fn float_eq_bits(a: u64, b: u64) -> (r: bool)
    ensures
        r == float_eq(a, b),
{
    let a_nan = (a & EXPONENT_MASK) == EXPONENT_MASK && (a & FRACTION_MASK) != 0;
    let b_nan = (b & EXPONENT_MASK) == EXPONENT_MASK && (b & FRACTION_MASK) != 0;
    !a_nan && !b_nan && (a == b || ((a & MAGNITUDE_MASK) == 0 && (b & MAGNITUDE_MASK) == 0))
}

pub fn is_zero_bits(n: u64) -> (r: bool)
    ensures
        r == is_zero(n),
{
    (n & MAGNITUDE_MASK) == 0
}

pub fn negate_bits(n: u64) -> (r: u64)
    ensures
        r == negated(n),
{
    n ^ SIGN_BIT
}

pub fn is_tiny_bits(n: u64) -> (r: bool)
    ensures
        r == is_tiny(n),
{
    (n & MAGNITUDE_MASK) < TINY
}

pub fn const_value(c: Const) -> (r: u64)
    ensures
        r == const_bits(c),
{
    match c {
        Const::Pi => PI_BITS,
        Const::E => E_BITS,
    }
}

/// A double-precision operation whose result the engine may need.
#[derive(Debug, Clone, Copy, PartialEq, Eq, Structural)]
pub enum FoldOp {
    Add,
    Sub,
    Mul,
    Div,
    /// `a.powf(b)`
    Pow,
}

/// A known result: `op(a, b)` is `r`.
#[derive(Debug, Clone, Copy, PartialEq, Eq, Structural)]
pub struct FoldEntry {
    pub op: FoldOp,
    pub a: u64,
    pub b: u64,
    pub r: u64,
}

/// A known rendering: the number `n` is written as `text`.
#[derive(Debug)]
pub struct NumText {
    pub n: u64,
    pub text: String,
}

/// What a computation needs from outside before it can finish.
#[derive(Debug, Clone, Copy, PartialEq, Eq, Structural)]
pub enum Need {
    /// The double-precision result of `op(a, b)`.
    Fold(FoldOp, u64, u64),
    /// The text of the number with these bits.
    Text(u64),
}

/// The arithmetic results and number texts known so far.
#[derive(Debug)]
pub struct Numerics {
    pub folds: Vec<FoldEntry>,
    pub texts: Vec<NumText>,
}

/// The result that a table of folds gives for `op(a, b)`: its first entry.
pub open spec fn fold_in(s: Seq<FoldEntry>, op: FoldOp, a: u64, b: u64) -> Option<u64>
    decreases s.len(),
{
    if s.len() == 0 {
        None
    } else if s[0].op == op && s[0].a == a && s[0].b == b {
        Some(s[0].r)
    } else {
        fold_in(s.drop_first(), op, a, b)
    }
}

/// The text that a table of texts gives for `n`: its first entry.
pub open spec fn text_in(s: Seq<NumText>, n: u64) -> Option<Seq<char>>
    decreases s.len(),
{
    if s.len() == 0 {
        None
    } else if s[0].n == n {
        Some(s[0].text@)
    } else {
        text_in(s.drop_first(), n)
    }
}

/// The known arithmetic results and number texts, as plain values.
pub struct Tables {
    pub folds: Seq<FoldEntry>,
    pub texts: Seq<NumText>,
}

impl Tables {
    pub open spec fn fold(self, op: FoldOp, a: u64, b: u64) -> Option<u64> {
        fold_in(self.folds, op, a, b)
    }

    pub open spec fn text(self, n: u64) -> Option<Seq<char>> {
        text_in(self.texts, n)
    }
}

impl Numerics {
    pub open spec fn tables(&self) -> Tables {
        Tables { folds: self.folds@, texts: self.texts@ }
    }

    /// An empty table.
    pub fn new() -> (r: Numerics)
        ensures
            r.folds@.len() == 0,
            r.texts@.len() == 0,
    {
        Numerics { folds: Vec::new(), texts: Vec::new() }
    }

    /// Records that `op(a, b)` is `r` (an earlier entry for the same
    /// operation keeps precedence).
    pub fn add_fold(&mut self, op: FoldOp, a: u64, b: u64, r: u64)
        ensures
            final(self).folds@ == old(self).folds@.push(FoldEntry { op, a, b, r }),
            final(self).texts@ == old(self).texts@,
    {
        self.folds.push(FoldEntry { op, a, b, r });
    }

    /// Records that `n` is written as `text` (an earlier entry for the same
    /// number keeps precedence).
    pub fn add_text(&mut self, n: u64, text: String)
        ensures
            final(self).texts@.len() == old(self).texts@.len() + 1,
            final(self).texts@.last().n == n,
            final(self).texts@.last().text@ == text@,
            final(self).texts@.drop_last() == old(self).texts@,
            final(self).folds@ == old(self).folds@,
    {
        self.texts.push(NumText { n, text });
        proof {
            assert(self.texts@.drop_last() =~= old(self).texts@);
        }
    }

    /// The known result of `op(a, b)`.
    pub fn fold(&self, op: FoldOp, a: u64, b: u64) -> (r: Option<u64>)
        ensures
            r == fold_in(self.folds@, op, a, b),
    {
        let mut i: usize = 0;
        proof {
            assert(self.folds@.skip(0) =~= self.folds@);
        }
        while i < self.folds.len()
            invariant
                i <= self.folds@.len(),
                fold_in(self.folds@, op, a, b) == fold_in(self.folds@.skip(i as int), op, a, b),
            decreases self.folds.len() - i,
        {
            let ent = self.folds[i];
            proof {
                assert(self.folds@.skip(i as int).drop_first() =~= self.folds@.skip(i + 1));
            }
            if ent.op == op && ent.a == a && ent.b == b {
                return Some(ent.r);
            }
            i = i + 1;
        }
        None
    }

    /// The known text of `n`, or the need for it.
    pub fn text(&self, n: u64) -> (r: Result<&String, Need>)
        ensures
            match r {
                Ok(s) => text_in(self.texts@, n) == Some(s@),
                Err(k) => text_in(self.texts@, n) is None && k == Need::Text(n),
            },
    {
        let mut i: usize = 0;
        proof {
            assert(self.texts@.skip(0) =~= self.texts@);
        }
        while i < self.texts.len()
            invariant
                i <= self.texts@.len(),
                text_in(self.texts@, n) == text_in(self.texts@.skip(i as int), n),
            decreases self.texts.len() - i,
        {
            proof {
                assert(self.texts@.skip(i as int).drop_first() =~= self.texts@.skip(i + 1));
            }
            if self.texts[i].n == n {
                return Ok(&self.texts[i].text);
            }
            i = i + 1;
        }
        Err(Need::Text(n))
    }

    /// The known result of `op(a, b)`, or the need for it.
    pub fn fold_or_need(&self, op: FoldOp, a: u64, b: u64) -> (r: Result<u64, Need>)
        ensures
            r == fold_result(self.tables(), op, a, b),
    {
        match self.fold(op, a, b) {
            Some(v) => Ok(v),
            None => Err(Need::Fold(op, a, b)),
        }
    }
}

/// The result of `op(a, b)` that the tables give, or the need for it.
pub open spec fn fold_result(t: Tables, op: FoldOp, a: u64, b: u64) -> Result<u64, Need> {
    match t.fold(op, a, b) {
        Some(v) => Ok(v),
        None => Err(Need::Fold(op, a, b)),
    }
}

} // verus!
