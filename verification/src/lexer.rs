//! Lexer: turns an input string into tokens. Number literals are kept as
//! text, listed in the order they occur; a number token names its literal by
//! that position.
use vstd::prelude::*;
use crate::text::{is_ascii_digit, is_ascii_letter, push_char};

verus! {

/// Whether `c` is alphabetic (`char::is_alphabetic`, Unicode `Alphabetic`).
pub uninterp spec fn char_alphabetic(c: char) -> bool;

/// Whether `c` is alphanumeric (`char::is_alphanumeric`, Unicode
/// `Alphabetic` or `Numeric`).
pub uninterp spec fn char_alphanumeric(c: char) -> bool;

/// Whether `c` is alphabetic: among ASCII characters exactly the letters
/// `a..z` and `A..Z` have the Unicode `Alphabetic` property; beyond ASCII the
/// Unicode tables decide.
pub open spec fn alphabetic(c: char) -> bool {
    if c <= '\x7f' {
        is_ascii_letter(c)
    } else {
        char_alphabetic(c)
    }
}

/// Whether `c` is alphanumeric: among ASCII characters exactly the letters
/// and the digits `0..9` (the only ASCII characters of the Unicode numeric
/// categories); beyond ASCII the Unicode tables decide.
pub open spec fn alphanumeric(c: char) -> bool {
    if c <= '\x7f' {
        is_ascii_letter(c) || is_ascii_digit(c)
    } else {
        char_alphanumeric(c)
    }
}

/// `char::is_alphabetic`: true of a character with the Unicode `Alphabetic`
/// property, which among ASCII characters are the letters alone. Its
/// documentation defines `is_alphanumeric` as `is_alphabetic ||
/// is_numeric`, so an alphabetic character is alphanumeric. What the Unicode
/// tables say of each character beyond ASCII is left to the name
/// `char_alphabetic`.
#[verifier::external_body]
pub(crate) fn is_alphabetic(c: char) -> (r: bool)
    ensures
        c <= '\x7f' ==> r == is_ascii_letter(c),
        c > '\x7f' ==> r == char_alphabetic(c),
        r ==> alphanumeric(c),
{
    c.is_alphabetic()
}

/// `char::is_alphanumeric`: alphabetic or numeric (Unicode `Nd`, `Nl`,
/// `No`), which among ASCII characters are the letters and the digits. What
/// the Unicode tables say beyond ASCII is left to the name
/// `char_alphanumeric`.
#[verifier::external_body]
pub(crate) fn is_alphanumeric(c: char) -> (r: bool)
    ensures
        c <= '\x7f' ==> r == (is_ascii_letter(c) || is_ascii_digit(c)),
        c > '\x7f' ==> r == char_alphanumeric(c),
{
    c.is_alphanumeric()
}

/// A token.
#[derive(Debug)]
pub enum Tok {
    /// The number literal with this position in the list of literals.
    Num(usize),
    Ident(String),
    Plus,
    Minus,
    Star,
    Slash,
    Caret,
    LParen,
    RParen,
    Comma,
}

/// A token as a plain value.
pub enum TokV {
    Num(usize),
    Ident(Seq<char>),
    Plus,
    Minus,
    Star,
    Slash,
    Caret,
    LParen,
    RParen,
    Comma,
}

impl View for Tok {
    type V = TokV;

    open spec fn view(&self) -> TokV {
        match self {
            Tok::Num(k) => TokV::Num(*k),
            Tok::Ident(s) => TokV::Ident(s@),
            Tok::Plus => TokV::Plus,
            Tok::Minus => TokV::Minus,
            Tok::Star => TokV::Star,
            Tok::Slash => TokV::Slash,
            Tok::Caret => TokV::Caret,
            Tok::LParen => TokV::LParen,
            Tok::RParen => TokV::RParen,
            Tok::Comma => TokV::Comma,
        }
    }
}

/// Tokens as plain values.
pub open spec fn toks_view(s: Seq<Tok>) -> Seq<TokV> {
    s.map_values(|t: Tok| t@)
}

/// Strings as character sequences.
pub open spec fn strs_view(s: Seq<String>) -> Seq<Seq<char>> {
    s.map_values(|t: String| t@)
}

/// Characters that separate tokens.
pub open spec fn is_space(c: char) -> bool {
    c == ' ' || c == '\t' || c == '\n' || c == '\r'
}

/// The token that a one-character operator or bracket stands for.
pub open spec fn symbol_tok(c: char) -> Option<TokV> {
    if c == '+' {
        Some(TokV::Plus)
    } else if c == '-' {
        Some(TokV::Minus)
    } else if c == '*' {
        Some(TokV::Star)
    } else if c == '/' {
        Some(TokV::Slash)
    } else if c == '^' {
        Some(TokV::Caret)
    } else if c == '(' {
        Some(TokV::LParen)
    } else if c == ')' {
        Some(TokV::RParen)
    } else if c == ',' {
        Some(TokV::Comma)
    } else {
        None
    }
}

pub open spec fn is_digit(c: char) -> bool {
    '0' <= c && c <= '9'
}

/// Characters of a number literal.
pub open spec fn is_number_char(c: char) -> bool {
    is_digit(c) || c == '.'
}

/// End of the run of number characters that starts at `i`.
pub open spec fn number_end(cs: Seq<char>, i: int) -> int
    decreases cs.len() - i,
{
    if 0 <= i < cs.len() && is_number_char(cs[i]) {
        number_end(cs, i + 1)
    } else {
        i
    }
}

/// End of the run of alphanumeric characters that starts at `i`.
pub open spec fn ident_end(cs: Seq<char>, i: int) -> int
    decreases cs.len() - i,
{
    if 0 <= i < cs.len() && alphanumeric(cs[i]) {
        ident_end(cs, i + 1)
    } else {
        i
    }
}

/// Number of `.` in `s`.
pub open spec fn dot_count(s: Seq<char>) -> nat
    decreases s.len(),
{
    if s.len() == 0 {
        0
    } else {
        dot_count(s.drop_last()) + if s.last() == '.' { 1nat } else { 0nat }
    }
}

/// Whether `s` holds a decimal digit.
pub open spec fn has_digit(s: Seq<char>) -> bool {
    exists|i: int| 0 <= i < s.len() && is_digit(#[trigger] s[i])
}

/// Whether a run of digits and dots is a decimal literal: at least one digit
/// and at most one dot (`1`, `1.`, `.5`, `2.25`; not `.` or `1.2.3`).
pub open spec fn valid_number(s: Seq<char>) -> bool {
    has_digit(s) && dot_count(s) <= 1
}

pub open spec fn unexpected_char_msg(c: char) -> Seq<char> {
    "unexpected character '"@ + seq![c] + "'"@
}

pub open spec fn invalid_number_msg(lit: Seq<char>) -> Seq<char> {
    "invalid number '"@ + lit + "'"@
}

/// Tokens and literals scanned so far, put in front of the rest of a scan.
pub open spec fn prepend(
    ts: Seq<TokV>,
    ls: Seq<Seq<char>>,
    rest: Result<(Seq<TokV>, Seq<Seq<char>>), Seq<char>>,
) -> Result<(Seq<TokV>, Seq<Seq<char>>), Seq<char>> {
    match rest {
        Ok((t2, l2)) => Ok((ts + t2, ls + l2)),
        Err(m) => Err(m),
    }
}

/// The tokens and number literals of `cs` from position `i` on, where `k`
/// literals came before `i`; or the message of the first lexical error.
pub open spec fn scan(cs: Seq<char>, i: int, k: nat) -> Result<(Seq<TokV>, Seq<Seq<char>>), Seq<char>>
    decreases cs.len() - i,
{
    if i < 0 || i >= cs.len() {
        Ok((seq![], seq![]))
    } else {
        let c = cs[i];
        if is_space(c) {
            scan(cs, i + 1, k)
        } else if symbol_tok(c) is Some {
            prepend(seq![symbol_tok(c).unwrap()], seq![], scan(cs, i + 1, k))
        } else if is_number_char(c) {
            proof {
                lemma_number_end_bounds(cs, i + 1);
            }
            let j = number_end(cs, i + 1);
            let lit = cs.subrange(i, j);
            if valid_number(lit) {
                prepend(seq![TokV::Num(k as usize)], seq![lit], scan(cs, j, k + 1))
            } else {
                Err(invalid_number_msg(lit))
            }
        } else if alphabetic(c) {
            proof {
                lemma_ident_end_bounds(cs, i + 1);
            }
            let j = ident_end(cs, i + 1);
            prepend(seq![TokV::Ident(cs.subrange(i, j))], seq![], scan(cs, j, k))
        } else {
            Err(unexpected_char_msg(c))
        }
    }
}

/// The tokens and number literals of an input, or its first lexical error.
pub open spec fn tokens_of(cs: Seq<char>) -> Result<(Seq<TokV>, Seq<Seq<char>>), Seq<char>> {
    scan(cs, 0, 0)
}

pub proof fn lemma_number_end_bounds(cs: Seq<char>, i: int)
    requires
        0 <= i <= cs.len(),
    ensures
        i <= number_end(cs, i) <= cs.len(),
        forall|j: int| i <= j < number_end(cs, i) ==> is_number_char(#[trigger] cs[j]),
    decreases cs.len() - i,
{
    if i < cs.len() && is_number_char(cs[i]) {
        lemma_number_end_bounds(cs, i + 1);
    }
}

pub proof fn lemma_ident_end_bounds(cs: Seq<char>, i: int)
    requires
        0 <= i <= cs.len(),
    ensures
        i <= ident_end(cs, i) <= cs.len(),
    decreases cs.len() - i,
{
    if i < cs.len() && alphanumeric(cs[i]) {
        lemma_ident_end_bounds(cs, i + 1);
    }
}

pub proof fn lemma_prepend_assoc(
    a: Seq<TokV>,
    la: Seq<Seq<char>>,
    b: Seq<TokV>,
    lb: Seq<Seq<char>>,
    r: Result<(Seq<TokV>, Seq<Seq<char>>), Seq<char>>,
)
    ensures
        prepend(a, la, prepend(b, lb, r)) == prepend(a + b, la + lb, r),
{
    match r {
        Ok((t2, l2)) => {
            assert(a + (b + t2) =~= (a + b) + t2);
            assert(la + (lb + l2) =~= (la + lb) + l2);
        },
        Err(_) => {},
    }
}

/// Scanning state: the characters of the input and the current position.
pub struct Lexer {
    pub chars: Vec<char>,
    pub pos: usize,
}

impl Lexer {
    /// A lexer at the start of `src`.
    pub fn new(src: &str) -> (r: Lexer)
        ensures
            r.chars@ == src@,
            r.pos == 0,
    {
        broadcast use vstd::string::group_string_axioms;

        let mut chars: Vec<char> = Vec::new();
        for c in it: src.chars()
            invariant
                chars@ == it.seq().take(it.index() as int),
        {
            chars.push(c);
        }
        Lexer { chars, pos: 0 }
    }

    /// The character at the current position, if any.
    pub fn peek(&self) -> (r: Option<char>)
        ensures
            r == if self.pos < self.chars@.len() {
                Some(self.chars@[self.pos as int])
            } else {
                None::<char>
            },
    {
        if self.pos < self.chars.len() {
            Some(self.chars[self.pos])
        } else {
            None
        }
    }

    /// The character at the current position, moving past it.
    pub fn bump(&mut self) -> (r: Option<char>)
        ensures
            final(self).chars@ == old(self).chars@,
            r == if old(self).pos < old(self).chars@.len() {
                Some(old(self).chars@[old(self).pos as int])
            } else {
                None::<char>
            },
            final(self).pos == if old(self).pos < old(self).chars@.len() {
                (old(self).pos + 1) as usize
            } else {
                old(self).pos
            },
    {
        let c = self.peek();
        if c.is_some() {
            assert(self.pos < self.chars.len());
            self.pos = self.pos + 1;
        }
        c
    }

    /// The run of digits and dots at the current position, if it is a
    /// decimal literal; the lexer moves past the run either way.
    pub fn lex_number(&mut self) -> (r: Result<String, String>)
        requires
            old(self).pos <= old(self).chars@.len(),
        ensures
            final(self).chars@ == old(self).chars@,
            final(self).pos == number_end(old(self).chars@, old(self).pos as int),
            match r {
                Ok(lit) => valid_number(lit@) && lit@ == old(self).chars@.subrange(
                    old(self).pos as int,
                    final(self).pos as int,
                ),
                Err(m) => m@ == invalid_number_msg(
                    old(self).chars@.subrange(old(self).pos as int, final(self).pos as int),
                ) && !valid_number(old(self).chars@.subrange(old(self).pos as int, final(self).pos as int)),
            },
    {
        let ghost cs = self.chars@;
        let ghost start = self.pos as int;
        let mut text = String::new();
        let mut dots: usize = 0;
        let mut digit = false;
        proof {
            lemma_number_end_bounds(cs, start);
            assert(cs.subrange(start, start) =~= Seq::<char>::empty());
        }
        while self.pos < self.chars.len() && (('0' <= self.chars[self.pos] && self.chars[self.pos] <= '9')
            || self.chars[self.pos] == '.')
            invariant
                self.chars@ == cs,
                0 <= start <= self.pos <= cs.len(),
                number_end(cs, start) == number_end(cs, self.pos as int),
                text@ == cs.subrange(start, self.pos as int),
                dots == dot_count(text@),
                dots <= self.pos,
                digit == has_digit(text@),
            decreases self.chars@.len() - self.pos,
        {
            let c = self.chars[self.pos];
            proof {
                let t2 = text@.push(c);
                assert(t2.drop_last() =~= text@);
                if has_digit(t2) && !is_digit(c) {
                    let w = choose|i: int| 0 <= i < t2.len() && is_digit(#[trigger] t2[i]);
                    assert(text@[w] == t2[w]);
                }
                if is_digit(c) {
                    assert(t2[t2.len() - 1] == c);
                }
                if has_digit(text@) {
                    let w = choose|i: int| 0 <= i < text@.len() && is_digit(#[trigger] text@[i]);
                    assert(t2[w] == text@[w]);
                }
                assert(cs.subrange(start, self.pos + 1) =~= text@.push(c));
            }
            push_char(&mut text, c);
            if c == '.' {
                dots = dots + 1;
            } else {
                digit = true;
            }
            self.pos = self.pos + 1;
        }
        if digit && dots <= 1 {
            Ok(text)
        } else {
            let mut m = String::from_str("invalid number '");
            m.append(text.as_str());
            m.append("'");
            Err(m)
        }
    }

    /// The run of alphanumeric characters at the current position; the
    /// lexer moves past it.
    pub fn lex_ident(&mut self) -> (r: String)
        requires
            old(self).pos <= old(self).chars@.len(),
        ensures
            final(self).chars@ == old(self).chars@,
            final(self).pos == ident_end(old(self).chars@, old(self).pos as int),
            r@ == old(self).chars@.subrange(old(self).pos as int, final(self).pos as int),
    {
        let ghost cs = self.chars@;
        let ghost start = self.pos as int;
        let mut text = String::new();
        proof {
            assert(cs.subrange(start, start) =~= Seq::<char>::empty());
        }
        while self.pos < self.chars.len() && is_alphanumeric(self.chars[self.pos])
            invariant
                self.chars@ == cs,
                0 <= start <= self.pos <= cs.len(),
                ident_end(cs, start) == ident_end(cs, self.pos as int),
                text@ == cs.subrange(start, self.pos as int),
            decreases self.chars@.len() - self.pos,
        {
            let c = self.chars[self.pos];
            proof {
                assert(self.pos < cs.len());
                assert(c == cs[self.pos as int]);
                assert(cs.subrange(start, self.pos + 1) =~= text@.push(c));
            }
            push_char(&mut text, c);
            self.pos = self.pos + 1;
        }
        text
    }

    /// All tokens from the current position on, with the number literals in
    /// the order they occur; or the message of the first lexical error.
    pub fn tokenize(self) -> (r: Result<(Vec<Tok>, Vec<String>), String>)
        requires
            self.pos <= self.chars@.len(),
        ensures
            match r {
                Ok((toks, lits)) => scan(self.chars@, self.pos as int, 0) == Ok::<
                    (Seq<TokV>, Seq<Seq<char>>),
                    Seq<char>,
                >((toks_view(toks@), strs_view(lits@))),
                Err(m) => scan(self.chars@, self.pos as int, 0) == Err::<
                    (Seq<TokV>, Seq<Seq<char>>),
                    Seq<char>,
                >(m@),
            },
            r matches Ok((toks, lits)) ==> forall|i: int|
                0 <= i < toks@.len() ==> (#[trigger] toks@[i] matches Tok::Num(k) ==> k < lits@.len()),
    {
        let mut lx = self;
        let ghost cs = lx.chars@;
        let ghost p0 = lx.pos as int;
        let mut out: Vec<Tok> = Vec::new();
        let mut lits: Vec<String> = Vec::new();
        proof {
            assert(toks_view(out@) =~= Seq::<TokV>::empty());
            assert(strs_view(lits@) =~= Seq::<Seq<char>>::empty());
            assert(scan(cs, p0, 0) == prepend(seq![], seq![], scan(cs, p0, 0))) by {
                match scan(cs, p0, 0) {
                    Ok((t, l)) => {
                        assert(Seq::<TokV>::empty() + t =~= t);
                        assert(Seq::<Seq<char>>::empty() + l =~= l);
                    },
                    Err(_) => {},
                }
            }
        }
        while lx.pos < lx.chars.len()
            invariant
                lx.chars@ == cs,
                cs == self.chars@,
                p0 == self.pos as int,
                lx.pos <= cs.len(),
                forall|i: int| 0 <= i < out@.len() ==> (#[trigger] out@[i] matches Tok::Num(k) ==> k < lits@.len()),
                scan(cs, p0, 0) == prepend(toks_view(out@), strs_view(lits@), scan(cs, lx.pos as int, lits@.len())),
            decreases cs.len() - lx.pos,
        {
            let ghost i = lx.pos as int;
            let ghost k = lits@.len();
            let c = lx.chars[lx.pos];
            if c == ' ' || c == '\t' || c == '\n' || c == '\r' {
                lx.bump();
            } else if c == '+' || c == '-' || c == '*' || c == '/' || c == '^' || c == '(' || c == ')'
                || c == ',' {
                lx.bump();
                let t = if c == '+' {
                    Tok::Plus
                } else if c == '-' {
                    Tok::Minus
                } else if c == '*' {
                    Tok::Star
                } else if c == '/' {
                    Tok::Slash
                } else if c == '^' {
                    Tok::Caret
                } else if c == '(' {
                    Tok::LParen
                } else if c == ')' {
                    Tok::RParen
                } else {
                    Tok::Comma
                };
                proof {
                    assert(t@ == symbol_tok(c).unwrap());
                    lemma_prepend_assoc(toks_view(out@), strs_view(lits@), seq![t@], seq![], scan(cs, i + 1, k));
                    assert(toks_view(out@.push(t)) =~= toks_view(out@) + seq![t@]);
                    assert(strs_view(lits@) + Seq::<Seq<char>>::empty() =~= strs_view(lits@));
                }
                out.push(t);
            } else if ('0' <= c && c <= '9') || c == '.' {
                proof {
                    lemma_number_end_bounds(cs, i + 1);
                }
                let lit = match lx.lex_number() {
                    Ok(lit) => lit,
                    Err(m) => {
                        proof {
                            assert(number_end(cs, i) == number_end(cs, i + 1));
                            assert(scan(cs, i, k) == Err::<(Seq<TokV>, Seq<Seq<char>>), Seq<char>>(m@));
                        }
                        return Err(m);
                    },
                };
                let ghost j = lx.pos as int;
                let t = Tok::Num(lits.len());
                proof {
                    assert(number_end(cs, i) == number_end(cs, i + 1));
                    lemma_number_end_bounds(cs, i);
                    lemma_prepend_assoc(toks_view(out@), strs_view(lits@), seq![t@], seq![lit@], scan(cs, j, k + 1));
                    assert(toks_view(out@.push(t)) =~= toks_view(out@) + seq![t@]);
                    assert(strs_view(lits@.push(lit)) =~= strs_view(lits@) + seq![lit@]);
                }
                out.push(t);
                lits.push(lit);
            } else if is_alphabetic(c) {
                let name = lx.lex_ident();
                let ghost j = lx.pos as int;
                proof {
                    lemma_ident_end_bounds(cs, i + 1);
                    assert(ident_end(cs, i) == ident_end(cs, i + 1));
                }
                let t = Tok::Ident(name);
                proof {
                    lemma_prepend_assoc(toks_view(out@), strs_view(lits@), seq![t@], seq![], scan(cs, j, k));
                    assert(toks_view(out@.push(t)) =~= toks_view(out@) + seq![t@]);
                    assert(strs_view(lits@) + Seq::<Seq<char>>::empty() =~= strs_view(lits@));
                }
                out.push(t);
            } else {
                let mut m = String::from_str("unexpected character '");
                push_char(&mut m, c);
                m.append("'");
                proof {
                    assert(m@ =~= unexpected_char_msg(c));
                    assert(scan(cs, i, k) == Err::<(Seq<TokV>, Seq<Seq<char>>), Seq<char>>(m@));
                }
                return Err(m);
            }
        }
        proof {
            assert(toks_view(out@) + Seq::<TokV>::empty() =~= toks_view(out@));
            assert(strs_view(lits@) + Seq::<Seq<char>>::empty() =~= strs_view(lits@));
        }
        Ok((out, lits))
    }
}

} // verus!
