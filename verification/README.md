# calcsim_core

A calculus engine for one variable `x`: it parses an expression, differentiates
it, simplifies the result, integrates it symbolically where a rule of its table
matches, and renders expressions as ASCII and as LaTeX.

## Layout

- `src/` — the verified library (Verus).
  - `lexer.rs`, `parser.rs`: text to tokens to an `Expr`, each step with an
    exact contract over spec functions of the grammar.
  - `diff.rs`, `simplify.rs`, `integrate.rs`, `render.rs`: the symbolic
    engine; each function is proved to compute its spec function.
  - `analysis.rs`: the symbolic report of one function (input echo,
    simplified derivative, antiderivative or "numerical only").
  - `numeric.rs`: numbers are the bit patterns of IEEE-754 doubles. Results
    of double arithmetic and number texts are looked up in a `Numerics` table
    filled by the caller; a computation that lacks one returns a `Need`.
  - `readback.rs`: the ASCII text of an expression lexes and parses back
    to the expression (for number texts that are plain literals, and
    outside the left-regrouping of `a + (b + c)` and `a*(b*c)`).
  - `fft.rs`: the integer side of the radix-2 FFT (bit reversal, padded
    length, input order).
  - `text.rs`: string helpers.
  - `laws.rs`: properties across functions (what simplification keeps, that
    a computation only asks for what the tables lack, that answers already
    given never change when the tables grow).
- `app/` — ordinary Rust around the library: double-precision arithmetic and
  number formatting (the `settle` loop that answers each `Need`), numerical
  evaluation, sampling and quadrature, the power-electronics and flight
  simulations, and the JSON entry points.
- `tests/` — tests of the library through its public API.
