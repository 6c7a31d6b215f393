//! Integration tests for the calculus engine.

use calcsim_core::ast::{Const, Expr};
use calcsim_core::lexer::{Lexer, Tok};
use calcsim_core::numeric::{FoldOp, Need, Numerics};
use calcsim_core::text::trim_decimal;
use calcsim_core::fft::{bit_reversal_order, bit_reverse, next_pow2};
use calcsim_core::{analysis, diff, integrate, parser, render, simplify};

// The engine holds numbers as the bits of their doubles and asks its caller
// for arithmetic results and number texts; these helpers answer.

fn fold(op: FoldOp, a: u64, b: u64) -> u64 {
    let (a, b) = (f64::from_bits(a), f64::from_bits(b));
    let r = match op {
        FoldOp::Add => a + b,
        FoldOp::Sub => a - b,
        FoldOp::Mul => a * b,
        FoldOp::Div => a / b,
        FoldOp::Pow => a.powf(b),
    };
    r.to_bits()
}

fn format_number(n: f64) -> String {
    if n.is_nan() {
        return "NaN".into();
    }
    if n.is_infinite() {
        return if n > 0.0 { "inf".into() } else { "-inf".into() };
    }
    if n.fract() == 0.0 && n.abs() < 1e15 {
        return format!("{}", n as i64);
    }
    let r = (n * 1e10).round() / 1e10;
    trim_decimal(&format!("{:.10}", r))
}

fn settle<T>(f: impl Fn(&Numerics) -> Result<T, Need>) -> T {
    let mut tab = Numerics::new();
    loop {
        match f(&tab) {
            Ok(v) => return v,
            Err(Need::Fold(op, a, b)) => tab.add_fold(op, a, b, fold(op, a, b)),
            Err(Need::Text(n)) => tab.add_text(n, format_number(f64::from_bits(n))),
        }
    }
}

fn parse(input: &str) -> Result<Expr, String> {
    let (toks, lits) = Lexer::new(input).tokenize()?;
    let numbers: Vec<u64> = lits.iter().map(|l| l.parse::<f64>().unwrap().to_bits()).collect();
    parser::parse_tokens(toks, numbers)
}

fn num(v: f64) -> Expr {
    Expr::num(v.to_bits())
}

fn simp(e: &Expr) -> Expr {
    settle(|t| simplify::simplify(e, t))
}

fn text(e: &Expr) -> String {
    settle(|t| render::to_string(e, t))
}

fn latex(e: &Expr) -> String {
    settle(|t| render::to_latex(e, t))
}

fn derivative_of(input: &str) -> String {
    let e = parse(input).unwrap();
    let d = simp(&diff::diff(&e));
    text(&d)
}

fn integral_of(input: &str) -> Option<String> {
    let e = parse(input).unwrap();
    settle(|t| integrate::integrate_symbolic(&e, t)).map(|i| {
        let i = simp(&i);
        text(&i)
    })
}

#[test]
fn diff_power() {
    assert_eq!(derivative_of("x^3"), "3*x^2");
    assert_eq!(derivative_of("x^2 + x"), "2*x + 1");
}

#[test]
fn diff_trig() {
    assert_eq!(derivative_of("sin(x)"), "cos(x)");
    assert_eq!(derivative_of("cos(x)"), "-sin(x)");
    assert_eq!(derivative_of("tan(x)"), "1/cos(x)^2");
}

#[test]
fn diff_exp_and_log() {
    assert_eq!(derivative_of("exp(x)"), "exp(x)");
    assert_eq!(derivative_of("e^x"), "e^x");
    assert_eq!(derivative_of("ln(x)"), "1/x");
}

#[test]
fn diff_product_and_chain() {
    assert_eq!(derivative_of("sin(x)*cos(x)"), "cos(x)*cos(x) + -sin(x)*sin(x)");
    assert_eq!(derivative_of("sin(x^2)"), "2*x*cos(x^2)");
}

#[test]
fn integral_polynomial() {
    assert_eq!(integral_of("x^2"), Some("x^3/3".to_string()));
    assert_eq!(integral_of("x").unwrap(), "x^2/2");
}

#[test]
fn integral_trig() {
    assert_eq!(integral_of("cos(x)"), Some("sin(x)".to_string()));
    assert_eq!(integral_of("sin(x)"), Some("-cos(x)".to_string()));
}

#[test]
fn integral_unsupported_is_none() {
    assert_eq!(integral_of("sin(x^2)"), None);
}

#[test]
fn parse_implicit_multiplication() {
    assert_eq!(derivative_of("2x^2"), "4*x");
    assert_eq!(derivative_of("3sin(x)"), "3*cos(x)");
}

#[test]
fn latex_basic() {
    let e = parse("x^2 + sin(x)").unwrap();
    let s = latex(&e);
    assert_eq!(s, "x^{2} + \\sin\\left(x\\right)");
}

#[test]
fn bad_input_is_graceful() {
    let a = parse("x + * 3");
    assert!(a.is_err());
    assert_eq!(a.unwrap_err(), "unexpected token: Some(Star)");
}

#[test]
fn constants_derivative_is_zero() {
    assert_eq!(derivative_of("pi"), "0");
    assert_eq!(derivative_of("5"), "0");
}

#[test]
fn power_is_right_associative() {
    let e = parse("2^3^2").unwrap();
    assert_eq!(text(&e), "2^(3^2)");
    match e {
        Expr::Pow(a, b) => {
            assert!(matches!(*a, Expr::Num(n) if n == 2.0f64.to_bits()));
            assert!(matches!(*b, Expr::Pow(_, _)));
        }
        _ => panic!("expected a power"),
    }
    assert_eq!(text(&simp(&parse("2^3^2").unwrap())), "512");
}

#[test]
fn implicit_product_with_parentheses() {
    assert_eq!(text(&parse("x(x+1)").unwrap()), "x*(x + 1)");
    assert_eq!(text(&parse("2 x").unwrap()), "2*x");
}

#[test]
fn log_with_base_is_ratio_of_logs() {
    assert_eq!(text(&parse("log(x, 2)").unwrap()), "ln(x)/ln(2)");
    assert_eq!(text(&parse("log(x)").unwrap()), "log(x)");
    assert_eq!(text(&parse("pow(x, 3)").unwrap()), "x^3");
}

#[test]
fn parse_errors() {
    assert_eq!(parse("").unwrap_err(), "empty expression");
    assert_eq!(parse("   ").unwrap_err(), "empty expression");
    assert_eq!(parse("x $ 2").unwrap_err(), "unexpected character '$'");
    assert_eq!(parse("1.2.3").unwrap_err(), "invalid number '1.2.3'");
    assert_eq!(parse(".").unwrap_err(), "invalid number '.'");
    assert_eq!(parse("(x + 1").unwrap_err(), "expected ')'");
    assert_eq!(parse("x)").unwrap_err(), "unexpected trailing input: RParen");
    assert_eq!(parse("x, 2").unwrap_err(), "unexpected trailing input: Comma");
    assert_eq!(parse("foo(x)").unwrap_err(), "unknown identifier 'foo'");
    assert_eq!(parse("pow(x)").unwrap_err(), "pow() requires two arguments: pow(base, exp)");
    assert_eq!(parse("sin x").unwrap_err(), "expected '(' after function name");
    assert_eq!(parse("x +").unwrap_err(), "unexpected token: None");
}

#[test]
fn number_literals_are_listed_in_order() {
    let (toks, lits) = Lexer::new("1.5x + .25 - 3.").tokenize().unwrap();
    assert_eq!(lits, vec!["1.5".to_string(), ".25".to_string(), "3.".to_string()]);
    assert!(matches!(toks[0], Tok::Num(0)));
    assert!(matches!(toks[3], Tok::Num(1)));
    assert!(matches!(toks[5], Tok::Num(2)));
    assert_eq!(toks.len(), 6);
}

#[test]
fn identifiers_take_alphanumeric_runs() {
    let (toks, _) = Lexer::new("sinh2x").tokenize().unwrap();
    assert_eq!(toks.len(), 1);
    assert!(matches!(&toks[0], Tok::Ident(s) if s == "sinh2x"));
    assert_eq!(parse("sinh2x").unwrap_err(), "unknown identifier 'sinh2x'");
}

#[test]
fn simplify_folds_constants() {
    assert_eq!(text(&simp(&parse("2*3 + 4").unwrap())), "10");
    assert_eq!(text(&simp(&parse("0.1 + 0.2").unwrap())), "0.3");
    assert_eq!(text(&simp(&parse("2*(3*x)").unwrap())), "6*x");
    assert_eq!(text(&simp(&parse("x*(2*x)").unwrap())), "2*x*x");
    assert_eq!(text(&simp(&parse("x*(-x)").unwrap())), "-x*x");
    assert_eq!(text(&simp(&parse("--x").unwrap())), "x");
    assert_eq!(text(&simp(&parse("x^0").unwrap())), "1");
    assert_eq!(text(&simp(&parse("0/x").unwrap())), "0");
    assert_eq!(text(&simp(&parse("2*pi").unwrap())), "6.2831853072");
}

#[test]
fn simplify_needs_the_fold_it_cannot_compute() {
    let e = parse("2 + 3").unwrap();
    let tab = Numerics::new();
    let r = simplify::simplify(&e, &tab);
    assert_eq!(r.unwrap_err(), Need::Fold(FoldOp::Add, 2.0f64.to_bits(), 3.0f64.to_bits()));
    let mut tab = Numerics::new();
    tab.add_fold(FoldOp::Add, 2.0f64.to_bits(), 3.0f64.to_bits(), 7.0f64.to_bits());
    let r = simplify::simplify(&e, &tab).unwrap();
    assert!(matches!(r, Expr::Num(n) if n == 7.0f64.to_bits()));
}

#[test]
fn render_needs_number_texts() {
    let e = num(2.5);
    let tab = Numerics::new();
    assert_eq!(render::to_string(&e, &tab).unwrap_err(), Need::Text(2.5f64.to_bits()));
    let mut tab = Numerics::new();
    tab.add_text(2.5f64.to_bits(), "two and a half".to_string());
    assert_eq!(render::to_string(&e, &tab).unwrap(), "two and a half");
}

#[test]
fn latex_coefficients_and_fractions() {
    assert_eq!(latex(&parse("2x").unwrap()), "2x");
    assert_eq!(latex(&parse("1*x").unwrap()), "x");
    assert_eq!(latex(&parse("-1*x").unwrap()), "-1\\cdot x");
    assert_eq!(latex(&simp(&parse("-1*x").unwrap())), "-x");
    assert_eq!(latex(&parse("pi*x").unwrap()), "\\pi x");
    assert_eq!(latex(&parse("x/(x+1)").unwrap()), "\\frac{x}{x + 1}");
    assert_eq!(latex(&parse("x*(x+1)").unwrap()), "x\\cdot\\left(x + 1\\right)");
    assert_eq!(latex(&parse("exp(x) + sqrt(x) + abs(x)").unwrap()), "e^{x} + \\sqrt{x} + \\left|x\\right|");
}

#[test]
fn ascii_rendering_parenthesises_by_precedence() {
    assert_eq!(text(&parse("x - (x - 1)").unwrap()), "x - (x - 1)");
    assert_eq!(text(&parse("(x + 1)*(x - 1)").unwrap()), "(x + 1)*(x - 1)");
    assert_eq!(text(&parse("x/(2*x)").unwrap()), "x/(2*x)");
    assert_eq!(text(&parse("(x^2)^3").unwrap()), "(x^2)^3");
    assert_eq!(text(&parse("-(x + 1)").unwrap()), "-(x + 1)");
    assert_eq!(text(&Expr::Const(Const::E)), "e");
}

#[test]
fn derivative_rules() {
    assert_eq!(derivative_of("x^x"), "x^x*(ln(x) + x*1/x)");
    assert_eq!(derivative_of("2^x"), "2^x*ln(2)");
    assert_eq!(derivative_of("sqrt(x)"), "1/(2*sqrt(x))");
    assert_eq!(derivative_of("log(x)"), "1/(x*ln(10))");
    assert_eq!(derivative_of("atan(x)"), "1/(1 + x^2)");
    assert_eq!(derivative_of("x/(x+1)"), "(x + 1 - x)/(x + 1)^2");
}

#[test]
fn integral_rules() {
    assert_eq!(integral_of("1/x"), Some("ln(x)".to_string()));
    assert_eq!(integral_of("x^(-1)"), None);
    assert_eq!(integral_of("3/x"), Some("3*ln(x)".to_string()));
    assert_eq!(integral_of("2*cos(x)"), Some("2*sin(x)".to_string()));
    assert_eq!(integral_of("tan(x)"), Some("-ln(cos(x))".to_string()));
    assert_eq!(integral_of("exp(x) - 5"), Some("exp(x) - 5*x".to_string()));
    assert_eq!(integral_of("x*x"), None);
}

#[test]
fn fft_index_helpers() {
    assert_eq!(bit_reverse(1, 3), 4);
    assert_eq!(bit_reverse(6, 3), 3);
    assert_eq!(bit_reverse(0b1011, 4), 0b1101);
    assert_eq!(bit_reverse(bit_reverse(5, 8), 8), 5);
    assert_eq!(next_pow2(0), 1);
    assert_eq!(next_pow2(1), 1);
    assert_eq!(next_pow2(12), 16);
    assert_eq!(next_pow2(16), 16);
    assert_eq!(next_pow2(8193), 16384);
}

#[test]
fn unary_function_names() {
    assert!(calcsim_core::ast::is_unary_fn_name("tanh"));
    assert!(!calcsim_core::ast::is_unary_fn_name("log"));
    assert_eq!(Const::Pi.name(), "pi");
    assert_eq!(Const::E.name(), "e");
}

#[test]
fn analysis_reports_every_text() {
    let e = parse("x^2").unwrap();
    let r = settle(|t| analysis::analyse(&e, t));
    assert_eq!(r.input, "x^2");
    assert_eq!(r.input_latex, "x^{2}");
    assert_eq!(r.derivative, "2*x");
    assert_eq!(r.derivative_latex, "2x");
    assert_eq!(r.integral, "x^3/3");
    assert_eq!(r.integral_latex, "\\frac{x^{3}}{3}");
    assert!(r.integral_symbolic);
}

#[test]
fn analysis_without_a_rule_is_numerical_only() {
    let e = parse("sin(x^2)").unwrap();
    let r = settle(|t| analysis::analyse(&e, t));
    assert_eq!(r.input, "sin(x^2)");
    assert_eq!(r.derivative, "2*x*cos(x^2)");
    assert_eq!(r.integral, "numerical only");
    assert_eq!(r.integral_latex, "\\text{numerical only}");
    assert!(!r.integral_symbolic);
}

#[test]
fn analysis_asks_for_what_it_lacks() {
    let e = parse("x^2").unwrap();
    let r = analysis::analyse(&e, &Numerics::new());
    assert!(r.is_err());
}

#[test]
fn unclosed_call_is_an_error() {
    let e = parse("log(x").unwrap_err();
    assert_eq!(e, "expected ')'");
}

#[test]
fn radix2_input_order() {
    assert_eq!(bit_reversal_order(8).unwrap(), vec![0, 4, 2, 6, 1, 5, 3, 7]);
    assert_eq!(bit_reversal_order(1).unwrap(), vec![0]);
    assert_eq!(bit_reversal_order(2).unwrap(), vec![0, 1]);
    let msg = "radix-2 FFT requires a power-of-two length";
    assert_eq!(bit_reversal_order(6).unwrap_err(), msg);
    assert_eq!(bit_reversal_order(0).unwrap_err(), msg);
    let order = bit_reversal_order(16).unwrap();
    for i in 0..16 {
        assert_eq!(order[order[i]], i);
    }
}

#[test]
fn decimal_texts_lose_trailing_zeros() {
    assert_eq!(trim_decimal("2.5000"), "2.5");
    assert_eq!(trim_decimal("3.0000"), "3");
    assert_eq!(trim_decimal("-0.1250"), "-0.125");
    assert_eq!(trim_decimal("12.34"), "12.34");
    assert_eq!(trim_decimal("inf"), "inf");
    assert_eq!(trim_decimal(""), "");
}

#[test]
fn later_entries_do_not_change_known_answers() {
    let e = parse("2 + 3").unwrap();
    let mut tab = Numerics::new();
    tab.add_fold(FoldOp::Add, 2.0f64.to_bits(), 3.0f64.to_bits(), 5.0f64.to_bits());
    let first = simplify::simplify(&e, &tab).unwrap();
    tab.add_fold(FoldOp::Add, 2.0f64.to_bits(), 3.0f64.to_bits(), 9.0f64.to_bits());
    tab.add_fold(FoldOp::Mul, 4.0f64.to_bits(), 4.0f64.to_bits(), 16.0f64.to_bits());
    let second = simplify::simplify(&e, &tab).unwrap();
    assert!(matches!(first, Expr::Num(n) if n == 5.0f64.to_bits()));
    assert!(matches!(second, Expr::Num(n) if n == 5.0f64.to_bits()));
    let mut texts = Numerics::new();
    texts.add_text(5.0f64.to_bits(), "5".to_string());
    texts.add_text(5.0f64.to_bits(), "five".to_string());
    assert_eq!(render::to_string(&first, &texts).unwrap(), "5");
}

#[test]
fn report_needs_only_missing_entries() {
    let e = parse("x^2").unwrap();
    let mut tab = Numerics::new();
    for _ in 0..100 {
        match analysis::analyse(&e, &tab) {
            Ok(_) => return,
            Err(Need::Fold(op, a, b)) => {
                assert!(tab.fold(op, a, b).is_none());
                tab.add_fold(op, a, b, fold(op, a, b));
            }
            Err(Need::Text(n)) => {
                assert!(tab.text(n).is_err());
                tab.add_text(n, format_number(f64::from_bits(n)));
            }
        }
    }
    panic!("the report never completed");
}

#[test]
fn rejects_non_power_of_two() {
    assert!(bit_reversal_order(12).is_err());
}

#[test]
fn power_bases_are_bracketed_when_needed() {
    let nested = Expr::pow(Expr::pow(num(2.0), num(3.0)), num(2.0));
    assert_eq!(text(&nested), "(2^3)^2");
    let back = parse(&text(&nested)).unwrap();
    assert!(matches!(back, Expr::Pow(ref a, _) if matches!(**a, Expr::Pow(_, _))));
    let negative = Expr::pow(num(-2.0), num(2.0));
    assert_eq!(text(&negative), "(-2)^2");
    let back = parse(&text(&negative)).unwrap();
    assert!(matches!(back, Expr::Pow(ref a, _) if matches!(**a, Expr::Neg(_))));
    assert_eq!(text(&parse("x^2^3").unwrap()), "x^(2^3)");
    assert_eq!(latex(&nested), "\\left(2^{3}\\right)^{2}");
    assert_eq!(latex(&negative), "\\left(-2\\right)^{2}");
}

#[test]
fn latex_coefficients_do_not_run_into_letters() {
    let e = Expr::mul(Expr::Const(Const::Pi), Expr::pow(Expr::var(), num(2.0)));
    assert_eq!(latex(&e), "\\pi x^{2}");
    assert_eq!(latex(&Expr::mul(Expr::Const(Const::E), Expr::var())), "ex");
    assert_eq!(latex(&Expr::mul(num(2.0), Expr::var())), "2x");
    assert_eq!(latex(&Expr::mul(num(3.0), Expr::sin(Expr::var()))), "3\\sin\\left(x\\right)");
    assert_eq!(latex(&Expr::mul(Expr::Const(Const::Pi), Expr::sin(Expr::var()))), "\\pi\\sin\\left(x\\right)");
    assert_eq!(latex(&parse("x*x").unwrap()), "x\\cdot x");
    assert_eq!(latex(&parse("x*sin(x)").unwrap()), "x\\cdot\\sin\\left(x\\right)");
}

#[test]
fn ascii_text_reads_back() {
    let x = || Expr::var();
    let cases = vec![
        Expr::pow(Expr::pow(num(2.0), num(3.0)), num(2.0)),
        Expr::add(Expr::mul(num(3.0), Expr::pow(x(), num(2.0))), Expr::neg(Expr::sin(x()))),
        Expr::sub(x(), Expr::sub(x(), num(1.0))),
        Expr::div(Expr::log(x()), Expr::mul(Expr::Const(Const::Pi), Expr::exp(x()))),
        Expr::pow(x(), Expr::neg(num(0.5))),
        Expr::neg(Expr::neg(Expr::mul(x(), x()))),
        Expr::mul(Expr::div(x(), num(2.0)), Expr::abs(Expr::sqrt(Expr::Const(Const::E)))),
    ];
    for e in cases {
        let t = text(&e);
        let back = parse(&t).unwrap();
        assert_eq!(format!("{:?}", back), format!("{:?}", e), "text {}", t);
    }
}
