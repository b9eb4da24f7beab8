use hiscript::error::{Error, ErrorManager, ErrorMessage};
use hiscript::hiscript::{HiScript, RunResult};
use hiscript::literal::{FloatArith, Literal};
use hiscript::ops::{apply_binary, apply_unary, display, str_less};
use hiscript::token::TokenType;

struct Host;

impl FloatArith for Host {
    fn parse_decimal(&self, text: &str) -> u64 {
        text.parse::<f64>().map(f64::to_bits).unwrap_or(0)
    }
    fn from_int(&self, i: i64) -> u64 {
        (i as f64).to_bits()
    }
    fn arith(&self, op: TokenType, a: u64, b: u64) -> u64 {
        let (x, y) = (f64::from_bits(a), f64::from_bits(b));
        let r = match op {
            TokenType::PLUS => x + y,
            TokenType::MINUS => x - y,
            TokenType::STAR => x * y,
            TokenType::SLASH => x / y,
            _ => x % y,
        };
        r.to_bits()
    }
    fn compare(&self, op: TokenType, a: u64, b: u64) -> bool {
        let (x, y) = (f64::from_bits(a), f64::from_bits(b));
        match op {
            TokenType::BANGEQUAL => x != y,
            TokenType::EQUALEQUAL => x == y,
            TokenType::GREATER => x > y,
            TokenType::GREATEREQUAL => x >= y,
            TokenType::LESS => x < y,
            _ => x <= y,
        }
    }
    fn debug_text(&self, a: u64) -> String {
        format!("{:?}", f64::from_bits(a))
    }
    fn display_text(&self, a: u64) -> String {
        format!("{}", f64::from_bits(a))
    }
}

fn run(src: &str) -> RunResult {
    HiScript::new(Host).execute(&src.to_string())
}

fn value(src: &str) -> Literal {
    let r = run(src);
    assert!(r.errors.errors().is_empty(), "unexpected errors for {}", src);
    r.value.expect("a value")
}

fn int_of(src: &str) -> i64 {
    match value(src) {
        Literal::Int(i) => i,
        _ => panic!("expected an integer for {}", src),
    }
}

fn float_of(src: &str) -> f64 {
    match value(src) {
        Literal::Float(b) => f64::from_bits(b),
        _ => panic!("expected a float for {}", src),
    }
}

fn bool_of(src: &str) -> bool {
    match value(src) {
        Literal::Bool(b) => b,
        _ => panic!("expected a boolean for {}", src),
    }
}

fn runtime_error(src: &str) -> Error {
    let mut r = run(src);
    assert!(r.value.is_none());
    assert_eq!(r.errors.errors().len(), 1);
    assert!(r.errors.has_errors());
    let e = r.errors.errors().iter().next().unwrap();
    let out = Error::new(e.line, e.message.clone(), e.why.clone());
    r.errors.clear_errors();
    out
}

#[test]
fn multiplication_binds_tighter_than_addition() {
    assert_eq!(int_of("1 + 2 * 3"), 7);
    assert_eq!(int_of("(1 + 2) * 3"), 9);
}

#[test]
fn string_concatenation() {
    assert!(matches!(value("\"a\" + \"b\""), Literal::String(s) if s == "ab"));
}

#[test]
fn int_promotes_to_float() {
    assert_eq!(float_of("1 + 1.5"), 2.5);
    assert_eq!(float_of("1.5 * 2"), 3.0);
    assert_eq!(float_of("7.5 % 2"), 1.5);
    assert!(bool_of("1 < 1.5"));
}

#[test]
fn addition_type_error_names_both_operands() {
    let e = runtime_error("\n1 + \"x\"");
    assert_eq!(e.message, "Addition not supported between Int(1) and String(\"x\")");
    assert_eq!(e.line, 2);
    assert_eq!(e.why, "");
}

#[test]
fn type_error_with_float_operand() {
    let e = runtime_error("1.5 << 1");
    assert_eq!(e.message, "Left Shift not supported between Float(1.5) and Int(1)");
}

#[test]
fn type_error_names_bool_and_null() {
    assert_eq!(runtime_error("true - nil").message, "Subtraction not supported between Bool(true) and Null");
    assert_eq!(runtime_error("true == true").message, "Equal to not supported between Bool(true) and Bool(true)");
    assert_eq!(runtime_error("\"a\\b\" * 2").message, "Multiplication not supported between String(\"a\\\\b\") and Int(2)");
}

#[test]
fn ternary_skips_the_untaken_branch() {
    assert_eq!(int_of("true ? 1 : 1 / 0"), 1);
    assert_eq!(int_of("false ? 1 / 0 : 2"), 2);
    assert_eq!(int_of("nil ? 1 : 3"), 3);
    assert_eq!(int_of("0 ? 4 : 5"), 4);
}

#[test]
fn division_by_zero_is_a_runtime_error() {
    assert_eq!(runtime_error("1 / 0").message, "Division by zero");
    assert_eq!(runtime_error("1 % 0").message, "Modulo by zero");
}

#[test]
fn integer_overflow_is_a_runtime_error() {
    assert_eq!(runtime_error("9223372036854775807 + 1").message, "Addition overflow");
    assert_eq!(runtime_error("1 << 64").message, "Left Shift overflow");
    assert_eq!(runtime_error("-9223372036854775807 - 2").message, "Subtraction overflow");
}

#[test]
fn integer_operators() {
    assert_eq!(int_of("7 / 2"), 3);
    assert_eq!(int_of("-7 / 2"), -3);
    assert_eq!(int_of("-7 % 3"), -1);
    assert_eq!(int_of("1 << 3"), 8);
    assert_eq!(int_of("-16 >> 2"), -4);
    assert_eq!(int_of("6 & 3"), 2);
    assert_eq!(int_of("6 | 3"), 7);
    assert_eq!(int_of("6 ^ 3"), 5);
    assert_eq!(int_of("2 + 3 % 2"), 3);
}

#[test]
fn comparisons() {
    assert!(bool_of("2 > 1"));
    assert!(!bool_of("2 >= 3"));
    assert!(bool_of("1 != 2"));
    assert!(bool_of("\"abc\" < \"abd\""));
    assert!(bool_of("\"ab\" < \"abc\""));
    assert!(bool_of("\"b\" >= \"abc\""));
    assert!(bool_of("\"x\" == \"x\""));
    assert!(!bool_of("\"x\" <= \"\""));
}

#[test]
fn unary_operators() {
    assert!(!bool_of("!1"));
    assert!(bool_of("!nil"));
    assert_eq!(int_of("--5"), 5);
    assert_eq!(float_of("-2.5"), -2.5);
    assert_eq!(runtime_error("-\"s\"").message, "Operand must be number");
    assert_eq!(runtime_error("-(-9223372036854775807 - 1)").message, "Negation overflow");
}

#[test]
fn comma_evaluates_both_and_gives_null() {
    assert!(matches!(value("1, 2"), Literal::Null));
    assert_eq!(runtime_error("1 / 0, 2").message, "Division by zero");
}

#[test]
fn syntax_error_stops_before_evaluation() {
    let r = run("(1 + 2");
    assert!(r.value.is_none());
    assert_eq!(r.errors.errors().len(), 1);
    assert_eq!(r.errors.errors()[0].why, "at end");
    assert!(r.errors.has_errors());
}

#[test]
fn rerun_gives_identical_results() {
    for src in ["1 + 2 * 3", "(1 + 2", "\"abc", "1 + \"x\"", "2.5 * 4 @", "true ? 1 : 2"] {
        let a = HiScript::new(Host).run(src.to_string());
        let b = HiScript::new(Host).run(src.to_string());
        assert_eq!(a, b);
    }
}

#[test]
fn run_prints_value_then_errors() {
    let lines = HiScript::new(Host).run("1 + 2 @".to_string());
    assert_eq!(lines, vec!["3".to_string(), "[line 1] Error : Unexpected token".to_string()]);
    let lines = HiScript::new(Host).run("(1".to_string());
    assert_eq!(lines, vec!["[line 1] Error at end: Expected ')' after expression".to_string()]);
    let lines = HiScript::new(Host).run("nil".to_string());
    assert_eq!(lines, vec!["Null".to_string()]);
    let lines = HiScript::new(Host).run("2.0 + 1".to_string());
    assert_eq!(lines, vec!["3".to_string()]);
}

#[test]
fn display_texts() {
    assert_eq!(display(&Literal::Bool(false), &Host), "false");
    assert_eq!(display(&Literal::Int(-42), &Host), "-42");
    assert_eq!(display(&Literal::String("hi".to_string()), &Host), "hi");
    assert_eq!(display(&Literal::Float(0.5f64.to_bits()), &Host), "0.5");
}

#[test]
fn binary_and_unary_directly() {
    let r = apply_binary(TokenType::PLUS, Literal::Int(2), Literal::Int(3), &Host);
    assert!(matches!(r, Ok(Literal::Int(5))));
    let r = apply_binary(TokenType::COMMA, Literal::Int(2), Literal::Int(3), &Host);
    assert!(matches!(r, Ok(Literal::Null)));
    let r = apply_unary(TokenType::MINUS, Literal::Float(1.0f64.to_bits()));
    assert!(matches!(r, Ok(Literal::Float(b)) if f64::from_bits(b) == -1.0));
    assert!(str_less(&"a".to_string(), &"b".to_string()));
    assert!(!str_less(&"b".to_string(), &"b".to_string()));
}

#[test]
fn error_manager_basics() {
    let mut m = ErrorManager::new();
    assert!(!m.has_errors());
    m.add_runtime_error(Error::new(3, "boom".to_string(), String::new()));
    assert!(m.has_errors());
    m.add_error(7, "bad".to_string(), "at 'x'".to_string());
    assert!(m.has_errors());
    assert_eq!(
        m.report_lines(),
        vec!["[line 3] Error : boom".to_string(), "[line 7] Error at 'x': bad".to_string()]
    );
    m.clear_errors();
    assert!(!m.has_errors());
    assert!(m.errors().is_empty());
    assert_eq!(ErrorMessage::new("m").get_message(), "m");
}

#[test]
fn float_operands_dispatch_like_numbers() {
    assert!(!bool_of("!1.5"));
    assert_eq!(int_of("true ? 1 : 2.5"), 1);
    assert_eq!(float_of("7.0 / 2"), 3.5);
    assert!(bool_of("2.5 == 2.5"));
    let e = runtime_error("\n\n1.5 & 1");
    assert_eq!(e.line, 3);
    assert_eq!(e.message, "Bit And not supported between Float(1.5) and Int(1)");
    assert_eq!(runtime_error("1.5 + \"a\"").message, "Addition not supported between Float(1.5) and String(\"a\")");
}
