use jel::machine::Machine;
use jel::parser::Token;
use jel::semantics::DEFAULT_FUEL;
use jel::semantics::ErrorKind;

fn tok(s: &str) -> Token {
    Token::String(s.to_string())
}

fn text(t: &Token) -> String {
    match t {
        Token::String(s) => s.clone(),
        _ => panic!("expected a string token"),
    }
}

fn fresh() -> Machine {
    Machine::new(Vec::new())
}

#[test]
fn add_collapses_to_integer() {
    let mut m = fresh();
    let r = m.add(vec![tok("2"), tok("3")], DEFAULT_FUEL);
    assert_eq!(text(&r), "5");
    assert!(m.errors.is_empty());
}

#[test]
fn div_keeps_fraction() {
    let mut m = fresh();
    let r = m.div(vec![tok("5"), tok("2")], DEFAULT_FUEL);
    assert_eq!(text(&r), "2.5");
}

#[test]
fn div_collapses_to_integer() {
    let mut m = fresh();
    let r = m.div(vec![tok("4"), tok("2")], DEFAULT_FUEL);
    assert_eq!(text(&r), "2");
}

#[test]
fn div_by_zero_reports_and_yields_nil() {
    let mut m = fresh();
    let r = m.div(vec![tok("1"), tok("0")], DEFAULT_FUEL);
    assert_eq!(text(&r), "nil");
    assert_eq!(m.errors, vec![ErrorKind::DivideByZero]);
    assert!(!m.halted);
}

#[test]
fn sub_goes_negative() {
    let mut m = fresh();
    let r = m.sub(vec![tok("2"), tok("5")], DEFAULT_FUEL);
    assert_eq!(text(&r), "-3");
}

#[test]
fn mul_of_decimals() {
    let mut m = fresh();
    let r = m.mul(vec![tok("1.5"), tok("2")], DEFAULT_FUEL);
    assert_eq!(text(&r), "3");
    let r2 = m.mul(vec![tok("1.5"), tok("0.5")], DEFAULT_FUEL);
    assert_eq!(text(&r2), "0.75");
}

#[test]
fn mod_has_sign_of_dividend() {
    let mut m = fresh();
    assert_eq!(text(&m.mod_(vec![tok("7"), tok("2")], DEFAULT_FUEL)), "1");
    assert_eq!(text(&m.mod_(vec![tok("-7"), tok("2")], DEFAULT_FUEL)), "-1");
}

#[test]
fn add_decimals_exactly() {
    let mut m = fresh();
    assert_eq!(text(&m.add(vec![tok("0.1"), tok("0.2")], DEFAULT_FUEL)), "0.3");
    assert_eq!(text(&m.add(vec![tok("2.50"), tok("0.50")], DEFAULT_FUEL)), "3");
}

#[test]
fn add_non_number_reports() {
    let mut m = fresh();
    let r = m.add(vec![tok("two"), tok("3")], DEFAULT_FUEL);
    assert_eq!(text(&r), "nil");
    assert_eq!(m.errors, vec![ErrorKind::NotANumber]);
}

#[test]
fn float_canonicalizes() {
    let mut m = fresh();
    assert_eq!(text(&m.float(vec![tok("2.50")], DEFAULT_FUEL)), "2.5");
    assert_eq!(text(&m.float(vec![tok("true")], DEFAULT_FUEL)), "1");
    assert_eq!(text(&m.float(vec![tok("nil")], DEFAULT_FUEL)), "0");
    assert_eq!(text(&m.float(vec![tok("abc")], DEFAULT_FUEL)), "nil");
}

#[test]
fn int_truncates_toward_zero() {
    let mut m = fresh();
    assert_eq!(text(&m.int_(vec![tok("2.9")], DEFAULT_FUEL)), "2");
    assert_eq!(text(&m.int_(vec![tok("-2.9")], DEFAULT_FUEL)), "-2");
    assert_eq!(text(&m.int_(vec![tok("false")], DEFAULT_FUEL)), "0");
}

#[test]
fn int_saturates_to_machine_range() {
    let mut m = fresh();
    assert_eq!(text(&m.int_(vec![tok("99999999999")], DEFAULT_FUEL)), "2147483647");
    assert_eq!(text(&m.int_(vec![tok("-99999999999")], DEFAULT_FUEL)), "-2147483648");
}

#[test]
fn bool_of_numbers() {
    let mut m = fresh();
    assert_eq!(text(&m.bool(vec![tok("0.0")], DEFAULT_FUEL)), "false");
    assert_eq!(text(&m.bool(vec![tok("2")], DEFAULT_FUEL)), "true");
    assert_eq!(text(&m.bool(vec![tok("word")], DEFAULT_FUEL)), "nil");
    assert_eq!(text(&m.bool(vec![tok("true")], DEFAULT_FUEL)), "true");
}

#[test]
fn bigger_compares_numerically() {
    let mut m = fresh();
    assert_eq!(text(&m.bigger(vec![tok("2"), tok("10")], DEFAULT_FUEL)), "false");
    assert_eq!(text(&m.bigger(vec![tok("2.5"), tok("2.4")], DEFAULT_FUEL)), "true");
    assert_eq!(text(&m.bigger(vec![tok("-1"), tok("-2")], DEFAULT_FUEL)), "true");
}

#[test]
fn bigger_falls_back_to_length() {
    let mut m = fresh();
    assert_eq!(text(&m.bigger(vec![tok("abc"), tok("x")], DEFAULT_FUEL)), "true");
    assert_eq!(text(&m.smaller(vec![tok("abc"), tok("x")], DEFAULT_FUEL)), "false");
}

#[test]
fn smaller_compares_numerically() {
    let mut m = fresh();
    assert_eq!(text(&m.smaller(vec![tok("2"), tok("10")], DEFAULT_FUEL)), "true");
}

#[test]
fn equals_is_textual() {
    let mut m = fresh();
    assert_eq!(text(&m.equals(vec![tok("2.0"), tok("2")], DEFAULT_FUEL)), "false");
    assert_eq!(text(&m.equals(vec![tok("ab"), tok("ab")], DEFAULT_FUEL)), "true");
}
