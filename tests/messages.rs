use midas_lang::expr::{ArithOp, EvalError};
use midas_lang::interpreter::Interpreter;
use midas_lang::literals::LiteralVal::{NumVal, StringVal};
use midas_lang::messages::{decimal_text, join_messages, signed_decimal_text};
use midas_lang::parser::ParseError;
use midas_lang::scanner::{ScanError, Scanner, TokenType};

fn read_number(s: &str) -> Option<u64> {
    s.parse::<f64>().ok().map(f64::to_bits)
}

fn arith(op: ArithOp, a: u64, b: u64) -> u64 {
    let (x, y) = (f64::from_bits(a), f64::from_bits(b));
    let r = match op {
        ArithOp::Add => x + y,
        ArithOp::Sub => x - y,
        ArithOp::Mul => x * y,
        ArithOp::Div => x / y,
    };
    r.to_bits()
}

fn show(b: u64) -> String {
    f64::from_bits(b).to_string()
}

#[test]
fn decimal_numbers() {
    assert_eq!(decimal_text(0), "0");
    assert_eq!(decimal_text(7), "7");
    assert_eq!(decimal_text(10), "10");
    assert_eq!(decimal_text(9051), "9051");
    assert_eq!(decimal_text(u64::MAX), u64::MAX.to_string());
    assert_eq!(signed_decimal_text(-305), "-305");
    assert_eq!(signed_decimal_text(i64::MIN), i64::MIN.to_string());
    assert_eq!(signed_decimal_text(42), "42");
}

#[test]
fn scan_messages_are_joined() {
    let errors = Scanner::new("@\n\n#\"ab").scan_tokens(&read_number).unwrap_err();
    assert_eq!(
        join_messages(&errors),
        "Bad char at line 1: @\nBad char at line 3: #\nUnterminated string at line 3\n"
    );
    let e = ScanError::NumberParse { text: "1.5".to_string() };
    assert_eq!(e.message(), "Could not parse num: 1.5");
}

#[test]
fn parse_messages() {
    let e = ParseError::Missing { expected: TokenType::RParen, found: TokenType::Eof };
    assert_eq!(e.message(), "Expected RParen, found Eof");
    let e = ParseError::ExpectedExpression { found: TokenType::Star };
    assert_eq!(e.message(), "Expected expression, found Star");
}

#[test]
fn eval_messages() {
    let e = EvalError::DivisionByZero { dividend: 4.0f64.to_bits() };
    assert_eq!(e.message(&show), "Cannot divide -=(4)=- by 0, results in infinity");
    let e = EvalError::UndefinedVariable { name: "x".to_string() };
    assert_eq!(e.message(&show), "Variable -=(x)=- has not been declared!");
    let e = EvalError::BinaryTypeError {
        op: TokenType::Plus,
        left: NumVal(1.5f64.to_bits()),
        right: StringVal("a".to_string()),
    };
    assert_eq!(
        e.message(&show),
        "Cannot use Plus operator between Number and String types -=(1.5 and a)=-"
    );
    let e = EvalError::UnimplementedOperator {
        op: TokenType::Less,
        left: "Boolean".to_string(),
        right: "Boolean".to_string(),
    };
    assert_eq!(e.message(&show), "Less not yet implemented for -=(\"Boolean\" and \"Boolean\")=-");
    let e = EvalError::UnaryTypeError { type_label: "String".to_string() };
    assert_eq!(e.message(&show), "Cannot use Minus operator on type String");
    let e = EvalError::InvalidUnaryOperator { op: TokenType::Plus };
    assert_eq!(e.message(&show), "Plus is not a valid operator for unaries");
}

#[test]
fn run_error_messages() {
    let mut intr = Interpreter::new();
    let (_, err) = intr.run("print 1 / 0;", &read_number, &arith);
    assert_eq!(err.unwrap().message(&show), "Cannot divide -=(1)=- by 0, results in infinity");
    let (_, err) = intr.run("print (1;", &read_number, &arith);
    assert_eq!(err.unwrap().message(&show), "Expected RParen, found Semicolon");
    let (_, err) = intr.run("~", &read_number, &arith);
    assert_eq!(err.unwrap().message(&show), "Bad char at line 1: ~\n");
}
