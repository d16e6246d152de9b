use midas_lang::enviro::Enviro;
use midas_lang::expr::{ArithOp, EvalError, Expr};
use midas_lang::interpreter::{Interpreter, RunError};
use midas_lang::literals::LiteralVal::{self, FalseVal, NullVal, NumVal, StringVal, TrueVal};
use midas_lang::literals::unwrap_as_str;
use midas_lang::number::int_to_double;
use midas_lang::parser::Parser;
use midas_lang::scanner::{self, Scanner, Token, TokenType};
use midas_lang::statement::Statement;

fn read_number(s: &str) -> Option<u64> {
    s.parse::<f64>().ok().map(f64::to_bits)
}

fn arith(op: ArithOp, a: u64, b: u64) -> u64 {
    let (x, y) = (f64::from_bits(a), f64::from_bits(b));
    let r = match op {
        ArithOp::Add => x + y,
        ArithOp::Sub => x - y,
        ArithOp::Mul => x * y,
        ArithOp::Div => x / y,
    };
    r.to_bits()
}

fn show(b: u64) -> String {
    f64::from_bits(b).to_string()
}

fn num(x: f64) -> LiteralVal {
    NumVal(x.to_bits())
}

fn op(kind: TokenType, lexeme: &str) -> Token {
    Token::new_token(kind, lexeme.to_string(), None, 1)
}

fn lit(v: LiteralVal) -> Box<Expr> {
    Box::new(Expr::Literal { val: v })
}

fn binary(l: LiteralVal, kind: TokenType, lexeme: &str, r: LiteralVal) -> Expr {
    Expr::Binary { l: lit(l), op: op(kind, lexeme), r: lit(r) }
}

fn eval_src(src: &str, env: &Enviro) -> Result<LiteralVal, EvalError> {
    let tokens = Scanner::new(src).scan_tokens(&read_number).unwrap();
    Parser::new(tokens).parse().unwrap().eval(env, &arith)
}

#[test]
fn division_by_zero_is_an_error() {
    let e = binary(num(4.0), TokenType::Slash, "/", num(0.0));
    match e.eval(&Enviro::new(), &arith) {
        Err(EvalError::DivisionByZero { dividend }) => assert_eq!(f64::from_bits(dividend), 4.0),
        other => panic!("unexpected {:?}", other),
    }
    let e = binary(num(4.0), TokenType::Slash, "/", num(-0.0));
    assert!(matches!(e.eval(&Enviro::new(), &arith), Err(EvalError::DivisionByZero { .. })));
}

#[test]
fn equality_across_types_is_false() {
    let e = binary(num(1.0), TokenType::EqualEqual, "==", StringVal("1".to_string()));
    assert_eq!(e.eval(&Enviro::new(), &arith).unwrap(), FalseVal);
    let e = binary(StringVal("1".to_string()), TokenType::BangEqual, "!=", num(1.0));
    assert_eq!(e.eval(&Enviro::new(), &arith).unwrap(), TrueVal);
    let e = binary(NullVal, TokenType::EqualEqual, "==", FalseVal);
    assert_eq!(e.eval(&Enviro::new(), &arith).unwrap(), FalseVal);
}

#[test]
fn undefined_variable_and_redefinition() {
    let mut env = Enviro::new();
    let name = Token::new_token(TokenType::Identifier, "x".to_string(), None, 1);
    let read = Expr::Variable { name };
    match read.eval(&env, &arith) {
        Err(EvalError::UndefinedVariable { name }) => assert_eq!(name, "x"),
        other => panic!("unexpected {:?}", other),
    }
    env.define("x".to_string(), num(1.0));
    env.define("x".to_string(), StringVal("two".to_string()));
    assert_eq!(read.eval(&env, &arith).unwrap(), StringVal("two".to_string()));
    assert_eq!(env.get("x"), Some(&StringVal("two".to_string())));
    assert_eq!(env.get("y"), None);
}

#[test]
fn falsy_truth_table() {
    assert_eq!(num(0.0).is_falsy(), TrueVal);
    assert_eq!(num(-0.0).is_falsy(), TrueVal);
    assert_eq!(num(3.0).is_falsy(), FalseVal);
    assert_eq!(StringVal(String::new()).is_falsy(), TrueVal);
    assert_eq!(StringVal("a".to_string()).is_falsy(), FalseVal);
    assert_eq!(TrueVal.is_falsy(), FalseVal);
    assert_eq!(FalseVal.is_falsy(), TrueVal);
    assert_eq!(NullVal.is_falsy(), TrueVal);
    assert_eq!(LiteralVal::is_boolean_truthy(true), TrueVal);
    assert_eq!(LiteralVal::is_boolean_truthy(false), FalseVal);
}

#[test]
fn arithmetic_and_comparison() {
    let env = Enviro::new();
    assert_eq!(eval_src("1 + 2 * 3", &env).unwrap(), num(7.0));
    assert_eq!(eval_src("(1 + 2) * 3", &env).unwrap(), num(9.0));
    assert_eq!(eval_src("10 - 4 - 3", &env).unwrap(), num(3.0));
    assert_eq!(eval_src("7 / 2", &env).unwrap(), num(3.5));
    assert_eq!(eval_src("-(2 + 3)", &env).unwrap(), num(-5.0));
    assert_eq!(eval_src("1 < 2", &env).unwrap(), TrueVal);
    assert_eq!(eval_src("2 <= 2", &env).unwrap(), TrueVal);
    assert_eq!(eval_src("1 > 2", &env).unwrap(), FalseVal);
    assert_eq!(eval_src("-0 >= 0", &env).unwrap(), TrueVal);
    assert_eq!(eval_src("0 == -0", &env).unwrap(), TrueVal);
    assert_eq!(eval_src("-3 < -2", &env).unwrap(), TrueVal);
    assert_eq!(eval_src("!0", &env).unwrap(), TrueVal);
    assert_eq!(eval_src("!\"\"", &env).unwrap(), TrueVal);
}

#[test]
fn nan_is_unequal_to_itself() {
    let big = "9".repeat(400);
    let env = Enviro::new();
    let src = format!("({} - {}) == ({} - {})", big, big, big, big);
    assert_eq!(eval_src(&src, &env).unwrap(), FalseVal);
    let src = format!("({} - {}) < 1", big, big);
    assert_eq!(eval_src(&src, &env).unwrap(), FalseVal);
}

#[test]
fn strings_concatenate_and_compare() {
    let env = Enviro::new();
    assert_eq!(eval_src("\"ab\" + \"cd\"", &env).unwrap(), StringVal("abcd".to_string()));
    assert_eq!(eval_src("\"ab\" < \"b\"", &env).unwrap(), TrueVal);
    assert_eq!(eval_src("\"ab\" < \"ab\"", &env).unwrap(), FalseVal);
    assert_eq!(eval_src("\"ab\" <= \"ab\"", &env).unwrap(), TrueVal);
    assert_eq!(eval_src("\"abc\" > \"ab\"", &env).unwrap(), TrueVal);
    assert_eq!(eval_src("\"a\" >= \"b\"", &env).unwrap(), FalseVal);
}

#[test]
fn type_errors() {
    let env = Enviro::new();
    match eval_src("-\"a\"", &env) {
        Err(EvalError::UnaryTypeError { type_label }) => assert_eq!(type_label, "String"),
        other => panic!("unexpected {:?}", other),
    }
    match eval_src("1 + \"a\"", &env) {
        Err(EvalError::BinaryTypeError { op, left, right }) => {
            assert_eq!(op, TokenType::Plus);
            assert_eq!(left, num(1.0));
            assert_eq!(right, StringVal("a".to_string()));
        }
        other => panic!("unexpected {:?}", other),
    }
    match eval_src("true < false", &env) {
        Err(EvalError::UnimplementedOperator { op, left, right }) => {
            assert_eq!(op, TokenType::Less);
            assert_eq!(left, "Boolean");
            assert_eq!(right, "Boolean");
        }
        other => panic!("unexpected {:?}", other),
    }
    let bad = Expr::Unary { op: op(TokenType::Plus, "+"), r: lit(num(1.0)) };
    assert!(matches!(
        bad.eval(&env, &arith),
        Err(EvalError::InvalidUnaryOperator { op: TokenType::Plus })
    ));
}

#[test]
fn values_print_as_text() {
    assert_eq!(num(12.5).format_str(&show), "12.5");
    assert_eq!(StringVal("hi".to_string()).format_str(&show), "hi");
    assert_eq!(TrueVal.format_str(&show), "true");
    assert_eq!(FalseVal.format_str(&show), "false");
    assert_eq!(NullVal.format_str(&show), "null");
    assert_eq!(num(1.0).as_literal_type(), "Number");
    assert_eq!(StringVal(String::new()).as_literal_type(), "String");
    assert_eq!(NullVal.as_literal_type(), "Boolean");
}

#[test]
fn token_values() {
    let t = Token::new_token(TokenType::Number, "2".to_string(), Some(scanner::LiteralVal::FVal(2.0f64.to_bits())), 1);
    assert_eq!(LiteralVal::token_fmt(t), num(2.0));
    let t = Token::new_token(TokenType::Nil, "nil".to_string(), None, 1);
    assert_eq!(LiteralVal::token_fmt(t), NullVal);
    assert_eq!(unwrap_as_str(Some(scanner::LiteralVal::IdentifierVal("v".to_string()))), "v");
}

#[test]
fn statements_change_the_environment() {
    let mut intr = Interpreter::new();
    let tokens = Scanner::new("var a = 2; print a * 3; a;").scan_tokens(&read_number).unwrap();
    let statements = Parser::new(tokens).parse_program().unwrap();
    let mut out = vec![];
    for st in statements {
        out.push(intr.interpret_statement(st, &arith).unwrap());
    }
    assert_eq!(out, vec![None, Some(num(6.0)), None]);
    let e = Parser::new(Scanner::new("a + 1").scan_tokens(&read_number).unwrap()).parse().unwrap();
    assert_eq!(intr.interpret(e, &arith).unwrap(), num(3.0));
    let st = Statement::Print { expr: Expr::Literal { val: TrueVal } };
    assert_eq!(intr.interpret_statement(st, &arith).unwrap(), Some(TrueVal));
}

#[test]
fn run_whole_sources() {
    let mut intr = Interpreter::new();
    let (printed, err) = intr.run("var a = 1;\nvar a = a + 1;\nprint a;\nprint \"x\" + \"y\";", &read_number, &arith);
    assert!(err.is_none());
    assert_eq!(printed, vec![num(2.0), StringVal("xy".to_string())]);

    let (printed, err) = intr.run("print a; print b; print a;", &read_number, &arith);
    assert_eq!(printed, vec![num(2.0)]);
    assert!(matches!(err, Some(RunError::Eval(EvalError::UndefinedVariable { .. }))));

    let (printed, err) = intr.run("print 1; print (2;", &read_number, &arith);
    assert!(printed.is_empty());
    assert!(matches!(err, Some(RunError::Parse(_))));

    let (printed, err) = intr.run("print 1; $", &read_number, &arith);
    assert!(printed.is_empty());
    assert!(matches!(err, Some(RunError::Scan(_))));
}

#[test]
fn integers_convert_as_doubles_do() {
    let mut cases: Vec<i64> = vec![
        0, 1, -1, 2, 3, 7, 10, -255, 1 << 52, (1 << 53) - 1, 1 << 53, (1 << 53) + 1,
        (1 << 53) + 2, (1 << 53) + 3, (1 << 54) + 2, (1 << 54) + 6, i64::MAX, i64::MIN,
        i64::MIN + 1, 123_456_789_012_345_678, -987_654_321_987_654_321,
    ];
    let mut x: i64 = 1;
    for _ in 0..200 {
        x = x.wrapping_mul(6364136223846793005).wrapping_add(1442695040888963407);
        cases.push(x);
        cases.push(x >> 7);
        cases.push(x >> 20);
    }
    for i in cases {
        assert_eq!(int_to_double(i), (i as f64).to_bits(), "converting {}", i);
    }
}

#[test]
fn integer_payload_becomes_a_number() {
    let t = Token::new_token(TokenType::Number, "5".to_string(), Some(scanner::LiteralVal::IntVal(5)), 1);
    assert_eq!(LiteralVal::token_fmt(t), num(5.0));
}
