use midas_lang::parser::{ParseError, Parser};
use midas_lang::scanner::LiteralVal::IntVal;
use midas_lang::scanner::TokenType::{Eof, Equal, Identifier, Number, RParen, Semicolon, Star, Var};
use midas_lang::scanner::{Scanner, Token};
use midas_lang::statement::Statement;

fn read_number(s: &str) -> Option<u64> {
    s.parse::<f64>().ok().map(f64::to_bits)
}

fn show(b: u64) -> String {
    f64::from_bits(b).to_string()
}

fn parser_for(src: &str) -> Parser {
    Parser::new(Scanner::new(src).scan_tokens(&read_number).unwrap())
}

fn printed(src: &str) -> String {
    parser_for(src).parse().unwrap().format_str(&show)
}

#[test]
fn testing_parser() {
    let o = Token {
        token_type: Number,
        lexeme: "1".to_string(),
        literal: Some(IntVal(1)),
        line_num: 1,
    };
    let p = Token {
        token_type: Star,
        lexeme: "*".to_string(),
        literal: None,
        line_num: 1,
    };
    let t = Token {
        token_type: Number,
        lexeme: "2".to_string(),
        literal: Some(IntVal(2)),
        line_num: 1,
    };
    let s = Token {
        token_type: Semicolon,
        lexeme: ";".to_string(),
        literal: None,
        line_num: 1,
    };

    let tokens = vec![o, p, t, s];
    let mut p: Parser = Parser::new(tokens);

    let pe = p.parse().unwrap();
    let se = pe.format_str(&show);

    assert_eq!(se, "(* 1 2)");
}

#[test]
fn parser_test2() {
    let src = "8 - 2 == 5 + 1";
    let mut s = Scanner::new(src);
    let t = s.scan_tokens(&read_number).unwrap();
    let mut p = Parser::new(t);
    let pe = p.parse().unwrap();
    let se = pe.format_str(&show);

    assert_eq!(se, "(== (- 8 2) (+ 5 1))");
}

#[test]
fn precedence_and_left_grouping() {
    assert_eq!(printed("1 + 2 * 3"), "(+ 1 (* 2 3))");
    assert_eq!(printed("1 - 2 - 3"), "(- (- 1 2) 3)");
    assert_eq!(printed("8 / 4 / 2"), "(/ (/ 8 4) 2)");
    assert_eq!(printed("1 < 2 == 3 >= 4"), "(== (< 1 2) (>= 3 4))");
    assert_eq!(printed("-(1 + 2) * !x"), "(* (- (group (+ 1 2))) (! var x))");
    assert_eq!(printed("!!true != nil"), "(!= (! (! true)) null)");
    assert_eq!(printed("\"a\" + 2.5"), "(+ a 2.5)");
}

#[test]
fn parse_stops_after_one_expression() {
    let mut p = parser_for("1 + 2; 3");
    let e = p.parse().unwrap();
    assert_eq!(e.format_str(&show), "(+ 1 2)");
    assert_eq!(p.current, 3);
}

#[test]
fn missing_right_paren_is_an_error() {
    let mut p = parser_for("(1 + 2");
    assert_eq!(p.parse().unwrap_err(), ParseError::Missing { expected: RParen, found: Eof });
}

#[test]
fn no_expression_is_an_error() {
    let mut p = parser_for("* 3");
    assert_eq!(p.parse().unwrap_err(), ParseError::ExpectedExpression { found: Star });
    let mut p = Parser::new(vec![]);
    assert_eq!(p.parse().unwrap_err(), ParseError::ExpectedExpression { found: Eof });
}

#[test]
fn program_of_statements() {
    let mut p = parser_for("var a = 1; print a; a + 1;");
    let statements = p.parse_program().unwrap();
    assert_eq!(statements.len(), 3);
    match &statements[0] {
        Statement::Var { t, init } => {
            assert_eq!(t.lexeme, "a");
            assert_eq!(init.format_str(&show), "1");
        }
        _ => panic!("expected a declaration"),
    }
    assert!(matches!(statements[1], Statement::Print { .. }));
    assert!(matches!(statements[2], Statement::Expression { .. }));
}

#[test]
fn statement_errors() {
    assert_eq!(
        parser_for("print 1").parse_program().unwrap_err(),
        ParseError::Missing { expected: Semicolon, found: Eof }
    );
    assert_eq!(
        parser_for("var = 1;").parse_program().unwrap_err(),
        ParseError::Missing { expected: Identifier, found: Equal }
    );
    assert_eq!(
        parser_for("var a 1;").parse_program().unwrap_err(),
        ParseError::Missing { expected: Equal, found: Number }
    );
}

#[test]
fn synchronize_skips_to_next_statement() {
    let mut p = parser_for("1 + ; foo bar var x = 2;");
    p.current = 1;
    p.synchronize();
    assert_eq!(p.current, 5);
    assert_eq!(p.tokens[p.current].token_type, Var);
    let mut p = parser_for("a b c");
    p.synchronize();
    assert_eq!(p.tokens[p.current].token_type, Eof);
}

#[test]
fn failed_primary_and_consume_leave_the_cursor() {
    let mut p = parser_for("1 + ;");
    assert_eq!(p.parse().unwrap_err(), ParseError::ExpectedExpression { found: Semicolon });
    assert_eq!(p.current, 2);
    let mut p = parser_for("(1 ;");
    assert_eq!(p.parse().unwrap_err(), ParseError::Missing { expected: RParen, found: Semicolon });
    assert_eq!(p.current, 2);
}
