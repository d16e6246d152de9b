use midas_lang::scanner::LiteralVal::{FVal, IdentifierVal, StringVal};
use midas_lang::scanner::TokenType::{
    self, And, Bang, BangEqual, Class, Comma, Dot, Else, Eof, Equal, EqualEqual, False, For, Fun,
    Greater, GreaterEqual, Identifier, If, LBrace, LParen, Less, LessEqual, Minus, Nil, Number, Or,
    Plus, Print, RBrace, RParen, Return, Semicolon, Slash, Star, StringLit, Super, This, True, Var,
    While,
};
use midas_lang::scanner::{get_kws_hash, is_alpha, is_alpha_num, is_digit, ScanError, Scanner, Token};

fn read_number(s: &str) -> Option<u64> {
    s.parse::<f64>().ok().map(f64::to_bits)
}

fn show(b: u64) -> String {
    format!("{:?}", f64::from_bits(b))
}

fn kinds(tokens: &[Token]) -> Vec<TokenType> {
    tokens.iter().map(|t| t.token_type).collect()
}

#[test]
fn one_char_test() {
    let s = "!( )(";
    let mut scanner = Scanner::new(s);
    let _ = scanner.scan_tokens(&read_number);
    println!("{:?}", scanner.tokens);
    // EOF also included
    assert_eq!(scanner.tokens.len(), 5);
    assert_eq!(scanner.tokens[0].token_type, Bang);
}

#[test]
fn str_test() {
    let s = "\"ABC\ndefaa\naa\"";
    let mut scan = Scanner::new(s);
    scan.scan_tokens(&read_number).unwrap();
    assert_eq!(scan.tokens.len(), 2);
    assert_eq!(scan.tokens[0].token_type, StringLit);
    match scan.tokens[0].literal.as_ref().unwrap() {
        StringVal(v) => assert_eq!(v, "ABC\ndefaa\naa"),
        _ => panic!("Bad lit type"),
    }
}

#[test]
fn num_lits() {
    let s = "12.23\n33";
    let mut scan = Scanner::new(s);
    scan.scan_tokens(&read_number).unwrap();
    assert_eq!(scan.tokens.len(), 3);
    for i in 0..2 {
        assert_eq!(scan.tokens[i].token_type, Number);
    }
    match scan.tokens[0].literal {
        Some(FVal(v)) => assert_eq!(f64::from_bits(v), 12.23),
        _ => panic!("Nope"),
    }
    match scan.tokens[1].literal {
        Some(FVal(v)) => assert_eq!(f64::from_bits(v), 33.0),
        _ => panic!("Nope"),
    }
}

#[test]
fn identify_test() {
    let s = "v = 23;";
    let mut scan = Scanner::new(s);
    scan.scan_tokens(&read_number).unwrap();
    println!("{:?}", scan.tokens);
    assert_eq!(scan.tokens.len(), 5);
    assert_eq!(scan.tokens[0].token_type, Identifier);
    assert_eq!(scan.tokens[3].token_type, Semicolon);
}

#[test]
fn kws() {
    let s = "var hello = 58;\nif true {print 2};";
    let mut scan = Scanner::new(s);
    scan.scan_tokens(&read_number).unwrap();
    println!("{:?}", scan.tokens);
    assert_eq!(scan.tokens.len(), 13);
}

#[test]
fn each_punctuation_scans_to_one_token() {
    let cases = [
        ('(', LParen),
        (')', RParen),
        ('{', LBrace),
        ('}', RBrace),
        (',', Comma),
        ('.', Dot),
        ('-', Minus),
        ('+', Plus),
        (';', Semicolon),
        ('*', Star),
    ];
    for (c, kind) in cases {
        let text = c.to_string();
        let tokens = Scanner::new(&text).scan_tokens(&read_number).unwrap();
        assert_eq!(kinds(&tokens), vec![kind, Eof]);
        assert_eq!(tokens[0].lexeme, text);
        assert!(tokens[0].literal.is_none());
        assert_eq!(tokens[0].line_num, 1);
    }
}

#[test]
fn multiline_string_counts_its_newlines() {
    let tokens = Scanner::new("\"ABC\ndefaa\naa\"").scan_tokens(&read_number).unwrap();
    assert_eq!(tokens[0].lexeme, "\"ABC\ndefaa\naa\"");
    assert_eq!(tokens[0].line_num, 3);
    assert_eq!(tokens[1].token_type, Eof);
    assert_eq!(tokens[1].line_num, 3);
}

#[test]
fn keywords_resolve_to_their_kinds() {
    let tokens = Scanner::new("var hello = 58;\nif true {print 2};").scan_tokens(&read_number).unwrap();
    assert_eq!(
        kinds(&tokens),
        vec![
            Var, Identifier, Equal, Number, Semicolon, If, True, LBrace, Print, Number, RBrace,
            Semicolon, Eof
        ]
    );
    match &tokens[1].literal {
        Some(IdentifierVal(name)) => assert_eq!(name, "hello"),
        _ => panic!("identifier without its name"),
    }
    assert!(tokens[0].literal.is_none());
    assert_eq!(tokens[5].line_num, 2);
    assert_eq!(tokens[12].line_num, 2);
}

#[test]
fn every_reserved_word_is_a_keyword() {
    let src = "and class else true false for if fun nil or print return super this var while";
    let tokens = Scanner::new(src).scan_tokens(&read_number).unwrap();
    assert_eq!(
        kinds(&tokens),
        vec![
            And, Class, Else, True, False, For, If, Fun, Nil, Or, Print, Return, Super, This, Var,
            While, Eof
        ]
    );
    assert_eq!(get_kws_hash().len(), 16);
}

#[test]
fn two_character_operators_and_comments() {
    let tokens = Scanner::new("! != = == < <= > >= / // all of this is skipped\n*")
        .scan_tokens(&read_number)
        .unwrap();
    assert_eq!(
        kinds(&tokens),
        vec![
            Bang, BangEqual, Equal, EqualEqual, Less, LessEqual, Greater, GreaterEqual, Slash,
            Star, Eof
        ]
    );
    assert_eq!(tokens[1].lexeme, "!=");
    assert_eq!(tokens[9].line_num, 2);
}

#[test]
fn comment_at_end_of_input() {
    let tokens = Scanner::new("1 // no newline after").scan_tokens(&read_number).unwrap();
    assert_eq!(kinds(&tokens), vec![Number, Eof]);
}

#[test]
fn trailing_dot_is_not_part_of_a_number() {
    let tokens = Scanner::new("12.").scan_tokens(&read_number).unwrap();
    assert_eq!(kinds(&tokens), vec![Number, Dot, Eof]);
    assert_eq!(tokens[0].lexeme, "12");
    let tokens = Scanner::new("3.5.x").scan_tokens(&read_number).unwrap();
    assert_eq!(kinds(&tokens), vec![Number, Dot, Identifier, Eof]);
    assert_eq!(tokens[0].lexeme, "3.5");
}

#[test]
fn empty_source_gives_only_eof() {
    let tokens = Scanner::new("").scan_tokens(&read_number).unwrap();
    assert_eq!(kinds(&tokens), vec![Eof]);
    assert_eq!(tokens[0].line_num, 1);
    assert_eq!(tokens[0].lexeme, "");
}

#[test]
fn bad_characters_are_all_reported() {
    let mut scanner = Scanner::new("1 @ 2\n#");
    let errors = scanner.scan_tokens(&read_number).unwrap_err();
    assert_eq!(errors.len(), 2);
    assert!(matches!(errors[0], ScanError::BadChar { line: 1, c: '@' }));
    assert!(matches!(errors[1], ScanError::BadChar { line: 2, c: '#' }));
    // scanning went on past the errors
    assert_eq!(kinds(&scanner.tokens), vec![Number, Number, Eof]);
}

#[test]
fn unterminated_string_is_an_error() {
    let errors = Scanner::new("\"abc\nde").scan_tokens(&read_number).unwrap_err();
    assert_eq!(errors.len(), 1);
    assert!(matches!(errors[0], ScanError::UnterminatedString { line: 2 }));
}

#[test]
fn unreadable_number_is_an_error() {
    let refuse = |_: &str| -> Option<u64> { None };
    let errors = Scanner::new("12.5").scan_tokens(&refuse).unwrap_err();
    match &errors[0] {
        ScanError::NumberParse { text } => assert_eq!(text, "12.5"),
        other => panic!("unexpected {:?}", other),
    }
}

#[test]
fn character_classes() {
    assert!(is_digit('0') && is_digit('9') && !is_digit('a'));
    assert!(is_alpha('a') && is_alpha('Z') && is_alpha('_') && !is_alpha('1'));
    assert!(is_alpha_num('q') && is_alpha_num('7') && !is_alpha_num('-'));
    assert!(!is_digit('\u{130}'));
}

#[test]
fn token_text_form() {
    let tokens = Scanner::new("\"a\\b\" x 2.5 ;").scan_tokens(&read_number).unwrap();
    assert_eq!(tokens[0].to_string(&show), "StringLit \"a\\b\" Some(StringVal(\"a\\\\b\"))");
    assert_eq!(tokens[1].to_string(&show), "Identifier x Some(IdentifierVal(\"x\"))");
    assert_eq!(tokens[2].to_string(&show), "Number 2.5 Some(FVal(2.5))");
    assert_eq!(tokens[3].to_string(&show), "Semicolon ; None");
    assert_eq!(tokens[4].to_string(&show), "Eof  None");
}

#[test]
fn non_ascii_text_is_kept_whole() {
    let tokens = Scanner::new("\"héllo\" é").scan_tokens(&read_number);
    let errors = tokens.unwrap_err();
    assert!(matches!(errors[0], ScanError::BadChar { line: 1, c: 'é' }));
    let tokens = Scanner::new("\"héllo\"").scan_tokens(&read_number).unwrap();
    match &tokens[0].literal {
        Some(StringVal(s)) => assert_eq!(s, "héllo"),
        _ => panic!("string payload missing"),
    }
}

#[test]
fn escaped_quote_stays_in_the_string() {
    let tokens = Scanner::new("\"a\\\"b\"").scan_tokens(&read_number).unwrap();
    assert_eq!(kinds(&tokens), vec![StringLit, Eof]);
    match &tokens[0].literal {
        Some(StringVal(v)) => assert_eq!(v, "a\\\"b"),
        _ => panic!("string payload missing"),
    }
    let tokens = Scanner::new("\"a\\\\\" x").scan_tokens(&read_number).unwrap();
    assert_eq!(kinds(&tokens), vec![StringLit, Identifier, Eof]);
    let errors = Scanner::new("\"ab\\\"").scan_tokens(&read_number).unwrap_err();
    assert!(matches!(errors[0], ScanError::UnterminatedString { line: 1 }));
    let tokens = Scanner::new("\"a\\\nb\"").scan_tokens(&read_number).unwrap();
    assert_eq!(tokens[0].line_num, 2);
}

#[test]
fn integer_payload_text_form() {
    let t = Token::new_token(Number, "-12".to_string(), Some(midas_lang::scanner::LiteralVal::IntVal(-12)), 1);
    assert_eq!(t.to_string(&show), "Number -12 Some(IntVal(-12))");
}
