use lox::number::Number;
use lox::scanner::{is_alpha, is_alpha_numeric, is_digit, scan_tokens};
use lox::token::{Literal, TokenType};

fn kinds(src: &str) -> Vec<TokenType> {
    scan_tokens(src.to_string()).unwrap().iter().map(|t| t.t).collect()
}

#[test]
fn scanning_test() {
    let ts = scan_tokens("andy formless fo _ _123 _abc ab123\nabcdefghijklmnopqrstuvwxyz".to_string()).unwrap();
    let lexemes: Vec<String> = ts.iter().map(|t| t.lexeme.clone()).collect();
    assert_eq!(
        lexemes,
        vec!["andy", "formless", "fo", "_", "_123", "_abc", "ab123", "abcdefghijklmnopqrstuvwxyz", ""]
    );
    assert!(ts[..8].iter().all(|t| t.t == TokenType::Identifier));
    assert_eq!(ts[7].line, 2);
    assert_eq!(ts[8].t, TokenType::Eof);

    assert_eq!(
        kinds("and class else false for fun if nil or return super this true var while"),
        vec![
            TokenType::And,
            TokenType::Class,
            TokenType::Else,
            TokenType::False,
            TokenType::For,
            TokenType::Fun,
            TokenType::If,
            TokenType::Nil,
            TokenType::Or,
            TokenType::Return,
            TokenType::Super,
            TokenType::This,
            TokenType::True,
            TokenType::Var,
            TokenType::While,
            TokenType::Eof,
        ]
    );
    assert_eq!(
        kinds("(){};,+-*!===<=>=!=<>/."),
        vec![
            TokenType::LeftParen,
            TokenType::RightParen,
            TokenType::LeftBrace,
            TokenType::RightBrace,
            TokenType::Semicolon,
            TokenType::Comma,
            TokenType::Plus,
            TokenType::Minus,
            TokenType::Star,
            TokenType::BangEqual,
            TokenType::EqualEqual,
            TokenType::LessEqual,
            TokenType::GreaterEqual,
            TokenType::BangEqual,
            TokenType::Less,
            TokenType::Greater,
            TokenType::Slash,
            TokenType::Dot,
            TokenType::Eof,
        ]
    );
    let ts = scan_tokens("123\n123.456\n.456\n123.".to_string()).unwrap();
    let k: Vec<TokenType> = ts.iter().map(|t| t.t).collect();
    assert_eq!(
        k,
        vec![
            TokenType::Number,
            TokenType::Number,
            TokenType::Dot,
            TokenType::Number,
            TokenType::Number,
            TokenType::Dot,
            TokenType::Eof,
        ]
    );
    match &ts[1].literal {
        Literal::Num(n) => assert_eq!(n.to_text(), "123.456"),
        _ => panic!("a number literal carries its value"),
    }
    let ts = scan_tokens("\"\"\n\"string\"".to_string()).unwrap();
    match &ts[1].literal {
        Literal::Text(s) => assert_eq!(s, "string"),
        _ => panic!("a string literal carries its text"),
    }
    assert_eq!(ts[1].lexeme, "\"string\"");
    assert_eq!(kinds("space    tabs\t\t\t\tnewlines\n\n\n\nend").len(), 5);
}

#[test]
fn scanner_reports_bad_characters() {
    let e = scan_tokens("print 1;\n@ #".to_string()).unwrap_err();
    assert_eq!(
        e,
        vec![
            "[line 2] Error: Unexpected character.".to_string(),
            "[line 2] Error: Unexpected character.".to_string(),
        ]
    );
}

#[test]
fn scanner_lines_never_decrease() {
    let ts = scan_tokens("var a = 1;\n\"two\nlines\" b\n// note\nc".to_string()).unwrap();
    assert!(ts.windows(2).all(|w| w[0].line <= w[1].line));
    assert_eq!(ts.last().unwrap().t, TokenType::Eof);
    assert_eq!(ts.last().unwrap().line, 5);
}

#[test]
fn character_classes() {
    assert!(is_digit('0') && is_digit('9') && !is_digit('a'));
    assert!(is_alpha('a') && is_alpha('Z') && is_alpha('_') && !is_alpha('1'));
    assert!(is_alpha_numeric('7') && is_alpha_numeric('q') && !is_alpha_numeric('-'));
}

#[test]
fn keyword_lookup() {
    let word: Vec<char> = "while".chars().collect();
    assert_eq!(TokenType::keyword_or_id(&word), TokenType::While);
    let word: Vec<char> = "whiles".chars().collect();
    assert_eq!(TokenType::keyword_or_id(&word), TokenType::Identifier);
}

#[test]
fn number_text() {
    let digits: Vec<char> = "12345".chars().collect();
    assert_eq!(Number::from_literal(&digits, 2).unwrap().to_text(), "123.45");
    let third = Number::from_int(1).div(Number::from_int(3)).unwrap();
    assert_eq!(third.to_text(), "0.3333333333333333");
    assert_eq!(Number::from_int(-7).div(Number::from_int(2)).unwrap().to_text(), "-3.5");
    assert_eq!(Number::from_int(6).div(Number::from_int(-3)).unwrap().to_text(), "-2");
    assert_eq!(Number::from_millis(1500).to_text(), "1.5");
    let big: Vec<char> = "99999999999999999999".chars().collect();
    assert!(Number::from_literal(&big, 0).is_none());
    assert!(Number::from_int(i64::MAX).add(Number::from_int(1)).is_none());
    assert!(Number::from_int(1).less_than(Number::from_int(2)));
    assert!(Number::from_int(2).div(Number::from_int(4)).unwrap().equals(
        Number::from_int(1).div(Number::from_int(2)).unwrap()
    ));
}

#[test]
fn last_line_counts_every_newline() {
    let ts = scan_tokens("// one\nvar s = \"a\nb\";\n\nprint s;\n".to_string()).unwrap();
    assert_eq!(ts.last().unwrap().line, 6);
}
