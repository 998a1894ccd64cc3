use defpub::lexer::LexError;
use defpub::lexer::Token;
use defpub::lexer::tokenize;

#[test]
fn tokenize_full_source() {
    let tokens = tokenize("defpub add(a: int, b: int):\n    return a + b").unwrap();
    assert_eq!(
        tokens,
        vec![
            Token::DefPub,
            Token::Identifier("add".to_string()),
            Token::LeftParen,
            Token::Identifier("a".to_string()),
            Token::Colon,
            Token::IntType,
            Token::Comma,
            Token::Identifier("b".to_string()),
            Token::Colon,
            Token::IntType,
            Token::RightParen,
            Token::Colon,
            Token::Return,
            Token::Identifier("a".to_string()),
            Token::Plus,
            Token::Identifier("b".to_string()),
            Token::EOF,
        ]
    );
}

#[test]
fn tokenize_empty_input() {
    assert_eq!(tokenize("").unwrap(), vec![Token::EOF]);
}

#[test]
fn tokenize_whitespace_only() {
    assert_eq!(tokenize(" \t\r\n").unwrap(), vec![Token::EOF]);
}

#[test]
fn tokenize_keywords_take_precedence() {
    let tokens = tokenize("int defpub return").unwrap();
    assert_eq!(
        tokens,
        vec![Token::IntType, Token::DefPub, Token::Return, Token::EOF]
    );
}

#[test]
fn tokenize_identifier_with_digits_and_underscores() {
    let tokens = tokenize("ab_1c x9").unwrap();
    assert_eq!(
        tokens,
        vec![
            Token::Identifier("ab_1c".to_string()),
            Token::Identifier("x9".to_string()),
            Token::EOF,
        ]
    );
}

#[test]
fn tokenize_unrecognized_character() {
    let err = tokenize("a $ b").unwrap_err();
    assert_eq!(err, LexError { ch: '$', pos: 2 });
}

#[test]
fn tokenize_reports_first_bad_character() {
    let err = tokenize("x # $").unwrap_err();
    assert_eq!(err, LexError { ch: '#', pos: 2 });
}
