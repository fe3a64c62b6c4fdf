use rlox::frontend::token::Token;
use rlox::frontend::token::TokenType;

#[test]
fn test_token() {
    let line_num = 32;
    let t = Token::new(TokenType::AND, line_num, String::from("&"), 5);
    assert_eq!("&", t.val);
    assert_eq!(32, line_num);
    assert_eq!(TokenType::AND, t.tok_type);
}

#[test]
fn test_token_to_string() {
    let line_num = 32;
    let t = Token::new(TokenType::AND, line_num, String::from("&"), 5);
    assert_eq!("AND &", t.to_string());
}

#[test]
fn token_new_keeps_every_field() {
    let t = Token::new(TokenType::NUMBER, 7, String::from("3.14"), 12);
    assert_eq!(t.tok_type, TokenType::NUMBER);
    assert_eq!(t.line, 7);
    assert_eq!(t.val, "3.14");
    assert_eq!(t.pos, 12);
}

#[test]
fn token_clone_is_equal() {
    let t = Token::new(TokenType::STRING, 2, String::from("a b"), 3);
    assert_eq!(t.clone(), t);
}

#[test]
fn token_kind_names() {
    assert_eq!(TokenType::LeftParen.to_string(), "LeftParen");
    assert_eq!(TokenType::RightBrace.to_string(), "RightBrace");
    assert_eq!(TokenType::BangEqual.to_string(), "BangEqual");
    assert_eq!(TokenType::IDENTIFIER.to_string(), "IDENTIFIER");
    assert_eq!(TokenType::WHILE.to_string(), "WHILE");
    assert_eq!(TokenType::EOF.to_string(), "EOF");
}

#[test]
fn token_to_string_with_empty_text() {
    let t = Token::new(TokenType::STRING, 1, String::new(), 1);
    assert_eq!(t.to_string(), "STRING ");
}
