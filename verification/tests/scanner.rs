use rlox::frontend::keywords::lookup;
use rlox::frontend::lexis::starts_word;
use rlox::frontend::lexis::starts_word_given;
use rlox::frontend::lexis::CharClass;
use rlox::frontend::scanner::is_alphanumeric;
use rlox::frontend::scanner::is_digit;
use rlox::frontend::scanner::scan;
use rlox::frontend::scanner::Scanner;
use rlox::frontend::token::Token;
use rlox::frontend::token::TokenType;
use rlox::result::Error;

fn kinds(tokens: &[Token]) -> Vec<TokenType> {
    tokens.iter().map(|t| t.tok_type).collect()
}

fn texts(tokens: &[Token]) -> Vec<String> {
    tokens.iter().map(|t| t.val.clone()).collect()
}

fn places(tokens: &[Token]) -> Vec<(usize, usize)> {
    tokens.iter().map(|t| (t.line, t.pos)).collect()
}

#[test]
fn test_scan_identifier() {
    let src = String::from("People123123{};");
    let mut scanner = Scanner::new(&src);
    scanner.scan_identifier();
    let mut it = scanner.tokens.iter();

    assert_eq!(it.next().unwrap().val, "People123123");

    let src = String::from("class People_123123{ var 2=3};");
    let mut scanner = Scanner::new(&src);
    scanner.scan_tokens();
    let mut it = scanner.tokens.iter();
    assert_eq!(it.next().unwrap().val, "class");
    assert_eq!(it.next().unwrap().val, "People_123123");
    assert_eq!(it.next().unwrap().val, "{");
    assert_eq!(it.next().unwrap().val, "var");
    assert_eq!(it.next().unwrap().val, "2");
    assert_eq!(it.next().unwrap().val, "=");
    assert_eq!(it.next().unwrap().val, "3");
    assert_eq!(it.next().unwrap().val, "}");
    assert_eq!(it.next().unwrap().val, ";");

    let src = String::from("class People-123123{ var 2=3};");
    let mut scanner = Scanner::new(&src);
    scanner.scan_tokens();
    let mut it = scanner.tokens.iter();
    assert_eq!(it.next().unwrap().val, "class");
    assert_eq!(it.next().unwrap().val, "People");
    assert_eq!(it.next().unwrap().val, "-");
    assert_eq!(it.next().unwrap().val, "123123");
    assert_eq!(it.next().unwrap().val, "{");
    assert_eq!(it.next().unwrap().val, "var");
    assert_eq!(it.next().unwrap().val, "2");
    assert_eq!(it.next().unwrap().val, "=");
    assert_eq!(it.next().unwrap().val, "3");
    assert_eq!(it.next().unwrap().val, "}");
    assert_eq!(it.next().unwrap().val, ";");
}

#[test]
fn test_scan_number() {
    let src = String::from("23333");
    let mut scanner = Scanner::new(&src);
    scanner.scan_number();
    assert_eq!(scanner.tokens.len(), 1);
    let mut it = scanner.tokens.iter();
    assert_eq!(it.next().unwrap().val, "23333");

    let src = String::from("2.3333--3333");
    let mut scanner = Scanner::new(&src);
    scanner.scan_tokens();
    let mut it = scanner.tokens.iter();
    assert_eq!(it.next().unwrap().val, "2.3333");
    assert_eq!(it.next().unwrap().val, "-");
    assert_eq!(it.next().unwrap().val, "-");
    assert_eq!(it.next().unwrap().val, "3333");
}

#[test]
fn empty_text_is_one_end_token() {
    let (tokens, errors) = scan("");
    assert_eq!(tokens, vec![Token::new(TokenType::EOF, 1, String::from("\0"), 1)]);
    assert!(errors.is_empty());
}

#[test]
fn two_character_operators_win() {
    let cases = [
        ("!=", TokenType::BangEqual),
        ("==", TokenType::EqualEqual),
        ("<=", TokenType::LessEqual),
        (">=", TokenType::GreaterEqual),
    ];
    for (text, kind) in cases {
        let (tokens, errors) = scan(text);
        assert!(errors.is_empty());
        assert_eq!(
            tokens,
            vec![
                Token::new(kind, 1, String::from(text), 1),
                Token::new(TokenType::EOF, 1, String::from("\0"), 3),
            ]
        );
    }
}

#[test]
fn one_character_operators_alone() {
    let (tokens, errors) = scan("! = < >");
    assert!(errors.is_empty());
    assert_eq!(
        kinds(&tokens),
        vec![
            TokenType::BANG,
            TokenType::EQUAL,
            TokenType::LESS,
            TokenType::GREATER,
            TokenType::EOF
        ]
    );
    assert_eq!(texts(&tokens), vec!["!", "=", "<", ">", "\0"]);
    assert_eq!(places(&tokens), vec![(1, 1), (1, 3), (1, 5), (1, 7), (1, 8)]);
}

#[test]
fn three_equals_are_two_tokens() {
    let (tokens, _) = scan("===");
    assert_eq!(kinds(&tokens), vec![TokenType::EqualEqual, TokenType::EQUAL, TokenType::EOF]);
    assert_eq!(places(&tokens), vec![(1, 1), (1, 3), (1, 4)]);
}

#[test]
fn punctuation_kinds() {
    let (tokens, errors) = scan("(){},.-+;*/");
    assert!(errors.is_empty());
    assert_eq!(
        kinds(&tokens),
        vec![
            TokenType::LeftParen,
            TokenType::RightParen,
            TokenType::LeftBrace,
            TokenType::RightBrace,
            TokenType::COMMA,
            TokenType::DOT,
            TokenType::MINUS,
            TokenType::PLUS,
            TokenType::SEMICOLON,
            TokenType::STAR,
            TokenType::SLASH,
            TokenType::EOF,
        ]
    );
    assert_eq!(texts(&tokens), vec!["(", ")", "{", "}", ",", ".", "-", "+", ";", "*", "/", "\0"]);
}

#[test]
fn lines_and_columns() {
    let (tokens, errors) = scan("a\n\n  b\nc");
    assert!(errors.is_empty());
    assert_eq!(texts(&tokens), vec!["a", "b", "c", "\0"]);
    assert_eq!(places(&tokens), vec![(1, 1), (3, 3), (4, 1), (4, 2)]);
}

#[test]
fn token_after_line_terminators() {
    for n in 0..5usize {
        let text = format!("{}x", "\n".repeat(n));
        let (tokens, _) = scan(&text);
        assert_eq!(tokens[0], Token::new(TokenType::IDENTIFIER, 1 + n, String::from("x"), 1));
        assert_eq!(tokens[1], Token::new(TokenType::EOF, 1 + n, String::from("\0"), 2));
    }
}

#[test]
fn end_token_after_final_line_terminator() {
    let (tokens, _) = scan("1\n");
    assert_eq!(tokens[1], Token::new(TokenType::EOF, 2, String::from("\0"), 1));
}

#[test]
fn comment_is_no_token() {
    let (tokens, errors) = scan("1 // comment\n2");
    assert!(errors.is_empty());
    assert_eq!(
        tokens,
        vec![
            Token::new(TokenType::NUMBER, 1, String::from("1"), 1),
            Token::new(TokenType::NUMBER, 2, String::from("2"), 1),
            Token::new(TokenType::EOF, 2, String::from("\0"), 2),
        ]
    );
}

#[test]
fn comment_at_end_of_text() {
    let (tokens, errors) = scan("1 // no end of line");
    assert!(errors.is_empty());
    assert_eq!(kinds(&tokens), vec![TokenType::NUMBER, TokenType::EOF]);
    assert_eq!(places(&tokens), vec![(1, 1), (1, 20)]);
}

#[test]
fn slash_alone_is_a_token() {
    let (tokens, _) = scan("6 / 3");
    assert_eq!(kinds(&tokens), vec![
        TokenType::NUMBER,
        TokenType::SLASH,
        TokenType::NUMBER,
        TokenType::EOF
    ]);
}

#[test]
fn number_text_is_kept_as_written() {
    let (tokens, errors) = scan("3.14");
    assert!(errors.is_empty());
    assert_eq!(tokens[0], Token::new(TokenType::NUMBER, 1, String::from("3.14"), 1));
    assert_eq!(tokens.len(), 2);
}

#[test]
fn trailing_dot_is_its_own_token() {
    let (tokens, _) = scan("12.");
    assert_eq!(kinds(&tokens), vec![TokenType::NUMBER, TokenType::DOT, TokenType::EOF]);
    assert_eq!(texts(&tokens), vec!["12", ".", "\0"]);
    let (tokens, _) = scan("1.2.3");
    assert_eq!(texts(&tokens), vec!["1.2", ".", "3", "\0"]);
    let (tokens, _) = scan("1.x");
    assert_eq!(texts(&tokens), vec!["1", ".", "x", "\0"]);
}

#[test]
fn string_text_is_what_stands_between_the_quotes() {
    let (tokens, errors) = scan("\"abc\" \"\"");
    assert!(errors.is_empty());
    assert_eq!(
        tokens,
        vec![
            Token::new(TokenType::STRING, 1, String::from("abc"), 1),
            Token::new(TokenType::STRING, 1, String::new(), 7),
            Token::new(TokenType::EOF, 1, String::from("\0"), 9),
        ]
    );
}

#[test]
fn string_over_two_lines() {
    let (tokens, errors) = scan("\"a\nb\" c");
    assert!(errors.is_empty());
    assert_eq!(
        tokens,
        vec![
            Token::new(TokenType::STRING, 1, String::from("a\nb"), 1),
            Token::new(TokenType::IDENTIFIER, 2, String::from("c"), 4),
            Token::new(TokenType::EOF, 2, String::from("\0"), 5),
        ]
    );
}

#[test]
fn string_has_no_escapes() {
    let (tokens, _) = scan("\"a\\\" b");
    assert_eq!(texts(&tokens), vec!["a\\", "b", "\0"]);
}

#[test]
fn unterminated_string_is_one_error() {
    let (tokens, errors) = scan("\"abc");
    assert_eq!(tokens, vec![Token::new(TokenType::EOF, 1, String::from("\0"), 5)]);
    assert_eq!(errors.len(), 1);
    match &errors[0] {
        Error::Lexical(line, pos, message, whence) => {
            assert_eq!((*line, *pos), (1, 1));
            assert_eq!(message, "unterminated string");
            assert_eq!(whence, "\"abc");
        }
        other => panic!("{:?}", other),
    }
}

#[test]
fn unterminated_string_after_tokens() {
    let (tokens, errors) = scan("1 +\n \"a\nb");
    assert_eq!(kinds(&tokens), vec![TokenType::NUMBER, TokenType::PLUS, TokenType::EOF]);
    assert_eq!(tokens[2].line, 3);
    assert_eq!(tokens[2].pos, 2);
    assert_eq!(errors.len(), 1);
    match &errors[0] {
        Error::Lexical(line, pos, message, whence) => {
            assert_eq!((*line, *pos), (2, 2));
            assert_eq!(message, "unterminated string");
            assert_eq!(whence, "\"a\nb");
        }
        other => panic!("{:?}", other),
    }
}

#[test]
fn unexpected_characters_are_skipped_one_by_one() {
    let (tokens, errors) = scan("1 @ 2 #\n$");
    assert_eq!(texts(&tokens), vec!["1", "2", "\0"]);
    assert_eq!(errors.len(), 3);
    let mut seen = Vec::new();
    for e in &errors {
        match e {
            Error::Lexical(line, pos, message, whence) => {
                assert_eq!(message, "unexpected character");
                seen.push((*line, *pos, whence.clone()));
            }
            other => panic!("{:?}", other),
        }
    }
    assert_eq!(
        seen,
        vec![(1, 3, String::from("@")), (1, 7, String::from("#")), (2, 1, String::from("$"))]
    );
}

#[test]
fn letters_outside_ascii() {
    let (tokens, errors) = scan("caf\u{e9} = \u{4e2d}\u{6587}_1");
    assert!(errors.is_empty());
    assert_eq!(
        tokens,
        vec![
            Token::new(TokenType::IDENTIFIER, 1, String::from("caf\u{e9}"), 1),
            Token::new(TokenType::EQUAL, 1, String::from("="), 6),
            Token::new(TokenType::IDENTIFIER, 1, String::from("\u{4e2d}\u{6587}_1"), 8),
            Token::new(TokenType::EOF, 1, String::from("\0"), 12),
        ]
    );
    assert!(is_alphanumeric("caf\u{e9}"));
}

#[test]
fn signs_outside_ascii_are_unexpected() {
    let (tokens, errors) = scan("\u{a7}1");
    assert_eq!(texts(&tokens), vec!["1", "\0"]);
    assert_eq!(places(&tokens), vec![(1, 2), (1, 3)]);
    assert_eq!(errors.len(), 1);
    match &errors[0] {
        Error::Lexical(1, 1, message, whence) => {
            assert_eq!(message, "unexpected character");
            assert_eq!(whence, "\u{a7}");
        }
        other => panic!("{:?}", other),
    }
    assert!(!is_alphanumeric("\u{a7}"));
}

#[test]
fn word_starts() {
    assert!(starts_word('a'));
    assert!(starts_word('Z'));
    assert!(starts_word('_'));
    assert!(starts_word('\u{e9}'));
    assert!(!starts_word('1'));
    assert!(!starts_word(' '));
    assert!(!starts_word('\u{a7}'));
    assert!(starts_word_given('q', false));
    assert!(starts_word_given('\u{e9}', true));
    assert!(!starts_word_given('\u{e9}', false));
    assert!(!starts_word_given('1', true));
    assert!(!starts_word_given('-', true));
}

#[test]
fn character_classes() {
    assert!(CharClass::Digit.contains('0'));
    assert!(CharClass::Digit.contains('9'));
    assert!(!CharClass::Digit.contains('a'));
    assert!(!CharClass::Digit.contains('\u{663}'));
    assert!(CharClass::Word.contains('a'));
    assert!(CharClass::Word.contains('5'));
    assert!(CharClass::Word.contains('_'));
    assert!(CharClass::Word.contains('\u{663}'));
    assert!(!CharClass::Word.contains('-'));
    assert!(CharClass::CommentText.contains('"'));
    assert!(!CharClass::CommentText.contains('\n'));
    assert!(CharClass::StringText.contains('\n'));
    assert!(!CharClass::StringText.contains('"'));
}

#[test]
fn every_reserved_word() {
    let words = [
        ("and", TokenType::AND),
        ("class", TokenType::CLASS),
        ("else", TokenType::ELSE),
        ("false", TokenType::FALSE),
        ("fun", TokenType::FUN),
        ("for", TokenType::FOR),
        ("if", TokenType::IF),
        ("nil", TokenType::NIL),
        ("or", TokenType::OR),
        ("print", TokenType::PRINT),
        ("return", TokenType::RETURN),
        ("super", TokenType::SUPER),
        ("this", TokenType::THIS),
        ("true", TokenType::TRUE),
        ("var", TokenType::VAR),
        ("while", TokenType::WHILE),
    ];
    for (word, kind) in words {
        assert_eq!(lookup(word), Some(kind));
        let (tokens, errors) = scan(word);
        assert!(errors.is_empty());
        assert_eq!(tokens[0], Token::new(kind, 1, String::from(word), 1));
        assert_eq!(tokens.len(), 2);
    }
}

#[test]
fn words_that_only_look_reserved() {
    for word in ["And", "classes", "_if", "nil0", "fo", "whil", "orr", "x"] {
        assert_eq!(lookup(word), None);
        let (tokens, _) = scan(word);
        assert_eq!(tokens[0], Token::new(TokenType::IDENTIFIER, 1, String::from(word), 1));
        assert_eq!(tokens.len(), 2);
    }
    assert_eq!(lookup(""), None);
}

#[test]
fn blank_space_is_no_token() {
    let (tokens, errors) = scan(" \t\r\n \t");
    assert!(errors.is_empty());
    assert_eq!(tokens, vec![Token::new(TokenType::EOF, 2, String::from("\0"), 3)]);
}

#[test]
fn digits_and_words() {
    assert!(is_digit("7"));
    assert!(is_digit("0"));
    assert!(is_digit("2024"));
    assert!(!is_digit(""));
    assert!(!is_digit("a"));
    assert!(!is_digit("1a"));
    assert!(!is_digit("."));
    assert!(is_alphanumeric("a"));
    assert!(is_alphanumeric("_"));
    assert!(is_alphanumeric("Ab_9"));
    assert!(is_alphanumeric(""));
    assert!(!is_alphanumeric("a-b"));
    assert!(!is_alphanumeric(" "));
}

#[test]
fn scanner_steps() {
    let mut scanner = Scanner::new("ab\nc");
    assert_eq!(scanner.current_char(), '\0');
    assert_eq!(scanner.peek_next(), Some('a'));
    assert_eq!(scanner.advance(), Some('a'));
    assert_eq!(scanner.current_char(), 'a');
    assert_eq!(scanner.peek(Some(2)), Some('b'));
    assert_eq!(scanner.peek(Some(0)), None);
    assert_eq!(scanner.peek(Some(5)), None);
    assert!(!scanner.match_str('x'));
    assert!(scanner.match_str('b'));
    assert_eq!((scanner.line, scanner.inline_offset), (1, 3));
    assert_eq!(scanner.advance(), Some('\n'));
    assert_eq!((scanner.line, scanner.inline_offset), (2, 1));
    assert_eq!(scanner.advance(), Some('c'));
    assert!(scanner.is_at_end());
    assert_eq!(scanner.advance(), None);
    assert_eq!(scanner.current, 4);
    assert_eq!(scanner.slice(0, 2), "ab");
}

#[test]
fn scanner_keeps_what_it_had_emitted() {
    let mut scanner = Scanner::new("1 2");
    let first = scanner.scan_tokens();
    assert_eq!(first.len(), 3);
    let second = scanner.scan_tokens();
    assert_eq!(second.len(), 4);
    assert_eq!(second[3].tok_type, TokenType::EOF);
}
