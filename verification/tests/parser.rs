use rlox::frontend::ast::expr::BinaryExpr;
use rlox::frontend::ast::expr::BinaryOperator;
use rlox::frontend::ast::expr::Boxer;
use rlox::frontend::ast::expr::Expr;
use rlox::frontend::parser::parse;
use rlox::frontend::parser::Parser;
use rlox::frontend::scanner::scan;
use rlox::frontend::token::Token;
use rlox::frontend::token::TokenType;
use rlox::result::Error;

fn parse_text(text: &str) -> Result<Expr, Error> {
    let (tokens, errors) = scan(text);
    assert!(errors.is_empty());
    parse(tokens)
}

fn lit(text: &str) -> Expr {
    Expr::Literal(String::from(text))
}

fn tok(kind: TokenType, text: &str, pos: usize) -> Token {
    Token::new(kind, 1, String::from(text), pos)
}

fn binary(lhs: Expr, op: Token, rhs: Expr) -> Expr {
    Expr::BinaryExpr(Box::new(BinaryExpr::new(Box::new(lhs), op, Box::new(rhs))))
}

fn parse_error(text: &str) -> (u64, u64, String, String) {
    match parse_text(text) {
        Err(Error::Parse(line, pos, message, near)) => (line, pos, message, near),
        other => panic!("{:?}", other),
    }
}

#[test]
fn subtraction_nests_to_the_left() {
    let e = parse_text("1 - 2 - 3").unwrap();
    assert_eq!(e.to_string(), "(- (- 1 2) 3)");
    assert_eq!(
        e,
        binary(
            binary(lit("1"), tok(TokenType::MINUS, "-", 3), lit("2")),
            tok(TokenType::MINUS, "-", 7),
            lit("3")
        )
    );
}

#[test]
fn every_binary_level_nests_to_the_left() {
    assert_eq!(parse_text("1 == 2 != 3").unwrap().to_string(), "(!= (== 1 2) 3)");
    assert_eq!(parse_text("1 < 2 >= 3 > 4 <= 5").unwrap().to_string(), "(<= (> (>= (< 1 2) 3) 4) 5)");
    assert_eq!(parse_text("1 + 2 - 3").unwrap().to_string(), "(- (+ 1 2) 3)");
    assert_eq!(parse_text("8 / 4 * 2").unwrap().to_string(), "(* (/ 8 4) 2)");
}

#[test]
fn grouping_binds_first() {
    let e = parse_text("(1 + 2) * 3").unwrap();
    assert_eq!(e.to_string(), "(* (+ 1 2) 3)");
    assert_eq!(
        e,
        binary(
            Expr::Grouping(Box::new(binary(lit("1"), tok(TokenType::PLUS, "+", 4), lit("2")))),
            tok(TokenType::STAR, "*", 9),
            lit("3")
        )
    );
}

#[test]
fn tighter_levels_bind_first() {
    assert_eq!(parse_text("1 + 2 * 3").unwrap().to_string(), "(+ 1 (* 2 3))");
    assert_eq!(parse_text("1 * 2 + 3").unwrap().to_string(), "(+ (* 1 2) 3)");
    assert_eq!(parse_text("1 + 2 < 3 * 4 == true").unwrap().to_string(), "(== (< (+ 1 2) (* 3 4)) true)");
    assert_eq!(parse_text("-1 * 2").unwrap().to_string(), "(* (- 1) 2)");
    assert_eq!(parse_text("!true == false").unwrap().to_string(), "(== (! true) false)");
}

#[test]
fn prefix_operators_chain() {
    let e = parse_text("--1").unwrap();
    assert_eq!(
        e,
        Expr::Unary(
            tok(TokenType::MINUS, "-", 1),
            Box::new(Expr::Unary(tok(TokenType::MINUS, "-", 2), Box::new(lit("1"))))
        )
    );
    assert_eq!(e.to_string(), "(- (- 1))");
    assert_eq!(parse_text("!-!x_is_no_literal").is_err(), true);
    assert_eq!(parse_text("!-!nil").unwrap().to_string(), "(! (- (! nil)))");
}

#[test]
fn literals() {
    assert_eq!(parse_text("12.5").unwrap(), lit("12.5"));
    assert_eq!(parse_text("\"a b\"").unwrap(), lit("a b"));
    assert_eq!(parse_text("true").unwrap(), lit("true"));
    assert_eq!(parse_text("false").unwrap(), lit("false"));
    assert_eq!(parse_text("nil").unwrap(), lit("nil"));
    assert_eq!(
        parse_text("((nil))").unwrap(),
        Expr::Grouping(Expr::Grouping(lit("nil").boxed()).boxed())
    );
}

#[test]
fn missing_closing_parenthesis() {
    assert_eq!(
        parse_error("(1 + 2"),
        (1, 7, String::from("expected ')' after expression"), String::from("\0"))
    );
    assert_eq!(
        parse_error("(1 + 2 3"),
        (1, 8, String::from("expected ')' after expression"), String::from("3"))
    );
    assert_eq!(
        parse_error("((1)\n"),
        (2, 1, String::from("expected ')' after expression"), String::from("\0"))
    );
}

#[test]
fn missing_operand() {
    assert_eq!(parse_error(""), (1, 1, String::from("expected expression"), String::from("\0")));
    assert_eq!(parse_error("1 +"), (1, 4, String::from("expected expression"), String::from("\0")));
    assert_eq!(parse_error("1 + * 2"), (1, 5, String::from("expected expression"), String::from("*")));
    assert_eq!(parse_error("()"), (1, 2, String::from("expected expression"), String::from(")")));
    assert_eq!(parse_error("-"), (1, 2, String::from("expected expression"), String::from("\0")));
    assert_eq!(parse_error("x"), (1, 1, String::from("expected expression"), String::from("x")));
    assert_eq!(parse_error("\n  var"), (2, 3, String::from("expected expression"), String::from("var")));
}

#[test]
fn tokens_behind_the_expression() {
    assert_eq!(parse_error("1 2"), (1, 3, String::from("expected end of input"), String::from("2")));
    assert_eq!(parse_error("(1))"), (1, 4, String::from("expected end of input"), String::from(")")));
    assert_eq!(parse_error("1 = 2"), (1, 3, String::from("expected end of input"), String::from("=")));
}

#[test]
fn tokens_that_run_out() {
    match parse(Vec::new()) {
        Err(Error::Parse(0, 0, message, near)) => {
            assert_eq!(message, "expected expression");
            assert_eq!(near, "unexpected EOF");
        }
        other => panic!("{:?}", other),
    }
    let open = vec![tok(TokenType::LeftParen, "(", 1), tok(TokenType::NUMBER, "1", 2)];
    match parse(open) {
        Err(Error::Parse(0, 0, message, near)) => {
            assert_eq!(message, "expected ')' after expression");
            assert_eq!(near, "unexpected EOF");
        }
        other => panic!("{:?}", other),
    }
    let whole = vec![tok(TokenType::NUMBER, "1", 1)];
    assert_eq!(parse(whole).unwrap(), lit("1"));
}

#[test]
fn parser_steps() {
    let (tokens, _) = scan("1 + 2");
    let mut parser = Parser::new(tokens);
    assert_eq!(parser.current, 0);
    assert!(parser.previous().is_none());
    assert_eq!(parser.peek().unwrap().val, "1");
    assert!(parser.check(&TokenType::NUMBER));
    assert!(!parser.check(&TokenType::PLUS));
    assert!(!parser.match_type(&vec![TokenType::PLUS, TokenType::MINUS]));
    assert_eq!(parser.current, 0);
    assert_eq!(parser.advance().unwrap().val, "1");
    assert!(parser.match_type(&vec![TokenType::MINUS, TokenType::PLUS]));
    assert_eq!(parser.previous().unwrap().val, "+");
    assert_eq!(parser.primary().unwrap(), lit("2"));
    assert!(!parser.is_at_end());
    assert_eq!(parser.advance().unwrap().tok_type, TokenType::EOF);
    assert!(parser.is_at_end());
    assert_eq!(parser.advance().unwrap().tok_type, TokenType::EOF);
    assert_eq!(parser.current, 4);
    assert!(parser.peek().is_none());
}

#[test]
fn expect_next_reports_what_is_there() {
    let (tokens, _) = scan("1 )");
    let mut parser = Parser::new(tokens);
    match parser.expect_next(&vec![TokenType::RightParen], "expected ')'") {
        Err(Error::Parse(1, 1, message, near)) => {
            assert_eq!(message, "expected ')'");
            assert_eq!(near, "1");
        }
        other => panic!("{:?}", other),
    }
    assert_eq!(parser.current, 0);
    parser.advance();
    assert_eq!(parser.expect_next(&vec![TokenType::RightParen], "expected ')'").unwrap().val, ")");
    assert_eq!(parser.current, 2);
}

#[test]
fn rendering_of_each_node() {
    assert_eq!(Expr::Noop.to_string(), "");
    assert_eq!(lit("1").to_string(), "1");
    assert_eq!(Expr::Grouping(Box::new(lit("1"))).to_string(), "1");
    assert_eq!(Expr::Unary(tok(TokenType::BANG, "!", 1), Box::new(lit("x"))).to_string(), "(! x)");
    assert_eq!(binary(lit("1"), tok(TokenType::PLUS, "+", 1), lit("2")).to_string(), "(+ 1 2)");
}

#[test]
fn copies_are_equal() {
    let e = parse_text("(1 + -2) * \"s\" == nil").unwrap();
    assert_eq!(e.copy(), e);
    assert_eq!(e.clone(), e);
}

#[test]
fn parse_of_rendered_literal_is_the_literal() {
    for text in ["1", "2.5", "true", "false", "nil"] {
        let e = parse_text(text).unwrap();
        assert_eq!(parse_text(&e.to_string()).unwrap(), e);
    }
}

#[test]
fn operator_symbols() {
    assert_eq!(BinaryOperator::Plus.to_string(), "+");
    assert_eq!(BinaryOperator::Minus.to_string(), "-");
    assert_eq!(BinaryOperator::Slash.to_string(), "/");
    assert_eq!(BinaryOperator::Star.to_string(), "*");
    assert_eq!(BinaryOperator::Equal.to_string(), "=");
    assert_eq!(BinaryOperator::BangEqual.to_string(), "!=");
    assert_eq!(BinaryOperator::Greater.to_string(), ">");
    assert_eq!(BinaryOperator::GreaterEqual.to_string(), ">=");
    assert_eq!(BinaryOperator::Less.to_string(), "<");
    assert_eq!(BinaryOperator::LessEqual.to_string(), "<=");
}

#[test]
fn tokens_that_spell_a_tree() {
    let e = parse_text("(1 + 2) * -3").unwrap();
    let tokens = e.tokens();
    let kinds: Vec<TokenType> = tokens.iter().map(|t| t.tok_type).collect();
    assert_eq!(
        kinds,
        vec![
            TokenType::LeftParen,
            TokenType::STRING,
            TokenType::PLUS,
            TokenType::STRING,
            TokenType::RightParen,
            TokenType::STAR,
            TokenType::MINUS,
            TokenType::STRING,
        ]
    );
    let texts: Vec<&str> = tokens.iter().map(|t| t.val.as_str()).collect();
    assert_eq!(texts, vec!["(", "1", "+", "2", ")", "*", "-", "3"]);
    assert_eq!(tokens[2], tok(TokenType::PLUS, "+", 4));
    assert_eq!(tokens[0], Token::new(TokenType::LeftParen, 0, String::from("("), 0));
    assert!(Expr::Noop.tokens().is_empty());
}

#[test]
fn a_tree_is_parsed_again_from_its_tokens() {
    let texts = [
        "1",
        "\"a string\"",
        "nil",
        "1 - 2 - 3",
        "(1 + 2) * 3",
        "--1",
        "!(1 == 2) != (3 < 4)",
        "1 + 2 * 3 - 4 / 5 >= 6 == true",
        "((1))",
        "-(-(1 + 2) * 3)",
        "1 <\n 2 ==\n 3 > 4",
    ];
    for text in texts {
        let e = parse_text(text).unwrap();
        let mut tokens = e.tokens();
        assert_eq!(parse(tokens.clone()).unwrap(), e);
        tokens.push(Token::new(TokenType::EOF, 9, String::from("\0"), 9));
        assert_eq!(parse(tokens).unwrap(), e);
    }
}

#[test]
fn the_prefix_form_is_not_in_the_grammar() {
    let e = parse_text("1 - 2").unwrap();
    assert_eq!(e.to_string(), "(- 1 2)");
    assert_eq!(
        parse_error(&e.to_string()),
        (1, 6, String::from("expected ')' after expression"), String::from("2"))
    );
}
