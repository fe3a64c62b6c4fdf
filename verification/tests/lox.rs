use rlox::frontend::ast::expr::Expr;
use rlox::lox::Lox;
use rlox::result::Error;

#[test]
fn run_yields_the_tree() {
    let e = Lox::run("1 + 2 * 3").unwrap();
    assert_eq!(e.to_string(), "(+ 1 (* 2 3))");
    assert_eq!(Lox::run("\"x\"").unwrap(), Expr::Literal(String::from("x")));
}

#[test]
fn run_yields_every_lexical_error() {
    let errors = Lox::run("1 @ 2 # \"open").unwrap_err();
    assert_eq!(errors.len(), 3);
    let mut seen = Vec::new();
    for e in errors {
        match e {
            Error::Lexical(line, pos, message, whence) => seen.push((line, pos, message, whence)),
            other => panic!("{:?}", other),
        }
    }
    assert_eq!(
        seen,
        vec![
            (1, 3, String::from("unexpected character"), String::from("@")),
            (1, 7, String::from("unexpected character"), String::from("#")),
            (1, 9, String::from("unterminated string"), String::from("\"open")),
        ]
    );
}

#[test]
fn run_yields_the_syntax_error() {
    let errors = Lox::run("(1 + 2").unwrap_err();
    assert_eq!(errors.len(), 1);
    match &errors[0] {
        Error::Parse(1, 7, message, near) => {
            assert_eq!(message, "expected ')' after expression");
            assert_eq!(near, "\0");
        }
        other => panic!("{:?}", other),
    }
}
