//! The parser: from tokens to an expression, by recursive descent.

use crate::frontend::ast::expr::BinaryExpr;
use crate::frontend::ast::expr::Boxer;
use crate::frontend::ast::expr::Expr;
use crate::frontend::ast::expr::ExprView;
use crate::frontend::grammar::end_of_tokens;
use crate::frontend::grammar::error_at;
use crate::frontend::grammar::is_literal;
use crate::frontend::grammar::is_prefix;
use crate::frontend::grammar::lemma_operand_advances;
use crate::frontend::grammar::parse_binary;
use crate::frontend::grammar::parse_binary_rest;
use crate::frontend::grammar::parse_expression;
use crate::frontend::grammar::parse_operand;
use crate::frontend::grammar::parse_primary;
use crate::frontend::grammar::parse_tokens;
use crate::frontend::grammar::parse_unary;
use crate::frontend::grammar::parse_whole;
use crate::frontend::grammar::Level;
use crate::frontend::grammar::Parsed;
use crate::frontend::token::token_views;
use crate::frontend::token::Token;
use crate::frontend::token::TokenType;
use crate::frontend::token::TokenView;
use crate::result::Error;
use crate::result::ErrorView;
use crate::result::Result;
use vstd::prelude::*;

verus! {

/// A parser over a sequence of tokens; `current` is the index of the next
/// token to read.
#[derive(Debug)]
pub struct Parser {
    pub tokens: Vec<Token>,
    pub current: usize,
}

/// What a rule returned, as a mathematical value: the expression and the
/// index at which the parser then stands, or the error.
pub open spec fn parsed_view(r: Result<Expr>, current: usize) -> Parsed {
    match r {
        Ok(e) => Ok((e@, current as int)),
        Err(x) => Err(x@),
    }
}

/// What a parse returned, as a mathematical value.
pub open spec fn result_view(r: Result<Expr>) -> std::result::Result<ExprView, ErrorView> {
    match r {
        Ok(e) => Ok(e@),
        Err(x) => Err(x@),
    }
}

impl Level {
    /// The kinds of the operators of the level.
    pub fn operators(self) -> (kinds: Vec<TokenType>)
        ensures
            forall|kind: TokenType| kinds@.contains(kind) == self.has(kind),
    {
        let mut kinds: Vec<TokenType> = Vec::new();
        match self {
            Level::Equality => {
                kinds.push(TokenType::BangEqual);
                kinds.push(TokenType::EqualEqual);
            },
            Level::Comparison => {
                kinds.push(TokenType::GREATER);
                kinds.push(TokenType::GreaterEqual);
                kinds.push(TokenType::LESS);
                kinds.push(TokenType::LessEqual);
            },
            Level::Addition => {
                kinds.push(TokenType::MINUS);
                kinds.push(TokenType::PLUS);
            },
            Level::Multiplication => {
                kinds.push(TokenType::SLASH);
                kinds.push(TokenType::STAR);
            },
        }
        proof {
            assert forall|kind: TokenType| self.has(kind) implies kinds@.contains(kind) by {
                assert(kinds@[0] == kind || kinds@[1] == kind || (kinds@.len() == 4 && (kinds@[2]
                    == kind || kinds@[3] == kind)));
            }
        }
        kinds
    }
}

impl Parser {
    /// The tokens as mathematical values.
    pub open spec fn views(&self) -> Seq<TokenView> {
        token_views(self.tokens@)
    }

    /// A parser at the first of the tokens.
    pub fn new(tokens: Vec<Token>) -> (p: Parser)
        ensures
            p.tokens == tokens,
            p.current == 0,
    {
        Parser { tokens, current: 0 }
    }

    /// Parses the tokens from `current` on as one whole expression.
    pub fn parse(&mut self) -> (r: Result<Expr>)
        ensures
            final(self).tokens == old(self).tokens,
            result_view(r) == parse_whole(old(self).views(), old(self).current as int),
    {
        match self.expressions() {
            Ok(e) => {
                let done = match self.peek() {
                    Some(t) => t.tok_type == TokenType::EOF,
                    None => true,
                };
                if done {
                    Ok(e)
                } else {
                    Err(self.peek_error("expected end of input"))
                }
            },
            Err(x) => Err(x),
        }
    }

    /// `expression → equality`
    pub fn expressions(&mut self) -> (r: Result<Expr>)
        ensures
            final(self).tokens == old(self).tokens,
            parsed_view(r, final(self).current) == parse_expression(
                old(self).views(),
                old(self).current as int,
            ),
        decreases old(self).tokens.len() - old(self).current, 14nat,
    {
        self.equality()
    }

    /// `equality → comparison ( ( "!=" | "==" ) comparison )*`
    pub fn equality(&mut self) -> (r: Result<Expr>)
        ensures
            final(self).tokens == old(self).tokens,
            parsed_view(r, final(self).current) == parse_binary(
                old(self).views(),
                old(self).current as int,
                Level::Equality,
            ),
        decreases old(self).tokens.len() - old(self).current, 13nat,
    {
        self.binary(Level::Equality)
    }

    /// `comparison → addition ( ( ">" | ">=" | "<" | "<=" ) addition )*`
    pub fn comparison(&mut self) -> (r: Result<Expr>)
        ensures
            final(self).tokens == old(self).tokens,
            parsed_view(r, final(self).current) == parse_binary(
                old(self).views(),
                old(self).current as int,
                Level::Comparison,
            ),
        decreases old(self).tokens.len() - old(self).current, 10nat,
    {
        self.binary(Level::Comparison)
    }

    /// `addition → multiplication ( ( "-" | "+" ) multiplication )*`
    pub fn addition(&mut self) -> (r: Result<Expr>)
        ensures
            final(self).tokens == old(self).tokens,
            parsed_view(r, final(self).current) == parse_binary(
                old(self).views(),
                old(self).current as int,
                Level::Addition,
            ),
        decreases old(self).tokens.len() - old(self).current, 7nat,
    {
        self.binary(Level::Addition)
    }

    /// `multiplication → unary ( ( "/" | "*" ) unary )*`
    pub fn multiplication(&mut self) -> (r: Result<Expr>)
        ensures
            final(self).tokens == old(self).tokens,
            parsed_view(r, final(self).current) == parse_binary(
                old(self).views(),
                old(self).current as int,
                Level::Multiplication,
            ),
        decreases old(self).tokens.len() - old(self).current, 4nat,
    {
        self.binary(Level::Multiplication)
    }

    /// An operand of a binary level: the rule of the next tighter level.
    pub fn operand(&mut self, level: Level) -> (r: Result<Expr>)
        ensures
            final(self).tokens == old(self).tokens,
            parsed_view(r, final(self).current) == parse_operand(
                old(self).views(),
                old(self).current as int,
                level,
            ),
        decreases old(self).tokens.len() - old(self).current, 2 + 3 * level.height(),
    {
        match level {
            Level::Equality => self.comparison(),
            Level::Comparison => self.addition(),
            Level::Addition => self.multiplication(),
            Level::Multiplication => self.unary(),
        }
    }

    /// The rule of a binary level: one operand, then operators of the
    /// level with one operand each, folded to the left.
    pub fn binary(&mut self, level: Level) -> (r: Result<Expr>)
        ensures
            final(self).tokens == old(self).tokens,
            parsed_view(r, final(self).current) == parse_binary(
                old(self).views(),
                old(self).current as int,
                level,
            ),
        decreases old(self).tokens.len() - old(self).current, 3 + 3 * level.height(),
    {
        let ghost ts = self.views();
        let ghost from = self.current as int;
        let ghost held = self.tokens;
        proof {
            lemma_operand_advances(ts, from, level);
        }
        let mut expr = match self.operand(level) {
            Ok(e) => e,
            Err(x) => {
                return Err(x);
            },
        };
        let kinds = level.operators();
        loop
            invariant
                self.tokens == held,
                held == old(self).tokens,
                ts == token_views(held@),
                from == old(self).current,
                from < self.current <= held.len(),
                forall|kind: TokenType| kinds@.contains(kind) == level.has(kind),
                parse_binary_rest(ts, self.current as int, expr@, level) == parse_binary(
                    ts,
                    from,
                    level,
                ),
            ensures
                self.tokens == held,
                parse_binary(ts, from, level) == Ok::<(ExprView, int), ErrorView>(
                    (expr@, self.current as int),
                ),
            decreases held.len() - self.current,
        {
            let ghost at = self.current as int;
            if !self.match_type(&kinds) {
                break ;
            }
            let op = self.previous().unwrap().clone();
            proof {
                lemma_operand_advances(ts, at + 1, level);
            }
            let right = match self.operand(level) {
                Ok(e) => e,
                Err(x) => {
                    return Err(x);
                },
            };
            expr = Expr::BinaryExpr(BinaryExpr::new(expr.boxed(), op, right.boxed()).boxed());
        }
        Ok(expr)
    }

    /// Reads the next token if its kind is one of `types`, and says
    /// whether it did.
    pub fn match_type(&mut self, types: &Vec<TokenType>) -> (r: bool)
        ensures
            final(self).tokens == old(self).tokens,
            r == (old(self).current < old(self).tokens.len() && types@.contains(
                old(self).tokens[old(self).current as int].tok_type,
            )),
            final(self).current == if r {
                old(self).current + 1
            } else {
                old(self).current as int
            },
    {
        let mut i: usize = 0;
        while i < types.len()
            invariant
                i <= types.len(),
                *self == *old(self),
                forall|k: int|
                    0 <= k < i ==> !(self.current < self.tokens.len()
                        && self.tokens[self.current as int].tok_type == #[trigger] types@[k]),
            decreases types.len() - i,
        {
            if self.check(&types[i]) {
                self.advance();
                return true;
            }
            i += 1;
        }
        false
    }

    /// Reads the next token if its kind is one of `types` and returns it;
    /// else reports the token that is there, with `message`.
    pub fn expect_next(&mut self, types: &Vec<TokenType>, message: &str) -> (r: Result<Token>)
        ensures
            final(self).tokens == old(self).tokens,
            ({
                let at = old(self).current as int;
                if at < old(self).tokens.len() && types@.contains(old(self).tokens[at].tok_type) {
                    &&& r matches Ok(t)
                    &&& t@ == old(self).views()[at]
                    &&& final(self).current == at + 1
                } else {
                    &&& r matches Err(x)
                    &&& x@ == error_at(old(self).views(), at, message@)
                    &&& final(self).current == at
                }
            }),
    {
        if self.match_type(types) {
            return Ok(self.previous().unwrap().clone());
        }
        Err(self.peek_error(message))
    }

    /// The error for the token at `current`, or for the end of the tokens.
    pub fn peek_error(&self, message: &str) -> (e: Error)
        ensures
            e@ == error_at(self.views(), self.current as int, message@),
    {
        match self.peek() {
            Some(t) => self.unexpected(t, message),
            None => self.eof(message),
        }
    }

    /// Moves on by one token unless the tokens have run out, and returns
    /// the token before the cursor.
    pub fn advance(&mut self) -> (r: Option<Token>)
        ensures
            final(self).tokens == old(self).tokens,
            final(self).current == if old(self).current < old(self).tokens.len() {
                old(self).current + 1
            } else {
                old(self).current as int
            },
            ({
                let at = final(self).current;
                match r {
                    Some(t) => 0 < at <= old(self).tokens.len() && t@ == old(self).views()[at - 1],
                    None => !(0 < at <= old(self).tokens.len()),
                }
            }),
    {
        if !self.is_at_end() {
            self.current += 1;
        }
        match self.previous() {
            Some(t) => Some(t.clone()),
            None => None,
        }
    }

    /// The token before the cursor, if there is one.
    pub fn previous(&self) -> (r: Option<&Token>)
        ensures
            match r {
                Some(t) => 0 < self.current <= self.tokens.len() && *t == self.tokens[self.current
                    - 1],
                None => !(0 < self.current <= self.tokens.len()),
            },
    {
        if self.current == 0 || self.current > self.tokens.len() {
            return None;
        }
        Some(&self.tokens[self.current - 1])
    }

    /// Whether the next token is of kind `t`.
    pub fn check(&self, t: &TokenType) -> (r: bool)
        ensures
            r == (self.current < self.tokens.len() && self.tokens[self.current as int].tok_type
                == *t),
    {
        if self.is_at_end() {
            return false;
        }
        self.peek().unwrap().tok_type == *t
    }

    /// Whether the tokens have run out.
    pub fn is_at_end(&self) -> (r: bool)
        ensures
            r == (self.current >= self.tokens.len()),
    {
        self.peek().is_none()
    }

    /// The next token, if there is one.
    pub fn peek(&self) -> (r: Option<&Token>)
        ensures
            match r {
                Some(t) => self.current < self.tokens.len() && *t == self.tokens[self.current as int],
                None => self.current >= self.tokens.len(),
            },
    {
        if self.current < self.tokens.len() {
            Some(&self.tokens[self.current])
        } else {
            None
        }
    }

    /// `unary → ( "!" | "-" ) unary | primary`
    pub fn unary(&mut self) -> (r: Result<Expr>)
        ensures
            final(self).tokens == old(self).tokens,
            parsed_view(r, final(self).current) == parse_unary(
                old(self).views(),
                old(self).current as int,
            ),
        decreases old(self).tokens.len() - old(self).current, 1nat,
    {
        let mut prefixes: Vec<TokenType> = Vec::new();
        prefixes.push(TokenType::BANG);
        prefixes.push(TokenType::MINUS);
        proof {
            assert(prefixes@[0] == TokenType::BANG);
            assert(prefixes@[1] == TokenType::MINUS);
            assert forall|kind: TokenType| prefixes@.contains(kind) == is_prefix(kind) by {}
        }
        if self.match_type(&prefixes) {
            let op = self.previous().unwrap().clone();
            return match self.unary() {
                Ok(right) => Ok(Expr::Unary(op, right.boxed())),
                Err(x) => Err(x),
            };
        }
        self.primary()
    }

    /// `primary → NUMBER | STRING | "false" | "true" | "nil" | "(" expression ")"`
    pub fn primary(&mut self) -> (r: Result<Expr>)
        ensures
            final(self).tokens == old(self).tokens,
            parsed_view(r, final(self).current) == parse_primary(
                old(self).views(),
                old(self).current as int,
            ),
        decreases old(self).tokens.len() - old(self).current, 0nat,
    {
        let t = match self.peek() {
            Some(t) => t.clone(),
            None => {
                return Err(self.eof("expected expression"));
            },
        };
        match t.tok_type {
            TokenType::FALSE
            | TokenType::TRUE
            | TokenType::NIL
            | TokenType::NUMBER
            | TokenType::STRING => {
                self.advance();
                Ok(Expr::Literal(t.val))
            },
            TokenType::LeftParen => {
                self.advance();
                let expr = match self.expressions() {
                    Ok(e) => e,
                    Err(x) => {
                        return Err(x);
                    },
                };
                let mut closing: Vec<TokenType> = Vec::new();
                closing.push(TokenType::RightParen);
                proof {
                    assert(closing@[0] == TokenType::RightParen);
                    assert forall|kind: TokenType| closing@.contains(kind) == (kind
                        is RightParen) by {}
                }
                match self.expect_next(&closing, "expected ')' after expression") {
                    Ok(_) => Ok(Expr::Grouping(expr.boxed())),
                    Err(x) => Err(x),
                }
            },
            _ => Err(self.unexpected(&t, "expected expression")),
        }
    }

    /// The error for a token that the grammar does not allow where it is.
    pub fn unexpected(&self, t: &Token, message: &str) -> (e: Error)
        ensures
            e@ == (ErrorView::Parse {
                line: t.line as nat,
                pos: t.pos as nat,
                message: message@,
                near: t.val@,
            }),
    {
        Error::Parse(t.line as u64, t.pos as u64, String::from_str(message), t.val.clone())
    }

    /// The error for tokens that run out where the grammar asks for more.
    pub fn eof(&self, message: &str) -> (e: Error)
        ensures
            e@ == (ErrorView::Parse {
                line: 0,
                pos: 0,
                message: message@,
                near: end_of_tokens(),
            }),
    {
        Error::Parse(0, 0, String::from_str(message), String::from_str("unexpected EOF"))
    }
}

/// Parses a sequence of tokens as one whole expression.
pub fn parse(tokens: Vec<Token>) -> (r: Result<Expr>)
    ensures
        result_view(r) == parse_tokens(token_views(tokens@)),
{
    let mut parser = Parser::new(tokens);
    parser.parse()
}

} // verus!
