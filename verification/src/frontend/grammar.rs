//! What parsing means: the expression that a sequence of tokens spells, or
//! the syntax error in it, as functions on sequences of tokens.
//!
//! ```text
//! expression     → equality
//! equality       → comparison ( ( "!=" | "==" ) comparison )*
//! comparison     → addition ( ( ">" | ">=" | "<" | "<=" ) addition )*
//! addition       → multiplication ( ( "-" | "+" ) multiplication )*
//! multiplication → unary ( ( "/" | "*" ) unary )*
//! unary          → ( "!" | "-" ) unary | primary
//! primary        → NUMBER | STRING | "false" | "true" | "nil"
//!                | "(" expression ")"
//! ```

use crate::frontend::ast::expr::ExprView;
use crate::frontend::token::TokenType;
use crate::frontend::token::TokenView;
use crate::result::ErrorView;
use vstd::prelude::*;

verus! {

/// The four levels of binary operators, from the loosest to the tightest.
#[derive(Debug, PartialEq, Eq, Clone, Copy, Structural)]
pub enum Level {
    Equality,
    Comparison,
    Addition,
    Multiplication,
}

impl Level {
    /// Whether a token of this kind is an operator of the level.
    pub open spec fn has(self, kind: TokenType) -> bool {
        match self {
            Level::Equality => kind is BangEqual || kind is EqualEqual,
            Level::Comparison => kind is GREATER || kind is GreaterEqual || kind is LESS
                || kind is LessEqual,
            Level::Addition => kind is MINUS || kind is PLUS,
            Level::Multiplication => kind is SLASH || kind is STAR,
        }
    }

    /// How many levels bind tighter than this one.
    pub open spec fn height(self) -> nat {
        match self {
            Level::Equality => 3,
            Level::Comparison => 2,
            Level::Addition => 1,
            Level::Multiplication => 0,
        }
    }
}

/// Whether a token of this kind is a prefix operator.
pub open spec fn is_prefix(kind: TokenType) -> bool {
    kind is BANG || kind is MINUS
}

/// Whether a token of this kind is a literal.
pub open spec fn is_literal(kind: TokenType) -> bool {
    kind is FALSE || kind is TRUE || kind is NIL || kind is NUMBER || kind is STRING
}

/// The message where an expression must start and does not.
pub open spec fn expected_expression() -> Seq<char> {
    "expected expression"@
}

/// The message where a parenthesis is left open.
pub open spec fn expected_closing() -> Seq<char> {
    "expected ')' after expression"@
}

/// The message where tokens follow a complete expression.
pub open spec fn expected_end() -> Seq<char> {
    "expected end of input"@
}

/// What stands for the offending token where the tokens have run out.
pub open spec fn end_of_tokens() -> Seq<char> {
    "unexpected EOF"@
}

/// The syntax error at index `pos`: it carries the position and the text
/// of the token there, or line and column zero where the tokens have run
/// out.
pub open spec fn error_at(ts: Seq<TokenView>, pos: int, message: Seq<char>) -> ErrorView {
    if 0 <= pos < ts.len() {
        ErrorView::Parse { line: ts[pos].line, pos: ts[pos].pos, message, near: ts[pos].text }
    } else {
        ErrorView::Parse { line: 0, pos: 0, message, near: end_of_tokens() }
    }
}

/// The outcome of parsing one rule at some index: the expression and the
/// index of the first token behind it, or the error.
pub type Parsed = Result<(ExprView, int), ErrorView>;

/// `primary`, at index `pos`.
pub open spec fn parse_primary(ts: Seq<TokenView>, pos: int) -> Parsed
    decreases ts.len() - pos, 0nat,
{
    if pos < 0 || pos >= ts.len() {
        Err(error_at(ts, pos, expected_expression()))
    } else if is_literal(ts[pos].kind) {
        Ok((ExprView::Literal(ts[pos].text), pos + 1))
    } else if ts[pos].kind is LeftParen {
        match parse_expression(ts, pos + 1) {
            Ok((inner, after)) => {
                if 0 <= after < ts.len() && ts[after].kind is RightParen {
                    Ok((ExprView::Grouping(Box::new(inner)), after + 1))
                } else {
                    Err(error_at(ts, after, expected_closing()))
                }
            },
            Err(e) => Err(e),
        }
    } else {
        Err(error_at(ts, pos, expected_expression()))
    }
}

/// `unary`, at index `pos`.
pub open spec fn parse_unary(ts: Seq<TokenView>, pos: int) -> Parsed
    decreases ts.len() - pos, 1nat,
{
    if 0 <= pos < ts.len() && is_prefix(ts[pos].kind) {
        match parse_unary(ts, pos + 1) {
            Ok((operand, after)) => Ok((ExprView::Unary(ts[pos], Box::new(operand)), after)),
            Err(e) => Err(e),
        }
    } else {
        parse_primary(ts, pos)
    }
}

/// An operand of a binary level: the rule of the next tighter level.
pub open spec fn parse_operand(ts: Seq<TokenView>, pos: int, level: Level) -> Parsed
    decreases ts.len() - pos, 2 + 2 * level.height(),
{
    match level {
        Level::Equality => parse_binary(ts, pos, Level::Comparison),
        Level::Comparison => parse_binary(ts, pos, Level::Addition),
        Level::Addition => parse_binary(ts, pos, Level::Multiplication),
        Level::Multiplication => parse_unary(ts, pos),
    }
}

/// The rule of a binary level, at index `pos`: one operand, then operators
/// of the level with one operand each, for as long as one follows.
pub open spec fn parse_binary(ts: Seq<TokenView>, pos: int, level: Level) -> Parsed
    decreases ts.len() - pos, 3 + 2 * level.height(),
{
    match parse_operand(ts, pos, level) {
        Ok((left, after)) => {
            if pos < after <= ts.len() {
                parse_binary_rest(ts, after, left, level)
            } else {
                Err(error_at(ts, pos, expected_expression()))
            }
        },
        Err(e) => Err(e),
    }
}

/// The operators and operands of a binary level that follow `left`, the
/// operations read so far: each operator takes what stands to its left as
/// its left operand, so the operations nest to the left.
pub open spec fn parse_binary_rest(
    ts: Seq<TokenView>,
    pos: int,
    left: ExprView,
    level: Level,
) -> Parsed
    decreases ts.len() - pos, 3 + 2 * level.height(),
{
    if 0 <= pos < ts.len() && level.has(ts[pos].kind) {
        match parse_operand(ts, pos + 1, level) {
            Ok((right, after)) => {
                if pos < after <= ts.len() {
                    parse_binary_rest(
                        ts,
                        after,
                        ExprView::Binary(Box::new(left), ts[pos], Box::new(right)),
                        level,
                    )
                } else {
                    Err(error_at(ts, pos, expected_expression()))
                }
            },
            Err(e) => Err(e),
        }
    } else {
        Ok((left, pos))
    }
}

/// `expression`, at index `pos`.
pub open spec fn parse_expression(ts: Seq<TokenView>, pos: int) -> Parsed
    decreases ts.len() - pos, 10nat,
{
    parse_binary(ts, pos, Level::Equality)
}

/// One expression from index `pos` on, with nothing behind it but the
/// end-of-input token or the end of the tokens.
pub open spec fn parse_whole(ts: Seq<TokenView>, pos: int) -> Result<ExprView, ErrorView> {
    match parse_expression(ts, pos) {
        Ok((e, after)) => {
            if after >= ts.len() || ts[after].kind is EOF {
                Ok(e)
            } else {
                Err(error_at(ts, after, expected_end()))
            }
        },
        Err(e) => Err(e),
    }
}

/// The expression that the tokens spell, or the first syntax error in them.
pub open spec fn parse_tokens(ts: Seq<TokenView>) -> Result<ExprView, ErrorView> {
    parse_whole(ts, 0)
}

/// Whether an outcome is a success that has consumed at least one token
/// from `pos` on and none behind the end, or else an error.
pub open spec fn advances(ts: Seq<TokenView>, pos: int, r: Parsed) -> bool {
    match r {
        Ok((e, after)) => 0 <= pos < after <= ts.len() && e.is_total(),
        Err(_) => true,
    }
}

/// Every rule that succeeds consumes at least one token, never reads
/// behind the end, and yields a finished tree.
pub proof fn lemma_primary_advances(ts: Seq<TokenView>, pos: int)
    ensures
        advances(ts, pos, parse_primary(ts, pos)),
    decreases ts.len() - pos, 0nat,
{
    if 0 <= pos < ts.len() && !is_literal(ts[pos].kind) && ts[pos].kind is LeftParen {
        lemma_binary_advances(ts, pos + 1, Level::Equality);
    }
}

/// See [`lemma_primary_advances`].
pub proof fn lemma_unary_advances(ts: Seq<TokenView>, pos: int)
    ensures
        advances(ts, pos, parse_unary(ts, pos)),
    decreases ts.len() - pos, 1nat,
{
    if 0 <= pos < ts.len() && is_prefix(ts[pos].kind) {
        lemma_unary_advances(ts, pos + 1);
    } else {
        lemma_primary_advances(ts, pos);
    }
}

/// See [`lemma_primary_advances`].
pub proof fn lemma_operand_advances(ts: Seq<TokenView>, pos: int, level: Level)
    ensures
        advances(ts, pos, parse_operand(ts, pos, level)),
    decreases ts.len() - pos, 2 + 2 * level.height(),
{
    match level {
        Level::Equality => lemma_binary_advances(ts, pos, Level::Comparison),
        Level::Comparison => lemma_binary_advances(ts, pos, Level::Addition),
        Level::Addition => lemma_binary_advances(ts, pos, Level::Multiplication),
        Level::Multiplication => lemma_unary_advances(ts, pos),
    }
}

/// See [`lemma_primary_advances`].
pub proof fn lemma_binary_advances(ts: Seq<TokenView>, pos: int, level: Level)
    ensures
        advances(ts, pos, parse_binary(ts, pos, level)),
    decreases ts.len() - pos, 3 + 2 * level.height(),
{
    lemma_operand_advances(ts, pos, level);
    match parse_operand(ts, pos, level) {
        Ok((left, after)) => {
            lemma_rest_advances(ts, after, left, level);
        },
        Err(_) => {},
    }
}

/// What follows an operand never moves back, and keeps a finished tree
/// finished.
pub proof fn lemma_rest_advances(ts: Seq<TokenView>, pos: int, left: ExprView, level: Level)
    requires
        0 <= pos <= ts.len(),
        left.is_total(),
    ensures
        match parse_binary_rest(ts, pos, left, level) {
            Ok((e, after)) => pos <= after <= ts.len() && e.is_total(),
            Err(_) => true,
        },
    decreases ts.len() - pos, 3 + 2 * level.height(),
{
    if pos < ts.len() && level.has(ts[pos].kind) {
        lemma_operand_advances(ts, pos + 1, level);
        match parse_operand(ts, pos + 1, level) {
            Ok((right, after)) => {
                lemma_rest_advances(
                    ts,
                    after,
                    ExprView::Binary(Box::new(left), ts[pos], Box::new(right)),
                    level,
                );
            },
            Err(_) => {},
        }
    }
}

} // verus!
