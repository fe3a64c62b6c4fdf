//! Laws of parsing.

use crate::frontend::ast::expr::placeless;
use crate::frontend::ast::expr::ExprView;
use crate::frontend::grammar::error_at;
use crate::frontend::grammar::expected_closing;
use crate::frontend::grammar::is_literal;
use crate::frontend::grammar::is_prefix;
use crate::frontend::grammar::parse_binary;
use crate::frontend::grammar::parse_binary_rest;
use crate::frontend::grammar::parse_expression;
use crate::frontend::grammar::parse_operand;
use crate::frontend::grammar::parse_primary;
use crate::frontend::grammar::parse_tokens;
use crate::frontend::grammar::parse_unary;
use crate::frontend::grammar::parse_whole;
use crate::frontend::grammar::Level;
use crate::frontend::grammar::Parsed;
use crate::frontend::token::TokenType;
use crate::frontend::token::TokenView;
use crate::result::ErrorView;
use vstd::prelude::*;

verus! {

/// How many tokens spell a tree.
pub open spec fn width(e: ExprView) -> nat
    decreases e,
{
    match e {
        ExprView::Noop => 0,
        ExprView::Literal(_) => 1,
        ExprView::Grouping(inner) => width(*inner) + 2,
        ExprView::Unary(_, operand) => width(*operand) + 1,
        ExprView::Binary(lhs, _, rhs) => width(*lhs) + 1 + width(*rhs),
    }
}

/// Whether the tokens from index `p` on spell the tree: a literal token
/// with the literal's text; the operator's own token before the operand
/// or between the operands; parentheses around what a grouping holds.
pub open spec fn spelled_at(ts: Seq<TokenView>, p: int, e: ExprView) -> bool
    decreases e,
{
    match e {
        ExprView::Noop => false,
        ExprView::Literal(value) => 0 <= p < ts.len() && is_literal(ts[p].kind) && ts[p].text
            == value,
        ExprView::Grouping(inner) => {
            &&& 0 <= p
            &&& p + width(*inner) + 1 < ts.len()
            &&& ts[p].kind is LeftParen
            &&& spelled_at(ts, p + 1, *inner)
            &&& ts[p + 1 + width(*inner)].kind is RightParen
        },
        ExprView::Unary(op, operand) => 0 <= p < ts.len() && ts[p] == op && spelled_at(
            ts,
            p + 1,
            *operand,
        ),
        ExprView::Binary(lhs, op, rhs) => {
            &&& 0 <= p
            &&& p + width(*lhs) < ts.len()
            &&& spelled_at(ts, p, *lhs)
            &&& ts[p + width(*lhs)] == op
            &&& spelled_at(ts, p + width(*lhs) + 1, *rhs)
        },
    }
}

/// The trees that `primary` can yield.
pub open spec fn fits_primary(e: ExprView) -> bool
    decreases e, 0nat,
{
    match e {
        ExprView::Literal(_) => true,
        ExprView::Grouping(inner) => fits_binary(*inner, Level::Equality),
        _ => false,
    }
}

/// The trees that `unary` can yield.
pub open spec fn fits_unary(e: ExprView) -> bool
    decreases e, 1nat,
{
    match e {
        ExprView::Unary(op, operand) => is_prefix(op.kind) && fits_unary(*operand),
        _ => fits_primary(e),
    }
}

/// The trees that can be an operand of a binary level.
pub open spec fn fits_operand(e: ExprView, level: Level) -> bool
    decreases e, 2 + 2 * level.height(),
{
    match level {
        Level::Equality => fits_binary(e, Level::Comparison),
        Level::Comparison => fits_binary(e, Level::Addition),
        Level::Addition => fits_binary(e, Level::Multiplication),
        Level::Multiplication => fits_unary(e),
    }
}

/// The trees that the rule of a binary level can yield: an operation of
/// the level has an operation of the level or an operand on its left, and
/// an operand on its right.
pub open spec fn fits_binary(e: ExprView, level: Level) -> bool
    decreases e, 3 + 2 * level.height(),
{
    match e {
        ExprView::Binary(lhs, op, rhs) => if level.has(op.kind) {
            fits_binary(*lhs, level) && fits_operand(*rhs, level)
        } else {
            fits_operand(e, level)
        },
        _ => fits_operand(e, level),
    }
}

/// Whether a token of this kind is an operator of a level that binds
/// tighter than `level`.
pub open spec fn binds_tighter(kind: TokenType, level: Level) -> bool {
    match level {
        Level::Equality => Level::Comparison.has(kind) || Level::Addition.has(kind)
            || Level::Multiplication.has(kind),
        Level::Comparison => Level::Addition.has(kind) || Level::Multiplication.has(kind),
        Level::Addition => Level::Multiplication.has(kind),
        Level::Multiplication => false,
    }
}

/// Whether no operator that binds tighter than `level` stands at index `at`.
pub open spec fn rests_at(ts: Seq<TokenView>, at: int, level: Level) -> bool {
    0 <= at < ts.len() ==> !binds_tighter(ts[at].kind, level)
}

/// Whether no operator of `level`, nor one that binds tighter, stands at
/// index `at`.
pub open spec fn stops_at(ts: Seq<TokenView>, at: int, level: Level) -> bool {
    0 <= at < ts.len() ==> !binds_tighter(ts[at].kind, level) && !level.has(ts[at].kind)
}

/// The operator at the root of an operation that fits a binary level is
/// of that level or binds tighter; where the operation is an operand of
/// the level, it binds tighter.
pub proof fn lemma_root_operator(lhs: ExprView, op: TokenView, rhs: ExprView, level: Level)
    ensures
        fits_binary(ExprView::Binary(Box::new(lhs), op, Box::new(rhs)), level) ==> level.has(
            op.kind,
        ) || binds_tighter(op.kind, level),
        fits_operand(ExprView::Binary(Box::new(lhs), op, Box::new(rhs)), level) ==> binds_tighter(
            op.kind,
            level,
        ),
{
    let e = ExprView::Binary(Box::new(lhs), op, Box::new(rhs));
    assert(!fits_primary(e));
    assert(!fits_unary(e));
    assert(!fits_operand(e, Level::Multiplication));
    assert(fits_binary(e, Level::Multiplication) ==> Level::Multiplication.has(op.kind));
    assert(fits_operand(e, Level::Addition) == fits_binary(e, Level::Multiplication));
    assert(fits_binary(e, Level::Addition) ==> Level::Addition.has(op.kind)
        || Level::Multiplication.has(op.kind));
    assert(fits_operand(e, Level::Comparison) == fits_binary(e, Level::Addition));
    assert(fits_binary(e, Level::Comparison) ==> Level::Comparison.has(op.kind)
        || Level::Addition.has(op.kind) || Level::Multiplication.has(op.kind));
    assert(fits_operand(e, Level::Equality) == fits_binary(e, Level::Comparison));
}

/// An operand of a level is, as a tree of that level, an operand alone.
pub proof fn lemma_operand_fits_binary(e: ExprView, level: Level)
    requires
        fits_operand(e, level),
    ensures
        fits_binary(e, level),
{
    match e {
        ExprView::Binary(lhs, op, rhs) => {
            lemma_root_operator(*lhs, op, *rhs, level);
        },
        _ => {},
    }
}

/// A primary expression is spelled by one token at least, and holds no
/// placeholder.
pub proof fn lemma_primary_width(e: ExprView)
    requires
        fits_primary(e),
    ensures
        width(e) >= 1,
        e.is_total(),
    decreases e, 0nat,
{
    match e {
        ExprView::Grouping(inner) => {
            lemma_binary_width(*inner, Level::Equality);
        },
        _ => {},
    }
}

/// See [`lemma_primary_width`].
pub proof fn lemma_unary_width(e: ExprView)
    requires
        fits_unary(e),
    ensures
        width(e) >= 1,
        e.is_total(),
    decreases e, 1nat,
{
    match e {
        ExprView::Unary(_, operand) => {
            lemma_unary_width(*operand);
        },
        _ => {
            lemma_primary_width(e);
        },
    }
}

/// See [`lemma_primary_width`].
pub proof fn lemma_operand_width(e: ExprView, level: Level)
    requires
        fits_operand(e, level),
    ensures
        width(e) >= 1,
        e.is_total(),
    decreases e, 2 + 2 * level.height(),
{
    match level {
        Level::Equality => lemma_binary_width(e, Level::Comparison),
        Level::Comparison => lemma_binary_width(e, Level::Addition),
        Level::Addition => lemma_binary_width(e, Level::Multiplication),
        Level::Multiplication => lemma_unary_width(e),
    }
}

/// See [`lemma_primary_width`].
pub proof fn lemma_binary_width(e: ExprView, level: Level)
    requires
        fits_binary(e, level),
    ensures
        width(e) >= 1,
        e.is_total(),
    decreases e, 3 + 2 * level.height(),
{
    match e {
        ExprView::Binary(lhs, op, rhs) => {
            if level.has(op.kind) {
                lemma_binary_width(*lhs, level);
                lemma_operand_width(*rhs, level);
            } else {
                lemma_operand_width(e, level);
            }
        },
        _ => {
            lemma_operand_width(e, level);
        },
    }
}

/// The tokens that spell a tree lie inside the sequence.
pub proof fn lemma_spelled_bounds(ts: Seq<TokenView>, p: int, e: ExprView)
    requires
        spelled_at(ts, p, e),
    ensures
        0 <= p,
        p + width(e) <= ts.len(),
    decreases e,
{
    match e {
        ExprView::Noop => {},
        ExprView::Literal(_) => {},
        ExprView::Grouping(inner) => {},
        ExprView::Unary(_, operand) => {
            lemma_spelled_bounds(ts, p + 1, *operand);
        },
        ExprView::Binary(lhs, _, rhs) => {
            lemma_spelled_bounds(ts, p + width(*lhs) + 1, *rhs);
        },
    }
}

/// What `primary` yields has the shape of a primary expression, and the
/// tokens that it has read spell it.
pub proof fn lemma_primary_reads(ts: Seq<TokenView>, pos: int)
    ensures
        match parse_primary(ts, pos) {
            Ok((e, after)) => fits_primary(e) && spelled_at(ts, pos, e) && after == pos + width(e),
            Err(_) => true,
        },
    decreases ts.len() - pos, 0nat,
{
    if 0 <= pos < ts.len() && !is_literal(ts[pos].kind) && ts[pos].kind is LeftParen {
        lemma_binary_reads(ts, pos + 1, Level::Equality);
    }
}

/// What `unary` yields has the shape of a unary expression, and the
/// tokens that it has read spell it.
pub proof fn lemma_unary_reads(ts: Seq<TokenView>, pos: int)
    ensures
        match parse_unary(ts, pos) {
            Ok((e, after)) => fits_unary(e) && spelled_at(ts, pos, e) && after == pos + width(e),
            Err(_) => true,
        },
    decreases ts.len() - pos, 1nat,
{
    if 0 <= pos < ts.len() && is_prefix(ts[pos].kind) {
        lemma_unary_reads(ts, pos + 1);
    } else {
        lemma_primary_reads(ts, pos);
    }
}

/// What an operand's rule yields has the shape of an operand, and the
/// tokens that it has read spell it.
pub proof fn lemma_operand_reads(ts: Seq<TokenView>, pos: int, level: Level)
    ensures
        match parse_operand(ts, pos, level) {
            Ok((e, after)) => fits_operand(e, level) && spelled_at(ts, pos, e) && after == pos
                + width(e),
            Err(_) => true,
        },
    decreases ts.len() - pos, 2 + 2 * level.height(),
{
    match level {
        Level::Equality => lemma_binary_reads(ts, pos, Level::Comparison),
        Level::Comparison => lemma_binary_reads(ts, pos, Level::Addition),
        Level::Addition => lemma_binary_reads(ts, pos, Level::Multiplication),
        Level::Multiplication => lemma_unary_reads(ts, pos),
    }
}

/// What the rule of a binary level yields has the shape of the level,
/// and the tokens that it has read spell it.
pub proof fn lemma_binary_reads(ts: Seq<TokenView>, pos: int, level: Level)
    ensures
        match parse_binary(ts, pos, level) {
            Ok((e, after)) => fits_binary(e, level) && spelled_at(ts, pos, e) && after == pos
                + width(e),
            Err(_) => true,
        },
    decreases ts.len() - pos, 3 + 2 * level.height(),
{
    lemma_operand_reads(ts, pos, level);
    match parse_operand(ts, pos, level) {
        Ok((left, after)) => {
            if pos < after <= ts.len() {
                lemma_operand_fits_binary(left, level);
                lemma_rest_reads(ts, pos, after, left, level);
            }
        },
        Err(_) => {},
    }
}

/// See [`lemma_binary_reads`]: `left` is what has been read from index
/// `from` up to index `pos`.
pub proof fn lemma_rest_reads(
    ts: Seq<TokenView>,
    from: int,
    pos: int,
    left: ExprView,
    level: Level,
)
    requires
        fits_binary(left, level),
        spelled_at(ts, from, left),
        pos == from + width(left),
    ensures
        match parse_binary_rest(ts, pos, left, level) {
            Ok((e, after)) => fits_binary(e, level) && spelled_at(ts, from, e) && after == from
                + width(e),
            Err(_) => true,
        },
    decreases ts.len() - pos, 3 + 2 * level.height(),
{
    if 0 <= pos < ts.len() && level.has(ts[pos].kind) {
        lemma_operand_reads(ts, pos + 1, level);
        match parse_operand(ts, pos + 1, level) {
            Ok((right, after)) => {
                if pos < after <= ts.len() {
                    let both = ExprView::Binary(Box::new(left), ts[pos], Box::new(right));
                    lemma_spelled_bounds(ts, from, left);
                    assert(spelled_at(ts, from, both));
                    assert(fits_binary(both, level));
                    lemma_rest_reads(ts, from, after, both, level);
                }
            },
            Err(_) => {},
        }
    }
}

/// Tokens that spell a primary expression are parsed as that expression.
pub proof fn lemma_primary_rereads(ts: Seq<TokenView>, p: int, e: ExprView)
    requires
        fits_primary(e),
        spelled_at(ts, p, e),
    ensures
        parse_primary(ts, p) == Ok::<(ExprView, int), ErrorView>((e, p + width(e))),
    decreases e, 0nat,
{
    match e {
        ExprView::Grouping(inner) => {
            lemma_binary_rereads(ts, p + 1, *inner, Level::Equality);
        },
        _ => {},
    }
}

/// Tokens that spell a unary expression are parsed as that expression.
pub proof fn lemma_unary_rereads(ts: Seq<TokenView>, p: int, e: ExprView)
    requires
        fits_unary(e),
        spelled_at(ts, p, e),
    ensures
        parse_unary(ts, p) == Ok::<(ExprView, int), ErrorView>((e, p + width(e))),
    decreases e, 1nat,
{
    match e {
        ExprView::Unary(op, operand) => {
            lemma_unary_rereads(ts, p + 1, *operand);
        },
        _ => {
            lemma_primary_rereads(ts, p, e);
        },
    }
}

/// Tokens that spell an operand of a level, with no tighter operator
/// behind them, are parsed as that operand.
pub proof fn lemma_operand_rereads(ts: Seq<TokenView>, p: int, e: ExprView, level: Level)
    requires
        fits_operand(e, level),
        spelled_at(ts, p, e),
        rests_at(ts, p + width(e), level),
    ensures
        parse_operand(ts, p, level) == Ok::<(ExprView, int), ErrorView>((e, p + width(e))),
    decreases e, 2 + 3 * level.height(),
{
    match level {
        Level::Equality => lemma_binary_rereads(ts, p, e, Level::Comparison),
        Level::Comparison => lemma_binary_rereads(ts, p, e, Level::Addition),
        Level::Addition => lemma_binary_rereads(ts, p, e, Level::Multiplication),
        Level::Multiplication => lemma_unary_rereads(ts, p, e),
    }
}

/// Tokens that spell an expression of a binary level, with no tighter
/// operator behind them, are parsed as that expression, and the rule goes
/// on with what follows.
pub proof fn lemma_binary_rereads_on(ts: Seq<TokenView>, p: int, e: ExprView, level: Level)
    requires
        fits_binary(e, level),
        spelled_at(ts, p, e),
        rests_at(ts, p + width(e), level),
    ensures
        parse_binary(ts, p, level) == parse_binary_rest(ts, p + width(e), e, level),
    decreases e, 3 + 3 * level.height(),
{
    lemma_spelled_bounds(ts, p, e);
    lemma_binary_width(e, level);
    match e {
        ExprView::Binary(lhs, op, rhs) => {
            if level.has(op.kind) {
                let at = p + width(*lhs);
                lemma_binary_rereads_on(ts, p, *lhs, level);
                lemma_operand_rereads(ts, at + 1, *rhs, level);
                lemma_spelled_bounds(ts, at + 1, *rhs);
                lemma_operand_width(*rhs, level);
            } else {
                lemma_operand_rereads(ts, p, e, level);
            }
        },
        _ => {
            lemma_operand_rereads(ts, p, e, level);
        },
    }
}

/// Tokens that spell an expression of a binary level, with no operator of
/// the level nor a tighter one behind them, are parsed as that expression.
pub proof fn lemma_binary_rereads(ts: Seq<TokenView>, p: int, e: ExprView, level: Level)
    requires
        fits_binary(e, level),
        spelled_at(ts, p, e),
        stops_at(ts, p + width(e), level),
    ensures
        parse_binary(ts, p, level) == Ok::<(ExprView, int), ErrorView>((e, p + width(e))),
    decreases e, 4 + 3 * level.height(),
{
    lemma_binary_rereads_on(ts, p, e, level);
}

/// The spelling of a finished tree spells it, whatever stands before and
/// behind.
pub proof fn lemma_spelling_spells(before: Seq<TokenView>, e: ExprView, behind: Seq<TokenView>)
    requires
        e.is_total(),
    ensures
        e.spelling().len() == width(e),
        spelled_at(before + e.spelling() + behind, before.len() as int, e),
    decreases e,
{
    let ts = before + e.spelling() + behind;
    let p = before.len() as int;
    match e {
        ExprView::Noop => {},
        ExprView::Literal(value) => {
            assert(ts[p] == e.spelling()[0]);
        },
        ExprView::Grouping(inner) => {
            let open = seq![placeless(TokenType::LeftParen, seq!['('])];
            let close = seq![placeless(TokenType::RightParen, seq![')'])];
            lemma_spelling_spells(before + open, *inner, close + behind);
            assert(ts =~= (before + open) + inner.spelling() + (close + behind));
            assert(ts[p] == open[0]);
            assert(ts[p + 1 + width(*inner)] == close[0]);
        },
        ExprView::Unary(op, operand) => {
            lemma_spelling_spells(before + seq![op], *operand, behind);
            assert(ts =~= (before + seq![op]) + operand.spelling() + behind);
            assert(ts[p] == op);
        },
        ExprView::Binary(lhs, op, rhs) => {
            lemma_spelling_spells(before, *lhs, seq![op] + rhs.spelling() + behind);
            lemma_spelling_spells(before + lhs.spelling() + seq![op], *rhs, behind);
            assert(ts =~= before + lhs.spelling() + (seq![op] + rhs.spelling() + behind));
            assert(ts =~= (before + lhs.spelling() + seq![op]) + rhs.spelling() + behind);
            assert(ts[p + width(*lhs)] == op);
        },
    }
}

/// Whether nothing but the end of the input follows: no token, or the
/// end-of-input token.
pub open spec fn ends(tail: Seq<TokenView>) -> bool {
    tail.len() == 0 || tail[0].kind is EOF
}

/// Tokens that spell an expression, with nothing but the end of the input
/// behind them, are parsed as that expression.
pub proof fn lemma_spelled_parses(ts: Seq<TokenView>, e: ExprView)
    requires
        fits_binary(e, Level::Equality),
        spelled_at(ts, 0, e),
        ends(ts.skip(width(e) as int)),
    ensures
        parse_tokens(ts) == Ok::<ExprView, ErrorView>(e),
{
    lemma_spelled_bounds(ts, 0, e);
    let at = width(e) as int;
    if at < ts.len() {
        assert(ts.skip(at)[0] == ts[at]);
    }
    lemma_binary_rereads(ts, 0, e, Level::Equality);
}

/// Round trip: an expression that was parsed from some tokens is parsed
/// again, and the same, from the tokens that spell it.
pub proof fn lemma_reparse(ts: Seq<TokenView>, e: ExprView, tail: Seq<TokenView>)
    requires
        parse_tokens(ts) == Ok::<ExprView, ErrorView>(e),
        ends(tail),
    ensures
        parse_tokens(e.spelling() + tail) == Ok::<ExprView, ErrorView>(e),
{
    lemma_binary_reads(ts, 0, Level::Equality);
    lemma_binary_width(e, Level::Equality);
    lemma_spelling_spells(Seq::empty(), e, tail);
    let again = e.spelling() + tail;
    assert(again =~= Seq::<TokenView>::empty() + e.spelling() + tail);
    assert(again.skip(width(e) as int) =~= tail);
    lemma_spelled_parses(again, e);
}

/// A parse that succeeds yields a finished tree: no placeholder is in it.
pub proof fn lemma_parsed_is_total(ts: Seq<TokenView>, e: ExprView)
    requires
        parse_tokens(ts) == Ok::<ExprView, ErrorView>(e),
    ensures
        e.is_total(),
{
    lemma_binary_reads(ts, 0, Level::Equality);
    lemma_binary_width(e, Level::Equality);
}

/// A tree of a level is a tree of every looser level.
pub proof fn lemma_fits_looser(e: ExprView, level: Level)
    requires
        fits_binary(e, level),
    ensures
        fits_binary(e, Level::Equality),
{
    if level != Level::Equality {
        let looser = match level {
            Level::Multiplication => Level::Addition,
            Level::Addition => Level::Comparison,
            _ => Level::Equality,
        };
        assert(fits_operand(e, looser));
        lemma_operand_fits_binary(e, looser);
        if looser != Level::Equality {
            let loosest = match looser {
                Level::Addition => Level::Comparison,
                _ => Level::Equality,
            };
            assert(fits_operand(e, loosest));
            lemma_operand_fits_binary(e, loosest);
            if loosest != Level::Equality {
                assert(fits_operand(e, Level::Equality));
                lemma_operand_fits_binary(e, Level::Equality);
            }
        }
    }
}

/// Every binary level nests to the left: `a op b op c` is `(a op b) op c`.
pub proof fn lemma_left_associative(
    level: Level,
    a: TokenView,
    first: TokenView,
    b: TokenView,
    second: TokenView,
    c: TokenView,
    tail: Seq<TokenView>,
)
    requires
        is_literal(a.kind),
        is_literal(b.kind),
        is_literal(c.kind),
        level.has(first.kind),
        level.has(second.kind),
        ends(tail),
    ensures
        parse_tokens(seq![a, first, b, second, c] + tail) == Ok::<ExprView, ErrorView>(
            ExprView::Binary(
                Box::new(
                    ExprView::Binary(
                        Box::new(ExprView::Literal(a.text)),
                        first,
                        Box::new(ExprView::Literal(b.text)),
                    ),
                ),
                second,
                Box::new(ExprView::Literal(c.text)),
            ),
        ),
{
    let ts = seq![a, first, b, second, c] + tail;
    let inner = ExprView::Binary(
        Box::new(ExprView::Literal(a.text)),
        first,
        Box::new(ExprView::Literal(b.text)),
    );
    let e = ExprView::Binary(Box::new(inner), second, Box::new(ExprView::Literal(c.text)));
    reveal_with_fuel(spelled_at, 3);
    reveal_with_fuel(width, 3);
    lemma_literal_is_operand(a.text, level);
    lemma_literal_is_operand(b.text, level);
    lemma_literal_is_operand(c.text, level);
    assert(fits_binary(inner, level));
    assert(fits_binary(e, level));
    lemma_fits_looser(e, level);
    assert(ts.skip(5) =~= tail);
    lemma_spelled_parses(ts, e);
}

/// A literal is an operand of every level, and a tree of every level.
pub proof fn lemma_literal_is_operand(text: Seq<char>, level: Level)
    ensures
        fits_operand(ExprView::Literal(text), level),
        fits_binary(ExprView::Literal(text), level),
{
    let e = ExprView::Literal(text);
    assert(fits_primary(e));
    assert(fits_unary(e));
    assert(fits_operand(e, Level::Multiplication));
    assert(fits_binary(e, Level::Multiplication));
    assert(fits_operand(e, Level::Addition));
    assert(fits_binary(e, Level::Addition));
    assert(fits_operand(e, Level::Comparison));
    assert(fits_binary(e, Level::Comparison));
    assert(fits_operand(e, Level::Equality));
    assert(fits_binary(e, Level::Equality));
}

/// Prefix operators chain to the right: `op op a` is `op (op a)`.
pub proof fn lemma_prefix_chain(first: TokenView, second: TokenView, a: TokenView, tail: Seq<TokenView>)
    requires
        is_prefix(first.kind),
        is_prefix(second.kind),
        is_literal(a.kind),
        ends(tail),
    ensures
        parse_tokens(seq![first, second, a] + tail) == Ok::<ExprView, ErrorView>(
            ExprView::Unary(
                first,
                Box::new(ExprView::Unary(second, Box::new(ExprView::Literal(a.text)))),
            ),
        ),
{
    let ts = seq![first, second, a] + tail;
    let inner = ExprView::Unary(second, Box::new(ExprView::Literal(a.text)));
    let e = ExprView::Unary(first, Box::new(inner));
    reveal_with_fuel(spelled_at, 3);
    reveal_with_fuel(width, 3);
    assert(fits_primary(ExprView::Literal(a.text)));
    assert(fits_unary(ExprView::Literal(a.text)));
    assert(fits_unary(inner));
    assert(fits_unary(e));
    assert(fits_operand(e, Level::Multiplication));
    assert(fits_binary(e, Level::Multiplication));
    lemma_fits_looser(e, Level::Multiplication);
    assert(ts.skip(3) =~= tail);
    lemma_spelled_parses(ts, e);
}

/// Grouping binds first: in `( a op b ) op c` the operation between the
/// parentheses is the left operand of the other, whatever the levels of
/// the two operators.
pub proof fn lemma_grouping_binds_first(
    inner_level: Level,
    outer_level: Level,
    open: TokenView,
    a: TokenView,
    inner_op: TokenView,
    b: TokenView,
    close: TokenView,
    outer_op: TokenView,
    c: TokenView,
    tail: Seq<TokenView>,
)
    requires
        open.kind is LeftParen,
        close.kind is RightParen,
        is_literal(a.kind),
        is_literal(b.kind),
        is_literal(c.kind),
        inner_level.has(inner_op.kind),
        outer_level.has(outer_op.kind),
        ends(tail),
    ensures
        parse_tokens(seq![open, a, inner_op, b, close, outer_op, c] + tail) == Ok::<
            ExprView,
            ErrorView,
        >(
            ExprView::Binary(
                Box::new(
                    ExprView::Grouping(
                        Box::new(
                            ExprView::Binary(
                                Box::new(ExprView::Literal(a.text)),
                                inner_op,
                                Box::new(ExprView::Literal(b.text)),
                            ),
                        ),
                    ),
                ),
                outer_op,
                Box::new(ExprView::Literal(c.text)),
            ),
        ),
{
    let ts = seq![open, a, inner_op, b, close, outer_op, c] + tail;
    let sum = ExprView::Binary(
        Box::new(ExprView::Literal(a.text)),
        inner_op,
        Box::new(ExprView::Literal(b.text)),
    );
    let group = ExprView::Grouping(Box::new(sum));
    let e = ExprView::Binary(Box::new(group), outer_op, Box::new(ExprView::Literal(c.text)));
    reveal_with_fuel(spelled_at, 4);
    reveal_with_fuel(width, 4);
    lemma_literal_is_operand(a.text, inner_level);
    lemma_literal_is_operand(b.text, inner_level);
    lemma_literal_is_operand(c.text, outer_level);
    assert(fits_binary(sum, inner_level));
    lemma_fits_looser(sum, inner_level);
    assert(fits_primary(group));
    assert(fits_unary(group));
    assert(fits_operand(group, Level::Multiplication));
    assert(fits_binary(group, Level::Multiplication));
    lemma_fits_tighter_operand(group, outer_level);
    assert(fits_binary(e, outer_level));
    lemma_fits_looser(e, outer_level);
    assert(ts.skip(7) =~= tail);
    lemma_spelled_parses(ts, e);
}

/// A unary expression is an operand of every level, and a tree of every
/// level.
pub proof fn lemma_fits_tighter_operand(e: ExprView, level: Level)
    requires
        fits_unary(e),
    ensures
        fits_operand(e, level),
        fits_binary(e, level),
{
    assert(fits_operand(e, Level::Multiplication));
    lemma_operand_fits_binary(e, Level::Multiplication);
    assert(fits_operand(e, Level::Addition));
    lemma_operand_fits_binary(e, Level::Addition);
    assert(fits_operand(e, Level::Comparison));
    lemma_operand_fits_binary(e, Level::Comparison);
    assert(fits_operand(e, Level::Equality));
    lemma_operand_fits_binary(e, Level::Equality);
}

/// A parenthesis left open: where the expression behind a `(` is complete
/// and no `)` follows it, the error is reported at the token that stands
/// there, or at the end of the tokens.
pub proof fn lemma_missing_closing(ts: Seq<TokenView>, inner: ExprView)
    requires
        ts.len() > 0,
        ts[0].kind is LeftParen,
        fits_binary(inner, Level::Equality),
        spelled_at(ts, 1, inner),
        stops_at(ts, 1 + (width(inner) as int), Level::Equality),
        !(1 + (width(inner) as int) < ts.len() && ts[1 + (width(inner) as int)].kind is RightParen),
    ensures
        parse_tokens(ts) == Err::<ExprView, ErrorView>(
            error_at(ts, 1 + (width(inner) as int), expected_closing()),
        ),
{
    lemma_binary_rereads(ts, 1, inner, Level::Equality);
    let err = Err::<(ExprView, int), ErrorView>(error_at(ts, 1 + (width(inner) as int), expected_closing()));
    assert(parse_primary(ts, 0) == err);
    assert(parse_unary(ts, 0) == err);
    assert(parse_operand(ts, 0, Level::Multiplication) == err);
    assert(parse_binary(ts, 0, Level::Multiplication) == err);
    assert(parse_operand(ts, 0, Level::Addition) == err);
    assert(parse_binary(ts, 0, Level::Addition) == err);
    assert(parse_operand(ts, 0, Level::Comparison) == err);
    assert(parse_binary(ts, 0, Level::Comparison) == err);
    assert(parse_operand(ts, 0, Level::Equality) == err);
    assert(parse_binary(ts, 0, Level::Equality) == err);
}

} // verus!
