//! Laws of the front end as a whole.

use crate::frontend::ast::expr::ExprView;
use crate::frontend::grammar::Level;
use crate::frontend::grammar_laws::lemma_literal_is_operand;
use crate::frontend::grammar_laws::lemma_spelled_parses;
use crate::frontend::grammar_laws::spelled_at;
use crate::frontend::grammar_laws::width;
use crate::frontend::lexis::eof_token;
use crate::frontend::lexis_laws::lemma_number_is_kept;
use crate::frontend::lexis::is_digit_char;
use crate::frontend::lexis::lex;
use crate::frontend::lexis::lex_from;
use crate::frontend::lexis::number_end;
use crate::frontend::lexis::run_end;
use crate::frontend::lexis::step_at;
use crate::frontend::lexis::word_kind;
use crate::frontend::lexis::CharClass;
use crate::frontend::token::TokenType;
use crate::frontend::token::TokenView;
use crate::lox::Lox;
use crate::result::ErrorView;
use vstd::prelude::*;

verus! {

/// A text that is one number: digits, and a dot and more digits or none.
pub open spec fn is_number_text(v: Seq<char>) -> bool {
    v.len() > 0 && is_digit_char(v[0]) && number_end(v, 1) == v.len()
}

/// A text that is one of the literal words.
pub open spec fn is_literal_word(v: Seq<char>) -> bool {
    v == "true"@ || v == "false"@ || v == "nil"@
}

/// A text that is scanned as one literal token and nothing else is
/// parsed as the literal with the token's text.
proof fn lemma_one_literal_token(v: Seq<char>, kind: TokenType)
    requires
        kind is NUMBER || kind is TRUE || kind is FALSE || kind is NIL,
        lex(v).errors.len() == 0,
        lex(v).tokens == seq![TokenView { kind, line: 1, text: v, pos: 1 }, eof_token(v)],
    ensures
        Lox::front_end(v) == Ok::<ExprView, Seq<ErrorView>>(ExprView::Literal(v)),
{
    let ts = lex(v).tokens;
    let e = ExprView::Literal(v);
    lemma_literal_is_operand(v, Level::Equality);
    assert(spelled_at(ts, 0, e));
    assert(ts.skip(width(e) as int)[0] == ts[1]);
    lemma_spelled_parses(ts, e);
}

/// Re-rendering a number: the prefix form of a literal whose text is a
/// number, scanned and parsed again, is that literal.
pub proof fn lemma_number_rerenders(v: Seq<char>)
    requires
        is_number_text(v),
    ensures
        Lox::front_end(ExprView::Literal(v).prefix()) == Ok::<ExprView, Seq<ErrorView>>(
            ExprView::Literal(v),
        ),
{
    lemma_number_is_kept(v);
    lemma_one_literal_token(v, TokenType::NUMBER);
}

/// Re-rendering a literal word: the prefix form of the literal `true`,
/// `false` or `nil`, scanned and parsed again, is that literal.
pub proof fn lemma_literal_word_rerenders(v: Seq<char>)
    requires
        is_literal_word(v),
    ensures
        Lox::front_end(ExprView::Literal(v).prefix()) == Ok::<ExprView, Seq<ErrorView>>(
            ExprView::Literal(v),
        ),
{
    reveal_strlit("and");
    reveal_strlit("class");
    reveal_strlit("else");
    reveal_strlit("false");
    reveal_strlit("fun");
    reveal_strlit("for");
    reveal_strlit("if");
    reveal_strlit("nil");
    reveal_strlit("or");
    reveal_strlit("print");
    reveal_strlit("return");
    reveal_strlit("super");
    reveal_strlit("this");
    reveal_strlit("true");
    reveal_with_fuel(run_end, 6);
    assert(v.subrange(0, v.len() as int) =~= v);
    let kind = word_kind(v);
    assert(kind is TRUE || kind is FALSE || kind is NIL);
    assert(run_end(v, 1, CharClass::Word) == v.len());
    let step = step_at(v, 0);
    assert(step.end == v.len());
    let rest = lex_from(v, step.end);
    assert(rest.tokens == seq![eof_token(v)]);
    assert(lex(v).tokens =~= seq![TokenView { kind, line: 1, text: v, pos: 1 }, eof_token(v)]);
    lemma_one_literal_token(v, kind);
}

} // verus!
