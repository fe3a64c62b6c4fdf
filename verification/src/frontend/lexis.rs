//! What scanning means: the tokens and the lexical errors of a source text,
//! as functions on sequences of characters.

use crate::frontend::keywords::keyword_kind;
use crate::frontend::token::TokenType;
use crate::frontend::token::TokenView;
use crate::result::ErrorView;
use vstd::prelude::*;

verus! {

/// The decimal digits `0` to `9`.
pub open spec fn is_digit_char(c: char) -> bool {
    '0' <= c <= '9'
}

/// Whether `char::is_alphanumeric` holds of a character: whether Unicode
/// counts it among the letters or the numbers.
pub uninterp spec fn unicode_alphanumeric(c: char) -> bool;

/// `char::is_alphanumeric` says whether Unicode counts the character among
/// the letters or the numbers.
pub assume_specification[ char::is_alphanumeric ](c: char) -> (r: bool)
    ensures
        r == unicode_alphanumeric(c),
;

/// The letters: `a` to `z` and `A` to `Z`, and outside ASCII whatever
/// Unicode counts among the letters or the numbers.
pub open spec fn is_letter_char(c: char) -> bool {
    ('a' <= c <= 'z') || ('A' <= c <= 'Z') || (c > '\u{7f}' && unicode_alphanumeric(c))
}

/// What may start an identifier: a letter or the underscore.
pub open spec fn is_alpha_char(c: char) -> bool {
    is_letter_char(c) || c == '_'
}

/// What may stand inside an identifier: letters, digits, the underscore.
pub open spec fn is_word_char(c: char) -> bool {
    is_alpha_char(c) || is_digit_char(c)
}

/// Whether an identifier may start with `c`, given whether Unicode counts
/// `c` among the letters or the numbers.
pub fn starts_word_given(c: char, alphanumeric: bool) -> (r: bool)
    ensures
        r == (('a' <= c <= 'z') || ('A' <= c <= 'Z') || c == '_' || (c > '\u{7f}'
            && alphanumeric)),
{
    ('a' <= c && c <= 'z') || ('A' <= c && c <= 'Z') || c == '_' || (c > '\u{7f}' && alphanumeric)
}

/// Whether an identifier may start with `c`.
pub fn starts_word(c: char) -> (r: bool)
    ensures
        r == is_alpha_char(c),
{
    starts_word_given(c, c.is_alphanumeric())
}

/// The classes of characters of which the scanner takes a whole run.
#[derive(Debug, PartialEq, Eq, Clone, Copy, Structural)]
pub enum CharClass {
    /// Decimal digits.
    Digit,
    /// Letters, digits and the underscore.
    Word,
    /// Everything up to the end of the line.
    CommentText,
    /// Everything up to the next double quote.
    StringText,
}

impl CharClass {
    pub open spec fn holds(self, c: char) -> bool {
        match self {
            CharClass::Digit => is_digit_char(c),
            CharClass::Word => is_word_char(c),
            CharClass::CommentText => c != '\n',
            CharClass::StringText => c != '"',
        }
    }

    /// Whether `c` belongs to the class.
    pub fn contains(self, c: char) -> (r: bool)
        ensures
            r == self.holds(c),
    {
        match self {
            CharClass::Digit => '0' <= c && c <= '9',
            CharClass::Word => starts_word(c) || ('0' <= c && c <= '9'),
            CharClass::CommentText => c != '\n',
            CharClass::StringText => c != '"',
        }
    }
}

/// The line of the character at offset `i`, counted from one: one more
/// than the number of line terminators before it.
pub open spec fn line_at(src: Seq<char>, i: int) -> nat
    decreases i,
{
    if i <= 0 {
        1
    } else if src[i - 1] == '\n' {
        line_at(src, i - 1) + 1
    } else {
        line_at(src, i - 1)
    }
}

/// The column of the character at offset `i`, counted from one: the first
/// character of the text and each one after a line terminator stand in
/// column one.
pub open spec fn column_at(src: Seq<char>, i: int) -> nat
    decreases i,
{
    if i <= 0 || src[i - 1] == '\n' {
        1
    } else {
        column_at(src, i - 1) + 1
    }
}

/// Where the longest run of characters of `class` that starts at `from`
/// ends: the offset of the first character outside the class, or the
/// length of the text.
pub open spec fn run_end(src: Seq<char>, from: int, class: CharClass) -> int
    decreases src.len() - from,
{
    if 0 <= from < src.len() && class.holds(src[from]) {
        run_end(src, from + 1, class)
    } else {
        from
    }
}

/// Where a number that has its first digits before `from` ends: after the
/// digits that follow, and after a dot and more digits if the dot has a
/// digit behind it.
pub open spec fn number_end(src: Seq<char>, from: int) -> int {
    let whole = run_end(src, from, CharClass::Digit);
    if whole + 1 < src.len() && src[whole] == '.' && is_digit_char(src[whole + 1]) {
        run_end(src, whole + 2, CharClass::Digit)
    } else {
        whole
    }
}

/// The kind of a word: that of the reserved word it spells, or identifier.
pub open spec fn word_kind(word: Seq<char>) -> TokenType {
    match keyword_kind(word) {
        Some(kind) => kind,
        None => TokenType::IDENTIFIER,
    }
}

/// What the scanner finds at one place.
pub enum Lexed {
    /// A token of this kind and text.
    Token(TokenType, Seq<char>),
    /// Blank space or a comment.
    Blank,
    /// No token: a message, and the offending text.
    Bad(Seq<char>, Seq<char>),
}

/// One step of the scanner: what it finds, and where it goes on.
pub struct Step {
    pub found: Lexed,
    pub end: int,
}

/// The message for a string literal that the text's end cuts off.
pub open spec fn unterminated_string() -> Seq<char> {
    "unterminated string"@
}

/// The message for a character that starts no token.
pub open spec fn unexpected_character() -> Seq<char> {
    "unexpected character"@
}

/// A token of one character.
pub open spec fn one(src: Seq<char>, i: int, kind: TokenType) -> Step {
    Step { found: Lexed::Token(kind, src.subrange(i, i + 1)), end: i + 1 }
}

/// An operator that an `=` directly behind it makes into another: the
/// longer one wins wherever it is there.
pub open spec fn one_or_two(src: Seq<char>, i: int, short: TokenType, long: TokenType) -> Step {
    if i + 1 < src.len() && src[i + 1] == '=' {
        Step { found: Lexed::Token(long, src.subrange(i, i + 2)), end: i + 2 }
    } else {
        one(src, i, short)
    }
}

/// The step that the scanner takes at offset `i`, for `0 <= i < src.len()`.
pub open spec fn step_at(src: Seq<char>, i: int) -> Step {
    let c = src[i];
    if c == '(' {
        one(src, i, TokenType::LeftParen)
    } else if c == ')' {
        one(src, i, TokenType::RightParen)
    } else if c == '{' {
        one(src, i, TokenType::LeftBrace)
    } else if c == '}' {
        one(src, i, TokenType::RightBrace)
    } else if c == ',' {
        one(src, i, TokenType::COMMA)
    } else if c == '.' {
        one(src, i, TokenType::DOT)
    } else if c == '-' {
        one(src, i, TokenType::MINUS)
    } else if c == '+' {
        one(src, i, TokenType::PLUS)
    } else if c == ';' {
        one(src, i, TokenType::SEMICOLON)
    } else if c == '*' {
        one(src, i, TokenType::STAR)
    } else if c == '!' {
        one_or_two(src, i, TokenType::BANG, TokenType::BangEqual)
    } else if c == '=' {
        one_or_two(src, i, TokenType::EQUAL, TokenType::EqualEqual)
    } else if c == '>' {
        one_or_two(src, i, TokenType::GREATER, TokenType::GreaterEqual)
    } else if c == '<' {
        one_or_two(src, i, TokenType::LESS, TokenType::LessEqual)
    } else if c == '/' {
        if i + 1 < src.len() && src[i + 1] == '/' {
            Step { found: Lexed::Blank, end: run_end(src, i + 2, CharClass::CommentText) }
        } else {
            one(src, i, TokenType::SLASH)
        }
    } else if c == '"' {
        let close = run_end(src, i + 1, CharClass::StringText);
        if close < src.len() {
            Step {
                found: Lexed::Token(TokenType::STRING, src.subrange(i + 1, close)),
                end: close + 1,
            }
        } else {
            Step {
                found: Lexed::Bad(unterminated_string(), src.subrange(i, src.len() as int)),
                end: src.len() as int,
            }
        }
    } else if is_digit_char(c) {
        let end = number_end(src, i + 1);
        Step { found: Lexed::Token(TokenType::NUMBER, src.subrange(i, end)), end }
    } else if is_alpha_char(c) {
        let end = run_end(src, i + 1, CharClass::Word);
        Step { found: Lexed::Token(word_kind(src.subrange(i, end)), src.subrange(i, end)), end }
    } else if c == ' ' || c == '\r' || c == '\t' || c == '\n' {
        Step { found: Lexed::Blank, end: i + 1 }
    } else {
        Step { found: Lexed::Bad(unexpected_character(), src.subrange(i, i + 1)), end: i + 1 }
    }
}

/// The token that ends every scan: it stands where the text ends.
pub open spec fn eof_token(src: Seq<char>) -> TokenView {
    TokenView {
        kind: TokenType::EOF,
        line: line_at(src, src.len() as int),
        text: seq!['\0'],
        pos: column_at(src, src.len() as int),
    }
}

/// What a scan yields: the tokens in the order of the text, and the
/// lexical errors in the order of the text.
pub struct Scanned {
    pub tokens: Seq<TokenView>,
    pub errors: Seq<ErrorView>,
}

/// A run never ends before it starts, nor behind the text.
pub proof fn lemma_run_end_bounds(src: Seq<char>, from: int, class: CharClass)
    requires
        0 <= from <= src.len(),
    ensures
        from <= run_end(src, from, class) <= src.len(),
    decreases src.len() - from,
{
    if from < src.len() && class.holds(src[from]) {
        lemma_run_end_bounds(src, from + 1, class);
    }
}

/// A number never ends before it starts, nor behind the text.
pub proof fn lemma_number_end_bounds(src: Seq<char>, from: int)
    requires
        0 <= from <= src.len(),
    ensures
        from <= number_end(src, from) <= src.len(),
{
    lemma_run_end_bounds(src, from, CharClass::Digit);
    let whole = run_end(src, from, CharClass::Digit);
    if whole + 1 < src.len() {
        lemma_run_end_bounds(src, whole + 2, CharClass::Digit);
    }
}

/// Every step consumes at least one character and stays inside the text.
pub proof fn lemma_step_advances(src: Seq<char>, i: int)
    requires
        0 <= i < src.len(),
    ensures
        i < step_at(src, i).end <= src.len(),
{
    lemma_run_end_bounds(src, i + 1, CharClass::StringText);
    lemma_run_end_bounds(src, i + 1, CharClass::Word);
    lemma_number_end_bounds(src, i + 1);
    if i + 1 < src.len() {
        lemma_run_end_bounds(src, i + 2, CharClass::CommentText);
    }
}

/// The tokens and errors of the text from offset `i` on, the final
/// end-of-input token included. A token and an error carry the line and
/// the column of their first character.
pub open spec fn lex_from(src: Seq<char>, i: int) -> Scanned
    decreases src.len() - i,
    via lex_from_decreases
{
    if i < 0 || i >= src.len() {
        Scanned { tokens: seq![eof_token(src)], errors: Seq::empty() }
    } else {
        let step = step_at(src, i);
        let rest = lex_from(src, step.end);
        match step.found {
            Lexed::Token(kind, text) => Scanned {
                tokens: seq![
                    TokenView { kind, line: line_at(src, i), text, pos: column_at(src, i) },
                ] + rest.tokens,
                errors: rest.errors,
            },
            Lexed::Blank => rest,
            Lexed::Bad(message, whence) => Scanned {
                tokens: rest.tokens,
                errors: seq![
                    ErrorView::Lexical {
                        line: line_at(src, i),
                        pos: column_at(src, i),
                        message,
                        whence,
                    },
                ] + rest.errors,
            },
        }
    }
}

#[via_fn]
proof fn lex_from_decreases(src: Seq<char>, i: int) {
    if 0 <= i < src.len() {
        lemma_step_advances(src, i);
    }
}

/// The tokens and the lexical errors of a whole text.
pub open spec fn lex(src: Seq<char>) -> Scanned {
    lex_from(src, 0)
}

/// Neither a line nor a column number exceeds the offset by more than one.
pub proof fn lemma_position_bounds(src: Seq<char>, i: int)
    requires
        0 <= i,
    ensures
        1 <= line_at(src, i) <= i + 1,
        1 <= column_at(src, i) <= i + 1,
    decreases i,
{
    if i > 0 {
        lemma_position_bounds(src, i - 1);
    }
}

} // verus!
