//! Laws of scanning.

use crate::frontend::keywords::keyword_kind;
use crate::frontend::lexis::column_at;
use crate::frontend::lexis::eof_token;
use crate::frontend::lexis::lemma_number_end_bounds;
use crate::frontend::lexis::lemma_run_end_bounds;
use crate::frontend::lexis::lemma_step_advances;
use crate::frontend::lexis::lex;
use crate::frontend::lexis::lex_from;
use crate::frontend::lexis::line_at;
use crate::frontend::lexis::number_end;
use crate::frontend::lexis::run_end;
use crate::frontend::lexis::is_digit_char;
use crate::frontend::lexis::step_at;
use crate::frontend::lexis::unterminated_string;
use crate::frontend::lexis::CharClass;
use crate::frontend::lexis::Lexed;
use crate::frontend::lexis::Scanned;
use crate::frontend::lexis::Step;
use crate::frontend::token::TokenType;
use crate::frontend::token::TokenView;
use crate::result::ErrorView;
use vstd::prelude::*;

verus! {

/// The characters that an `=` directly behind them turns into a longer
/// operator.
pub open spec fn starts_long_operator(c: char) -> bool {
    c == '!' || c == '=' || c == '<' || c == '>'
}

/// The kind of the operator that `c` and `=` make together.
pub open spec fn long_operator(c: char) -> TokenType {
    if c == '!' {
        TokenType::BangEqual
    } else if c == '=' {
        TokenType::EqualEqual
    } else if c == '<' {
        TokenType::LessEqual
    } else {
        TokenType::GreaterEqual
    }
}

/// Longest match: wherever `!`, `=`, `<` or `>` has an `=` directly behind
/// it, the scanner takes both characters as one token of the longer kind.
pub proof fn lemma_longest_operator_wins(src: Seq<char>, i: int)
    requires
        0 <= i,
        i + 1 < src.len(),
        starts_long_operator(src[i]),
        src[i + 1] == '=',
    ensures
        step_at(src, i) == (Step {
            found: Lexed::Token(long_operator(src[i]), src.subrange(i, i + 2)),
            end: i + 2,
        }),
{
}

/// Longest match: a text made of `!`, `=`, `<` or `>` and an `=` is one
/// token of the longer kind, followed by the end-of-input token alone.
pub proof fn lemma_long_operator_alone(c: char)
    requires
        starts_long_operator(c),
    ensures
        lex(seq![c, '=']) == (Scanned {
            tokens: seq![
                TokenView { kind: long_operator(c), line: 1, text: seq![c, '='], pos: 1 },
                TokenView { kind: TokenType::EOF, line: 1, text: seq!['\0'], pos: 3 },
            ],
            errors: Seq::empty(),
        }),
{
    let src = seq![c, '='];
    reveal_with_fuel(line_at, 3);
    reveal_with_fuel(column_at, 3);
    reveal_with_fuel(lex_from, 2);
    assert(src.subrange(0, 2) =~= src);
    assert(step_at(src, 0).end == 2);
    let got = lex(src);
    assert(got.tokens =~= seq![
        TokenView { kind: long_operator(c), line: 1, text: seq![c, '='], pos: 1 },
        TokenView { kind: TokenType::EOF, line: 1, text: seq!['\0'], pos: 3 },
    ]);
    assert(got.errors =~= Seq::empty());
}

/// The number of line terminators in a text.
pub open spec fn terminators(s: Seq<char>) -> nat
    decreases s.len(),
{
    if s.len() == 0 {
        0
    } else if s.last() == '\n' {
        terminators(s.drop_last()) + 1
    } else {
        terminators(s.drop_last())
    }
}

/// The line at an offset is one more than the number of line terminators
/// before the offset.
pub proof fn lemma_line_counts_terminators(src: Seq<char>, i: int)
    requires
        0 <= i <= src.len(),
    ensures
        line_at(src, i) == 1 + terminators(src.take(i)),
    decreases i,
{
    if i > 0 {
        lemma_line_counts_terminators(src, i - 1);
        assert(src.take(i).drop_last() =~= src.take(i - 1));
        assert(src.take(i).last() == src[i - 1]);
    }
}

/// The column restarts at one after each line terminator.
pub proof fn lemma_column_restarts(src: Seq<char>, i: int)
    requires
        0 < i <= src.len(),
        src[i - 1] == '\n',
    ensures
        column_at(src, i) == 1,
{
}

/// The column counts the characters read since the line began: the
/// characters from `from` to `to` hold no line terminator, so the column
/// grows by `to - from`.
pub proof fn lemma_column_counts(src: Seq<char>, from: int, to: int)
    requires
        0 <= from <= to <= src.len(),
        forall|k: int| from <= k < to ==> src[k] != '\n',
    ensures
        column_at(src, to) == column_at(src, from) + (to - from),
        line_at(src, to) == line_at(src, from),
    decreases to - from,
{
    if from < to {
        lemma_column_counts(src, from, to - 1);
    }
}

/// A text of `n` line terminators.
pub open spec fn blank_lines(n: nat) -> Seq<char> {
    Seq::new(n, |i: int| '\n')
}

/// A token, `n` lines further down.
pub open spec fn token_down(t: TokenView, n: nat) -> TokenView {
    TokenView { kind: t.kind, line: t.line + n, text: t.text, pos: t.pos }
}

/// An error, `n` lines further down.
pub open spec fn error_down(e: ErrorView, n: nat) -> ErrorView {
    match e {
        ErrorView::Lexical { line, pos, message, whence } => ErrorView::Lexical {
            line: line + n,
            pos,
            message,
            whence,
        },
        _ => e,
    }
}

/// Tokens and errors, `n` lines further down.
pub open spec fn scanned_down(s: Scanned, n: nat) -> Scanned {
    Scanned {
        tokens: s.tokens.map_values(|t: TokenView| token_down(t, n)),
        errors: s.errors.map_values(|e: ErrorView| error_down(e, n)),
    }
}

proof fn lemma_run_end_behind_blank_lines(n: nat, rest: Seq<char>, from: int, class: CharClass)
    requires
        0 <= from <= rest.len(),
    ensures
        run_end(blank_lines(n) + rest, n + from, class) == n + run_end(rest, from, class),
    decreases rest.len() - from,
{
    let src = blank_lines(n) + rest;
    if from < rest.len() {
        assert(src[n + from] == rest[from]);
        if class.holds(rest[from]) {
            lemma_run_end_behind_blank_lines(n, rest, from + 1, class);
        }
    }
}

proof fn lemma_place_behind_blank_lines(n: nat, rest: Seq<char>, i: int)
    requires
        0 <= i <= rest.len(),
    ensures
        line_at(blank_lines(n) + rest, n + i) == n + line_at(rest, i),
        column_at(blank_lines(n) + rest, n + i) == column_at(rest, i),
    decreases n + i,
{
    let src = blank_lines(n) + rest;
    if i > 0 {
        assert(src[n + i - 1] == rest[i - 1]);
        lemma_place_behind_blank_lines(n, rest, i - 1);
    } else if n > 0 {
        assert(src[n - 1] == '\n');
        assert(blank_lines(n) + rest =~= blank_lines((n - 1) as nat) + (seq!['\n'] + rest));
        lemma_place_behind_blank_lines((n - 1) as nat, seq!['\n'] + rest, 0);
        assert(line_at(src, n - 1) == n - 1 + line_at(seq!['\n'] + rest, 0));
    }
}

proof fn lemma_step_behind_blank_lines(n: nat, rest: Seq<char>, i: int)
    requires
        0 <= i < rest.len(),
    ensures
        step_at(blank_lines(n) + rest, n + i).found == step_at(rest, i).found,
        step_at(blank_lines(n) + rest, n + i).end == n + step_at(rest, i).end,
{
    let src = blank_lines(n) + rest;
    assert(src[n + i] == rest[i]);
    assert(src.len() == n + rest.len());
    if i + 1 < rest.len() {
        assert(src[n + i + 1] == rest[i + 1]);
        lemma_run_end_behind_blank_lines(n, rest, i + 2, CharClass::CommentText);
    }
    lemma_run_end_behind_blank_lines(n, rest, i + 1, CharClass::StringText);
    lemma_run_end_behind_blank_lines(n, rest, i + 1, CharClass::Word);
    lemma_run_end_behind_blank_lines(n, rest, i + 1, CharClass::Digit);
    lemma_run_end_bounds(rest, i + 1, CharClass::StringText);
    lemma_run_end_bounds(rest, i + 1, CharClass::Word);
    lemma_run_end_bounds(rest, i + 1, CharClass::Digit);
    lemma_number_end_bounds(rest, i + 1);
    let whole = run_end(rest, i + 1, CharClass::Digit);
    if whole + 1 < rest.len() {
        assert(src[n + whole] == rest[whole]);
        assert(src[n + whole + 1] == rest[whole + 1]);
        lemma_run_end_behind_blank_lines(n, rest, whole + 2, CharClass::Digit);
    }
    assert(number_end(src, n + i + 1) == n + number_end(rest, i + 1));
    assert forall|a: int, b: int| 0 <= a <= b <= rest.len() implies #[trigger] src.subrange(
        n + a,
        n + b,
    ) == rest.subrange(a, b) by {
        assert(src.subrange(n + a, n + b) =~= rest.subrange(a, b));
    }
    assert(src.subrange(n + i, n + (i + 1)) == rest.subrange(i, i + 1));
    if i + 2 <= rest.len() {
        assert(src.subrange(n + i, n + (i + 2)) == rest.subrange(i, i + 2));
    }
    let close = run_end(rest, i + 1, CharClass::StringText);
    assert(src.subrange(n + (i + 1), n + close) == rest.subrange(i + 1, close));
    assert(src.subrange(n + i, n + (rest.len() as int)) == rest.subrange(i, rest.len() as int));
    assert(src.subrange(n + i, n + number_end(rest, i + 1)) == rest.subrange(
        i,
        number_end(rest, i + 1),
    ));
    let word = run_end(rest, i + 1, CharClass::Word);
    assert(src.subrange(n + i, n + word) == rest.subrange(i, word));
}

proof fn lemma_lex_behind_blank_lines(n: nat, rest: Seq<char>, i: int)
    requires
        0 <= i <= rest.len(),
    ensures
        lex_from(blank_lines(n) + rest, n + i) == scanned_down(lex_from(rest, i), n),
    decreases rest.len() - i,
{
    let src = blank_lines(n) + rest;
    let want = scanned_down(lex_from(rest, i), n);
    lemma_place_behind_blank_lines(n, rest, i);
    if i >= rest.len() {
        assert(lex_from(src, n + i).tokens =~= want.tokens);
        assert(lex_from(src, n + i).errors =~= want.errors);
    } else {
        lemma_step_behind_blank_lines(n, rest, i);
        lemma_step_advances(rest, i);
        let step = step_at(rest, i);
        lemma_lex_behind_blank_lines(n, rest, step.end);
        let tail = lex_from(rest, step.end);
        assert(lex_from(src, n + step.end) == scanned_down(tail, n));
        assert(lex_from(src, n + i).tokens =~= want.tokens);
        assert(lex_from(src, n + i).errors =~= want.errors);
    }
}

proof fn lemma_lex_skips_blank_lines(n: nat, rest: Seq<char>, k: int)
    requires
        0 <= k <= n,
    ensures
        lex_from(blank_lines(n) + rest, k) == lex_from(blank_lines(n) + rest, n as int),
    decreases n - k,
{
    let src = blank_lines(n) + rest;
    if k < n {
        assert(src[k] == '\n');
        lemma_lex_skips_blank_lines(n, rest, k + 1);
    }
}

/// Line tracking: behind `n` line terminators a text is scanned as it is
/// alone, but for the line numbers, which are greater by `n`. So a token
/// that directly follows `n` line terminators stands on line `1 + n` in
/// column one.
pub proof fn lemma_leading_terminators(n: nat, rest: Seq<char>)
    ensures
        lex(blank_lines(n) + rest) == scanned_down(lex(rest), n),
{
    lemma_lex_skips_blank_lines(n, rest, 0);
    lemma_lex_behind_blank_lines(n, rest, 0);
}

/// What holds of the end-of-input token and of the token of every step
/// holds of every token of a scan.
pub proof fn lemma_every_token(src: Seq<char>, i: int, holds: spec_fn(TokenView) -> bool)
    requires
        holds(eof_token(src)),
        forall|j: int|
            0 <= j < src.len() ==> match #[trigger] step_at(src, j).found {
                Lexed::Token(kind, text) => holds(
                    TokenView { kind, line: line_at(src, j), text, pos: column_at(src, j) },
                ),
                _ => true,
            },
    ensures
        forall|k: int|
            0 <= k < lex_from(src, i).tokens.len() ==> holds(#[trigger] lex_from(src, i).tokens[k]),
    decreases src.len() - i,
{
    if 0 <= i < src.len() {
        lemma_step_advances(src, i);
        let step = step_at(src, i);
        let rest = lex_from(src, step.end);
        lemma_every_token(src, step.end, holds);
        assert forall|k: int| 0 <= k < lex_from(src, i).tokens.len() implies holds(
            #[trigger] lex_from(src, i).tokens[k],
        ) by {
            match step.found {
                Lexed::Token(kind, text) => {
                    if k > 0 {
                        assert(lex_from(src, i).tokens[k] == rest.tokens[k - 1]);
                    }
                },
                _ => {
                    assert(lex_from(src, i).tokens == rest.tokens);
                },
            }
        }
    }
}

/// Every scan ends with the end-of-input token, and holds no other token
/// of that kind.
pub proof fn lemma_ends_with_eof(src: Seq<char>, i: int)
    ensures
        lex_from(src, i).tokens.len() >= 1,
        lex_from(src, i).tokens.last() == eof_token(src),
        forall|k: int|
            0 <= k < lex_from(src, i).tokens.len() - 1 ==> !(#[trigger] lex_from(
                src,
                i,
            ).tokens[k].kind is EOF),
    decreases src.len() - i,
{
    if 0 <= i < src.len() {
        lemma_step_advances(src, i);
        lemma_ends_with_eof(src, step_at(src, i).end);
    }
}

/// Reserved words win: no token of kind identifier spells a reserved word,
/// and a token of a reserved word's kind spells that word.
pub proof fn lemma_reserved_words_win(src: Seq<char>)
    ensures
        forall|k: int|
            0 <= k < lex(src).tokens.len() ==> {
                let t = #[trigger] lex(src).tokens[k];
                &&& t.kind is IDENTIFIER ==> keyword_kind(t.text) is None
                &&& t.kind.is_keyword() ==> keyword_kind(t.text) == Some(t.kind)
            },
{
    let holds = |t: TokenView|
        {
            &&& t.kind is IDENTIFIER ==> keyword_kind(t.text) is None
            &&& t.kind.is_keyword() ==> keyword_kind(t.text) == Some(t.kind)
        };
    lemma_every_token(src, 0, holds);
}

/// A run is the longest there is: every character in it belongs to the
/// class, and the character behind it, if there is one, does not.
pub proof fn lemma_run_is_longest(src: Seq<char>, from: int, class: CharClass)
    requires
        0 <= from <= src.len(),
    ensures
        from <= run_end(src, from, class) <= src.len(),
        forall|k: int| from <= k < run_end(src, from, class) ==> class.holds(#[trigger] src[k]),
        run_end(src, from, class) < src.len() ==> !class.holds(src[run_end(src, from, class)]),
    decreases src.len() - from,
{
    if from < src.len() && class.holds(src[from]) {
        lemma_run_is_longest(src, from + 1, class);
    }
}

/// A run that meets nothing outside its class goes on to the end of the
/// text.
pub proof fn lemma_run_to_the_end(src: Seq<char>, from: int, class: CharClass)
    requires
        0 <= from <= src.len(),
        forall|k: int| from <= k < src.len() ==> class.holds(#[trigger] src[k]),
    ensures
        run_end(src, from, class) == src.len(),
    decreases src.len() - from,
{
    if from < src.len() {
        lemma_run_to_the_end(src, from + 1, class);
    }
}

/// The end-of-input token stands on the line after the last line
/// terminator: its line is one more than the number of line terminators
/// in the text, and its column is one where the text is empty or ends
/// with a line terminator.
pub proof fn lemma_final_place(src: Seq<char>)
    ensures
        lex(src).tokens.last() == eof_token(src),
        eof_token(src).line == 1 + terminators(src),
        src.len() == 0 || src.last() == '\n' ==> eof_token(src).pos == 1,
{
    lemma_ends_with_eof(src, 0);
    lemma_line_counts_terminators(src, src.len() as int);
    assert(src.take(src.len() as int) =~= src);
}

/// A comment is no token: from `//` the scanner goes on at the end of the
/// line, with nothing emitted, and leaves the line terminator unread.
pub proof fn lemma_comment_is_skipped(src: Seq<char>, i: int)
    requires
        0 <= i,
        i + 1 < src.len(),
        src[i] == '/',
        src[i + 1] == '/',
    ensures
        lex_from(src, i) == lex_from(src, step_at(src, i).end),
        i + 2 <= step_at(src, i).end <= src.len(),
        forall|k: int| i <= k < step_at(src, i).end ==> #[trigger] src[k] != '\n',
        step_at(src, i).end < src.len() ==> src[step_at(src, i).end] == '\n',
{
    lemma_run_is_longest(src, i + 2, CharClass::CommentText);
}

/// A string literal that nothing closes: a text that starts with a double
/// quote and holds no other yields the end-of-input token alone and one
/// error, which names the literal as unterminated and stands where the
/// literal starts.
pub proof fn lemma_unterminated_string(src: Seq<char>)
    requires
        src.len() > 0,
        src[0] == '"',
        forall|k: int| 1 <= k < src.len() ==> #[trigger] src[k] != '"',
    ensures
        lex(src) == (Scanned {
            tokens: seq![eof_token(src)],
            errors: seq![
                ErrorView::Lexical {
                    line: 1,
                    pos: 1,
                    message: unterminated_string(),
                    whence: src,
                },
            ],
        }),
{
    lemma_run_to_the_end(src, 1, CharClass::StringText);
    assert(src.subrange(0, src.len() as int) =~= src);
    let step = step_at(src, 0);
    assert(step.end == src.len());
    let rest = lex_from(src, step.end);
    assert(lex(src).tokens =~= seq![eof_token(src)]);
    assert(lex(src).errors =~= seq![
        ErrorView::Lexical { line: 1, pos: 1, message: unterminated_string(), whence: src },
    ]);
}

/// The text of a number is kept as it is written: a text that is one
/// number yields one number token with the whole text, and the
/// end-of-input token.
pub proof fn lemma_number_is_kept(v: Seq<char>)
    requires
        v.len() > 0,
        is_digit_char(v[0]),
        number_end(v, 1) == v.len(),
    ensures
        lex(v) == (Scanned {
            tokens: seq![
                TokenView { kind: TokenType::NUMBER, line: 1, text: v, pos: 1 },
                eof_token(v),
            ],
            errors: Seq::empty(),
        }),
{
    assert(v.subrange(0, v.len() as int) =~= v);
    let step = step_at(v, 0);
    assert(step.end == v.len());
    let rest = lex_from(v, step.end);
    assert(rest.tokens == seq![eof_token(v)]);
    assert(lex(v).tokens =~= seq![
        TokenView { kind: TokenType::NUMBER, line: 1, text: v, pos: 1 },
        eof_token(v),
    ]);
    assert(lex(v).errors =~= Seq::empty());
}

} // verus!
