//! The scanner: from source text to tokens and lexical errors.

use crate::frontend::keywords::lookup_chars;
use crate::frontend::lexis::column_at;
use crate::frontend::lexis::eof_token;
use crate::frontend::lexis::is_digit_char;
use crate::frontend::lexis::is_word_char;
use crate::frontend::lexis::lemma_position_bounds;
use crate::frontend::lexis::lemma_run_end_bounds;
use crate::frontend::lexis::lemma_step_advances;
use crate::frontend::lexis::lex;
use crate::frontend::lexis::lex_from;
use crate::frontend::lexis::line_at;
use crate::frontend::lexis::number_end;
use crate::frontend::lexis::run_end;
use crate::frontend::lexis::starts_word;
use crate::frontend::lexis::step_at;
use crate::frontend::lexis::unterminated_string;
use crate::frontend::lexis::word_kind;
use crate::frontend::lexis::CharClass;
use crate::frontend::lexis::Lexed;
use crate::frontend::lexis::Scanned;
use crate::frontend::lexis::Step;
use crate::frontend::token::lemma_token_views_push;
use crate::frontend::token::token_views;
use crate::frontend::token::Token;
use crate::frontend::token::TokenType;
use crate::frontend::token::TokenView;
use crate::result::error_views;
use crate::result::lemma_error_views_push;
use crate::result::Error;
use crate::result::ErrorView;
use crate::text::chars_of;
use crate::text::string_of;
use vstd::prelude::*;

verus! {

/// Whether every character of `s` belongs to `class`.
fn all_in_class(s: &str, class: CharClass) -> (r: bool)
    ensures
        r == (forall|i: int| 0 <= i < s@.len() ==> class.holds(#[trigger] s@[i])),
{
    let mut all: bool = true;
    for c in it: s.chars()
        invariant
            it.seq() == s@,
            all == (forall|i: int| 0 <= i < it.index() ==> class.holds(#[trigger] s@[i])),
    {
        all = all && class.contains(c);
    }
    all
}

/// Whether the text is a number without sign or fraction: one decimal
/// digit or more, and nothing else.
pub fn is_digit(c: &str) -> (r: bool)
    ensures
        r == (c@.len() > 0 && forall|i: int| 0 <= i < c@.len() ==> is_digit_char(#[trigger] c@[i])),
{
    c.unicode_len() > 0 && all_in_class(c, CharClass::Digit)
}

/// Whether the text holds nothing but letters, digits and underscores.
pub fn is_alphanumeric(s: &str) -> (r: bool)
    ensures
        r == (forall|i: int| 0 <= i < s@.len() ==> is_word_char(#[trigger] s@[i])),
{
    all_in_class(s, CharClass::Word)
}

/// A scanner over one source text. `start` is the offset of the lexeme
/// being scanned and `current` the offset of the next character to read;
/// `line` and `inline_offset` are the line and column of `current`,
/// `start_line` and `start_offset` those of `start`.
#[derive(Debug)]
pub struct Scanner {
    pub source: Vec<char>,
    pub tokens: Vec<Token>,
    pub errors: Vec<Error>,
    pub start: usize,
    pub start_line: usize,
    pub start_offset: usize,
    pub line: usize,
    pub inline_offset: usize,
    pub current: usize,
    pub count: usize,
}

impl Scanner {
    /// The cursor lies inside the text, and the line and column counters
    /// agree with the offsets they belong to.
    pub open spec fn wf(&self) -> bool {
        &&& self.count == self.source@.len()
        &&& self.count < usize::MAX
        &&& self.start <= self.current <= self.count
        &&& self.line == line_at(self.source@, self.current as int)
        &&& self.inline_offset == column_at(self.source@, self.current as int)
        &&& self.start_line == line_at(self.source@, self.start as int)
        &&& self.start_offset == column_at(self.source@, self.start as int)
    }

    /// What the scanner has emitted so far.
    pub open spec fn emitted(&self) -> Scanned {
        Scanned { tokens: token_views(self.tokens@), errors: error_views(self.errors@) }
    }

    /// The text and the start of the lexeme are those of `before`.
    pub open spec fn same_lexeme(&self, before: &Scanner) -> bool {
        &&& self.source@ == before.source@
        &&& self.count == before.count
        &&& self.start == before.start
        &&& self.start_line == before.start_line
        &&& self.start_offset == before.start_offset
    }

    /// The text and the whole cursor are those of `before`.
    pub open spec fn same_place(&self, before: &Scanner) -> bool {
        &&& self.same_lexeme(before)
        &&& self.current == before.current
        &&& self.line == before.line
        &&& self.inline_offset == before.inline_offset
    }

    /// The token that the lexeme from `start` to `to` makes.
    pub open spec fn lexeme_token(&self, kind: TokenType, to: int) -> TokenView {
        TokenView {
            kind,
            line: self.start_line as nat,
            text: self.source@.subrange(self.start as int, to),
            pos: self.start_offset as nat,
        }
    }

    /// A scanner at the start of `source`, with nothing emitted.
    pub fn new(source: &str) -> (s: Scanner)
        requires
            source@.len() < usize::MAX,
        ensures
            s.wf(),
            s.source@ == source@,
            s.start == 0,
            s.current == 0,
            s.tokens@.len() == 0,
            s.errors@.len() == 0,
    {
        let chars = chars_of(source);
        let count = chars.len();
        Scanner {
            source: chars,
            tokens: Vec::new(),
            errors: Vec::new(),
            start: 0,
            start_line: 1,
            start_offset: 1,
            line: 1,
            inline_offset: 1,
            current: 0,
            count,
        }
    }

    /// The characters from `start` to `end` as a string.
    pub fn slice(&self, start: usize, end: usize) -> (s: String)
        requires
            start <= end <= self.source@.len(),
        ensures
            s@ == self.source@.subrange(start as int, end as int),
    {
        string_of(&self.source, start, end)
    }

    /// Scans the rest of the text: emits its tokens and errors and the
    /// end-of-input token, and returns all the tokens emitted so far.
    pub fn scan_tokens(&mut self) -> (tokens: Vec<Token>)
        requires
            old(self).wf(),
        ensures
            final(self).wf(),
            final(self).source@ == old(self).source@,
            final(self).current == final(self).count,
            final(self).emitted().tokens == old(self).emitted().tokens + lex_from(
                old(self).source@,
                old(self).current as int,
            ).tokens,
            final(self).emitted().errors == old(self).emitted().errors + lex_from(
                old(self).source@,
                old(self).current as int,
            ).errors,
            token_views(tokens@) == final(self).emitted().tokens,
    {
        let ghost src = self.source@;
        let ghost all = lex_from(src, self.current as int);
        let ghost before = self.emitted();
        assert(before.tokens + all.tokens =~= self.emitted().tokens + all.tokens);
        while !self.is_at_end()
            invariant
                self.wf(),
                self.source@ == src,
                before.tokens + all.tokens == self.emitted().tokens + lex_from(
                    src,
                    self.current as int,
                ).tokens,
                before.errors + all.errors == self.emitted().errors + lex_from(
                    src,
                    self.current as int,
                ).errors,
            decreases self.count - self.current,
        {
            let ghost here = self.emitted();
            let ghost i = self.current as int;
            self.start = self.current;
            self.start_line = self.line;
            self.start_offset = self.inline_offset;
            self.advance();
            self.scan_token();
            proof {
                lemma_step_advances(src, i);
                let step = step_at(src, i);
                let rest = lex_from(src, step.end);
                match step.found {
                    Lexed::Token(kind, text) => {
                        let t = TokenView {
                            kind,
                            line: line_at(src, i),
                            text,
                            pos: column_at(src, i),
                        };
                        assert(here.tokens + (seq![t] + rest.tokens) =~= here.tokens.push(t)
                            + rest.tokens);
                    },
                    Lexed::Blank => {},
                    Lexed::Bad(message, whence) => {
                        let e = ErrorView::Lexical {
                            line: line_at(src, i),
                            pos: column_at(src, i),
                            message,
                            whence,
                        };
                        assert(here.errors + (seq![e] + rest.errors) =~= here.errors.push(e)
                            + rest.errors);
                    },
                }
            }
        }
        let ghost done = self.emitted();
        proof {
            reveal_strlit("\0");
            assert("\0"@ =~= seq!['\0']);
        }
        self.create_token(TokenType::EOF, self.line, String::from_str("\0"), self.inline_offset);
        proof {
            assert(done.tokens + seq![eof_token(src)] =~= done.tokens.push(eof_token(src)));
            assert(done.errors + Seq::<ErrorView>::empty() =~= done.errors);
        }
        let mut copy: Vec<Token> = Vec::new();
        let mut k: usize = 0;
        while k < self.tokens.len()
            invariant
                k <= self.tokens.len(),
                token_views(copy@) == token_views(self.tokens@).take(k as int),
            decreases self.tokens.len() - k,
        {
            let ghost held = copy@;
            let t = self.tokens[k].clone();
            copy.push(t);
            proof {
                lemma_token_views_push(held, t);
                assert(token_views(self.tokens@).take(k as int).push(t@) =~= token_views(
                    self.tokens@,
                ).take(k + 1));
            }
            k += 1;
        }
        assert(token_views(self.tokens@).take(k as int) =~= token_views(self.tokens@));
        copy
    }

    /// Whether the whole text has been read.
    pub fn is_at_end(&self) -> (r: bool)
        ensures
            r == (self.current >= self.count),
    {
        self.current >= self.count
    }

    /// What the step at `before.start` adds to what `before` had emitted.
    pub open spec fn with_step(before: &Scanner, step: Step) -> Scanned {
        match step.found {
            Lexed::Token(kind, text) => Scanned {
                tokens: before.emitted().tokens.push(
                    TokenView {
                        kind,
                        line: before.start_line as nat,
                        text,
                        pos: before.start_offset as nat,
                    },
                ),
                errors: before.emitted().errors,
            },
            Lexed::Blank => before.emitted(),
            Lexed::Bad(message, whence) => Scanned {
                tokens: before.emitted().tokens,
                errors: before.emitted().errors.push(
                    ErrorView::Lexical {
                        line: before.start_line as nat,
                        pos: before.start_offset as nat,
                        message,
                        whence,
                    },
                ),
            },
        }
    }

    /// Scans the lexeme whose first character, at `start`, has just been
    /// read: takes the step of the scanner at `start`.
    pub fn scan_token(&mut self)
        requires
            old(self).wf(),
            old(self).start + 1 == old(self).current,
        ensures
            final(self).wf(),
            final(self).same_lexeme(old(self)),
            final(self).current == step_at(old(self).source@, old(self).start as int).end,
            final(self).emitted() == Self::with_step(
                old(self),
                step_at(old(self).source@, old(self).start as int),
            ),
    {
        let c = self.current_char();
        if c == '(' {
            self.add_token(TokenType::LeftParen)
        } else if c == ')' {
            self.add_token(TokenType::RightParen)
        } else if c == '{' {
            self.add_token(TokenType::LeftBrace)
        } else if c == '}' {
            self.add_token(TokenType::RightBrace)
        } else if c == ',' {
            self.add_token(TokenType::COMMA)
        } else if c == '.' {
            self.add_token(TokenType::DOT)
        } else if c == '-' {
            self.add_token(TokenType::MINUS)
        } else if c == '+' {
            self.add_token(TokenType::PLUS)
        } else if c == ';' {
            self.add_token(TokenType::SEMICOLON)
        } else if c == '*' {
            self.add_token(TokenType::STAR)
        } else if c == '!' {
            if self.match_str('=') {
                self.add_token(TokenType::BangEqual)
            } else {
                self.add_token(TokenType::BANG)
            }
        } else if c == '=' {
            if self.match_str('=') {
                self.add_token(TokenType::EqualEqual)
            } else {
                self.add_token(TokenType::EQUAL)
            }
        } else if c == '>' {
            if self.match_str('=') {
                self.add_token(TokenType::GreaterEqual)
            } else {
                self.add_token(TokenType::GREATER)
            }
        } else if c == '<' {
            if self.match_str('=') {
                self.add_token(TokenType::LessEqual)
            } else {
                self.add_token(TokenType::LESS)
            }
        } else if c == '/' {
            if self.match_str('/') {
                self.scan_comment();
            } else {
                self.add_token(TokenType::SLASH);
            }
        } else if c == '"' {
            self.scan_string()
        } else if CharClass::Digit.contains(c) {
            self.scan_number()
        } else if starts_word(c) {
            self.scan_identifier()
        } else if c == ' ' || c == '\r' || c == '\t' || c == '\n' {
        } else {
            let whence = self.slice(self.start, self.current);
            self.add_error("unexpected character", whence);
        }
    }

    /// Scans a string literal whose opening quote, at `start`, has been
    /// read: reads up to the closing quote and emits the text between the
    /// two, or reads to the end of the text and reports that the literal
    /// is not terminated.
    pub fn scan_string(&mut self)
        requires
            old(self).wf(),
            old(self).start < old(self).current,
        ensures
            final(self).wf(),
            final(self).same_lexeme(old(self)),
            ({
                let src = old(self).source@;
                let close = run_end(src, old(self).current as int, CharClass::StringText);
                if close < src.len() {
                    &&& final(self).current == close + 1
                    &&& final(self).emitted().tokens == old(self).emitted().tokens.push(
                        TokenView {
                            kind: TokenType::STRING,
                            line: old(self).start_line as nat,
                            text: src.subrange(old(self).start + 1, close),
                            pos: old(self).start_offset as nat,
                        },
                    )
                    &&& final(self).emitted().errors == old(self).emitted().errors
                } else {
                    &&& final(self).current == src.len()
                    &&& final(self).emitted().tokens == old(self).emitted().tokens
                    &&& final(self).emitted().errors == old(self).emitted().errors.push(
                        ErrorView::Lexical {
                            line: old(self).start_line as nat,
                            pos: old(self).start_offset as nat,
                            message: unterminated_string(),
                            whence: src.subrange(old(self).start as int, src.len() as int),
                        },
                    )
                }
            }),
    {
        proof {
            lemma_run_end_bounds(self.source@, self.current as int, CharClass::StringText);
        }
        self.consume_run(CharClass::StringText);
        if self.is_at_end() {
            let whence = self.slice(self.start, self.current);
            self.add_error("unterminated string", whence);
        } else {
            let content = self.slice(self.start + 1, self.current);
            // The closing quote.
            self.advance();
            self.create_token(TokenType::STRING, self.start_line, content, self.start_offset);
        }
    }

    /// Skips a comment: reads up to the end of the line and leaves the
    /// line terminator unread.
    pub fn scan_comment(&mut self)
        requires
            old(self).wf(),
        ensures
            final(self).wf(),
            final(self).same_lexeme(old(self)),
            final(self).current == run_end(
                old(self).source@,
                old(self).current as int,
                CharClass::CommentText,
            ),
            final(self).emitted() == old(self).emitted(),
    {
        self.consume_run(CharClass::CommentText);
    }

    /// Reads the longest run of characters of `class` that starts at the
    /// cursor.
    pub fn consume_run(&mut self, class: CharClass)
        requires
            old(self).wf(),
        ensures
            final(self).wf(),
            final(self).same_lexeme(old(self)),
            final(self).current == run_end(old(self).source@, old(self).current as int, class),
            final(self).emitted() == old(self).emitted(),
    {
        let ghost src = self.source@;
        let ghost from = self.current as int;
        let ghost before = *self;
        loop
            invariant
                self.wf(),
                self.same_lexeme(&before),
                self.emitted() == before.emitted(),
                src == before.source@,
                run_end(src, self.current as int, class) == run_end(src, from, class),
            ensures
                self.current == run_end(src, from, class),
            decreases self.count - self.current,
        {
            match self.peek_next() {
                Some(c) => {
                    if !class.contains(c) {
                        break ;
                    }
                },
                None => {
                    break ;
                },
            }
            self.advance();
        }
    }

    /// The bookkeeping for a line terminator that has been read: the next
    /// character stands in column one of the next line.
    fn scan_new_line(&mut self)
        requires
            old(self).line < usize::MAX,
        ensures
            final(self).line == old(self).line + 1,
            final(self).inline_offset == 1,
            final(self).same_lexeme(old(self)),
            final(self).current == old(self).current,
            final(self).tokens == old(self).tokens,
            final(self).errors == old(self).errors,
    {
        self.line += 1;
        self.inline_offset = 1;
    }

    /// Scans a number whose text starts at `start`: reads the digits at
    /// the cursor, and a fraction if a dot with a digit behind it follows,
    /// and emits the text read since `start`.
    pub fn scan_number(&mut self)
        requires
            old(self).wf(),
        ensures
            final(self).wf(),
            final(self).same_lexeme(old(self)),
            final(self).current == number_end(old(self).source@, old(self).current as int),
            final(self).emitted().tokens == old(self).emitted().tokens.push(
                old(self).lexeme_token(TokenType::NUMBER, final(self).current as int),
            ),
            final(self).emitted().errors == old(self).emitted().errors,
    {
        self.consume_run(CharClass::Digit);
        let dot = match self.peek_next() {
            Some(c) => c == '.',
            None => false,
        };
        let fraction = dot && match self.peek(Some(self.current + 2)) {
            Some(c) => CharClass::Digit.contains(c),
            None => false,
        };
        if fraction {
            // The dot.
            self.advance();
            self.consume_run(CharClass::Digit);
        }
        self.add_token(TokenType::NUMBER);
    }

    /// Scans a word whose text starts at `start`: reads the letters,
    /// digits and underscores at the cursor, and emits the text read since
    /// `start` as the reserved word that it spells, or else as an
    /// identifier.
    pub fn scan_identifier(&mut self)
        requires
            old(self).wf(),
        ensures
            final(self).wf(),
            final(self).same_lexeme(old(self)),
            final(self).current == run_end(
                old(self).source@,
                old(self).current as int,
                CharClass::Word,
            ),
            final(self).emitted().tokens == old(self).emitted().tokens.push(
                old(self).lexeme_token(
                    word_kind(
                        old(self).source@.subrange(
                            old(self).start as int,
                            final(self).current as int,
                        ),
                    ),
                    final(self).current as int,
                ),
            ),
            final(self).emitted().errors == old(self).emitted().errors,
    {
        self.consume_run(CharClass::Word);
        match lookup_chars(&self.source, self.start, self.current) {
            Some(kind) => self.add_token(kind),
            None => self.add_token(TokenType::IDENTIFIER),
        }
    }

    /// Reads the next character if it is `expected`, and says whether it
    /// did.
    pub fn match_str(&mut self, expected: char) -> (r: bool)
        requires
            old(self).wf(),
        ensures
            final(self).wf(),
            final(self).same_lexeme(old(self)),
            final(self).emitted() == old(self).emitted(),
            r == (old(self).current < old(self).count
                && old(self).source@[old(self).current as int] == expected),
            final(self).current == if r {
                old(self).current + 1
            } else {
                old(self).current as int
            },
    {
        match self.peek_next() {
            Some(next) => {
                if next != expected {
                    return false;
                }
            },
            None => {
                return false;
            },
        }
        self.advance();
        true
    }

    /// The character read last; the null character where none has been
    /// read.
    pub fn current_char(&self) -> (c: char)
        requires
            self.wf(),
        ensures
            c == if self.current > 0 {
                self.source@[self.current - 1]
            } else {
                '\0'
            },
    {
        match self.peek(None) {
            Some(c) => c,
            None => '\0',
        }
    }

    /// Reads one character and returns it; at the end of the text reads
    /// nothing and returns `None`.
    pub fn advance(&mut self) -> (r: Option<char>)
        requires
            old(self).wf(),
        ensures
            final(self).wf(),
            final(self).same_lexeme(old(self)),
            final(self).emitted() == old(self).emitted(),
            old(self).current < old(self).count ==> final(self).current == old(self).current + 1
                && r == Some(old(self).source@[old(self).current as int]),
            old(self).current >= old(self).count ==> final(self).current == old(self).current
                && r is None,
    {
        if self.current >= self.count {
            return None;
        }
        proof {
            lemma_position_bounds(self.source@, self.current as int);
        }
        let c = self.source[self.current];
        self.current += 1;
        if c == '\n' {
            self.scan_new_line();
        } else {
            self.inline_offset += 1;
        }
        self.peek(None)
    }

    /// The `n`-th character of the text, counted from one, or the one
    /// read last where `n` is `None`; `None` where there is no such
    /// character.
    pub fn peek(&self, n: Option<usize>) -> (r: Option<char>)
        requires
            self.count == self.source@.len(),
        ensures
            ({
                let end = match n {
                    Some(end) => end,
                    None => self.current,
                };
                r == if 1 <= end <= self.source@.len() {
                    Some(self.source@[end - 1])
                } else {
                    None
                }
            }),
    {
        let end = match n {
            Some(end) => end,
            None => self.current,
        };
        if end == 0 || end > self.count {
            return None;
        }
        Some(self.source[end - 1])
    }

    /// The next character to read, or `None` at the end of the text.
    pub fn peek_next(&self) -> (r: Option<char>)
        requires
            self.wf(),
        ensures
            r == if self.current < self.source@.len() {
                Some(self.source@[self.current as int])
            } else {
                None
            },
    {
        self.peek(Some(self.current + 1))
    }

    /// Emits a token and returns a copy of it.
    pub fn create_token(&mut self, t: TokenType, line: usize, val: String, pos: usize) -> (token:
        Token)
        ensures
            final(self).same_place(old(self)),
            final(self).emitted().tokens == old(self).emitted().tokens.push(token@),
            final(self).emitted().errors == old(self).emitted().errors,
            token@ == (TokenView { kind: t, line: line as nat, text: val@, pos: pos as nat }),
    {
        let token = Token::new(t, line, val, pos);
        proof {
            lemma_token_views_push(self.tokens@, token);
        }
        let copy = token.clone();
        self.tokens.push(token);
        copy
    }

    /// Emits the text read since `start` as a token of the given kind.
    pub fn add_token(&mut self, tok_type: TokenType)
        requires
            old(self).wf(),
        ensures
            final(self).same_place(old(self)),
            final(self).emitted().tokens == old(self).emitted().tokens.push(
                old(self).lexeme_token(tok_type, old(self).current as int),
            ),
            final(self).emitted().errors == old(self).emitted().errors,
    {
        let val = self.slice(self.start, self.current);
        self.create_token(tok_type, self.start_line, val, self.start_offset);
    }

    /// Reports a lexical error at the start of the lexeme.
    pub fn add_error(&mut self, message: &str, whence: String)
        ensures
            final(self).same_place(old(self)),
            final(self).emitted().tokens == old(self).emitted().tokens,
            final(self).emitted().errors == old(self).emitted().errors.push(
                ErrorView::Lexical {
                    line: old(self).start_line as nat,
                    pos: old(self).start_offset as nat,
                    message: message@,
                    whence: whence@,
                },
            ),
    {
        let e = Error::Lexical(
            self.start_line as u64,
            self.start_offset as u64,
            String::from_str(message),
            whence,
        );
        proof {
            lemma_error_views_push(self.errors@, e);
        }
        self.errors.push(e);
    }
}

/// Scans a whole text: its tokens, the last of them the end-of-input
/// token, and its lexical errors.
pub fn scan(source: &str) -> (r: (Vec<Token>, Vec<Error>))
    requires
        source@.len() < usize::MAX,
    ensures
        token_views(r.0@) == lex(source@).tokens,
        error_views(r.1@) == lex(source@).errors,
{
    let mut scanner = Scanner::new(source);
    assert(scanner.emitted().tokens =~= Seq::empty());
    assert(scanner.emitted().errors =~= Seq::empty());
    let tokens = scanner.scan_tokens();
    assert(Seq::<TokenView>::empty() + lex(source@).tokens =~= lex(source@).tokens);
    assert(Seq::<ErrorView>::empty() + lex(source@).errors =~= lex(source@).errors);
    (tokens, scanner.errors)
}

} // verus!
