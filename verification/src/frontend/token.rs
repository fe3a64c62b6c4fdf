//! The token taxonomy, and the token value with its source position.

use vstd::prelude::*;

verus! {

/// The closed set of token kinds.
#[derive(Debug, PartialEq, Copy, Clone, Hash, Eq, Structural)]
pub enum TokenType {
    // Single-character punctuation.
    LeftParen,
    RightParen,
    LeftBrace,
    RightBrace,
    COMMA,
    DOT,
    MINUS,
    PLUS,
    SEMICOLON,
    SLASH,
    STAR,
    // Operators of one or two characters.
    BANG,
    BangEqual,
    EQUAL,
    EqualEqual,
    GREATER,
    GreaterEqual,
    LESS,
    LessEqual,
    // Literal classes.
    IDENTIFIER,
    STRING,
    NUMBER,
    // Reserved words.
    AND,
    CLASS,
    ELSE,
    FALSE,
    FUN,
    FOR,
    IF,
    NIL,
    OR,
    PRINT,
    RETURN,
    SUPER,
    THIS,
    TRUE,
    VAR,
    WHILE,
    // End of input.
    EOF,
}

impl TokenType {
    /// The kind's name as text: the spelling of the variant.
    pub open spec fn name(self) -> Seq<char> {
        match self {
            TokenType::LeftParen => "LeftParen"@,
            TokenType::RightParen => "RightParen"@,
            TokenType::LeftBrace => "LeftBrace"@,
            TokenType::RightBrace => "RightBrace"@,
            TokenType::COMMA => "COMMA"@,
            TokenType::DOT => "DOT"@,
            TokenType::MINUS => "MINUS"@,
            TokenType::PLUS => "PLUS"@,
            TokenType::SEMICOLON => "SEMICOLON"@,
            TokenType::SLASH => "SLASH"@,
            TokenType::STAR => "STAR"@,
            TokenType::BANG => "BANG"@,
            TokenType::BangEqual => "BangEqual"@,
            TokenType::EQUAL => "EQUAL"@,
            TokenType::EqualEqual => "EqualEqual"@,
            TokenType::GREATER => "GREATER"@,
            TokenType::GreaterEqual => "GreaterEqual"@,
            TokenType::LESS => "LESS"@,
            TokenType::LessEqual => "LessEqual"@,
            TokenType::IDENTIFIER => "IDENTIFIER"@,
            TokenType::STRING => "STRING"@,
            TokenType::NUMBER => "NUMBER"@,
            TokenType::AND => "AND"@,
            TokenType::CLASS => "CLASS"@,
            TokenType::ELSE => "ELSE"@,
            TokenType::FALSE => "FALSE"@,
            TokenType::FUN => "FUN"@,
            TokenType::FOR => "FOR"@,
            TokenType::IF => "IF"@,
            TokenType::NIL => "NIL"@,
            TokenType::OR => "OR"@,
            TokenType::PRINT => "PRINT"@,
            TokenType::RETURN => "RETURN"@,
            TokenType::SUPER => "SUPER"@,
            TokenType::THIS => "THIS"@,
            TokenType::TRUE => "TRUE"@,
            TokenType::VAR => "VAR"@,
            TokenType::WHILE => "WHILE"@,
            TokenType::EOF => "EOF"@,
        }
    }

    /// Whether the kind is one of the sixteen reserved words.
    pub open spec fn is_keyword(self) -> bool {
        self is AND || self is CLASS || self is ELSE || self is FALSE || self is FUN
            || self is FOR || self is IF || self is NIL || self is OR || self is PRINT
            || self is RETURN || self is SUPER || self is THIS || self is TRUE || self is VAR
            || self is WHILE
    }

    /// Renders the kind's name.
    pub fn to_string(&self) -> (r: String)
        ensures
            r@ == self.name(),
    {
        let s: &'static str = match self {
            TokenType::LeftParen => "LeftParen",
            TokenType::RightParen => "RightParen",
            TokenType::LeftBrace => "LeftBrace",
            TokenType::RightBrace => "RightBrace",
            TokenType::COMMA => "COMMA",
            TokenType::DOT => "DOT",
            TokenType::MINUS => "MINUS",
            TokenType::PLUS => "PLUS",
            TokenType::SEMICOLON => "SEMICOLON",
            TokenType::SLASH => "SLASH",
            TokenType::STAR => "STAR",
            TokenType::BANG => "BANG",
            TokenType::BangEqual => "BangEqual",
            TokenType::EQUAL => "EQUAL",
            TokenType::EqualEqual => "EqualEqual",
            TokenType::GREATER => "GREATER",
            TokenType::GreaterEqual => "GreaterEqual",
            TokenType::LESS => "LESS",
            TokenType::LessEqual => "LessEqual",
            TokenType::IDENTIFIER => "IDENTIFIER",
            TokenType::STRING => "STRING",
            TokenType::NUMBER => "NUMBER",
            TokenType::AND => "AND",
            TokenType::CLASS => "CLASS",
            TokenType::ELSE => "ELSE",
            TokenType::FALSE => "FALSE",
            TokenType::FUN => "FUN",
            TokenType::FOR => "FOR",
            TokenType::IF => "IF",
            TokenType::NIL => "NIL",
            TokenType::OR => "OR",
            TokenType::PRINT => "PRINT",
            TokenType::RETURN => "RETURN",
            TokenType::SUPER => "SUPER",
            TokenType::THIS => "THIS",
            TokenType::TRUE => "TRUE",
            TokenType::VAR => "VAR",
            TokenType::WHILE => "WHILE",
            TokenType::EOF => "EOF",
        };
        String::from_str(s)
    }
}

/// What a token is, as a mathematical value.
pub struct TokenView {
    pub kind: TokenType,
    pub line: nat,
    pub text: Seq<char>,
    pub pos: nat,
}

/// A token: its kind, its text, and the line and column of its first
/// character, both counted from one.
#[derive(Debug, PartialEq, Eq, Hash)]
pub struct Token {
    pub tok_type: TokenType,
    pub line: usize,
    pub val: String,
    pub pos: usize,
}

impl View for Token {
    type V = TokenView;

    open spec fn view(&self) -> TokenView {
        TokenView { kind: self.tok_type, line: self.line as nat, text: self.val@, pos: self.pos as nat }
    }
}

/// The tokens of a vector, each as a mathematical value.
pub open spec fn token_views(tokens: Seq<Token>) -> Seq<TokenView> {
    tokens.map_values(|t: Token| t@)
}

/// Pushing a token pushes its view.
pub proof fn lemma_token_views_push(tokens: Seq<Token>, t: Token)
    ensures
        token_views(tokens.push(t)) == token_views(tokens).push(t@),
{
    assert(token_views(tokens.push(t)) =~= token_views(tokens).push(t@));
}

impl Clone for Token {
    fn clone(&self) -> (r: Token)
        ensures
            r@ == self@,
    {
        Token { tok_type: self.tok_type, line: self.line, val: self.val.clone(), pos: self.pos }
    }
}

impl Token {
    pub fn new(t_type: TokenType, line: usize, val: String, pos: usize) -> (t: Token)
        ensures
            t@ == (TokenView { kind: t_type, line: line as nat, text: val@, pos: pos as nat }),
    {
        Token { tok_type: t_type, line, val, pos }
    }

    /// The rendering of a token: the kind's name, a space, the text.
    pub open spec fn rendering(t: TokenView) -> Seq<char> {
        t.kind.name() + seq![' '] + t.text
    }

    pub fn to_string(&self) -> (r: String)
        ensures
            r@ == Self::rendering(self@),
    {
        let mut s = self.tok_type.to_string();
        proof {
            reveal_strlit(" ");
            assert(" "@ =~= seq![' ']);
        }
        s.append(" ");
        s.append(self.val.as_str());
        s
    }
}

} // verus!
