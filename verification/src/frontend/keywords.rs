//! The table of reserved words.

use crate::frontend::token::TokenType;
use crate::text::chars_of;
use crate::text::spells;
use vstd::prelude::*;

verus! {

/// The kind of the reserved word that `word` spells, if it spells one.
/// Spelling is exact: case matters.
pub open spec fn keyword_kind(word: Seq<char>) -> Option<TokenType> {
    if word == "and"@ {
        Some(TokenType::AND)
    } else if word == "class"@ {
        Some(TokenType::CLASS)
    } else if word == "else"@ {
        Some(TokenType::ELSE)
    } else if word == "false"@ {
        Some(TokenType::FALSE)
    } else if word == "fun"@ {
        Some(TokenType::FUN)
    } else if word == "for"@ {
        Some(TokenType::FOR)
    } else if word == "if"@ {
        Some(TokenType::IF)
    } else if word == "nil"@ {
        Some(TokenType::NIL)
    } else if word == "or"@ {
        Some(TokenType::OR)
    } else if word == "print"@ {
        Some(TokenType::PRINT)
    } else if word == "return"@ {
        Some(TokenType::RETURN)
    } else if word == "super"@ {
        Some(TokenType::SUPER)
    } else if word == "this"@ {
        Some(TokenType::THIS)
    } else if word == "true"@ {
        Some(TokenType::TRUE)
    } else if word == "var"@ {
        Some(TokenType::VAR)
    } else if word == "while"@ {
        Some(TokenType::WHILE)
    } else {
        None
    }
}

/// The table never answers with a kind that is no reserved word.
pub proof fn lemma_keyword_kind_is_keyword(word: Seq<char>)
    ensures
        keyword_kind(word) matches Some(k) ==> k.is_keyword(),
{
}

/// Looks up the characters `chars[from..to]` in the table.
pub fn lookup_chars(chars: &Vec<char>, from: usize, to: usize) -> (r: Option<TokenType>)
    requires
        from <= to <= chars.len(),
    ensures
        r == keyword_kind(chars@.subrange(from as int, to as int)),
{
    if spells(chars, from, to, "and") {
        Some(TokenType::AND)
    } else if spells(chars, from, to, "class") {
        Some(TokenType::CLASS)
    } else if spells(chars, from, to, "else") {
        Some(TokenType::ELSE)
    } else if spells(chars, from, to, "false") {
        Some(TokenType::FALSE)
    } else if spells(chars, from, to, "fun") {
        Some(TokenType::FUN)
    } else if spells(chars, from, to, "for") {
        Some(TokenType::FOR)
    } else if spells(chars, from, to, "if") {
        Some(TokenType::IF)
    } else if spells(chars, from, to, "nil") {
        Some(TokenType::NIL)
    } else if spells(chars, from, to, "or") {
        Some(TokenType::OR)
    } else if spells(chars, from, to, "print") {
        Some(TokenType::PRINT)
    } else if spells(chars, from, to, "return") {
        Some(TokenType::RETURN)
    } else if spells(chars, from, to, "super") {
        Some(TokenType::SUPER)
    } else if spells(chars, from, to, "this") {
        Some(TokenType::THIS)
    } else if spells(chars, from, to, "true") {
        Some(TokenType::TRUE)
    } else if spells(chars, from, to, "var") {
        Some(TokenType::VAR)
    } else if spells(chars, from, to, "while") {
        Some(TokenType::WHILE)
    } else {
        None
    }
}

/// Looks up a spelling in the table.
pub fn lookup(word: &str) -> (r: Option<TokenType>)
    ensures
        r == keyword_kind(word@),
{
    let chars = chars_of(word);
    assert(chars@.subrange(0, chars@.len() as int) =~= chars@);
    lookup_chars(&chars, 0, chars.len())
}

} // verus!
