//! The front end as a whole: from source text to an expression.

use crate::frontend::ast::expr::Expr;
use crate::frontend::ast::expr::ExprView;
use crate::frontend::grammar::parse_tokens;
use crate::frontend::lexis::lex;
use crate::frontend::parser::parse;
use crate::frontend::scanner::scan;
use crate::result::error_views;
use crate::result::lemma_error_views_push;
use crate::result::Error;
use crate::result::ErrorView;
use vstd::prelude::*;

verus! {

/// The interpreter's front end.
#[derive(Debug)]
pub struct Lox {}

impl Lox {
    /// The expression that a text spells; or all its lexical errors, in
    /// the order of the text; or, where it has none, its first syntax
    /// error.
    pub open spec fn front_end(src: Seq<char>) -> Result<ExprView, Seq<ErrorView>> {
        let scanned = lex(src);
        if scanned.errors.len() > 0 {
            Err(scanned.errors)
        } else {
            match parse_tokens(scanned.tokens) {
                Ok(e) => Ok(e),
                Err(x) => Err(seq![x]),
            }
        }
    }

    /// What `run` returned, as a mathematical value.
    pub open spec fn outcome(r: Result<Expr, Vec<Error>>) -> Result<ExprView, Seq<ErrorView>> {
        match r {
            Ok(e) => Ok(e@),
            Err(errors) => Err(error_views(errors@)),
        }
    }

    /// Scans and parses a text.
    pub fn run(source: &str) -> (r: Result<Expr, Vec<Error>>)
        requires
            source@.len() < usize::MAX,
        ensures
            Self::outcome(r) == Self::front_end(source@),
    {
        let (tokens, errors) = scan(source);
        if errors.len() > 0 {
            return Err(errors);
        }
        match parse(tokens) {
            Ok(e) => Ok(e),
            Err(x) => {
                let mut errors: Vec<Error> = Vec::new();
                proof {
                    lemma_error_views_push(errors@, x);
                    assert(error_views(errors@).push(x@) =~= seq![x@]);
                }
                errors.push(x);
                Err(errors)
            },
        }
    }
}

} // verus!
