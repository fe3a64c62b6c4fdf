//! The result and error types shared by the scanner and the parser.

use crate::text::decimal;
use crate::text::decimal_text;
use vstd::prelude::*;

verus! {

/// The error type of `std::io`, carried through unopened.
#[verifier::external_type_specification]
#[verifier::external_body]
pub struct ExIoError(std::io::Error);

/// A result whose error is an [`Error`].
pub type Result<T> = std::result::Result<T, Error>;

/// What can go wrong. A lexical and a syntax error hold a line, a column,
/// a message and the text at which the error was met, in that order.
#[derive(Debug)]
pub enum Error {
    /// The command line was used incorrectly.
    Usage,
    /// Reading from a file or from standard input failed.
    IO(std::io::Error),
    /// The scanner met text that starts no token.
    Lexical(u64, u64, String, String),
    /// The parser met a token that the grammar does not allow there.
    Parse(u64, u64, String, String),
    /// Evaluation failed at the given line.
    Runtime(u64, String, String),
    /// A `break` outside a loop, at the given line.
    Break(u64),
}

/// An error as a mathematical value.
pub enum ErrorView {
    Usage,
    IO,
    Lexical { line: nat, pos: nat, message: Seq<char>, whence: Seq<char> },
    Parse { line: nat, pos: nat, message: Seq<char>, near: Seq<char> },
    Runtime { line: nat, message: Seq<char>, near: Seq<char> },
    Break { line: nat },
}

impl View for Error {
    type V = ErrorView;

    open spec fn view(&self) -> ErrorView {
        match *self {
            Error::Usage => ErrorView::Usage,
            Error::IO(_) => ErrorView::IO,
            Error::Lexical(line, pos, message, whence) => ErrorView::Lexical {
                line: line as nat,
                pos: pos as nat,
                message: message@,
                whence: whence@,
            },
            Error::Parse(line, pos, message, near) => ErrorView::Parse {
                line: line as nat,
                pos: pos as nat,
                message: message@,
                near: near@,
            },
            Error::Runtime(line, message, near) => ErrorView::Runtime {
                line: line as nat,
                message: message@,
                near: near@,
            },
            Error::Break(line) => ErrorView::Break { line: line as nat },
        }
    }
}

/// The errors of a vector, each as a mathematical value.
pub open spec fn error_views(errors: Seq<Error>) -> Seq<ErrorView> {
    errors.map_values(|e: Error| e@)
}

/// Pushing an error pushes its view.
pub proof fn lemma_error_views_push(errors: Seq<Error>, e: Error)
    ensures
        error_views(errors.push(e)) == error_views(errors).push(e@),
{
    assert(error_views(errors.push(e)) =~= error_views(errors).push(e@));
}

impl From<std::io::Error> for Error {
    fn from(err: std::io::Error) -> (e: Error) {
        Error::IO(err)
    }
}

impl vstd::std_specs::convert::FromSpecImpl<std::io::Error> for Error {
    open spec fn obeys_from_spec() -> bool {
        true
    }

    open spec fn from_spec(err: std::io::Error) -> Error {
        Error::IO(err)
    }
}

/// What `{:?}` writes for a string: the text between double quotes, with
/// the characters that need it escaped.
pub uninterp spec fn quoted_text(s: Seq<char>) -> Seq<char>;

/// Formats a string with `{:?}`, the `Debug` form of `str`.
#[verifier::external_body]
fn quoted(s: &str) -> (r: String)
    ensures
        r@ == quoted_text(s@),
{
    format!("{:?}", s)
}

impl Error {
    /// A short name for the kind of error.
    pub open spec fn kind_text(v: ErrorView) -> Seq<char> {
        match v {
            ErrorView::Usage => "usage error"@,
            ErrorView::IO => "input/output error"@,
            ErrorView::Lexical { .. } => "lexical error"@,
            ErrorView::Parse { .. } => "parse error"@,
            ErrorView::Runtime { .. } => "runtime error"@,
            ErrorView::Break { .. } => "break error"@,
        }
    }

    /// A short name for the kind of error.
    pub fn description(&self) -> (r: &'static str)
        ensures
            r@ == Self::kind_text(self@),
    {
        match self {
            Error::Usage => "usage error",
            Error::IO(_) => "input/output error",
            Error::Lexical(_, _, _, _) => "lexical error",
            Error::Parse(_, _, _, _) => "parse error",
            Error::Runtime(_, _, _) => "runtime error",
            Error::Break(_) => "break error",
        }
    }

    /// The line on which the error was met, where it has one.
    pub fn line(&self) -> (r: Option<u64>)
        ensures
            r == match self@ {
                ErrorView::Lexical { line, .. } => Some(line as u64),
                ErrorView::Parse { line, .. } => Some(line as u64),
                ErrorView::Runtime { line, .. } => Some(line as u64),
                ErrorView::Break { line } => Some(line as u64),
                _ => None,
            },
    {
        match self {
            Error::Lexical(line, _, _, _) => Some(*line),
            Error::Parse(line, _, _, _) => Some(*line),
            Error::Runtime(line, _, _) => Some(*line),
            Error::Break(line) => Some(*line),
            _ => None,
        }
    }

    /// The message of a lexical error, given its context already quoted.
    pub open spec fn lexical_text(
        line: nat,
        pos: nat,
        message: Seq<char>,
        quoted: Seq<char>,
    ) -> Seq<char> {
        "Lexical Error [line "@ + decimal_text(line) + " "@ + decimal_text(pos) + "] "@ + message
            + ": "@ + quoted
    }

    /// The message as it is shown to a user, for every error but one of
    /// input or output, whose text the system supplies.
    pub open spec fn message_text(v: ErrorView) -> Seq<char> {
        match v {
            ErrorView::Usage => "Usage: rlox [script]"@,
            ErrorView::IO => Seq::empty(),
            ErrorView::Lexical { line, pos, message, whence } => Self::lexical_text(
                line,
                pos,
                message,
                quoted_text(whence),
            ),
            ErrorView::Parse { line, pos, message, near } => "Parse Error [line "@ + decimal_text(
                line,
            ) + " "@ + decimal_text(pos) + "] "@ + message + ": near "@ + near,
            ErrorView::Runtime { line, message, near } => "Runtime Error [line "@ + decimal_text(
                line,
            ) + "] "@ + message + ": near "@ + near,
            ErrorView::Break { line } => "Runtime Error [line "@ + decimal_text(line)
                + "] unexpected break statement"@,
        }
    }

    /// Writes the message of a lexical error around its context, which
    /// the caller has quoted.
    pub fn lexical_message(line: u64, pos: u64, message: &str, quoted: &str) -> (r: String)
        ensures
            r@ == Self::lexical_text(line as nat, pos as nat, message@, quoted@),
    {
        let mut s = String::from_str("Lexical Error [line ");
        s.append(decimal(line).as_str());
        s.append(" ");
        s.append(decimal(pos).as_str());
        s.append("] ");
        s.append(message);
        s.append(": ");
        s.append(quoted);
        s
    }

    /// The message as it is shown to a user. For an error of input or
    /// output it is the text that the error itself displays.
    pub fn to_string(&self) -> (r: String)
        ensures
            match *self {
                Error::IO(e) => vstd::string::to_string_from_display_ensures::<std::io::Error>(
                    &e,
                    r,
                ),
                _ => r@ == Self::message_text(self@),
            },
    {
        match self {
            Error::Usage => String::from_str("Usage: rlox [script]"),
            Error::IO(e) => e.to_string(),
            Error::Lexical(line, pos, message, whence) => Self::lexical_message(
                *line,
                *pos,
                message.as_str(),
                quoted(whence.as_str()).as_str(),
            ),
            Error::Parse(line, pos, message, near) => {
                let mut s = String::from_str("Parse Error [line ");
                s.append(decimal(*line).as_str());
                s.append(" ");
                s.append(decimal(*pos).as_str());
                s.append("] ");
                s.append(message.as_str());
                s.append(": near ");
                s.append(near.as_str());
                s
            },
            Error::Runtime(line, message, near) => {
                let mut s = String::from_str("Runtime Error [line ");
                s.append(decimal(*line).as_str());
                s.append("] ");
                s.append(message.as_str());
                s.append(": near ");
                s.append(near.as_str());
                s
            },
            Error::Break(line) => {
                let mut s = String::from_str("Runtime Error [line ");
                s.append(decimal(*line).as_str());
                s.append("] unexpected break statement");
                s
            },
        }
    }
}

} // verus!
