//! Errors of the front end. They are data: a stage collects them and goes on
//! or stops as its own rules say.

use crate::handlers::message_handler::{Issuer, Message, MessageView};
use crate::types::others::Position;
use crate::types::tokens::{Token, TokenType, TokenView};
use vstd::prelude::*;
use vstd::string::*;

verus! {

/// What went wrong.
#[derive(Debug, Clone, Copy, PartialEq, Eq, Structural)]
pub enum ErrorCode {
    /// Invalid token.
    E001,
    /// Unexpected token.
    E002,
}

/// An error that is not tied to a place in the source.
#[derive(Debug)]
pub struct BaseError {
    message: Message,
    code: ErrorCode,
}

/// A base error, with its message as a view.
pub struct BaseErrorView {
    pub message: MessageView,
    pub code: ErrorCode,
}

impl View for BaseError {
    type V = BaseErrorView;

    closed spec fn view(&self) -> BaseErrorView {
        BaseErrorView { message: self.message@, code: self.code }
    }
}

impl Clone for BaseError {
    fn clone(&self) -> (error: Self)
        ensures
            error@ == self@,
    {
        BaseError { message: self.message.clone(), code: self.code }
    }
}

impl BaseError {
    /// An error with a message and a code.
    pub fn new(message: Message, code: ErrorCode) -> (error: Self)
        ensures
            error@ == (BaseErrorView { message: message@, code }),
    {
        BaseError { message, code }
    }

    /// The message of the error.
    pub fn message(&self) -> (message: &Message)
        ensures
            message@ == self@.message,
    {
        &self.message
    }

    /// The code of the error.
    pub fn code(&self) -> (code: ErrorCode)
        ensures
            code == self@.code,
    {
        self.code
    }
}

/// An error at a place in the source.
#[derive(Debug)]
pub struct ScriptError {
    base: BaseError,
    position: Position,
}

/// A script error, with its base error as a view.
pub struct ScriptErrorView {
    pub base: BaseErrorView,
    pub position: Position,
}

impl View for ScriptError {
    type V = ScriptErrorView;

    closed spec fn view(&self) -> ScriptErrorView {
        ScriptErrorView { base: self.base@, position: self.position }
    }
}

impl Clone for ScriptError {
    fn clone(&self) -> (error: Self)
        ensures
            error@ == self@,
    {
        ScriptError { base: self.base.clone(), position: self.position }
    }
}

impl ScriptError {
    /// The error `base` at a line and a column of the source.
    pub fn new(base: BaseError, line: usize, column: usize) -> (error: Self)
        ensures
            error@ == (ScriptErrorView { base: base@, position: Position { line, column } }),
    {
        ScriptError { base, position: Position::new(line, column) }
    }

    /// The error without its place.
    pub fn base(&self) -> (base: &BaseError)
        ensures
            base@ == self@.base,
    {
        &self.base
    }

    /// The place of the error in the source.
    pub fn position(&self) -> (position: Position)
        ensures
            position == self@.position,
    {
        self.position
    }
}

/// An error, with or without a place in the source.
#[derive(Debug)]
pub enum Error {
    Error(BaseError),
    ScriptError(ScriptError),
}

/// An error, with its parts as views.
pub enum ErrorView {
    Error(BaseErrorView),
    ScriptError(ScriptErrorView),
}

impl View for Error {
    type V = ErrorView;

    open spec fn view(&self) -> ErrorView {
        match self {
            Error::Error(base) => ErrorView::Error(base@),
            Error::ScriptError(script) => ErrorView::ScriptError(script@),
        }
    }
}

impl Clone for Error {
    fn clone(&self) -> (error: Self)
        ensures
            error@ == self@,
    {
        match self {
            Error::Error(base) => Error::Error(base.clone()),
            Error::ScriptError(script) => Error::ScriptError(script.clone()),
        }
    }
}

/// The views of a sequence of errors, in the same order.
pub open spec fn error_views(errors: Seq<Error>) -> Seq<ErrorView> {
    errors.map_values(|error: Error| error@)
}

/// The text of the message that reports `found` where `expected` was awaited.
pub open spec fn expected_message(expected: Seq<char>, found: Seq<char>) -> Seq<char> {
    "expected "@ + expected + " but found \""@ + found + "\"."@
}

/// The error that reports the token `found` where `expected` was awaited:
/// an unexpected-token error at the token's position, with the message
/// `expected_message` of the token's text.
pub open spec fn expected_error_view(expected: Seq<char>, found: TokenView, from: Issuer) -> ErrorView {
    ErrorView::ScriptError(
        ScriptErrorView {
            base: BaseErrorView {
                message: MessageView {
                    content: expected_message(expected, found.token_value),
                    from,
                },
                code: ErrorCode::E002,
            },
            position: found.position,
        },
    )
}

impl Error {
    /// Reports that `found` stands where `expected` was awaited.
    pub fn expected_error(expected: &str, found: &Token, from: Issuer) -> (error: Error)
        ensures
            error@ == expected_error_view(expected@, found@, from),
    {
        let mut content = String::from_str("expected ");
        content.append(expected);
        content.append(" but found \"");
        content.append(found.token_value.as_str());
        content.append("\".");
        let message = Message::new(content.as_str(), from);
        let base_error = BaseError::new(message, ErrorCode::E002);
        let script_error = ScriptError::new(
            base_error,
            found.position.line,
            found.position.column,
        );
        Error::ScriptError(script_error)
    }

    /// Hands back a copy of `found` where it is of the kind `expected_type`,
    /// and otherwise the error that `expected_error` builds.
    pub fn expected_or_error(
        expected: &str,
        expected_type: &TokenType,
        found: &Token,
        from: Issuer,
    ) -> (result: Result<Token, Error>)
        ensures
            found.token_type == *expected_type ==> result == Ok::<Token, Error>(*found),
            found.token_type != *expected_type ==> result is Err && result->Err_0@
                == expected_error_view(expected@, found@, from),
    {
        if found.token_type != *expected_type {
            Err(Error::expected_error(expected, found, from))
        } else {
            Ok(found.clone())
        }
    }
}

/// A copy of the errors `errors`.
pub fn copy_errors(errors: &Vec<Error>) -> (copy: Vec<Error>)
    ensures
        error_views(copy@) == error_views(errors@),
{
    let mut copy: Vec<Error> = Vec::new();
    let mut i: usize = 0;
    while i < errors.len()
        invariant
            i <= errors.len(),
            copy.len() == i,
            forall|j: int| 0 <= j < i ==> (#[trigger] copy[j])@ == errors[j]@,
        decreases errors.len() - i,
    {
        copy.push(errors[i].clone());
        i = i + 1;
    }
    assert(error_views(copy@) =~= error_views(errors@));
    copy
}

} // verus!
