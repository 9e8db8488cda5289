//! The failures of the Yul pipeline.

use vstd::prelude::*;

use crate::yul::lexer::lexeme::Lexeme;
use crate::yul::lexer::lexeme::LexemeView;

verus! {

/// Why a Yul source could not be parsed or emitted.
#[derive(Debug, PartialEq, Eq)]
pub enum Error {
    /// An unknown character or an unterminated literal or comment, with the
    /// offset at which it starts, in characters.
    Lexical { offset: usize },
    /// A lexeme that the grammar does not allow where it stands, with what
    /// could have stood there.
    Syntax { expected: Vec<&'static str>, found: Lexeme },
    /// An identifier that occurs twice in the targets of an assignment.
    DuplicateIdentifier { name: String },
    /// A name that stands for nothing: a call of a function that is neither
    /// built in nor declared, or an identifier that names no variable.
    UnknownName { name: String },
    /// An operand is missing, or it is a call that gives no value.
    MissingValue,
    /// A `break` or a `continue` outside of a loop.
    OutsideLoop,
    /// A `leave` outside of a function.
    OutsideFunction,
}

/// The mathematical value of an [`Error`].
pub ghost enum ErrorView {
    Lexical { offset: usize },
    Syntax { expected: Seq<Seq<char>>, found: LexemeView },
    DuplicateIdentifier { name: Seq<char> },
    UnknownName { name: Seq<char> },
    MissingValue,
    OutsideLoop,
    OutsideFunction,
}

impl View for Error {
    type V = ErrorView;

    open spec fn view(&self) -> ErrorView {
        match self {
            Error::Lexical { offset } => ErrorView::Lexical { offset: *offset },
            Error::Syntax { expected, found } => ErrorView::Syntax {
                expected: expected@.map_values(|text: &'static str| text@),
                found: found@,
            },
            Error::DuplicateIdentifier { name } => ErrorView::DuplicateIdentifier { name: name@ },
            Error::UnknownName { name } => ErrorView::UnknownName { name: name@ },
            Error::MissingValue => ErrorView::MissingValue,
            Error::OutsideLoop => ErrorView::OutsideLoop,
            Error::OutsideFunction => ErrorView::OutsideFunction,
        }
    }
}

impl Error {
    /// Whether the error belongs to the lexer.
    pub fn is_lexical(&self) -> (yes: bool)
        ensures
            yes == (self@ is Lexical),
    {
        match self {
            Error::Lexical { .. } => true,
            _ => false,
        }
    }

    /// Whether the error belongs to the grammar.
    pub fn is_syntax(&self) -> (yes: bool)
        ensures
            yes == (self@ is Syntax),
    {
        match self {
            Error::Syntax { .. } => true,
            _ => false,
        }
    }

    /// Whether the error belongs to the meaning of the source.
    pub fn is_semantic(&self) -> (yes: bool)
        ensures
            yes == !(self@ is Lexical || self@ is Syntax),
    {
        match self {
            Error::Lexical { .. } => false,
            Error::Syntax { .. } => false,
            _ => true,
        }
    }
}

} // verus!
