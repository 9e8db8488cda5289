//! The parser of Yul: recursive descent over the lexemes.

pub mod assignment;
pub mod ast;
pub mod block;
pub mod expression;
pub mod function_definition;
pub mod grammar;
pub mod identifier;
pub mod object;
pub mod switch;

use vstd::prelude::*;

use crate::yul::error::Error;
use crate::yul::error::ErrorView;
use crate::yul::lexer::lemma_scan_advances;
use crate::yul::lexer::lexeme::optional_view;
use crate::yul::lexer::lexeme::Lexeme;
use crate::yul::lexer::Lexer;
use crate::yul::lexer::LexerView;
use crate::yul::parser::ast::Block;
use crate::yul::parser::grammar::block;
use crate::yul::parser::grammar::first;
use crate::yul::parser::grammar::token;
use crate::yul::parser::grammar::unexpected;

verus! {

/// A rule of the parser has done what the grammar says where it hands out
/// the node whose value the grammar gives and leaves the lexer behind the
/// characters that the grammar takes; or fails with the error that the
/// grammar gives.
pub open spec fn parsed<T: View>(
    before: LexerView,
    after: LexerView,
    expected: Result<(T::V, nat), ErrorView>,
    result: Result<T, Error>,
) -> bool {
    &&& after.input == before.input
    &&& match expected {
        Ok((value, used)) => result is Ok && result->Ok_0@ == value && after.offset == before.offset
            + used && after.offset <= after.input.len(),
        Err(error) => result is Err && result->Err_0@ == error,
    }
}

/// Reads a source that is one block.
pub fn parse(input: &str) -> (result: Result<Block, Error>)
    ensures
        match block(input@, 0, None) {
            Ok((value, _)) => result is Ok && result->Ok_0@ == value,
            Err(error) => result is Err && result->Err_0@ == error,
        },
{
    let mut lexer = Lexer::new(input.to_owned());
    Block::parse(&mut lexer, None)
}

/// The lexeme that was taken before, or else the next one of the lexer.
pub fn take_or_next(initial: Option<Lexeme>, lexer: &mut Lexer) -> (result: Result<Lexeme, Error>)
    ensures
        parsed(
            old(lexer)@,
            final(lexer)@,
            first(old(lexer)@.input, old(lexer)@.offset, optional_view(initial)),
            result,
        ),
        0 <= old(lexer)@.offset <= old(lexer)@.input.len(),
{
    let at = lexer.offset();
    proof {
        lemma_scan_advances(lexer@.input, lexer@.offset);
    }
    match initial {
        Some(lexeme) => Ok(lexeme),
        None => lexer.next(),
    }
}

/// The next lexeme of the lexer, which stays where it is.
pub fn peek(lexer: &mut Lexer) -> (result: Result<Lexeme, Error>)
    ensures
        final(lexer)@ == old(lexer)@,
        0 <= old(lexer)@.offset <= old(lexer)@.input.len(),
        match token(old(lexer)@.input, old(lexer)@.offset) {
            Ok((lexeme, _)) => result is Ok && result->Ok_0@ == lexeme,
            Err(error) => result is Err && result->Err_0@ == error,
        },
{
    let at = lexer.offset();
    lexer.peek()
}

/// The error of a lexeme that stands where `a` should.
pub fn unexpected1(a: &'static str, found: Lexeme) -> (error: Error)
    ensures
        error@ == unexpected(seq![a@], found@),
{
    let error = Error::Syntax { expected: vec![a], found };
    assert(error@->Syntax_expected =~= seq![a@]);
    error
}

/// The error of a lexeme that stands where `a` or `b` should.
pub fn unexpected2(a: &'static str, b: &'static str, found: Lexeme) -> (error: Error)
    ensures
        error@ == unexpected(seq![a@, b@], found@),
{
    let error = Error::Syntax { expected: vec![a, b], found };
    assert(error@->Syntax_expected =~= seq![a@, b@]);
    error
}

/// The error of a lexeme that stands where one of three should.
pub fn unexpected3(a: &'static str, b: &'static str, c: &'static str, found: Lexeme) -> (error:
    Error)
    ensures
        error@ == unexpected(seq![a@, b@, c@], found@),
{
    let error = Error::Syntax { expected: vec![a, b, c], found };
    assert(error@->Syntax_expected =~= seq![a@, b@, c@]);
    error
}

/// The error of a lexeme that stands where a statement of a block should
/// start.
pub fn unexpected_in_block(found: Lexeme) -> (error: Error)
    ensures
        error@ == unexpected(
            seq!["{keyword}"@, "{expression}"@, "{identifier}"@, "{"@, "}"@],
            found@,
        ),
{
    let error = Error::Syntax {
        expected: vec!["{keyword}", "{expression}", "{identifier}", "{", "}"],
        found,
    };
    assert(error@->Syntax_expected =~= seq![
        "{keyword}"@,
        "{expression}"@,
        "{identifier}"@,
        "{"@,
        "}"@,
    ]);
    error
}

/// The error of a lexeme that stands where the keyword of a statement
/// should.
pub fn unexpected_keyword(found: Lexeme) -> (error: Error)
    ensures
        error@ == unexpected(
            seq![
                "function"@,
                "let"@,
                "if"@,
                "switch"@,
                "for"@,
                "break"@,
                "continue"@,
                "leave"@,
            ],
            found@,
        ),
{
    let error = Error::Syntax {
        expected: vec!["function", "let", "if", "switch", "for", "break", "continue", "leave"],
        found,
    };
    assert(error@->Syntax_expected =~= seq![
        "function"@,
        "let"@,
        "if"@,
        "switch"@,
        "for"@,
        "break"@,
        "continue"@,
        "leave"@,
    ]);
    error
}

} // verus!
