//! Assignments and variable declarations.

use vstd::prelude::*;

use crate::yul::error::Error;
use crate::yul::lexer::lexeme::optional_view;
use crate::yul::lexer::lexeme::Lexeme;
use crate::yul::lexer::lexeme::Symbol;
use crate::yul::lexer::Lexer;
use crate::yul::parser::ast::names_view;
use crate::yul::parser::ast::Assignment;
use crate::yul::parser::ast::Expression;
use crate::yul::parser::ast::VariableDeclaration;
use crate::yul::parser::grammar::assignment;
use crate::yul::parser::grammar::lemma_token;
use crate::yul::parser::grammar::variable_declaration;
use crate::yul::parser::identifier::Identifier;
use crate::yul::parser::parsed;
use crate::yul::parser::peek;
use crate::yul::parser::take_or_next;
use crate::yul::parser::unexpected1;
use crate::yul::parser::unexpected2;

verus! {

impl Assignment {
    /// Reads an assignment: see [`assignment`].
    pub fn parse(lexer: &mut Lexer, initial: Option<Lexeme>) -> (result: Result<Assignment, Error>)
        ensures
            parsed(
                old(lexer)@,
                final(lexer)@,
                assignment(old(lexer)@.input, old(lexer)@.offset, optional_view(initial)),
                result,
            ),
    {
        let ghost input = lexer@.input;
        let ghost start = lexer@.offset;
        let lexeme = take_or_next(initial, lexer)?;
        proof {
            lemma_token(input, start);
            lemma_token(input, lexer@.offset);
        }
        let identifier = match lexeme {
            Lexeme::Identifier(identifier) => identifier,
            lexeme => {
                return Err(unexpected1("{identifier}", lexeme));
            },
        };
        match peek(lexer)? {
            Lexeme::Symbol(Symbol::Assignment) => {
                let _ = lexer.next();
                let initializer = Expression::parse(lexer, None)?;
                let mut bindings: Vec<String> = Vec::new();
                bindings.push(identifier);
                assert(names_view(bindings@) =~= seq![identifier@]);
                Ok(Assignment { bindings, initializer })
            },
            Lexeme::Symbol(Symbol::Comma) => {
                let bindings = Identifier::parse_list(lexer, Some(Lexeme::Identifier(identifier)))?;
                proof {
                    lemma_token(input, lexer@.offset);
                }
                match lexer.next()? {
                    Lexeme::Symbol(Symbol::Assignment) => {},
                    lexeme => {
                        return Err(unexpected1(":=", lexeme));
                    },
                }
                let initializer = Expression::parse(lexer, None)?;
                match Identifier::find_repeated(&bindings) {
                    Some(at) => Err(Error::DuplicateIdentifier { name: bindings[at].clone() }),
                    None => Ok(Assignment { bindings, initializer }),
                }
            },
            lexeme => Err(unexpected2(":=", ",", lexeme)),
        }
    }
}

impl VariableDeclaration {
    /// Reads a variable declaration behind its `let`: see
    /// [`variable_declaration`].
    pub fn parse(lexer: &mut Lexer, initial: Option<Lexeme>) -> (result: Result<
        VariableDeclaration,
        Error,
    >)
        ensures
            parsed(
                old(lexer)@,
                final(lexer)@,
                variable_declaration(old(lexer)@.input, old(lexer)@.offset, optional_view(initial)),
                result,
            ),
    {
        let ghost input = lexer@.input;
        let bindings = Identifier::parse_list(lexer, initial)?;
        proof {
            lemma_token(input, lexer@.offset);
        }
        match peek(lexer)? {
            Lexeme::Symbol(Symbol::Assignment) => {
                let _ = lexer.next();
                let expression = Expression::parse(lexer, None)?;
                Ok(VariableDeclaration { bindings, expression: Some(expression) })
            },
            _ => Ok(VariableDeclaration { bindings, expression: None }),
        }
    }
}

} // verus!
