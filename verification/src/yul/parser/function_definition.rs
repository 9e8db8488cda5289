//! Function definitions, conditionals and loops.

use vstd::prelude::*;

use crate::yul::error::Error;
use crate::yul::lexer::lexeme::optional_view;
use crate::yul::lexer::lexeme::Lexeme;
use crate::yul::lexer::lexeme::Symbol;
use crate::yul::lexer::Lexer;
use crate::yul::parser::ast::names_view;
use crate::yul::parser::ast::Block;
use crate::yul::parser::ast::Expression;
use crate::yul::parser::ast::ForLoop;
use crate::yul::parser::ast::FunctionDefinition;
use crate::yul::parser::ast::IfConditional;
use crate::yul::parser::grammar::budget;
use crate::yul::parser::grammar::for_loop;
use crate::yul::parser::grammar::function_definition;
use crate::yul::parser::grammar::function_results;
use crate::yul::parser::grammar::if_conditional;
use crate::yul::parser::grammar::lemma_token;
use crate::yul::parser::identifier::Identifier;
use crate::yul::parser::parsed;
use crate::yul::parser::take_or_next;
use crate::yul::parser::unexpected1;
use crate::yul::parser::unexpected2;

verus! {

impl FunctionDefinition {
    /// Reads a function definition behind its `function`: see
    /// [`function_definition`].
    pub fn parse(lexer: &mut Lexer, initial: Option<Lexeme>) -> (result: Result<
        FunctionDefinition,
        Error,
    >)
        ensures
            parsed(
                old(lexer)@,
                final(lexer)@,
                function_definition(old(lexer)@.input, old(lexer)@.offset, optional_view(initial)),
                result,
            ),
        decreases budget(old(lexer)@.input, old(lexer)@.offset, optional_view(initial)), 1nat,
    {
        let ghost input = lexer@.input;
        let ghost start = lexer@.offset;
        let lexeme = take_or_next(initial, lexer)?;
        proof {
            lemma_token(input, start);
            lemma_token(input, lexer@.offset);
        }
        let name = match lexeme {
            Lexeme::Identifier(name) => name,
            lexeme => {
                return Err(unexpected1("{identifier}", lexeme));
            },
        };
        match lexer.next()? {
            Lexeme::Symbol(Symbol::ParenthesisLeft) => {},
            lexeme => {
                return Err(unexpected1("(", lexeme));
            },
        }
        let arguments = Identifier::parse_list(lexer, None)?;
        proof {
            lemma_token(input, lexer@.offset);
        }
        match lexer.next()? {
            Lexeme::Symbol(Symbol::ParenthesisRight) => {},
            lexeme => {
                return Err(unexpected1(")", lexeme));
            },
        }
        let ghost behind = lexer@.offset;
        proof {
            lemma_token(input, behind);
        }
        assert(function_definition(input, start, optional_view(initial)) == function_results(
            input,
            behind,
            name@,
            names_view(arguments@),
            (behind - start) as nat,
        ));
        match lexer.next()? {
            Lexeme::Symbol(Symbol::Arrow) => {
                let result = Identifier::parse_list(lexer, None)?;
                let body = Block::parse(lexer, None)?;
                Ok(FunctionDefinition { name, arguments, result, body })
            },
            Lexeme::Symbol(Symbol::BracketCurlyLeft) => {
                let body = Block::parse(lexer, Some(Lexeme::Symbol(Symbol::BracketCurlyLeft)))?;
                let result: Vec<String> = Vec::new();
                assert(names_view(result@) =~= Seq::<Seq<char>>::empty());
                Ok(FunctionDefinition { name, arguments, result, body })
            },
            lexeme => Err(unexpected2("->", "{", lexeme)),
        }
    }
}

impl IfConditional {
    /// Reads a conditional behind its `if`: see [`if_conditional`].
    pub fn parse(lexer: &mut Lexer, initial: Option<Lexeme>) -> (result: Result<
        IfConditional,
        Error,
    >)
        ensures
            parsed(
                old(lexer)@,
                final(lexer)@,
                if_conditional(old(lexer)@.input, old(lexer)@.offset, optional_view(initial)),
                result,
            ),
        decreases budget(old(lexer)@.input, old(lexer)@.offset, optional_view(initial)), 2nat,
    {
        let _ = lexer.offset();
        let condition = Expression::parse(lexer, initial)?;
        let block = Block::parse(lexer, None)?;
        Ok(IfConditional { condition, block })
    }
}

impl ForLoop {
    /// Reads a loop behind its `for`: see [`for_loop`].
    pub fn parse(lexer: &mut Lexer, initial: Option<Lexeme>) -> (result: Result<ForLoop, Error>)
        ensures
            parsed(
                old(lexer)@,
                final(lexer)@,
                for_loop(old(lexer)@.input, old(lexer)@.offset, optional_view(initial)),
                result,
            ),
        decreases budget(old(lexer)@.input, old(lexer)@.offset, optional_view(initial)), 2nat,
    {
        let _ = lexer.offset();
        let initializer = Block::parse(lexer, initial)?;
        let condition = Expression::parse(lexer, None)?;
        let finalizer = Block::parse(lexer, None)?;
        let body = Block::parse(lexer, None)?;
        Ok(ForLoop { initializer, condition, finalizer, body })
    }
}

} // verus!
