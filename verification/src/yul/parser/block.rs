//! Blocks and the statements in them.

use vstd::prelude::*;

use crate::yul::error::Error;
use crate::yul::error::ErrorView;
use crate::yul::lexer::lexeme::optional_view;
use crate::yul::lexer::lexeme::Keyword;
use crate::yul::lexer::lexeme::Lexeme;
use crate::yul::lexer::lexeme::Symbol;
use crate::yul::lexer::Lexer;
use crate::yul::parser::ast::lemma_block_view;
use crate::yul::parser::ast::lemma_switch_view;
use crate::yul::parser::ast::Assignment;
use crate::yul::parser::ast::Block;
use crate::yul::parser::ast::BlockView;
use crate::yul::parser::ast::Expression;
use crate::yul::parser::ast::ForLoop;
use crate::yul::parser::ast::FunctionDefinition;
use crate::yul::parser::ast::IfConditional;
use crate::yul::parser::ast::Statement;
use crate::yul::parser::ast::StatementView;
use crate::yul::parser::ast::Switch;
use crate::yul::parser::ast::VariableDeclaration;
use crate::yul::parser::expression::extend;
use crate::yul::parser::grammar::block;
use crate::yul::parser::grammar::budget;
use crate::yul::parser::grammar::lemma_token;
use crate::yul::parser::grammar::statement;
use crate::yul::parser::grammar::statement_from;
use crate::yul::parser::grammar::statements;
use crate::yul::parser::parsed;
use crate::yul::parser::peek;
use crate::yul::parser::take_or_next;
use crate::yul::parser::unexpected1;
use crate::yul::parser::unexpected_in_block;
use crate::yul::parser::unexpected_keyword;

verus! {

/// Reads the statement of a block that starts with the given lexeme,
/// which was taken: see [`statement_from`].
fn parse_from(lexer: &mut Lexer, lexeme: Lexeme) -> (result: Result<Statement, Error>)
    requires
        !(lexeme@ is End),
    ensures
        parsed(
            old(lexer)@,
            final(lexer)@,
            statement_from(old(lexer)@.input, old(lexer)@.offset, lexeme@),
            result,
        ),
    decreases budget(old(lexer)@.input, old(lexer)@.offset, Some(lexeme@)), 3nat,
{
    let ghost input = lexer@.input;
    let ghost at = lexer@.offset;
    let _ = lexer.offset();
    proof {
        lemma_token(input, at);
    }
    match lexeme {
        Lexeme::Keyword(keyword) => Statement::parse(lexer, Some(Lexeme::Keyword(keyword))),
        Lexeme::Literal(literal) => {
            let expression = Expression::parse(lexer, Some(Lexeme::Literal(literal)))?;
            Ok(Statement::Expression(expression))
        },
        Lexeme::Identifier(name) => {
            let assigns = match peek(lexer)? {
                Lexeme::Symbol(Symbol::Assignment) => true,
                Lexeme::Symbol(Symbol::Comma) => true,
                _ => false,
            };
            if assigns {
                let assignment = Assignment::parse(lexer, Some(Lexeme::Identifier(name)))?;
                Ok(Statement::Assignment(assignment))
            } else {
                let expression = Expression::parse(lexer, Some(Lexeme::Identifier(name)))?;
                Ok(Statement::Expression(expression))
            }
        },
        Lexeme::Symbol(Symbol::BracketCurlyLeft) => {
            let nested = Block::parse(lexer, Some(Lexeme::Symbol(Symbol::BracketCurlyLeft)))?;
            Ok(Statement::Block(nested))
        },
        lexeme => Err(unexpected_in_block(lexeme)),
    }
}

/// Reads the next statement of a block, or its `}`. Returns the statement,
/// or nothing at the `}`.
fn parse_in_block(lexer: &mut Lexer) -> (result: Result<Option<Statement>, Error>)
    ensures
        final(lexer)@.input == old(lexer)@.input,
        0 <= old(lexer)@.offset <= old(lexer)@.input.len(),
        match result {
            Ok(statement) => {
                let used = (final(lexer)@.offset - old(lexer)@.offset) as nat;
                &&& old(lexer)@.offset < final(lexer)@.offset <= old(lexer)@.input.len()
                &&& statements(old(lexer)@.input, old(lexer)@.offset) == (match statement {
                    None => Ok((Seq::empty(), used)),
                    Some(statement) => extend(
                        seq![statement@],
                        used,
                        statements(old(lexer)@.input, final(lexer)@.offset),
                    ),
                })
            },
            Err(error) => statements(old(lexer)@.input, old(lexer)@.offset) == Err::<
                (Seq<StatementView>, nat),
                ErrorView,
            >(error@),
        },
    decreases budget(old(lexer)@.input, old(lexer)@.offset, None), 0nat,
{
    let ghost input = lexer@.input;
    let ghost at = lexer@.offset;
    let _ = lexer.offset();
    proof {
        lemma_token(input, at);
    }
    let lexeme = lexer.next()?;
    match lexeme {
        Lexeme::Symbol(Symbol::BracketCurlyRight) => Ok(None),
        Lexeme::End => Err(unexpected_in_block(Lexeme::End)),
        lexeme => {
            let statement = parse_from(lexer, lexeme)?;
            Ok(Some(statement))
        },
    }
}

impl Block {
    /// Reads a block: see [`block`].
    pub fn parse(lexer: &mut Lexer, initial: Option<Lexeme>) -> (result: Result<Block, Error>)
        ensures
            parsed(
                old(lexer)@,
                final(lexer)@,
                block(old(lexer)@.input, old(lexer)@.offset, optional_view(initial)),
                result,
            ),
        decreases budget(old(lexer)@.input, old(lexer)@.offset, optional_view(initial)), 1nat,
    {
        let ghost input = lexer@.input;
        let ghost start = lexer@.offset;
        let lexeme = take_or_next(initial, lexer)?;
        proof {
            lemma_token(input, start);
        }
        match lexeme {
            Lexeme::Symbol(Symbol::BracketCurlyLeft) => {},
            lexeme => {
                return Err(unexpected1("{", lexeme));
            },
        }
        let ghost from = lexer@.offset;
        let mut list: Vec<Statement> = Vec::new();
        let mut more = true;
        assert(list@.map_values(|statement: Statement| statement@) =~= Seq::<
            StatementView,
        >::empty());
        while more
            invariant
                lexer@.input == input,
                old(lexer)@.input == input,
                old(lexer)@.offset == start,
                0 <= start <= from <= lexer@.offset <= input.len(),
                budget(input, from, None) < budget(input, start, optional_view(initial)),
                block(input, start, optional_view(initial)) == (match statements(input, from) {
                    Ok((statements, rest)) => Ok(
                        (BlockView { statements }, (from - start + rest) as nat),
                    ),
                    Err(error) => Err(error),
                }),
                more ==> statements(input, from) == extend(
                    list@.map_values(|statement: Statement| statement@),
                    (lexer@.offset - from) as nat,
                    statements(input, lexer@.offset),
                ),
                !more ==> statements(input, from) == Ok::<(Seq<StatementView>, nat), ErrorView>(
                    (
                        list@.map_values(|statement: Statement| statement@),
                        (lexer@.offset - from) as nat,
                    ),
                ),
            decreases budget(input, lexer@.offset, None), (if more { 1nat } else { 0nat }),
        {
            let ghost values = list@.map_values(|statement: Statement| statement@);
            match parse_in_block(lexer)? {
                Some(statement) => {
                    proof {
                        match statements(input, lexer@.offset) {
                            Ok((rest, _)) => {
                                assert((values + seq![statement@]) + rest =~= values + (seq![
                                    statement@,
                                ] + rest));
                            },
                            Err(_) => {},
                        }
                    }
                    list.push(statement);
                    assert(list@.map_values(|statement: Statement| statement@) =~= values + seq![
                        list@.last()@,
                    ]);
                },
                None => {
                    assert(values + Seq::<StatementView>::empty() =~= values);
                    more = false;
                },
            }
        }
        let block = Block { statements: list };
        proof {
            lemma_block_view(block);
        }
        Ok(block)
    }
}

impl Statement {
    /// Reads a statement that starts with a keyword: see [`statement`].
    pub fn parse(lexer: &mut Lexer, initial: Option<Lexeme>) -> (result: Result<Statement, Error>)
        ensures
            parsed(
                old(lexer)@,
                final(lexer)@,
                statement(old(lexer)@.input, old(lexer)@.offset, optional_view(initial)),
                result,
            ),
        decreases budget(old(lexer)@.input, old(lexer)@.offset, optional_view(initial)), 2nat,
    {
        let ghost input = lexer@.input;
        let ghost start = lexer@.offset;
        let lexeme = take_or_next(initial, lexer)?;
        proof {
            lemma_token(input, start);
        }
        match lexeme {
            Lexeme::Keyword(Keyword::Function) => {
                let definition = FunctionDefinition::parse(lexer, None)?;
                Ok(Statement::FunctionDefinition(definition))
            },
            Lexeme::Keyword(Keyword::Let) => {
                let declaration = VariableDeclaration::parse(lexer, None)?;
                Ok(Statement::VariableDeclaration(declaration))
            },
            Lexeme::Keyword(Keyword::If) => {
                let conditional = IfConditional::parse(lexer, None)?;
                Ok(Statement::IfConditional(conditional))
            },
            Lexeme::Keyword(Keyword::Switch) => {
                let switch = Switch::parse(lexer, None)?;
                proof {
                    lemma_switch_view(switch);
                }
                Ok(Statement::Switch(switch))
            },
            Lexeme::Keyword(Keyword::For) => {
                let for_loop = ForLoop::parse(lexer, None)?;
                Ok(Statement::ForLoop(for_loop))
            },
            Lexeme::Keyword(Keyword::Continue) => Ok(Statement::Continue),
            Lexeme::Keyword(Keyword::Break) => Ok(Statement::Break),
            Lexeme::Keyword(Keyword::Leave) => Ok(Statement::Leave),
            lexeme => Err(unexpected_keyword(lexeme)),
        }
    }
}

} // verus!
