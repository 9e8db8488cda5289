//! Switches and their cases.

use vstd::prelude::*;

use crate::yul::error::Error;
use crate::yul::error::ErrorView;
use crate::yul::lexer::lexeme::optional_view;
use crate::yul::lexer::lexeme::Keyword;
use crate::yul::lexer::lexeme::Lexeme;
use crate::yul::lexer::lexeme::LexemeView;
use crate::yul::lexer::Lexer;
use crate::yul::parser::ast::Block;
use crate::yul::parser::ast::BlockView;
use crate::yul::parser::ast::Case;
use crate::yul::parser::ast::CaseView;
use crate::yul::parser::ast::Expression;
use crate::yul::parser::ast::Switch;
use crate::yul::parser::ast::SwitchView;
use crate::yul::parser::grammar::budget;
use crate::yul::parser::grammar::case;
use crate::yul::parser::grammar::cases;
use crate::yul::parser::grammar::lemma_token;
use crate::yul::parser::grammar::switch;
use crate::yul::parser::grammar::token;
use crate::yul::parser::grammar::unexpected;
use crate::yul::parser::parsed;
use crate::yul::parser::peek;
use crate::yul::parser::take_or_next;
use crate::yul::parser::unexpected1;
use crate::yul::parser::unexpected2;

verus! {

/// Where the parser stands in a switch.
#[derive(Debug, Clone, Copy, PartialEq, Eq, Structural)]
pub enum State {
    /// Behind the value or a case: `case` or `default` may come.
    CaseOrDefaultKeyword,
    /// At a `case`.
    CaseBlock,
    /// At a `default`.
    DefaultBlock,
}

impl Case {
    /// Reads a case behind its `case`: see [`case`].
    pub fn parse(lexer: &mut Lexer, initial: Option<Lexeme>) -> (result: Result<Case, Error>)
        ensures
            parsed(
                old(lexer)@,
                final(lexer)@,
                case(old(lexer)@.input, old(lexer)@.offset, optional_view(initial)),
                result,
            ),
        decreases budget(old(lexer)@.input, old(lexer)@.offset, optional_view(initial)), 2nat,
    {
        let ghost input = lexer@.input;
        let ghost start = lexer@.offset;
        let lexeme = take_or_next(initial, lexer)?;
        proof {
            lemma_token(input, start);
        }
        let literal = match lexeme {
            Lexeme::Literal(literal) => literal,
            lexeme => {
                return Err(unexpected1("{literal}", lexeme));
            },
        };
        let block = Block::parse(lexer, None)?;
        Ok(Case { literal, block })
    }
}

/// The cases and the default that a switch gives where some cases were read
/// before.
pub open spec fn extend_cases(
    items: Seq<CaseView>,
    taken: nat,
    rest: Result<(Seq<CaseView>, Option<BlockView>, nat), ErrorView>,
) -> Result<(Seq<CaseView>, Option<BlockView>, nat), ErrorView> {
    match rest {
        Ok((more, default, used)) => Ok((items + more, default, taken + used)),
        Err(error) => Err(error),
    }
}

/// Looks whether a case or the default comes next. Returns the state to go
/// on in, or nothing where neither comes.
fn next_state(lexer: &mut Lexer) -> (result: Result<Option<State>, Error>)
    ensures
        final(lexer)@ == old(lexer)@,
        0 <= old(lexer)@.offset <= old(lexer)@.input.len(),
        match token(old(lexer)@.input, old(lexer)@.offset) {
            Ok((lexeme, _)) => result == Ok::<Option<State>, Error>(
                if lexeme == LexemeView::Keyword(Keyword::Case) {
                    Some(State::CaseBlock)
                } else if lexeme == LexemeView::Keyword(Keyword::Default) {
                    Some(State::DefaultBlock)
                } else {
                    None
                },
            ),
            Err(error) => result is Err && result->Err_0@ == error,
        },
{
    match peek(lexer)? {
        Lexeme::Keyword(Keyword::Case) => Ok(Some(State::CaseBlock)),
        Lexeme::Keyword(Keyword::Default) => Ok(Some(State::DefaultBlock)),
        _ => Ok(None),
    }
}

/// Takes the `case` that comes next, and reads the case.
fn parse_case_block(lexer: &mut Lexer) -> (result: Result<Case, Error>)
    requires
        token(old(lexer)@.input, old(lexer)@.offset) is Ok,
        token(old(lexer)@.input, old(lexer)@.offset)->Ok_0.0 == LexemeView::Keyword(Keyword::Case),
    ensures
        final(lexer)@.input == old(lexer)@.input,
        match result {
            Ok(case) => old(lexer)@.offset < final(lexer)@.offset <= old(lexer)@.input.len()
                && cases(old(lexer)@.input, old(lexer)@.offset) == extend_cases(
                seq![case@],
                (final(lexer)@.offset - old(lexer)@.offset) as nat,
                cases(old(lexer)@.input, final(lexer)@.offset),
            ),
            Err(error) => cases(old(lexer)@.input, old(lexer)@.offset) == Err::<
                (Seq<CaseView>, Option<BlockView>, nat),
                ErrorView,
            >(error@),
        },
    decreases budget(old(lexer)@.input, old(lexer)@.offset, None), 3nat,
{
    let ghost input = lexer@.input;
    let ghost at = lexer@.offset;
    let _ = lexer.offset();
    proof {
        lemma_token(input, at);
    }
    let _ = lexer.next();
    Case::parse(lexer, None)
}

/// Takes the `default` that comes next, and reads its block.
fn parse_default_block(lexer: &mut Lexer) -> (result: Result<Block, Error>)
    requires
        token(old(lexer)@.input, old(lexer)@.offset) is Ok,
        token(old(lexer)@.input, old(lexer)@.offset)->Ok_0.0 == LexemeView::Keyword(
            Keyword::Default,
        ),
    ensures
        final(lexer)@.input == old(lexer)@.input,
        match result {
            Ok(block) => old(lexer)@.offset < final(lexer)@.offset <= old(lexer)@.input.len()
                && cases(old(lexer)@.input, old(lexer)@.offset) == Ok::<
                (Seq<CaseView>, Option<BlockView>, nat),
                ErrorView,
            >((Seq::empty(), Some(block@), (final(lexer)@.offset - old(lexer)@.offset) as nat)),
            Err(error) => cases(old(lexer)@.input, old(lexer)@.offset) == Err::<
                (Seq<CaseView>, Option<BlockView>, nat),
                ErrorView,
            >(error@),
        },
    decreases budget(old(lexer)@.input, old(lexer)@.offset, None), 3nat,
{
    let ghost input = lexer@.input;
    let ghost at = lexer@.offset;
    let _ = lexer.offset();
    proof {
        lemma_token(input, at);
    }
    let _ = lexer.next();
    Block::parse(lexer, None)
}

impl Switch {
    /// Reads a switch behind its `switch`: see [`switch`].
    pub fn parse(lexer: &mut Lexer, initial: Option<Lexeme>) -> (result: Result<Switch, Error>)
        ensures
            parsed(
                old(lexer)@,
                final(lexer)@,
                switch(old(lexer)@.input, old(lexer)@.offset, optional_view(initial)),
                result,
            ),
            result matches Ok(switch) ==> switch.cases@.len() > 0 || switch.default is Some,
        decreases budget(old(lexer)@.input, old(lexer)@.offset, optional_view(initial)), 4nat,
    {
        let ghost input = lexer@.input;
        let ghost start = lexer@.offset;
        let lexeme = take_or_next(initial, lexer)?;
        proof {
            lemma_token(input, start);
        }
        let mut state = State::CaseOrDefaultKeyword;
        let expression = Expression::parse(lexer, Some(lexeme.clone()))?;
        let ghost from = lexer@.offset;
        let mut list: Vec<Case> = Vec::new();
        let mut default: Option<Block> = None;
        let mut more = true;
        assert(list@.map_values(|case: Case| case@) =~= Seq::<CaseView>::empty());
        while more
            invariant
                lexer@.input == input,
                old(lexer)@.input == input,
                old(lexer)@.offset == start,
                0 <= start <= from <= lexer@.offset <= input.len(),
                budget(input, from, None) <= budget(input, start, optional_view(initial)),
                switch(input, start, optional_view(initial)) == (match cases(input, from) {
                    Ok((cases, default, rest)) => if cases.len() == 0 && default is None {
                        Err(unexpected(seq!["case"@, "default"@], lexeme@))
                    } else {
                        Ok(
                            (
                                SwitchView { expression: expression@, cases, default },
                                (from - start + rest) as nat,
                            ),
                        )
                    },
                    Err(error) => Err(error),
                }),
                more ==> default is None && cases(input, from) == extend_cases(
                    list@.map_values(|case: Case| case@),
                    (lexer@.offset - from) as nat,
                    cases(input, lexer@.offset),
                ),
                more && state == State::CaseBlock ==> token(input, lexer@.offset) is Ok && token(
                    input,
                    lexer@.offset,
                )->Ok_0.0 == LexemeView::Keyword(Keyword::Case),
                more && state == State::DefaultBlock ==> token(input, lexer@.offset) is Ok
                    && token(input, lexer@.offset)->Ok_0.0 == LexemeView::Keyword(Keyword::Default),
                !more ==> cases(input, from) == Ok::<
                    (Seq<CaseView>, Option<BlockView>, nat),
                    ErrorView,
                >(
                    (
                        list@.map_values(|case: Case| case@),
                        match default {
                            Some(block) => Some(block@),
                            None => None,
                        },
                        (lexer@.offset - from) as nat,
                    ),
                ),
            decreases
                    budget(input, lexer@.offset, None),
                    (if !more {
                        0nat
                    } else if state == State::CaseOrDefaultKeyword {
                        2nat
                    } else {
                        1nat
                    }),
        {
            let ghost values = list@.map_values(|case: Case| case@);
            match state {
                State::CaseOrDefaultKeyword => {
                    match next_state(lexer)? {
                        Some(next) => {
                            state = next;
                        },
                        None => {
                            assert(values + Seq::<CaseView>::empty() =~= values);
                            more = false;
                        },
                    }
                },
                State::CaseBlock => {
                    let case = parse_case_block(lexer)?;
                    proof {
                        match cases(input, lexer@.offset) {
                            Ok((rest, _, _)) => {
                                assert((values + seq![case@]) + rest =~= values + (seq![case@]
                                    + rest));
                            },
                            Err(_) => {},
                        }
                    }
                    list.push(case);
                    assert(list@.map_values(|case: Case| case@) =~= values + seq![list@.last()@]);
                    state = State::CaseOrDefaultKeyword;
                },
                State::DefaultBlock => {
                    let block = parse_default_block(lexer)?;
                    assert(values + Seq::<CaseView>::empty() =~= values);
                    default = Some(block);
                    more = false;
                },
            }
        }
        if list.len() == 0 && default.is_none() {
            return Err(unexpected2("case", "default", lexeme));
        }
        Ok(Switch { expression, cases: list, default })
    }
}

} // verus!
