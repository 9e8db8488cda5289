//! Expressions and function calls.

use vstd::prelude::*;

use crate::yul::error::Error;
use crate::yul::error::ErrorView;
use crate::yul::lexer::lexeme::optional_view;
use crate::yul::lexer::lexeme::Lexeme;
use crate::yul::lexer::lexeme::Symbol;
use crate::yul::lexer::Lexer;
use crate::yul::parser::ast::lemma_call_view;
use crate::yul::parser::ast::Expression;
use crate::yul::parser::ast::ExpressionView;
use crate::yul::parser::ast::FunctionCall;
use crate::yul::parser::ast::Name;
use crate::yul::parser::grammar::arguments;
use crate::yul::parser::grammar::budget;
use crate::yul::parser::grammar::expression;
use crate::yul::parser::grammar::function_call;
use crate::yul::parser::grammar::lemma_token;
use crate::yul::parser::grammar::name_of;
use crate::yul::parser::parsed;
use crate::yul::parser::peek;
use crate::yul::parser::take_or_next;
use crate::yul::parser::unexpected1;
use crate::yul::parser::unexpected2;

use crate::text::equals;

verus! {

impl Name {
    /// The built-in function of the name, or else the function of the source
    /// that bears it.
    pub fn from(text: String) -> (name: Name)
        ensures
            name@ == name_of(text@),
    {
        if equals(&text, "add") {
            Name::Add
        } else if equals(&text, "sub") {
            Name::Sub
        } else if equals(&text, "mul") {
            Name::Mul
        } else if equals(&text, "div") {
            Name::Div
        } else if equals(&text, "mod") {
            Name::Mod
        } else if equals(&text, "sdiv") {
            Name::Sdiv
        } else if equals(&text, "smod") {
            Name::Smod
        } else if equals(&text, "lt") {
            Name::Lt
        } else if equals(&text, "gt") {
            Name::Gt
        } else if equals(&text, "eq") {
            Name::Eq
        } else if equals(&text, "slt") {
            Name::Slt
        } else if equals(&text, "sgt") {
            Name::Sgt
        } else if equals(&text, "iszero") {
            Name::IsZero
        } else if equals(&text, "and") {
            Name::And
        } else if equals(&text, "or") {
            Name::Or
        } else if equals(&text, "xor") {
            Name::Xor
        } else if equals(&text, "shl") {
            Name::Shl
        } else if equals(&text, "shr") {
            Name::Shr
        } else if equals(&text, "sar") {
            Name::Sar
        } else {
            Name::UserDefined(text)
        }
    }
}

/// The result of a list of which some items were read before: those stand
/// in front of what the rest gives.
pub open spec fn extend<T>(
    items: Seq<T>,
    taken: nat,
    rest: Result<(Seq<T>, nat), ErrorView>,
) -> Result<(Seq<T>, nat), ErrorView> {
    match rest {
        Ok((more, used)) => Ok((items + more, taken + used)),
        Err(error) => Err(error),
    }
}

impl Expression {
    /// Reads an expression: see [`expression`].
    pub fn parse(lexer: &mut Lexer, initial: Option<Lexeme>) -> (result: Result<Expression, Error>)
        ensures
            parsed(
                old(lexer)@,
                final(lexer)@,
                expression(old(lexer)@.input, old(lexer)@.offset, optional_view(initial)),
                result,
            ),
        decreases budget(old(lexer)@.input, old(lexer)@.offset, optional_view(initial)), 0nat,
    {
        let ghost input = lexer@.input;
        let ghost start = lexer@.offset;
        let lexeme = take_or_next(initial, lexer)?;
        proof {
            lemma_token(input, start);
            lemma_token(input, lexer@.offset);
        }
        match lexeme {
            Lexeme::Literal(literal) => Ok(Expression::Literal(literal)),
            Lexeme::Identifier(name) => {
                match peek(lexer)? {
                    Lexeme::Symbol(Symbol::ParenthesisLeft) => {
                        let _ = lexer.next();
                        let call = FunctionCall::parse(lexer, Some(Lexeme::Identifier(name)))?;
                        proof {
                            lemma_call_view(call);
                        }
                        Ok(Expression::FunctionCall(call))
                    },
                    _ => Ok(Expression::Identifier(name)),
                }
            },
            lexeme => Err(unexpected2("{literal}", "{identifier}", lexeme)),
        }
    }
}

/// Reads one argument of a function call and what stands behind it.
/// Returns the argument, if there was one before the `)`, and whether the
/// list goes on.
fn parse_argument(lexer: &mut Lexer) -> (result: Result<(Option<Expression>, bool), Error>)
    ensures
        final(lexer)@.input == old(lexer)@.input,
        0 <= old(lexer)@.offset <= old(lexer)@.input.len(),
        match result {
            Ok((argument, more)) => {
                let used = (final(lexer)@.offset - old(lexer)@.offset) as nat;
                &&& old(lexer)@.offset <= final(lexer)@.offset <= old(lexer)@.input.len()
                &&& more ==> argument is Some && old(lexer)@.offset < final(lexer)@.offset
                &&& arguments(old(lexer)@.input, old(lexer)@.offset) == (match argument {
                    None => Ok((Seq::empty(), used)),
                    Some(argument) => if more {
                        extend(
                            seq![argument@],
                            used,
                            arguments(old(lexer)@.input, final(lexer)@.offset),
                        )
                    } else {
                        Ok((seq![argument@], used))
                    },
                })
            },
            Err(error) => arguments(old(lexer)@.input, old(lexer)@.offset) == Err::<
                (Seq<ExpressionView>, nat),
                ErrorView,
            >(error@),
        },
    decreases budget(old(lexer)@.input, old(lexer)@.offset, None), 1nat,
{
    let ghost input = lexer@.input;
    let ghost at = lexer@.offset;
    let _ = lexer.offset();
    proof {
        lemma_token(input, at);
    }
    let lexeme = lexer.next()?;
    let argument = match lexeme {
        Lexeme::Symbol(Symbol::ParenthesisRight) => {
            return Ok((None, false));
        },
        lexeme => Expression::parse(lexer, Some(lexeme))?,
    };
    proof {
        lemma_token(input, lexer@.offset);
    }
    match peek(lexer)? {
        Lexeme::Symbol(Symbol::Comma) => {
            let _ = lexer.next();
            Ok((Some(argument), true))
        },
        Lexeme::Symbol(Symbol::ParenthesisRight) => {
            let _ = lexer.next();
            Ok((Some(argument), false))
        },
        _ => Ok((Some(argument), false)),
    }
}

impl FunctionCall {
    /// Reads a function call from its name on: see [`function_call`].
    pub fn parse(lexer: &mut Lexer, initial: Option<Lexeme>) -> (result: Result<
        FunctionCall,
        Error,
    >)
        ensures
            parsed(
                old(lexer)@,
                final(lexer)@,
                function_call(old(lexer)@.input, old(lexer)@.offset, optional_view(initial)),
                result,
            ),
        decreases budget(old(lexer)@.input, old(lexer)@.offset, optional_view(initial)), 2nat,
    {
        let ghost input = lexer@.input;
        let ghost start = lexer@.offset;
        let lexeme = take_or_next(initial, lexer)?;
        proof {
            lemma_token(input, start);
        }
        let name = match lexeme {
            Lexeme::Identifier(name) => Name::from(name),
            lexeme => {
                return Err(unexpected1("{identifier}", lexeme));
            },
        };
        let ghost from = lexer@.offset;
        let mut list: Vec<Expression> = Vec::new();
        let mut more = true;
        assert(list@.map_values(|argument: Expression| argument@) =~= Seq::<
            ExpressionView,
        >::empty());
        while more
            invariant
                lexer@.input == input,
                old(lexer)@.input == input,
                old(lexer)@.offset == start,
                0 <= start <= from <= lexer@.offset <= input.len(),
                function_call(input, start, optional_view(initial)) == (match arguments(
                    input,
                    from,
                ) {
                    Ok((arguments, rest)) => Ok(
                        (
                            crate::yul::parser::ast::FunctionCallView { name: name@, arguments },
                            (from - start + rest) as nat,
                        ),
                    ),
                    Err(error) => Err(error),
                }),
                more ==> arguments(input, from) == extend(
                    list@.map_values(|argument: Expression| argument@),
                    (lexer@.offset - from) as nat,
                    arguments(input, lexer@.offset),
                ),
                !more ==> arguments(input, from) == Ok::<(Seq<ExpressionView>, nat), ErrorView>(
                    (
                        list@.map_values(|argument: Expression| argument@),
                        (lexer@.offset - from) as nat,
                    ),
                ),
            decreases budget(input, lexer@.offset, None), (if more { 1nat } else { 0nat }),
        {
            let ghost values = list@.map_values(|argument: Expression| argument@);
            let (argument, goes_on) = parse_argument(lexer)?;
            match argument {
                Some(argument) => {
                    proof {
                        assert(values.push(argument@) =~= values + seq![argument@]);
                        match arguments(input, lexer@.offset) {
                            Ok((rest, _)) => {
                                assert((values + seq![argument@]) + rest =~= values + (seq![
                                    argument@,
                                ] + rest));
                            },
                            Err(_) => {},
                        }
                    }
                    list.push(argument);
                    assert(list@.map_values(|argument: Expression| argument@) =~= values.push(
                        list@.last()@,
                    ));
                },
                None => {
                    assert(values + Seq::<ExpressionView>::empty() =~= values);
                },
            }
            more = goes_on;
        }
        let call = FunctionCall { name, arguments: list };
        Ok(call)
    }
}

} // verus!
