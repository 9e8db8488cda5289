//! Objects and their code.

use vstd::prelude::*;

use crate::yul::error::Error;
use crate::yul::error::ErrorView;
use crate::yul::lexer::lexeme::optional_view;
use crate::yul::lexer::lexeme::Keyword;
use crate::yul::lexer::lexeme::Lexeme;
use crate::yul::lexer::lexeme::LiteralKind;
use crate::yul::lexer::lexeme::Symbol;
use crate::yul::lexer::Lexer;
use crate::yul::parser::ast::names_view;
use crate::yul::parser::ast::Block;
use crate::yul::parser::ast::Code;
use crate::yul::parser::ast::Object;
use crate::yul::parser::ast::ObjectView;
use crate::yul::parser::grammar::budget;
use crate::yul::parser::grammar::code;
use crate::yul::parser::grammar::data;
use crate::yul::parser::grammar::lemma_token;
use crate::yul::parser::grammar::members;
use crate::yul::parser::grammar::object;
use crate::yul::parser::grammar::Members;
use crate::yul::parser::parsed;
use crate::yul::parser::take_or_next;
use crate::yul::parser::unexpected1;
use crate::yul::parser::unexpected2;
use crate::yul::parser::unexpected3;

verus! {

impl Code {
    /// Reads the code of an object: see [`code`].
    pub fn parse(lexer: &mut Lexer, initial: Option<Lexeme>) -> (result: Result<Code, Error>)
        ensures
            parsed(
                old(lexer)@,
                final(lexer)@,
                code(old(lexer)@.input, old(lexer)@.offset, optional_view(initial)),
                result,
            ),
    {
        let ghost input = lexer@.input;
        let ghost start = lexer@.offset;
        let lexeme = take_or_next(initial, lexer)?;
        proof {
            lemma_token(input, start);
        }
        match lexeme {
            Lexeme::Keyword(Keyword::Code) => {},
            lexeme => {
                return Err(unexpected1("code", lexeme));
            },
        }
        let block = Block::parse(lexer, None)?;
        Ok(Code { block })
    }
}

/// Reads the name and the value of a data member, behind its `data`.
fn parse_data(lexer: &mut Lexer) -> (result: Result<(), Error>)
    ensures
        final(lexer)@.input == old(lexer)@.input,
        0 <= old(lexer)@.offset <= old(lexer)@.input.len(),
        match data(old(lexer)@.input, old(lexer)@.offset) {
            Ok(used) => result is Ok && final(lexer)@.offset == old(lexer)@.offset + used
                && final(lexer)@.offset <= old(lexer)@.input.len(),
            Err(error) => result is Err && result->Err_0@ == error,
        },
{
    let ghost input = lexer@.input;
    let _ = lexer.offset();
    proof {
        lemma_token(input, lexer@.offset);
    }
    match lexer.next()? {
        Lexeme::Literal(name) => {
            if name.kind != LiteralKind::String {
                return Err(unexpected1("{string}", Lexeme::Literal(name)));
            }
        },
        lexeme => {
            return Err(unexpected1("{string}", lexeme));
        },
    }
    proof {
        lemma_token(input, lexer@.offset);
    }
    match lexer.next()? {
        Lexeme::Literal(_) => Ok(()),
        Lexeme::Keyword(Keyword::Hex) => {
            proof {
                lemma_token(input, lexer@.offset);
            }
            match lexer.next()? {
                Lexeme::Literal(_) => Ok(()),
                lexeme => Err(unexpected1("{literal}", lexeme)),
            }
        },
        lexeme => Err(unexpected2("{literal}", "hex", lexeme)),
    }
}

/// The members that were read, in the order of the source.
pub open spec fn members_of(nested: Option<Box<Object>>, dependencies: Seq<String>) -> Members {
    Members {
        nested_object: match nested {
            Some(object) => Some(Box::new((*object)@)),
            None => None,
        },
        dependencies: names_view(dependencies),
    }
}

/// The members of an object where some were read before: those that follow
/// come behind them.
pub open spec fn join(read: Members, rest: Members) -> Members {
    match read.nested_object {
        None => rest,
        Some(first) => Members {
            nested_object: Some(first),
            dependencies: read.dependencies + (match rest.nested_object {
                Some(next) => seq![next.name] + rest.dependencies,
                None => rest.dependencies,
            }),
        },
    }
}

/// What the members of an object give where some were read before.
pub open spec fn extend_members(
    read: Members,
    taken: nat,
    rest: Result<(Members, nat), ErrorView>,
) -> Result<(Members, nat), ErrorView> {
    match rest {
        Ok((more, used)) => Ok((join(read, more), taken + used)),
        Err(error) => Err(error),
    }
}

/// What stands next in an object: a nested object, a data member, or the
/// end.
enum Member {
    Object(Object),
    Data,
    End,
}

/// Reads the next member of an object, or its `}`.
fn parse_member(lexer: &mut Lexer) -> (result: Result<Member, Error>)
    ensures
        final(lexer)@.input == old(lexer)@.input,
        0 <= old(lexer)@.offset <= old(lexer)@.input.len(),
        match result {
            Ok(member) => {
                let used = (final(lexer)@.offset - old(lexer)@.offset) as nat;
                &&& old(lexer)@.offset < final(lexer)@.offset <= old(lexer)@.input.len()
                &&& members(old(lexer)@.input, old(lexer)@.offset) == (match member {
                    Member::End => Ok(
                        (Members { nested_object: None, dependencies: Seq::empty() }, used),
                    ),
                    Member::Data => extend_members(
                        Members { nested_object: None, dependencies: Seq::empty() },
                        used,
                        members(old(lexer)@.input, final(lexer)@.offset),
                    ),
                    Member::Object(nested) => extend_members(
                        Members { nested_object: Some(Box::new(nested@)), dependencies: Seq::empty() },
                        used,
                        members(old(lexer)@.input, final(lexer)@.offset),
                    ),
                })
            },
            Err(error) => members(old(lexer)@.input, old(lexer)@.offset) == Err::<
                (Members, nat),
                ErrorView,
            >(error@),
        },
    decreases budget(old(lexer)@.input, old(lexer)@.offset, None), 0nat,
{
    let ghost input = lexer@.input;
    let ghost at = lexer@.offset;
    let _ = lexer.offset();
    proof {
        lemma_token(input, at);
    }
    match lexer.next()? {
        Lexeme::Symbol(Symbol::BracketCurlyRight) => Ok(Member::End),
        Lexeme::Keyword(Keyword::Object) => {
            let nested = Object::parse(lexer, Some(Lexeme::Keyword(Keyword::Object)))?;
            proof {
                match members(input, lexer@.offset) {
                    Ok((rest, _)) => {
                        assert(Seq::<Seq<char>>::empty() + rest.dependencies =~= rest.dependencies);
                        match rest.nested_object {
                            Some(next) => {
                                assert(Seq::<Seq<char>>::empty() + (seq![next.name]
                                    + rest.dependencies) =~= seq![next.name] + rest.dependencies);
                            },
                            None => {},
                        }
                    },
                    Err(_) => {},
                }
            }
            Ok(Member::Object(nested))
        },
        Lexeme::Keyword(Keyword::Data) => {
            parse_data(lexer)?;
            Ok(Member::Data)
        },
        lexeme => Err(unexpected3("object", "data", "}", lexeme)),
    }
}

impl Object {
    /// Reads an object: see [`object`].
    pub fn parse(lexer: &mut Lexer, initial: Option<Lexeme>) -> (result: Result<Object, Error>)
        ensures
            parsed(
                old(lexer)@,
                final(lexer)@,
                object(old(lexer)@.input, old(lexer)@.offset, optional_view(initial)),
                result,
            ),
        decreases budget(old(lexer)@.input, old(lexer)@.offset, optional_view(initial)), 1nat,
    {
        let ghost input = lexer@.input;
        let ghost start = lexer@.offset;
        let lexeme = take_or_next(initial, lexer)?;
        proof {
            lemma_token(input, start);
            lemma_token(input, lexer@.offset);
        }
        match lexeme {
            Lexeme::Keyword(Keyword::Object) => {},
            lexeme => {
                return Err(unexpected1("object", lexeme));
            },
        }
        let name = match lexer.next()? {
            Lexeme::Literal(literal) => {
                if literal.kind != LiteralKind::String {
                    return Err(unexpected1("{string}", Lexeme::Literal(literal)));
                }
                literal.text
            },
            lexeme => {
                return Err(unexpected1("{string}", lexeme));
            },
        };
        proof {
            lemma_token(input, lexer@.offset);
        }
        match lexer.next()? {
            Lexeme::Symbol(Symbol::BracketCurlyLeft) => {},
            lexeme => {
                return Err(unexpected1("{", lexeme));
            },
        }
        let code = Code::parse(lexer, None)?;
        let ghost from = lexer@.offset;
        let mut nested_object: Option<Box<Object>> = None;
        let mut dependencies: Vec<String> = Vec::new();
        let mut more = true;
        assert(names_view(dependencies@) =~= Seq::<Seq<char>>::empty());
        while more
            invariant
                lexer@.input == input,
                old(lexer)@.input == input,
                old(lexer)@.offset == start,
                0 <= start < from <= lexer@.offset <= input.len(),
                nested_object is None ==> dependencies@.len() == 0,
                object(input, start, optional_view(initial)) == (match members(input, from) {
                    Ok((members, rest)) => Ok(
                        (
                            ObjectView {
                                name: name@,
                                code: code@,
                                nested_object: members.nested_object,
                                dependencies: members.dependencies,
                            },
                            (from - start + rest) as nat,
                        ),
                    ),
                    Err(error) => Err(error),
                }),
                more ==> members(input, from) == extend_members(
                    members_of(nested_object, dependencies@),
                    (lexer@.offset - from) as nat,
                    members(input, lexer@.offset),
                ),
                !more ==> members(input, from) == Ok::<(Members, nat), ErrorView>(
                    (members_of(nested_object, dependencies@), (lexer@.offset - from) as nat),
                ),
            decreases budget(input, lexer@.offset, None), (if more { 1nat } else { 0nat }),
        {
            let ghost read = members_of(nested_object, dependencies@);
            let ghost names = names_view(dependencies@);
            match parse_member(lexer)? {
                Member::End => {
                    more = false;
                    proof {
                        assert(names + Seq::<Seq<char>>::empty() =~= names);
                    }
                },
                Member::Data => {
                    proof {
                        match members(input, lexer@.offset) {
                            Ok((rest, _)) => {
                                assert(Seq::<Seq<char>>::empty() + rest.dependencies
                                    =~= rest.dependencies);
                            },
                            Err(_) => {},
                        }
                    }
                },
                Member::Object(object) => {
                    let ghost value = object@;
                    proof {
                        match members(input, lexer@.offset) {
                            Ok((rest, _)) => {
                                let tail = match rest.nested_object {
                                    Some(next) => seq![next.name] + rest.dependencies,
                                    None => rest.dependencies,
                                };
                                assert(Seq::<Seq<char>>::empty() + tail =~= tail);
                                assert((names + seq![value.name]) + tail =~= names + (seq![
                                    value.name,
                                ] + tail));
                            },
                            Err(_) => {},
                        }
                    }
                    if nested_object.is_none() {
                        nested_object = Some(Box::new(object));
                    } else {
                        dependencies.push(object.name);
                        assert(names_view(dependencies@) =~= names + seq![value.name]);
                    }
                },
            }
        }
        Ok(Object { name, code, nested_object, dependencies })
    }
}

} // verus!
