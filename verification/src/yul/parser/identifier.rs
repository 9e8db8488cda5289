//! Lists of identifiers.

use vstd::prelude::*;

use crate::yul::error::Error;
use crate::yul::error::ErrorView;
use crate::yul::lexer::lexeme::optional_view;
use crate::yul::lexer::lexeme::Lexeme;
use crate::yul::lexer::lexeme::Symbol;
use crate::yul::lexer::Lexer;
use crate::yul::parser::ast::names_view;
use crate::yul::parser::expression::extend;
use crate::yul::parser::grammar::budget;
use crate::yul::parser::grammar::first_repeated;
use crate::yul::parser::grammar::identifier_list;
use crate::yul::parser::grammar::lemma_token;
use crate::yul::parser::peek;
use crate::yul::parser::unexpected1;

verus! {

/// The rules on identifiers.
pub struct Identifier {}

impl Identifier {
    /// Reads a list of identifiers with commas between them: see
    /// [`identifier_list`]. A lexeme that was taken before stands for the
    /// first identifier.
    pub fn parse_list(lexer: &mut Lexer, initial: Option<Lexeme>) -> (result: Result<
        Vec<String>,
        Error,
    >)
        ensures
            final(lexer)@.input == old(lexer)@.input,
            0 <= old(lexer)@.offset <= old(lexer)@.input.len(),
            match identifier_list(
                old(lexer)@.input,
                old(lexer)@.offset,
                optional_view(initial),
                false,
            ) {
                Ok((names, used)) => result is Ok && names_view(result->Ok_0@) == names
                    && final(lexer)@.offset == old(lexer)@.offset + used && final(lexer)@.offset
                    <= old(lexer)@.input.len(),
                Err(error) => result is Err && result->Err_0@ == error,
            },
    {
        let ghost input = lexer@.input;
        let ghost start = lexer@.offset;
        let _ = lexer.offset();
        let mut names: Vec<String> = Vec::new();
        let mut expects_comma = false;
        assert(names_view(names@) =~= Seq::<Seq<char>>::empty());
        match initial {
            Some(Lexeme::Identifier(name)) => {
                names.push(name);
                expects_comma = true;
                proof {
                    assert(names_view(names@) =~= seq![name@]);
                    match identifier_list(input, start, None, true) {
                        Ok((rest, _)) => {},
                        Err(_) => {},
                    }
                }
            },
            Some(lexeme) => {
                return Err(unexpected1("{identifier}", lexeme));
            },
            None => {},
        }
        let mut more = true;
        while more
            invariant
                lexer@.input == input,
                old(lexer)@.input == input,
                old(lexer)@.offset == start,
                0 <= start <= lexer@.offset <= input.len(),
                more ==> identifier_list(input, start, optional_view(initial), false) == extend(
                    names_view(names@),
                    (lexer@.offset - start) as nat,
                    identifier_list(input, lexer@.offset, None, expects_comma),
                ),
                !more ==> identifier_list(input, start, optional_view(initial), false) == Ok::<
                    (Seq<Seq<char>>, nat),
                    ErrorView,
                >((names_view(names@), (lexer@.offset - start) as nat)),
            decreases budget(input, lexer@.offset, None), (if more { 1nat } else { 0nat }),
        {
            let ghost at = lexer@.offset;
            let ghost values = names_view(names@);
            proof {
                lemma_token(input, at);
            }
            let lexeme = peek(lexer)?;
            match lexeme {
                Lexeme::Identifier(name) => {
                    if expects_comma {
                        more = false;
                        assert(values + Seq::<Seq<char>>::empty() =~= values);
                    } else {
                        let _ = lexer.next();
                        proof {
                            match identifier_list(input, lexer@.offset, None, true) {
                                Ok((rest, _)) => {
                                    assert((values + seq![name@]) + rest =~= values + (seq![name@]
                                        + rest));
                                },
                                Err(_) => {},
                            }
                        }
                        names.push(name);
                        assert(names_view(names@) =~= values + seq![name@]);
                        expects_comma = true;
                    }
                },
                Lexeme::Symbol(Symbol::Comma) => {
                    if expects_comma {
                        let _ = lexer.next();
                        expects_comma = false;
                    } else {
                        more = false;
                        assert(values + Seq::<Seq<char>>::empty() =~= values);
                    }
                },
                _ => {
                    more = false;
                    assert(values + Seq::<Seq<char>>::empty() =~= values);
                },
            }
        }
        Ok(names)
    }

    /// Finds the first name of the list that stands in it before.
    pub fn find_repeated(names: &Vec<String>) -> (at: Option<usize>)
        ensures
            match first_repeated(names_view(names@)) {
                Some(index) => at == Some(index as usize) && 0 <= index < names@.len(),
                None => at is None,
            },
    {
        let ghost values = names_view(names@);
        let mut i: usize = 0;
        assert(values.take(0) =~= Seq::<Seq<char>>::empty());
        while i < names.len()
            invariant
                i <= names.len(),
                values == names_view(names@),
                first_repeated(values.take(i as int)) is None,
            decreases names.len() - i,
        {
            let ghost longer = values.take(i + 1);
            assert(longer.drop_last() =~= values.take(i as int));
            assert(longer.last() == values[i as int]);
            if occurs_before(names, i) {
                proof {
                    lemma_first_repeated_prefix(values, i + 1);
                }
                return Some(i);
            }
            i += 1;
        }
        assert(values.take(i as int) =~= values);
        None
    }
}

/// Whether the name at the index stands in the list before.
fn occurs_before(names: &Vec<String>, at: usize) -> (found: bool)
    requires
        at < names.len(),
    ensures
        found == names_view(names@).take(at as int).contains(names_view(names@)[at as int]),
{
    let ghost values = names_view(names@);
    let mut j: usize = 0;
    while j < at
        invariant
            j <= at < names.len(),
            values == names_view(names@),
            forall|k: int| 0 <= k < j ==> values[k] != values[at as int],
        decreases at - j,
    {
        if names[j] == names[at] {
            assert(values.take(at as int)[j as int] == values[at as int]);
            return true;
        }
        j += 1;
    }
    false
}

/// What is first repeated in a prefix of a list is first repeated in the
/// list.
pub proof fn lemma_first_repeated_prefix(names: Seq<Seq<char>>, prefix: int)
    requires
        0 <= prefix <= names.len(),
        first_repeated(names.take(prefix)) is Some,
    ensures
        first_repeated(names) == first_repeated(names.take(prefix)),
    decreases names.len() - prefix,
{
    if prefix == names.len() {
        assert(names.take(prefix) =~= names);
    } else {
        assert(names.take(prefix + 1).drop_last() =~= names.take(prefix));
        lemma_first_repeated_prefix(names, prefix + 1);
    }
}

} // verus!
