//! The grammar of Yul: what each rule of the parser yields on an input,
//! from a given offset, with or without a lexeme that was taken before.
//!
//! Each rule gives the value of the node that it builds and the number of
//! characters that it takes from the offset on, or the error that it ends
//! with.

use vstd::prelude::*;

use crate::yul::error::ErrorView;
use crate::yul::lexer::lemma_scan_advances;
use crate::yul::lexer::lexeme::Keyword;
use crate::yul::lexer::lexeme::LexemeView;
use crate::yul::lexer::lexeme::LiteralKind;
use crate::yul::lexer::lexeme::Symbol;
use crate::yul::lexer::scan;
use crate::yul::parser::ast::AssignmentView;
use crate::yul::parser::ast::BlockView;
use crate::yul::parser::ast::CaseView;
use crate::yul::parser::ast::CodeView;
use crate::yul::parser::ast::ExpressionView;
use crate::yul::parser::ast::ForLoopView;
use crate::yul::parser::ast::FunctionCallView;
use crate::yul::parser::ast::FunctionDefinitionView;
use crate::yul::parser::ast::IfConditionalView;
use crate::yul::parser::ast::NameView;
use crate::yul::parser::ast::ObjectView;
use crate::yul::parser::ast::StatementView;
use crate::yul::parser::ast::SwitchView;
use crate::yul::parser::ast::VariableDeclarationView;

verus! {

/// The next lexeme at or after the offset, and the number of characters up
/// to its end.
pub open spec fn token(input: Seq<char>, offset: int) -> Result<(LexemeView, nat), ErrorView> {
    match scan(input, offset) {
        Ok((lexeme, end)) => Ok((lexeme, (end - offset) as nat)),
        Err(error) => Err(error),
    }
}

/// The lexeme that a rule starts with: the one that was taken before, or
/// else the next one of the input.
pub open spec fn first(input: Seq<char>, offset: int, initial: Option<LexemeView>) -> Result<
    (LexemeView, nat),
    ErrorView,
> {
    match initial {
        Some(lexeme) => Ok((lexeme, 0nat)),
        None => token(input, offset),
    }
}

/// The error of a lexeme that stands where one of `expected` should.
pub open spec fn unexpected(expected: Seq<Seq<char>>, found: LexemeView) -> ErrorView {
    ErrorView::Syntax { expected, found }
}

/// What a rule can still take: two for each character from the offset on,
/// and one for a lexeme that was taken before and is not the end.
pub open spec fn budget(input: Seq<char>, offset: int, initial: Option<LexemeView>) -> nat {
    (if 0 <= offset <= input.len() {
        2 * (input.len() - offset)
    } else {
        0
    }) as nat + (if initial is Some && !(initial->0 is End) {
        1nat
    } else {
        0nat
    })
}

/// A lexeme ends within the input; one that is not the end has a character
/// at least.
pub proof fn lemma_token(input: Seq<char>, offset: int)
    requires
        0 <= offset <= input.len(),
    ensures
        token(input, offset) matches Ok((lexeme, used)) ==> offset + used <= input.len() && (!(lexeme
            is End) ==> used >= 1) && scan(input, offset) == Ok::<(LexemeView, int), ErrorView>(
            (lexeme, offset + used),
        ),
{
    lemma_scan_advances(input, offset);
}

/// The built-in function of the name, or else the function of the source
/// that bears it.
pub open spec fn name_of(text: Seq<char>) -> NameView {
    if text == "add"@ {
        NameView::Add
    } else if text == "sub"@ {
        NameView::Sub
    } else if text == "mul"@ {
        NameView::Mul
    } else if text == "div"@ {
        NameView::Div
    } else if text == "mod"@ {
        NameView::Mod
    } else if text == "sdiv"@ {
        NameView::Sdiv
    } else if text == "smod"@ {
        NameView::Smod
    } else if text == "lt"@ {
        NameView::Lt
    } else if text == "gt"@ {
        NameView::Gt
    } else if text == "eq"@ {
        NameView::Eq
    } else if text == "slt"@ {
        NameView::Slt
    } else if text == "sgt"@ {
        NameView::Sgt
    } else if text == "iszero"@ {
        NameView::IsZero
    } else if text == "and"@ {
        NameView::And
    } else if text == "or"@ {
        NameView::Or
    } else if text == "xor"@ {
        NameView::Xor
    } else if text == "shl"@ {
        NameView::Shl
    } else if text == "shr"@ {
        NameView::Shr
    } else if text == "sar"@ {
        NameView::Sar
    } else {
        NameView::UserDefined(text)
    }
}

/// A list of identifiers with commas between them: identifiers and commas
/// are taken in turn for as long as they come. A comma at the end of the
/// list is taken too. `expects_comma` says which of the two is due.
pub open spec fn identifier_list(
    input: Seq<char>,
    offset: int,
    initial: Option<LexemeView>,
    expects_comma: bool,
) -> Result<(Seq<Seq<char>>, nat), ErrorView>
    decreases budget(input, offset, initial),
    when 0 <= offset <= input.len()
{
    match first(input, offset, initial) {
        Err(error) => Err(error),
        Ok((lexeme, used)) => {
            if lexeme is Identifier && !expects_comma {
                proof {
                    lemma_token(input, offset);
                }
                match identifier_list(input, offset + used, None, true) {
                    Ok((rest, more)) => Ok((seq![lexeme->Identifier_0] + rest, used + more)),
                    Err(error) => Err(error),
                }
            } else if lexeme == LexemeView::Symbol(Symbol::Comma) && expects_comma {
                proof {
                    lemma_token(input, offset);
                }
                match identifier_list(input, offset + used, None, false) {
                    Ok((rest, more)) => Ok((rest, used + more)),
                    Err(error) => Err(error),
                }
            } else if initial is Some {
                Err(unexpected(seq!["{identifier}"@], lexeme))
            } else {
                Ok((Seq::empty(), 0nat))
            }
        },
    }
}

/// The index of the first name that stands in the list before, if a name
/// stands twice.
pub open spec fn first_repeated(names: Seq<Seq<char>>) -> Option<int>
    decreases names.len(),
{
    if names.len() == 0 {
        None
    } else {
        match first_repeated(names.drop_last()) {
            Some(at) => Some(at),
            None => if names.drop_last().contains(names.last()) {
                Some(names.len() - 1)
            } else {
                None
            },
        }
    }
}

/// An expression: a literal, an identifier, or a function call, which is an
/// identifier with `(` behind it.
pub open spec fn expression(input: Seq<char>, offset: int, initial: Option<LexemeView>) -> Result<
    (ExpressionView, nat),
    ErrorView,
>
    decreases budget(input, offset, initial), 0nat,
    when 0 <= offset <= input.len()
{
    match first(input, offset, initial) {
        Err(error) => Err(error),
        Ok((lexeme, used)) => match lexeme {
            LexemeView::Literal(literal) => Ok((ExpressionView::Literal(literal), used)),
            LexemeView::Identifier(name) => {
                proof {
                    lemma_token(input, offset);
                    lemma_token(input, offset + used);
                }
                match token(input, offset + used) {
                    Err(error) => Err(error),
                    Ok((next, more)) => if next == LexemeView::Symbol(Symbol::ParenthesisLeft) {
                        match function_call(input, offset + used + more, Some(lexeme)) {
                            Ok((call, rest)) => Ok(
                                (ExpressionView::FunctionCall(call), used + more + rest),
                            ),
                            Err(error) => Err(error),
                        }
                    } else {
                        Ok((ExpressionView::Identifier(name), used))
                    },
                }
            },
            _ => Err(unexpected(seq!["{literal}"@, "{identifier}"@], lexeme)),
        },
    }
}

/// A function call from its name on: the `(` is taken already.
pub open spec fn function_call(input: Seq<char>, offset: int, initial: Option<LexemeView>) -> Result<
    (FunctionCallView, nat),
    ErrorView,
>
    decreases budget(input, offset, initial), 2nat,
    when 0 <= offset <= input.len()
{
    match first(input, offset, initial) {
        Err(error) => Err(error),
        Ok((lexeme, used)) => match lexeme {
            LexemeView::Identifier(name) => {
                proof {
                    lemma_token(input, offset);
                }
                match arguments(input, offset + used) {
                    Ok((arguments, rest)) => Ok(
                        (FunctionCallView { name: name_of(name), arguments }, used + rest),
                    ),
                    Err(error) => Err(error),
                }
            },
            _ => Err(unexpected(seq!["{identifier}"@], lexeme)),
        },
    }
}

/// The arguments of a function call, up to the `)`. Behind an argument
/// stands a `,`, which is taken, and the list goes on; or a `)`, which is
/// taken, and the list ends; or anything else, which is left, and the list
/// ends.
pub open spec fn arguments(input: Seq<char>, offset: int) -> Result<
    (Seq<ExpressionView>, nat),
    ErrorView,
>
    decreases budget(input, offset, None), 1nat,
    when 0 <= offset <= input.len()
{
    match token(input, offset) {
        Err(error) => Err(error),
        Ok((lexeme, used)) => if lexeme == LexemeView::Symbol(Symbol::ParenthesisRight) {
            Ok((Seq::empty(), used))
        } else {
            proof {
                lemma_token(input, offset);
            }
            match expression(input, offset + used, Some(lexeme)) {
                Err(error) => Err(error),
                Ok((argument, more)) => match token(input, offset + used + more) {
                    Err(error) => Err(error),
                    Ok((next, behind)) => if next == LexemeView::Symbol(Symbol::Comma) {
                        proof {
                            if offset + used + more <= input.len() {
                                lemma_token(input, offset + used + more);
                            }
                        }
                        match arguments(input, offset + used + more + behind) {
                            Ok((rest, last)) => Ok(
                                (seq![argument] + rest, used + more + behind + last),
                            ),
                            Err(error) => Err(error),
                        }
                    } else if next == LexemeView::Symbol(Symbol::ParenthesisRight) {
                        Ok((seq![argument], used + more + behind))
                    } else {
                        Ok((seq![argument], used + more))
                    },
                },
            }
        },
    }
}

/// A block: `{`, statements, `}`.
pub open spec fn block(input: Seq<char>, offset: int, initial: Option<LexemeView>) -> Result<
    (BlockView, nat),
    ErrorView,
>
    decreases budget(input, offset, initial), 1nat,
    when 0 <= offset <= input.len()
{
    match first(input, offset, initial) {
        Err(error) => Err(error),
        Ok((lexeme, used)) => if lexeme == LexemeView::Symbol(Symbol::BracketCurlyLeft) {
            proof {
                lemma_token(input, offset);
            }
            match statements(input, offset + used) {
                Ok((statements, rest)) => Ok((BlockView { statements }, used + rest)),
                Err(error) => Err(error),
            }
        } else {
            Err(unexpected(seq!["{"@], lexeme))
        },
    }
}

/// The statements of a block, up to its `}`. A keyword starts a statement of
/// its own kind, a literal an expression, `{` a nested block; an identifier
/// starts an assignment where `:=` or `,` stands behind it, and an
/// expression else.
pub open spec fn statements(input: Seq<char>, offset: int) -> Result<
    (Seq<StatementView>, nat),
    ErrorView,
>
    decreases budget(input, offset, None), 0nat,
    when 0 <= offset <= input.len()
{
    match token(input, offset) {
        Err(error) => Err(error),
        Ok((lexeme, used)) => {
            proof {
                lemma_token(input, offset);
            }
            if lexeme == LexemeView::Symbol(Symbol::BracketCurlyRight) {
                Ok((Seq::empty(), used))
            } else if lexeme is End {
                Err(
                    unexpected(
                        seq!["{keyword}"@, "{expression}"@, "{identifier}"@, "{"@, "}"@],
                        lexeme,
                    ),
                )
            } else {
                match statement_from(input, offset + used, lexeme) {
                    Err(error) => Err(error),
                    Ok((statement, more)) => match statements(input, offset + used + more) {
                        Ok((rest, last)) => Ok((seq![statement] + rest, used + more + last)),
                        Err(error) => Err(error),
                    },
                }
            }
        },
    }
}

/// The statement of a block that starts with the given lexeme, which was
/// taken: see [`statements`].
pub open spec fn statement_from(input: Seq<char>, offset: int, lexeme: LexemeView) -> Result<
    (StatementView, nat),
    ErrorView,
>
    decreases budget(input, offset, Some(lexeme)), 3nat,
    when 0 <= offset <= input.len() && !(lexeme is End)
{
    match lexeme {
        LexemeView::Keyword(_) => statement(input, offset, Some(lexeme)),
        LexemeView::Literal(_) => match expression(input, offset, Some(lexeme)) {
            Ok((expression, used)) => Ok((StatementView::Expression(expression), used)),
            Err(error) => Err(error),
        },
        LexemeView::Identifier(_) => match token(input, offset) {
            Err(error) => Err(error),
            Ok((next, _)) => if next == LexemeView::Symbol(Symbol::Assignment) || next
                == LexemeView::Symbol(Symbol::Comma) {
                match assignment(input, offset, Some(lexeme)) {
                    Ok((assignment, used)) => Ok((StatementView::Assignment(assignment), used)),
                    Err(error) => Err(error),
                }
            } else {
                match expression(input, offset, Some(lexeme)) {
                    Ok((expression, used)) => Ok((StatementView::Expression(expression), used)),
                    Err(error) => Err(error),
                }
            },
        },
        LexemeView::Symbol(Symbol::BracketCurlyLeft) => match block(input, offset, Some(lexeme)) {
            Ok((block, used)) => Ok((StatementView::Block(block), used)),
            Err(error) => Err(error),
        },
        _ => Err(
            unexpected(
                seq!["{keyword}"@, "{expression}"@, "{identifier}"@, "{"@, "}"@],
                lexeme,
            ),
        ),
    }
}

/// A statement that starts with a keyword.
pub open spec fn statement(input: Seq<char>, offset: int, initial: Option<LexemeView>) -> Result<
    (StatementView, nat),
    ErrorView,
>
    decreases budget(input, offset, initial), 2nat,
    when 0 <= offset <= input.len()
{
    match first(input, offset, initial) {
        Err(error) => Err(error),
        Ok((lexeme, used)) => {
            proof {
                lemma_token(input, offset);
            }
            match lexeme {
                LexemeView::Keyword(Keyword::Function) => match function_definition(
                    input,
                    offset + used,
                    None,
                ) {
                    Ok((definition, rest)) => Ok(
                        (StatementView::FunctionDefinition(definition), used + rest),
                    ),
                    Err(error) => Err(error),
                },
                LexemeView::Keyword(Keyword::Let) => match variable_declaration(
                    input,
                    offset + used,
                    None,
                ) {
                    Ok((declaration, rest)) => Ok(
                        (StatementView::VariableDeclaration(declaration), used + rest),
                    ),
                    Err(error) => Err(error),
                },
                LexemeView::Keyword(Keyword::If) => match if_conditional(input, offset + used, None) {
                    Ok((conditional, rest)) => Ok(
                        (StatementView::IfConditional(conditional), used + rest),
                    ),
                    Err(error) => Err(error),
                },
                LexemeView::Keyword(Keyword::Switch) => match switch(input, offset + used, None) {
                    Ok((switch, rest)) => Ok((StatementView::Switch(switch), used + rest)),
                    Err(error) => Err(error),
                },
                LexemeView::Keyword(Keyword::For) => match for_loop(input, offset + used, None) {
                    Ok((for_loop, rest)) => Ok((StatementView::ForLoop(for_loop), used + rest)),
                    Err(error) => Err(error),
                },
                LexemeView::Keyword(Keyword::Continue) => Ok((StatementView::Continue, used)),
                LexemeView::Keyword(Keyword::Break) => Ok((StatementView::Break, used)),
                LexemeView::Keyword(Keyword::Leave) => Ok((StatementView::Leave, used)),
                _ => Err(
                    unexpected(
                        seq![
                            "function"@,
                            "let"@,
                            "if"@,
                            "switch"@,
                            "for"@,
                            "break"@,
                            "continue"@,
                            "leave"@,
                        ],
                        lexeme,
                    ),
                ),
            }
        },
    }
}

/// An assignment: an identifier and `:=`, or a list of identifiers and
/// `:=`, before the value. A list in which a name stands twice is an error,
/// where the rest is in order.
pub open spec fn assignment(input: Seq<char>, offset: int, initial: Option<LexemeView>) -> Result<
    (AssignmentView, nat),
    ErrorView,
>
{
    match first(input, offset, initial) {
        Err(error) => Err(error),
        Ok((lexeme, used)) => match lexeme {
            LexemeView::Identifier(name) => {
                match token(input, offset + used) {
                    Err(error) => Err(error),
                    Ok((next, more)) => if next == LexemeView::Symbol(Symbol::Assignment) {
                        match expression(input, offset + used + more, None) {
                            Ok((initializer, rest)) => Ok(
                                (
                                    AssignmentView { bindings: seq![name], initializer },
                                    used + more + rest,
                                ),
                            ),
                            Err(error) => Err(error),
                        }
                    } else if next == LexemeView::Symbol(Symbol::Comma) {
                        match identifier_list(input, offset + used, Some(lexeme), false) {
                            Err(error) => Err(error),
                            Ok((bindings, listed)) => {
                                match token(input, offset + used + listed) {
                                    Err(error) => Err(error),
                                    Ok((sign, signed)) => if sign == LexemeView::Symbol(
                                        Symbol::Assignment,
                                    ) {
                                        match expression(
                                            input,
                                            offset + used + listed + signed,
                                            None,
                                        ) {
                                            Err(error) => Err(error),
                                            Ok((initializer, rest)) => match first_repeated(
                                                bindings,
                                            ) {
                                                Some(at) => Err(
                                                    ErrorView::DuplicateIdentifier {
                                                        name: bindings[at],
                                                    },
                                                ),
                                                None => Ok(
                                                    (
                                                        AssignmentView { bindings, initializer },
                                                        used + listed + signed + rest,
                                                    ),
                                                ),
                                            },
                                        }
                                    } else {
                                        Err(unexpected(seq![":="@], sign))
                                    },
                                }
                            },
                        }
                    } else {
                        Err(unexpected(seq![":="@, ","@], next))
                    },
                }
            },
            _ => Err(unexpected(seq!["{identifier}"@], lexeme)),
        },
    }
}

/// A list of identifiers ends within the input, and one that holds a name
/// has a character at least.
pub proof fn lemma_identifier_list(
    input: Seq<char>,
    offset: int,
    initial: Option<LexemeView>,
    expects_comma: bool,
)
    requires
        0 <= offset <= input.len(),
    ensures
        identifier_list(input, offset, initial, expects_comma) matches Ok((names, used)) ==> offset
            + used <= input.len(),
    decreases budget(input, offset, initial),
{
    match first(input, offset, initial) {
        Err(_) => {},
        Ok((lexeme, used)) => {
            lemma_token(input, offset);
            if lexeme is Identifier && !expects_comma {
                lemma_identifier_list(input, offset + used, None, true);
            } else if lexeme == LexemeView::Symbol(Symbol::Comma) && expects_comma {
                lemma_identifier_list(input, offset + used, None, false);
            }
        },
    }
}

/// A variable declaration behind its `let`: a list of identifiers and, where
/// `:=` stands behind it, the value.
pub open spec fn variable_declaration(
    input: Seq<char>,
    offset: int,
    initial: Option<LexemeView>,
) -> Result<(VariableDeclarationView, nat), ErrorView>
{
    match identifier_list(input, offset, initial, false) {
        Err(error) => Err(error),
        Ok((bindings, listed)) => {
            match token(input, offset + listed) {
                Err(error) => Err(error),
                Ok((next, more)) => if next == LexemeView::Symbol(Symbol::Assignment) {
                    match expression(input, offset + listed + more, None) {
                        Ok((value, rest)) => Ok(
                            (
                                VariableDeclarationView { bindings, expression: Some(value) },
                                listed + more + rest,
                            ),
                        ),
                        Err(error) => Err(error),
                    }
                } else {
                    Ok((VariableDeclarationView { bindings, expression: None }, listed))
                },
            }
        },
    }
}

/// A function definition behind its `function`: the name, the arguments in
/// parentheses, the results behind `->` where there are any, and the body.
pub open spec fn function_definition(
    input: Seq<char>,
    offset: int,
    initial: Option<LexemeView>,
) -> Result<(FunctionDefinitionView, nat), ErrorView>
    decreases budget(input, offset, initial), 1nat,
    when 0 <= offset <= input.len()
{
    match first(input, offset, initial) {
        Err(error) => Err(error),
        Ok((lexeme, used)) => match lexeme {
            LexemeView::Identifier(name) => {
                proof {
                    lemma_token(input, offset);
                    lemma_token(input, offset + used);
                }
                match token(input, offset + used) {
                    Err(error) => Err(error),
                    Ok((open, opened)) => if open == LexemeView::Symbol(Symbol::ParenthesisLeft) {
                        match identifier_list(input, offset + used + opened, None, false) {
                            Err(error) => Err(error),
                            Ok((arguments, listed)) => {
                                proof {
                                    lemma_identifier_list(
                                        input,
                                        offset + used + opened,
                                        None,
                                        false,
                                    );
                                    lemma_token(input, offset + used + opened + listed);
                                }
                                match token(input, offset + used + opened + listed) {
                                    Err(error) => Err(error),
                                    Ok((close, closed)) => if close == LexemeView::Symbol(
                                        Symbol::ParenthesisRight,
                                    ) {
                                        function_results(
                                            input,
                                            offset + used + opened + listed + closed,
                                            name,
                                            arguments,
                                            used + opened + listed + closed,
                                        )
                                    } else {
                                        Err(unexpected(seq![")"@], close))
                                    },
                                }
                            },
                        }
                    } else {
                        Err(unexpected(seq!["("@], open))
                    },
                }
            },
            _ => Err(unexpected(seq!["{identifier}"@], lexeme)),
        },
    }
}

/// The rest of a function definition behind the `)` of its arguments, of
/// which `taken` characters were taken.
pub open spec fn function_results(
    input: Seq<char>,
    offset: int,
    name: Seq<char>,
    arguments: Seq<Seq<char>>,
    taken: nat,
) -> Result<(FunctionDefinitionView, nat), ErrorView>
    decreases budget(input, offset, None), 0nat,
    when 0 <= offset <= input.len()
{
    match token(input, offset) {
        Err(error) => Err(error),
        Ok((next, more)) => {
            proof {
                lemma_token(input, offset);
            }
            if next == LexemeView::Symbol(Symbol::Arrow) {
                match identifier_list(input, offset + more, None, false) {
                    Err(error) => Err(error),
                    Ok((result, listed)) => {
                        proof {
                            lemma_identifier_list(input, offset + more, None, false);
                        }
                        match block(input, offset + more + listed, None) {
                            Ok((body, rest)) => Ok(
                                (
                                    FunctionDefinitionView { name, arguments, result, body },
                                    taken + more + listed + rest,
                                ),
                            ),
                            Err(error) => Err(error),
                        }
                    },
                }
            } else if next == LexemeView::Symbol(Symbol::BracketCurlyLeft) {
                match block(input, offset + more, Some(next)) {
                    Ok((body, rest)) => Ok(
                        (
                            FunctionDefinitionView { name, arguments, result: Seq::empty(), body },
                            taken + more + rest,
                        ),
                    ),
                    Err(error) => Err(error),
                }
            } else {
                Err(unexpected(seq!["->"@, "{"@], next))
            }
        },
    }
}

/// A conditional behind its `if`: the condition and the block.
pub open spec fn if_conditional(input: Seq<char>, offset: int, initial: Option<LexemeView>) -> Result<
    (IfConditionalView, nat),
    ErrorView,
>
    decreases budget(input, offset, initial), 2nat,
    when 0 <= offset <= input.len()
{
    match expression(input, offset, initial) {
        Err(error) => Err(error),
        Ok((condition, used)) => match block(input, offset + used, None) {
            Ok((block, rest)) => Ok((IfConditionalView { condition, block }, used + rest)),
            Err(error) => Err(error),
        },
    }
}

/// A loop behind its `for`: three blocks with the condition behind the
/// first.
pub open spec fn for_loop(input: Seq<char>, offset: int, initial: Option<LexemeView>) -> Result<
    (ForLoopView, nat),
    ErrorView,
>
    decreases budget(input, offset, initial), 2nat,
    when 0 <= offset <= input.len()
{
    match block(input, offset, initial) {
        Err(error) => Err(error),
        Ok((initializer, used)) => match expression(input, offset + used, None) {
            Err(error) => Err(error),
            Ok((condition, more)) => match block(input, offset + used + more, None) {
                Err(error) => Err(error),
                Ok((finalizer, further)) => match block(
                    input,
                    offset + used + more + further,
                    None,
                ) {
                    Ok((body, rest)) => Ok(
                        (
                            ForLoopView { initializer, condition, finalizer, body },
                            used + more + further + rest,
                        ),
                    ),
                    Err(error) => Err(error),
                },
            },
        },
    }
}

/// A case behind its `case`: a literal and a block.
pub open spec fn case(input: Seq<char>, offset: int, initial: Option<LexemeView>) -> Result<
    (CaseView, nat),
    ErrorView,
>
    decreases budget(input, offset, initial), 2nat,
    when 0 <= offset <= input.len()
{
    match first(input, offset, initial) {
        Err(error) => Err(error),
        Ok((lexeme, used)) => match lexeme {
            LexemeView::Literal(literal) => {
                proof {
                    lemma_token(input, offset);
                }
                match block(input, offset + used, None) {
                    Ok((block, rest)) => Ok((CaseView { literal, block }, used + rest)),
                    Err(error) => Err(error),
                }
            },
            _ => Err(unexpected(seq!["{literal}"@], lexeme)),
        },
    }
}

/// The cases and the default of a switch: cases for as long as `case`
/// comes, then the default where `default` comes.
pub open spec fn cases(input: Seq<char>, offset: int) -> Result<
    (Seq<CaseView>, Option<BlockView>, nat),
    ErrorView,
>
    decreases budget(input, offset, None), 3nat,
    when 0 <= offset <= input.len()
{
    match token(input, offset) {
        Err(error) => Err(error),
        Ok((lexeme, used)) => {
            proof {
                lemma_token(input, offset);
            }
            if lexeme == LexemeView::Keyword(Keyword::Case) {
                match case(input, offset + used, None) {
                    Err(error) => Err(error),
                    Ok((case, more)) => match cases(input, offset + used + more) {
                        Ok((rest, default, last)) => Ok(
                            (seq![case] + rest, default, used + more + last),
                        ),
                        Err(error) => Err(error),
                    },
                }
            } else if lexeme == LexemeView::Keyword(Keyword::Default) {
                match block(input, offset + used, None) {
                    Ok((block, rest)) => Ok((Seq::empty(), Some(block), used + rest)),
                    Err(error) => Err(error),
                }
            } else {
                Ok((Seq::empty(), None, 0nat))
            }
        },
    }
}

/// A switch behind its `switch`: the value, the cases and the default. One
/// with neither a case nor a default is an error.
pub open spec fn switch(input: Seq<char>, offset: int, initial: Option<LexemeView>) -> Result<
    (SwitchView, nat),
    ErrorView,
>
    decreases budget(input, offset, initial), 4nat,
    when 0 <= offset <= input.len()
{
    match first(input, offset, initial) {
        Err(error) => Err(error),
        Ok((lexeme, used)) => {
            proof {
                lemma_token(input, offset);
            }
            match expression(input, offset + used, Some(lexeme)) {
                Err(error) => Err(error),
                Ok((expression, more)) => match cases(input, offset + used + more) {
                    Err(error) => Err(error),
                    Ok((cases, default, rest)) => if cases.len() == 0 && default is None {
                        Err(unexpected(seq!["case"@, "default"@], lexeme))
                    } else {
                        Ok((SwitchView { expression, cases, default }, used + more + rest))
                    },
                },
            }
        },
    }
}

/// A switch that the grammar yields has a case or a default.
pub proof fn lemma_switch_has_branch(input: Seq<char>, offset: int, initial: Option<LexemeView>)
    requires
        0 <= offset <= input.len(),
    ensures
        switch(input, offset, initial) matches Ok((switch, _)) ==> switch.cases.len() > 0
            || switch.default is Some,
{
}

/// The code of an object: `code` and a block.
pub open spec fn code(input: Seq<char>, offset: int, initial: Option<LexemeView>) -> Result<
    (CodeView, nat),
    ErrorView,
> {
    match first(input, offset, initial) {
        Err(error) => Err(error),
        Ok((lexeme, used)) => if lexeme == LexemeView::Keyword(Keyword::Code) {
            match block(input, offset + used, None) {
                Ok((block, rest)) => Ok((CodeView { block }, used + rest)),
                Err(error) => Err(error),
            }
        } else {
            Err(unexpected(seq!["code"@], lexeme))
        },
    }
}

/// What stands in an object behind its code.
pub ghost struct Members {
    /// The first nested object.
    pub nested_object: Option<Box<ObjectView>>,
    /// The names of the further nested objects.
    pub dependencies: Seq<Seq<char>>,
}

/// With one more nested object in front.
pub open spec fn with_object(object: ObjectView, members: Members) -> Members {
    Members {
        nested_object: Some(Box::new(object)),
        dependencies: match members.nested_object {
            Some(second) => seq![second.name] + members.dependencies,
            None => members.dependencies,
        },
    }
}

/// An object: `object`, its name in quotes, `{`, its code, its members, `}`.
pub open spec fn object(input: Seq<char>, offset: int, initial: Option<LexemeView>) -> Result<
    (ObjectView, nat),
    ErrorView,
>
    decreases budget(input, offset, initial), 1nat,
    when 0 <= offset <= input.len()
{
    match first(input, offset, initial) {
        Err(error) => Err(error),
        Ok((lexeme, used)) => if lexeme == LexemeView::Keyword(Keyword::Object) {
            proof {
                lemma_token(input, offset);
                lemma_token(input, offset + used);
            }
            match token(input, offset + used) {
                Err(error) => Err(error),
                Ok((name, named)) => if name is Literal && name->Literal_0.kind
                    == LiteralKind::String {
                    proof {
                        lemma_token(input, offset + used + named);
                    }
                    match token(input, offset + used + named) {
                        Err(error) => Err(error),
                        Ok((open, opened)) => if open == LexemeView::Symbol(
                            Symbol::BracketCurlyLeft,
                        ) {
                            match code(input, offset + used + named + opened, None) {
                                Err(error) => Err(error),
                                Ok((code, coded)) => match members(
                                    input,
                                    offset + used + named + opened + coded,
                                ) {
                                    Err(error) => Err(error),
                                    Ok((members, rest)) => Ok(
                                        (
                                            ObjectView {
                                                name: name->Literal_0.text,
                                                code,
                                                nested_object: members.nested_object,
                                                dependencies: members.dependencies,
                                            },
                                            used + named + opened + coded + rest,
                                        ),
                                    ),
                                },
                            }
                        } else {
                            Err(unexpected(seq!["{"@], open))
                        },
                    }
                } else {
                    Err(unexpected(seq!["{string}"@], name))
                },
            }
        } else {
            Err(unexpected(seq!["object"@], lexeme))
        },
    }
}

/// The members of an object, up to its `}`: nested objects, and data, each
/// `data` with a name in quotes and a value, which is a literal or `hex`
/// and a literal. What the data holds is left out.
pub open spec fn members(input: Seq<char>, offset: int) -> Result<(Members, nat), ErrorView>
    decreases budget(input, offset, None), 0nat,
    when 0 <= offset <= input.len()
{
    match token(input, offset) {
        Err(error) => Err(error),
        Ok((lexeme, used)) => {
            proof {
                lemma_token(input, offset);
            }
            if lexeme == LexemeView::Symbol(Symbol::BracketCurlyRight) {
                Ok((Members { nested_object: None, dependencies: Seq::empty() }, used))
            } else if lexeme == LexemeView::Keyword(Keyword::Object) {
                match object(input, offset + used, Some(lexeme)) {
                    Err(error) => Err(error),
                    Ok((nested, more)) => match members(input, offset + used + more) {
                        Ok((rest, last)) => Ok((with_object(nested, rest), used + more + last)),
                        Err(error) => Err(error),
                    },
                }
            } else if lexeme == LexemeView::Keyword(Keyword::Data) {
                match data(input, offset + used) {
                    Err(error) => Err(error),
                    Ok(more) => match members(input, offset + used + more) {
                        Ok((rest, last)) => Ok((rest, used + more + last)),
                        Err(error) => Err(error),
                    },
                }
            } else {
                Err(unexpected(seq!["object"@, "data"@, "}"@], lexeme))
            }
        },
    }
}

/// The name and the value of a data member, behind its `data`: the number
/// of characters that they take.
pub open spec fn data(input: Seq<char>, offset: int) -> Result<nat, ErrorView> {
    match token(input, offset) {
        Err(error) => Err(error),
        Ok((name, named)) => if name is Literal && name->Literal_0.kind == LiteralKind::String {
            match token(input, offset + named) {
                Err(error) => Err(error),
                Ok((value, valued)) => if value is Literal {
                    Ok(named + valued)
                } else if value == LexemeView::Keyword(Keyword::Hex) {
                    match token(input, offset + named + valued) {
                        Err(error) => Err(error),
                        Ok((digits, last)) => if digits is Literal {
                            Ok(named + valued + last)
                        } else {
                            Err(unexpected(seq!["{literal}"@], digits))
                        },
                    }
                } else {
                    Err(unexpected(seq!["{literal}"@, "hex"@], value))
                },
            }
        } else {
            Err(unexpected(seq!["{string}"@], name))
        },
    }
}

} // verus!
