//! What the emission of each node of the syntax tree asks of the sink.
//!
//! Each rule takes the record as it stands and gives the record as it is
//! behind the node, or the error that the emission ends with. A rule for a
//! node that can have a value gives the number of that value too.

use vstd::prelude::*;

use crate::generator::context::append;
use crate::generator::context::bind;
use crate::generator::context::declare;
use crate::generator::context::enter;
use crate::generator::context::find;
use crate::generator::context::lookup;
use crate::generator::context::next;
use crate::generator::context::position;
use crate::generator::context::record;
use crate::generator::context::terminated;
use crate::generator::context::ContextView;
use crate::generator::operation::Binary;
use crate::generator::operation::LabelView;
use crate::generator::operation::OperationView;
use crate::generator::operation::Predicate;
use crate::generator::operation::Type;
use crate::generator::operation::BITLENGTH_FIELD;
use crate::generator::operation::BITLENGTH_X32;
use crate::yul::error::ErrorView;
use crate::yul::parser::ast::AssignmentView;
use crate::yul::parser::ast::BlockView;
use crate::yul::parser::ast::CaseView;
use crate::yul::parser::ast::ExpressionView;
use crate::yul::parser::ast::ForLoopView;
use crate::yul::parser::ast::FunctionCallView;
use crate::yul::parser::ast::FunctionDefinitionView;
use crate::yul::parser::ast::IfConditionalView;
use crate::yul::parser::ast::NameView;
use crate::yul::parser::ast::StatementView;
use crate::yul::parser::ast::SwitchView;
use crate::yul::parser::ast::VariableDeclarationView;

verus! {

/// The type of a machine word.
pub open spec fn field() -> Type {
    Type::Integer(BITLENGTH_FIELD)
}

/// The integer operation of a built-in function, if it is one.
pub open spec fn binary_of(name: NameView) -> Option<Binary> {
    match name {
        NameView::Add => Some(Binary::Add),
        NameView::Sub => Some(Binary::Sub),
        NameView::Mul => Some(Binary::Mul),
        NameView::Div => Some(Binary::UnsignedDiv),
        NameView::Mod => Some(Binary::UnsignedRem),
        NameView::Sdiv => Some(Binary::SignedDiv),
        NameView::Smod => Some(Binary::SignedRem),
        NameView::And => Some(Binary::And),
        NameView::Or => Some(Binary::Or),
        NameView::Xor => Some(Binary::Xor),
        NameView::Shl => Some(Binary::ShiftLeft),
        NameView::Shr => Some(Binary::LogicalShiftRight),
        NameView::Sar => Some(Binary::ArithmeticShiftRight),
        _ => None,
    }
}

/// The comparison of a built-in function, if it is one.
pub open spec fn predicate_of(name: NameView) -> Option<Predicate> {
    match name {
        NameView::Lt => Some(Predicate::UnsignedLess),
        NameView::Gt => Some(Predicate::UnsignedGreater),
        NameView::Eq => Some(Predicate::Equal),
        NameView::Slt => Some(Predicate::SignedLess),
        NameView::Sgt => Some(Predicate::SignedGreater),
        _ => None,
    }
}

/// A branch to the block, unless the emission has reached a terminator
/// where it stands.
pub open spec fn branch(context: ContextView, block: usize) -> ContextView {
    if terminated(context) {
        context
    } else {
        record(context, OperationView::Branch { block })
    }
}

/// The current function and the current block made what they were.
pub open spec fn restore(context: ContextView, function: Option<usize>, block: Option<usize>) -> ContextView {
    let entered = match function {
        Some(function) => enter(context, function),
        None => context,
    };
    match block {
        Some(block) => position(entered, block),
        None => entered,
    }
}

/// A built-in function of two operands: the operation; for a comparison,
/// the comparison and the cast of its bit to a machine word.
pub open spec fn lower(context: ContextView, name: NameView, left: usize, right: usize) -> (
    ContextView,
    usize,
) {
    match binary_of(name) {
        Some(operator) => (
            record(context, OperationView::Binary { operator, left, right }),
            next(context),
        ),
        None => {
            let predicate = match predicate_of(name) {
                Some(predicate) => predicate,
                None => Predicate::Equal,
            };
            let compared = record(context, OperationView::Compare { predicate, left, right });
            (
                record(compared, OperationView::Cast { value: next(context), kind: field() }),
                next(compared),
            )
        },
    }
}

/// The test for zero: the operand is compared with zero for equality, and
/// the bit is cast to a machine word, which is 1 where the operand is zero
/// and 0 else.
pub open spec fn lower_is_zero(context: ContextView, operand: usize) -> (ContextView, usize) {
    let zero = record(context, OperationView::Integer { kind: field(), number: 0 });
    let compared = record(
        zero,
        OperationView::Compare { predicate: Predicate::Equal, left: operand, right: next(context) },
    );
    (record(compared, OperationView::Cast { value: next(zero), kind: field() }), next(compared))
}

/// An expression: a literal gives its constant, an identifier what its
/// variable holds, a call what the function gives.
pub open spec fn emit_expression(context: ContextView, expression: ExpressionView) -> Result<
    (ContextView, Option<usize>),
    ErrorView,
>
    decreases expression, 0nat,
{
    match expression {
        ExpressionView::Literal(literal) => Ok(
            (record(context, OperationView::Constant { literal }), Some(next(context))),
        ),
        ExpressionView::Identifier(name) => match lookup(context.variables, name) {
            Some(pointer) => Ok(
                (
                    record(
                        context,
                        OperationView::Load { pointer, label: LabelView::Source(name) },
                    ),
                    Some(next(context)),
                ),
            ),
            None => Err(ErrorView::UnknownName { name }),
        },
        ExpressionView::FunctionCall(call) => emit_call(context, call),
    }
}

/// The operand of a built-in function at the index: it must be there and
/// give a value.
pub open spec fn emit_operand(
    context: ContextView,
    arguments: Seq<ExpressionView>,
    index: int,
) -> Result<(ContextView, usize), ErrorView>
    decreases arguments, 0nat,
{
    if 0 <= index < arguments.len() {
        match emit_expression(context, arguments[index]) {
            Err(error) => Err(error),
            Ok((after, None)) => Err(ErrorView::MissingValue),
            Ok((after, Some(value))) => Ok((after, value)),
        }
    } else {
        Err(ErrorView::MissingValue)
    }
}

/// The arguments of a call of a function of the source, from the index on:
/// each in turn; those that give no value are left out.
pub open spec fn emit_arguments(
    context: ContextView,
    arguments: Seq<ExpressionView>,
    from: int,
) -> Result<(ContextView, Seq<usize>), ErrorView>
    decreases arguments, arguments.len() - from,
{
    if 0 <= from < arguments.len() {
        match emit_expression(context, arguments[from]) {
            Err(error) => Err(error),
            Ok((after, value)) => match emit_arguments(after, arguments, from + 1) {
                Err(error) => Err(error),
                Ok((last, rest)) => Ok(
                    (
                        last,
                        match value {
                            Some(value) => seq![value] + rest,
                            None => rest,
                        },
                    ),
                ),
            },
        }
    } else {
        Ok((context, Seq::empty()))
    }
}

/// A function call. A built-in function takes its first two arguments, the
/// test for zero its first; further arguments are left out. A function of
/// the source takes all, and must be declared.
pub open spec fn emit_call(context: ContextView, call: FunctionCallView) -> Result<
    (ContextView, Option<usize>),
    ErrorView,
>
    decreases call, 1nat,
{
    match call.name {
        NameView::UserDefined(name) => match emit_arguments(context, call.arguments, 0) {
            Err(error) => Err(error),
            Ok((after, values)) => match find(after.functions, name) {
                None => Err(ErrorView::UnknownName { name }),
                Some(function) => {
                    let has_result = after.functions[function as int].results > 0;
                    Ok(
                        (
                            record(
                                after,
                                OperationView::Call { name, arguments: values, has_result },
                            ),
                            if has_result {
                                Some(next(after))
                            } else {
                                None
                            },
                        ),
                    )
                },
            },
        },
        NameView::IsZero => match emit_operand(context, call.arguments, 0) {
            Err(error) => Err(error),
            Ok((after, operand)) => {
                let (last, value) = lower_is_zero(after, operand);
                Ok((last, Some(value)))
            },
        },
        name => match emit_operand(context, call.arguments, 0) {
            Err(error) => Err(error),
            Ok((first, left)) => match emit_operand(first, call.arguments, 1) {
                Err(error) => Err(error),
                Ok((second, right)) => {
                    let (last, value) = lower(second, name, left, right);
                    Ok((last, Some(value)))
                },
            },
        },
    }
}

/// The parts of an aggregate are read into the variables of the names, from
/// the index on: for each, the address of the part, what it holds, and the
/// store to the variable.
pub open spec fn unpack(
    context: ContextView,
    bindings: Seq<Seq<char>>,
    from: int,
    pointer: usize,
) -> Result<ContextView, ErrorView>
    decreases bindings.len() - from,
{
    if 0 <= from < bindings.len() {
        let zero = record(context, OperationView::Integer { kind: field(), number: 0 });
        let index = record(
            zero,
            OperationView::Integer { kind: Type::Integer(BITLENGTH_X32), number: from as u64 },
        );
        let part = record(
            index,
            OperationView::ElementPointer {
                pointer,
                indices: seq![next(context), next(zero)],
                label: LabelView::AssignmentBindingPointer(from as usize),
            },
        );
        let loaded = record(
            part,
            OperationView::Load {
                pointer: next(index),
                label: LabelView::AssignmentBindingValue(from as usize),
            },
        );
        match lookup(loaded.variables, bindings[from]) {
            None => Err(ErrorView::UnknownName { name: bindings[from] }),
            Some(variable) => unpack(
                record(loaded, OperationView::Store { pointer: variable, value: next(part) }),
                bindings,
                from + 1,
                pointer,
            ),
        }
    } else {
        Ok(context)
    }
}

/// A value is written to the variables of the names: to the one variable;
/// or, through an aggregate, to the several.
pub open spec fn assign(context: ContextView, bindings: Seq<Seq<char>>, value: usize) -> Result<
    ContextView,
    ErrorView,
> {
    if bindings.len() == 1 {
        match lookup(context.variables, bindings[0]) {
            Some(pointer) => Ok(record(context, OperationView::Store { pointer, value })),
            None => Err(ErrorView::UnknownName { name: bindings[0] }),
        }
    } else {
        let reserved = record(
            context,
            OperationView::Alloca {
                kind: Type::Structure(bindings.len() as usize),
                label: LabelView::AssignmentPointer,
            },
        );
        unpack(
            record(reserved, OperationView::Store { pointer: next(context), value }),
            bindings,
            0,
            next(context),
        )
    }
}

/// An assignment: the value, then the write. Where the value is a call that
/// gives nothing, nothing is written.
pub open spec fn emit_assignment(context: ContextView, assignment: AssignmentView) -> Result<
    ContextView,
    ErrorView,
>
    decreases assignment, 0nat,
{
    match emit_expression(context, assignment.initializer) {
        Err(error) => Err(error),
        Ok((after, None)) => Ok(after),
        Ok((after, Some(value))) => assign(after, assignment.bindings, value),
    }
}

/// A slot is reserved for each of the names, from the index on, and the
/// name is brought in reach.
pub open spec fn reserve(context: ContextView, names: Seq<Seq<char>>, from: int) -> ContextView
    decreases names.len() - from,
{
    if 0 <= from < names.len() {
        reserve(
            bind(
                record(
                    context,
                    OperationView::Alloca { kind: field(), label: LabelView::Source(names[from]) },
                ),
                names[from],
                next(context),
            ),
            names,
            from + 1,
        )
    } else {
        context
    }
}

/// A variable declaration: the value, where there is one; then the slots;
/// then the write, where there is a value.
pub open spec fn emit_declaration(
    context: ContextView,
    declaration: VariableDeclarationView,
) -> Result<ContextView, ErrorView>
    decreases declaration, 0nat,
{
    match declaration.expression {
        None => Ok(reserve(context, declaration.bindings, 0)),
        Some(expression) => match emit_expression(context, expression) {
            Err(error) => Err(error),
            Ok((after, None)) => Ok(reserve(after, declaration.bindings, 0)),
            Ok((after, Some(value))) => assign(
                reserve(after, declaration.bindings, 0),
                declaration.bindings,
                value,
            ),
        },
    }
}

/// The test of a condition: whether the value differs from zero.
pub open spec fn nonzero(context: ContextView, value: usize) -> (ContextView, usize) {
    let zero = record(context, OperationView::Integer { kind: field(), number: 0 });
    (
        record(
            zero,
            OperationView::Compare {
                predicate: Predicate::NotEqual,
                left: value,
                right: next(context),
            },
        ),
        next(zero),
    )
}

/// A conditional: the condition; a block for the body and one behind it;
/// the branch on the test; the body, which leads behind it.
pub open spec fn emit_if(context: ContextView, conditional: IfConditionalView) -> Result<
    ContextView,
    ErrorView,
>
    decreases conditional, 0nat,
{
    match emit_expression(context, conditional.condition) {
        Err(error) => Err(error),
        Ok((after, None)) => Err(ErrorView::MissingValue),
        Ok((after, Some(value))) => {
            let main = after.blocks.len() as usize;
            let join = (after.blocks.len() + 1) as usize;
            let (tested, condition) = nonzero(
                append(append(after, LabelView::IfMain), LabelView::IfJoin),
                value,
            );
            let branched = record(
                tested,
                OperationView::ConditionalBranch { condition, then: main, otherwise: join },
            );
            match emit_block(position(branched, main), conditional.block) {
                Err(error) => Err(error),
                Ok(body) => Ok(position(branch(body, join), join)),
            }
        },
    }
}

/// A loop: what is run before it; blocks for the condition, the round, what
/// is run behind each round, and what follows; the condition, which leads
/// into the round or behind the loop; the round, in which `continue` leads
/// to what is run behind it and `break` behind the loop.
pub open spec fn emit_for(context: ContextView, for_loop: ForLoopView) -> Result<
    ContextView,
    ErrorView,
>
    decreases for_loop, 0nat,
{
    match emit_block(context, for_loop.initializer) {
        Err(error) => Err(error),
        Ok(started) => {
            let condition_block = started.blocks.len() as usize;
            let body_block = (started.blocks.len() + 1) as usize;
            let increment_block = (started.blocks.len() + 2) as usize;
            let join_block = (started.blocks.len() + 3) as usize;
            let appended = append(
                append(
                    append(append(started, LabelView::ForCondition), LabelView::ForBody),
                    LabelView::ForIncrement,
                ),
                LabelView::ForJoin,
            );
            match emit_expression(
                position(branch(appended, condition_block), condition_block),
                for_loop.condition,
            ) {
                Err(error) => Err(error),
                Ok((after, None)) => Err(ErrorView::MissingValue),
                Ok((after, Some(value))) => {
                    let (tested, condition) = nonzero(after, value);
                    let branched = record(
                        tested,
                        OperationView::ConditionalBranch {
                            condition,
                            then: body_block,
                            otherwise: join_block,
                        },
                    );
                    let inside = ContextView {
                        loops: branched.loops.push(
                            crate::generator::context::Loop {
                                continue_block: increment_block,
                                join_block,
                            },
                        ),
                        ..position(branched, body_block)
                    };
                    match emit_block(inside, for_loop.body) {
                        Err(error) => Err(error),
                        Ok(round) => match emit_block(
                            position(branch(round, increment_block), increment_block),
                            for_loop.finalizer,
                        ) {
                            Err(error) => Err(error),
                            Ok(finished) => Ok(
                                ContextView {
                                    loops: if finished.loops.len() > 0 {
                                        finished.loops.drop_last()
                                    } else {
                                        finished.loops
                                    },
                                    ..position(branch(finished, condition_block), join_block)
                                },
                            ),
                        },
                    }
                },
            }
        },
    }
}

/// The cases of a switch, from the index on: for each, its constant, a
/// block, and its body, which leads behind the switch. Gives the constant
/// and the block of each.
pub open spec fn emit_cases(
    context: ContextView,
    cases: Seq<CaseView>,
    from: int,
    join: usize,
) -> Result<(ContextView, Seq<(usize, usize)>), ErrorView>
    decreases cases, cases.len() - from,
{
    if 0 <= from < cases.len() {
        let constant = record(context, OperationView::Constant { literal: cases[from].literal });
        let block = constant.blocks.len() as usize;
        let appended = append(constant, LabelView::SwitchCase((from + 1) as usize));
        match emit_block(position(appended, block), cases[from].block) {
            Err(error) => Err(error),
            Ok(body) => match emit_cases(branch(body, join), cases, from + 1, join) {
                Err(error) => Err(error),
                Ok((last, rest)) => Ok((last, seq![(next(context), block)] + rest)),
            },
        }
    } else {
        Ok((context, Seq::empty()))
    }
}

/// A switch. Without cases it is its default. With cases: a block behind
/// the switch; the cases; the default, in a block of its own, which leads
/// behind the switch; then, in the block that the switch stands in, the
/// value and the jump by it, which leads behind the switch where there is
/// no default.
pub open spec fn emit_switch(context: ContextView, switch: SwitchView) -> Result<
    ContextView,
    ErrorView,
>
    decreases switch, 0nat,
{
    if switch.cases.len() == 0 {
        match switch.default {
            Some(block) => emit_block(context, block),
            None => Ok(context),
        }
    } else {
        let join = context.blocks.len() as usize;
        match emit_cases(append(context, LabelView::SwitchJoin), switch.cases, 0, join) {
            Err(error) => Err(error),
            Ok((cased, branches)) => {
                let defaulted = match switch.default {
                    Some(block) => {
                        let default_block = cased.blocks.len() as usize;
                        match emit_block(
                            position(append(cased, LabelView::SwitchDefault), default_block),
                            block,
                        ) {
                            Err(error) => Err(error),
                            Ok(body) => Ok((branch(body, join), default_block)),
                        }
                    },
                    None => Ok((cased, join)),
                };
                match defaulted {
                    Err(error) => Err(error),
                    Ok((ready, default)) => match emit_expression(
                        restore(ready, None, context.block),
                        switch.expression,
                    ) {
                        Err(error) => Err(error),
                        Ok((after, None)) => Err(ErrorView::MissingValue),
                        Ok((after, Some(scrutinee))) => Ok(
                            position(
                                record(
                                    after,
                                    OperationView::Switch { scrutinee, default, cases: branches },
                                ),
                                join,
                            ),
                        ),
                    },
                }
            },
        }
    }
}

/// A statement. A function definition asks nothing where it stands: the
/// block that it stands in has emitted it.
pub open spec fn emit_statement(context: ContextView, statement: StatementView) -> Result<
    ContextView,
    ErrorView,
>
    decreases statement, 1nat,
{
    match statement {
        StatementView::Block(block) => emit_block(context, block),
        StatementView::FunctionDefinition(_) => Ok(context),
        StatementView::VariableDeclaration(declaration) => emit_declaration(context, declaration),
        StatementView::Assignment(assignment) => emit_assignment(context, assignment),
        StatementView::IfConditional(conditional) => emit_if(context, conditional),
        StatementView::Switch(switch) => emit_switch(context, switch),
        StatementView::ForLoop(for_loop) => emit_for(context, for_loop),
        StatementView::Expression(expression) => match emit_expression(context, expression) {
            Ok((after, _)) => Ok(after),
            Err(error) => Err(error),
        },
        StatementView::Continue => if context.loops.len() > 0 {
            Ok(record(context, OperationView::Branch { block: context.loops.last().continue_block }))
        } else {
            Err(ErrorView::OutsideLoop)
        },
        StatementView::Break => if context.loops.len() > 0 {
            Ok(record(context, OperationView::Branch { block: context.loops.last().join_block }))
        } else {
            Err(ErrorView::OutsideLoop)
        },
        StatementView::Leave => match context.function {
            Some(function) => if function < context.functions.len() {
                Ok(
                    record(
                        context,
                        OperationView::Branch {
                            block: context.functions[function as int].return_block,
                        },
                    ),
                )
            } else {
                Err(ErrorView::OutsideFunction)
            },
            None => Err(ErrorView::OutsideFunction),
        },
    }
}

/// The statements of a block from the index on, in order, up to the first
/// behind which the emission has reached a terminator: what follows that
/// one cannot be reached, and is left out.
pub open spec fn emit_local(context: ContextView, statements: Seq<StatementView>, from: int) -> Result<
    ContextView,
    ErrorView,
>
    decreases statements, statements.len() - from,
{
    if 0 <= from < statements.len() && !terminated(context) {
        match emit_statement(context, statements[from]) {
            Err(error) => Err(error),
            Ok(after) => emit_local(after, statements, from + 1),
        }
    } else {
        Ok(context)
    }
}

/// The functions that the statements define are declared, from the index
/// on.
pub open spec fn declare_functions(
    context: ContextView,
    statements: Seq<StatementView>,
    from: int,
) -> ContextView
    decreases statements.len() - from,
{
    if 0 <= from < statements.len() {
        declare_functions(
            match statements[from] {
                StatementView::FunctionDefinition(definition) => declare(
                    context,
                    definition.name,
                    definition.arguments.len() as usize,
                    definition.result.len() as usize,
                    false,
                    None,
                ),
                _ => context,
            },
            statements,
            from + 1,
        )
    } else {
        context
    }
}

/// The arguments of a function, from the index on: each is stored to a slot
/// of its name.
pub open spec fn bind_arguments(context: ContextView, names: Seq<Seq<char>>, from: int) -> ContextView
    decreases names.len() - from,
{
    if 0 <= from < names.len() {
        let argument = record(context, OperationView::Argument { index: from as usize });
        let reserved = record(
            argument,
            OperationView::Alloca { kind: field(), label: LabelView::Source(names[from]) },
        );
        bind_arguments(
            bind(
                record(
                    reserved,
                    OperationView::Store { pointer: next(argument), value: next(context) },
                ),
                names[from],
                next(argument),
            ),
            names,
            from + 1,
        )
    } else {
        context
    }
}

/// What the variables of the names hold, from the index on.
pub open spec fn load_results(context: ContextView, names: Seq<Seq<char>>, from: int) -> Result<
    (ContextView, Seq<usize>),
    ErrorView,
>
    decreases names.len() - from,
{
    if 0 <= from < names.len() {
        match lookup(context.variables, names[from]) {
            None => Err(ErrorView::UnknownName { name: names[from] }),
            Some(pointer) => match load_results(
                record(context, OperationView::Load { pointer, label: LabelView::Result }),
                names,
                from + 1,
            ) {
                Err(error) => Err(error),
                Ok((last, rest)) => Ok((last, seq![next(context)] + rest)),
            },
        }
    } else {
        Ok((context, Seq::empty()))
    }
}

/// A function definition, which was declared: in the entry block of the
/// function, the slots of the arguments and of the results; the body, which
/// leads to the return block; there, the results are read and handed back.
/// The variables and the loops of the surroundings are out of reach in the
/// function, and in reach again behind it.
pub open spec fn emit_function(context: ContextView, definition: FunctionDefinitionView) -> Result<
    ContextView,
    ErrorView,
>
    decreases definition, 0nat,
{
    match find(context.functions, definition.name) {
        None => Err(ErrorView::UnknownName { name: definition.name }),
        Some(function) => {
            let declaration = context.functions[function as int];
            let inside = ContextView {
                variables: Seq::empty(),
                loops: Seq::empty(),
                ..position(enter(context, function), declaration.entry_block)
            };
            let ready = reserve(
                bind_arguments(inside, definition.arguments, 0),
                definition.result,
                0,
            );
            match emit_block(ready, definition.body) {
                Err(error) => Err(error),
                Ok(body) => match load_results(
                    position(branch(body, declaration.return_block), declaration.return_block),
                    definition.result,
                    0,
                ) {
                    Err(error) => Err(error),
                    Ok((loaded, values)) => Ok(
                        ContextView {
                            variables: context.variables,
                            loops: context.loops,
                            ..record(loaded, OperationView::Return { values })
                        },
                    ),
                },
            }
        },
    }
}

/// The functions that the statements define are emitted, from the index
/// on.
pub open spec fn emit_functions(
    context: ContextView,
    statements: Seq<StatementView>,
    from: int,
) -> Result<ContextView, ErrorView>
    decreases statements, statements.len() - from,
{
    if 0 <= from < statements.len() {
        match statements[from] {
            StatementView::FunctionDefinition(definition) => match emit_function(
                context,
                definition,
            ) {
                Err(error) => Err(error),
                Ok(after) => emit_functions(after, statements, from + 1),
            },
            _ => emit_functions(context, statements, from + 1),
        }
    } else {
        Ok(context)
    }
}

/// A block: the functions that it defines are declared, all before any is
/// emitted, so that each can call the others; then they are emitted; then,
/// in the function and the block that the emission stood in, the other
/// statements.
pub open spec fn emit_block(context: ContextView, block: BlockView) -> Result<
    ContextView,
    ErrorView,
>
    decreases block, 0nat,
{
    match emit_functions(
        declare_functions(context, block.statements, 0),
        block.statements,
        0,
    ) {
        Err(error) => Err(error),
        Ok(defined) => emit_local(
            restore(defined, context.function, context.block),
            block.statements,
            0,
        ),
    }
}

/// The blocks among the statements, from the index on: each becomes a
/// function of the given name, which hands back what its result slot
/// holds.
pub open spec fn emit_object_blocks(
    context: ContextView,
    statements: Seq<StatementView>,
    from: int,
    object: Seq<char>,
) -> Result<ContextView, ErrorView>
    decreases statements.len() - from,
{
    if 0 <= from < statements.len() {
        match statements[from] {
            StatementView::Block(block) => {
                let function = context.functions.len() as usize;
                let entry_block = context.blocks.len() as usize;
                let return_block = (context.blocks.len() + 1) as usize;
                let entered = position(
                    enter(declare(context, object, 0, 1, false, None), function),
                    entry_block,
                );
                let reserved = record(
                    entered,
                    OperationView::Alloca { kind: field(), label: LabelView::Result },
                );
                match emit_local(reserved, block.statements, 0) {
                    Err(error) => Err(error),
                    Ok(body) => {
                        let returning = position(body, return_block);
                        let loaded = record(
                            returning,
                            OperationView::Load {
                                pointer: next(entered),
                                label: LabelView::Anonymous,
                            },
                        );
                        emit_object_blocks(
                            record(loaded, OperationView::Return { values: seq![next(returning)] }),
                            statements,
                            from + 1,
                            object,
                        )
                    },
                }
            },
            _ => emit_object_blocks(context, statements, from + 1, object),
        }
    } else {
        Ok(context)
    }
}

/// The block of an object: the functions that it defines are declared and
/// emitted; then each block in it becomes a function of the name of the
/// object. Its other statements ask nothing.
pub open spec fn emit_object(context: ContextView, block: BlockView, object: Seq<char>) -> Result<
    ContextView,
    ErrorView,
> {
    match emit_functions(
        declare_functions(context, block.statements, 0),
        block.statements,
        0,
    ) {
        Err(error) => Err(error),
        Ok(defined) => emit_object_blocks(defined, block.statements, 0, object),
    }
}

/// An object: the block of its code, as the block of an object of its
/// name; then the object nested in it.
pub open spec fn emit_object_tree(
    context: ContextView,
    object: crate::yul::parser::ast::ObjectView,
) -> Result<ContextView, ErrorView>
    decreases object,
{
    match emit_object(context, object.code.block, object.name) {
        Err(error) => Err(error),
        Ok(after) => match object.nested_object {
            Some(nested) => emit_object_tree(after, *nested),
            None => Ok(after),
        },
    }
}

} // verus!
