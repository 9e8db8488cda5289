//! The emission of expressions.

use vstd::prelude::*;

use crate::generator::context::Context;
use crate::generator::context::ContextView;
use crate::generator::operation::Binary;
use crate::generator::operation::Label;
use crate::generator::operation::Operation;
use crate::generator::operation::Predicate;
use crate::generator::operation::Type;
use crate::generator::operation::BITLENGTH_FIELD;
use crate::yul::emit::model::binary_of;
use crate::yul::emit::model::emit_arguments;
use crate::yul::emit::model::emit_call;
use crate::yul::emit::model::emit_expression;
use crate::yul::emit::model::emit_operand;
use crate::yul::emit::model::lower;
use crate::yul::emit::model::lower_is_zero;
use crate::yul::emit::model::predicate_of;
use crate::yul::error::Error;
use crate::yul::error::ErrorView;
use crate::yul::parser::ast::lemma_call_view;
use crate::yul::parser::ast::Expression;
use crate::yul::parser::ast::ExpressionView;
use crate::yul::parser::ast::FunctionCall;
use crate::yul::parser::ast::Name;

verus! {

/// An emission has done what its rule says where it leaves the record that
/// the rule gives; or fails with the error that the rule gives.
pub open spec fn emitted(
    after: ContextView,
    expected: Result<ContextView, ErrorView>,
    result: Result<(), Error>,
) -> bool {
    match expected {
        Ok(context) => result is Ok && after == context,
        Err(error) => result is Err && result->Err_0@ == error,
    }
}

/// The same for an emission that can give a value.
pub open spec fn valued(
    after: ContextView,
    expected: Result<(ContextView, Option<usize>), ErrorView>,
    result: Result<Option<usize>, Error>,
) -> bool {
    match expected {
        Ok((context, value)) => result == Ok::<Option<usize>, Error>(value) && after == context,
        Err(error) => result is Err && result->Err_0@ == error,
    }
}

/// The values of the expressions.
pub open spec fn expression_views(expressions: Seq<Expression>) -> Seq<ExpressionView> {
    expressions.map_values(|expression: Expression| expression@)
}

impl Name {
    /// The integer operation of the built-in function, if it is one.
    pub fn binary(&self) -> (operator: Option<Binary>)
        ensures
            operator == binary_of(self@),
    {
        match self {
            Name::Add => Some(Binary::Add),
            Name::Sub => Some(Binary::Sub),
            Name::Mul => Some(Binary::Mul),
            Name::Div => Some(Binary::UnsignedDiv),
            Name::Mod => Some(Binary::UnsignedRem),
            Name::Sdiv => Some(Binary::SignedDiv),
            Name::Smod => Some(Binary::SignedRem),
            Name::And => Some(Binary::And),
            Name::Or => Some(Binary::Or),
            Name::Xor => Some(Binary::Xor),
            Name::Shl => Some(Binary::ShiftLeft),
            Name::Shr => Some(Binary::LogicalShiftRight),
            Name::Sar => Some(Binary::ArithmeticShiftRight),
            _ => None,
        }
    }

    /// The comparison of the built-in function, if it is one.
    pub fn predicate(&self) -> (predicate: Option<Predicate>)
        ensures
            predicate == predicate_of(self@),
    {
        match self {
            Name::Lt => Some(Predicate::UnsignedLess),
            Name::Gt => Some(Predicate::UnsignedGreater),
            Name::Eq => Some(Predicate::Equal),
            Name::Slt => Some(Predicate::SignedLess),
            Name::Sgt => Some(Predicate::SignedGreater),
            _ => None,
        }
    }
}

fn lower_binary(context: &mut Context, name: &Name, left: usize, right: usize) -> (value: usize)
    ensures
        (final(context)@, value) == lower(old(context)@, name@, left, right),
{
    match name.binary() {
        Some(operator) => context.record(Operation::Binary { operator, left, right }),
        None => {
            let predicate = match name.predicate() {
                Some(predicate) => predicate,
                None => Predicate::Equal,
            };
            let bit = context.record(Operation::Compare { predicate, left, right });
            context.record(Operation::Cast { value: bit, kind: Type::Integer(BITLENGTH_FIELD) })
        },
    }
}

fn lower_zero_test(context: &mut Context, operand: usize) -> (value: usize)
    ensures
        (final(context)@, value) == lower_is_zero(old(context)@, operand),
{
    let zero = context.record(
        Operation::Integer { kind: Type::Integer(BITLENGTH_FIELD), number: 0 },
    );
    let bit = context.record(
        Operation::Compare { predicate: Predicate::Equal, left: operand, right: zero },
    );
    context.record(Operation::Cast { value: bit, kind: Type::Integer(BITLENGTH_FIELD) })
}

fn operand(context: &mut Context, arguments: &Vec<Expression>, index: usize) -> (result: Result<
    usize,
    Error,
>)
    ensures
        match emit_operand(old(context)@, expression_views(arguments@), index as int) {
            Ok((after, value)) => result == Ok::<usize, Error>(value) && final(context)@ == after,
            Err(error) => result is Err && result->Err_0@ == error,
        },
    decreases arguments, 0nat,
{
    if index < arguments.len() {
        match arguments[index].emit(context)? {
            Some(value) => Ok(value),
            None => Err(Error::MissingValue),
        }
    } else {
        Err(Error::MissingValue)
    }
}

fn arguments_from(
    context: &mut Context,
    arguments: &Vec<Expression>,
    from: usize,
    values: &mut Vec<usize>,
) -> (result: Result<(), Error>)
    ensures
        match emit_arguments(old(context)@, expression_views(arguments@), from as int) {
            Ok((after, rest)) => result is Ok && final(values)@ == old(values)@ + rest
                && final(context)@ == after,
            Err(error) => result is Err && result->Err_0@ == error,
        },
    decreases arguments, arguments.len() - from,
{
    if from < arguments.len() {
        let ghost before = values@;
        match arguments[from].emit(context)? {
            Some(value) => {
                values.push(value);
            },
            None => {},
        }
        let ghost listed = values@;
        arguments_from(context, arguments, from + 1, values)?;
        proof {
            let rest = values@.skip(listed.len() as int);
            assert(values@ =~= listed + rest);
            if listed.len() > before.len() {
                assert(listed + rest =~= before + (seq![listed.last()] + rest));
            }
        }
        Ok(())
    } else {
        assert(values@ + Seq::<usize>::empty() =~= values@);
        Ok(())
    }
}

impl Expression {
    /// Emits the expression: see [`emit_expression`].
    pub fn emit(&self, context: &mut Context) -> (result: Result<Option<usize>, Error>)
        ensures
            valued(final(context)@, emit_expression(old(context)@, self@), result),
        decreases self, 0nat,
    {
        match self {
            Expression::Literal(literal) => {
                let value = context.record(Operation::Constant { literal: literal.clone() });
                Ok(Some(value))
            },
            Expression::Identifier(name) => {
                match context.find_variable(name) {
                    Some(pointer) => {
                        let value = context.record(
                            Operation::Load { pointer, label: Label::Source(name.clone()) },
                        );
                        Ok(Some(value))
                    },
                    None => Err(Error::UnknownName { name: name.clone() }),
                }
            },
            Expression::FunctionCall(call) => {
                proof {
                    lemma_call_view(*call);
                }
                call.emit(context)
            },
        }
    }

    /// Emits the expression, which is used up: see [`emit_expression`].
    pub fn into_llvm(self, context: &mut Context) -> (result: Result<Option<usize>, Error>)
        ensures
            valued(final(context)@, emit_expression(old(context)@, self@), result),
    {
        self.emit(context)
    }
}

impl FunctionCall {
    /// Emits the call: see [`emit_call`].
    pub fn emit(&self, context: &mut Context) -> (result: Result<Option<usize>, Error>)
        ensures
            valued(final(context)@, emit_call(old(context)@, self@), result),
        decreases self, 1nat,
    {
        match &self.name {
            Name::UserDefined(name) => {
                let mut values: Vec<usize> = Vec::new();
                arguments_from(context, &self.arguments, 0, &mut values)?;
                assert(Seq::<usize>::empty() + values@ =~= values@);
                match context.find_function(name) {
                    None => Err(Error::UnknownName { name: name.clone() }),
                    Some(function) => {
                        let has_result = context.functions[function].results > 0;
                        let value = context.record(
                            Operation::Call { name: name.clone(), arguments: values, has_result },
                        );
                        if has_result {
                            Ok(Some(value))
                        } else {
                            Ok(None)
                        }
                    },
                }
            },
            Name::IsZero => {
                let value = operand(context, &self.arguments, 0)?;
                Ok(Some(lower_zero_test(context, value)))
            },
            name => {
                let left = operand(context, &self.arguments, 0)?;
                let right = operand(context, &self.arguments, 1)?;
                Ok(Some(lower_binary(context, name, left, right)))
            },
        }
    }

    /// Emits the call, which is used up: see [`emit_call`].
    pub fn into_llvm(self, context: &mut Context) -> (result: Result<Option<usize>, Error>)
        ensures
            valued(final(context)@, emit_call(old(context)@, self@), result),
    {
        self.emit(context)
    }
}

} // verus!
