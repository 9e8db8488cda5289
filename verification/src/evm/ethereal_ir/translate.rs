//! The translation of the instructions that compute on the stack: each works
//! on the stack slots of its function.

use vstd::prelude::*;

use crate::evm::error::Error;
use crate::evm::ethereal_ir::block::BlockElement;
use crate::evm::ethereal_ir::block::BlockElementView;
use crate::evm::instruction::name::spec_dup_index;
use crate::evm::instruction::name::spec_input_size;
use crate::evm::instruction::name::spec_output_size;
use crate::evm::instruction::name::spec_swap_index;
use crate::evm::instruction::name::Name;
use crate::generator::context::next;
use crate::generator::context::record;
use crate::generator::context::Context;
use crate::generator::context::ContextView;
use crate::generator::intrinsic::Intrinsic;
use crate::generator::operation::Binary;
use crate::generator::operation::Label;
use crate::generator::operation::LabelView;
use crate::generator::operation::Operation;
use crate::generator::operation::OperationView;
use crate::generator::operation::Predicate;
use crate::generator::operation::Type;
use crate::generator::operation::BITLENGTH_FIELD;
use crate::text::decimal;
use crate::text::parse_decimal;
use crate::version::Version;
use crate::yul::emit::model::branch;
use crate::yul::emit::model::field;

verus! {

/// The stack slots of a function, its return block, and the version of the
/// compiler that its instructions come from.
#[derive(Debug, Clone, Copy, PartialEq, Eq, Structural)]
pub struct Registers {
    /// The number of the value that is the address of the lowest slot.
    pub first: usize,
    /// The number of slots.
    pub count: usize,
    /// The number of the return block.
    pub return_block: usize,
    /// The version of the Solidity compiler.
    pub version: Version,
}

/// The address of the slot of the index, counted from the bottom.
pub open spec fn slot(registers: Registers, index: int) -> usize {
    (registers.first + index) as usize
}

/// The integer operation of an instruction, and whether the top of the
/// stack is its left operand: for a shift the top is the distance, which
/// stands on the right.
pub open spec fn binary_of(name: Name) -> Option<(Binary, bool)> {
    match name {
        Name::ADD => Some((Binary::Add, true)),
        Name::SUB => Some((Binary::Sub, true)),
        Name::MUL => Some((Binary::Mul, true)),
        Name::DIV => Some((Binary::UnsignedDiv, true)),
        Name::MOD => Some((Binary::UnsignedRem, true)),
        Name::SDIV => Some((Binary::SignedDiv, true)),
        Name::SMOD => Some((Binary::SignedRem, true)),
        Name::AND => Some((Binary::And, true)),
        Name::OR => Some((Binary::Or, true)),
        Name::XOR => Some((Binary::Xor, true)),
        Name::SHL => Some((Binary::ShiftLeft, false)),
        Name::SHR => Some((Binary::LogicalShiftRight, false)),
        Name::SAR => Some((Binary::ArithmeticShiftRight, false)),
        _ => None,
    }
}

/// The comparison of an instruction: the top of the stack stands on the
/// left.
pub open spec fn predicate_of(name: Name) -> Option<Predicate> {
    match name {
        Name::LT => Some(Predicate::UnsignedLess),
        Name::GT => Some(Predicate::UnsignedGreater),
        Name::EQ => Some(Predicate::Equal),
        Name::SLT => Some(Predicate::SignedLess),
        Name::SGT => Some(Predicate::SignedGreater),
        _ => None,
    }
}

/// Whether the instruction pushes a number that its immediate writes in
/// hexadecimal.
pub open spec fn pushes_number(name: Name) -> bool {
    match name {
        Name::PUSH | Name::PUSH1 | Name::PUSH2 | Name::PUSH3 | Name::PUSH4 | Name::PUSH5
        | Name::PUSH6 | Name::PUSH7 | Name::PUSH8 | Name::PUSH9 | Name::PUSH10 | Name::PUSH11
        | Name::PUSH12 | Name::PUSH13 | Name::PUSH14 | Name::PUSH15 | Name::PUSH16
        | Name::PUSH17 | Name::PUSH18 | Name::PUSH19 | Name::PUSH20 | Name::PUSH21
        | Name::PUSH22 | Name::PUSH23 | Name::PUSH24 | Name::PUSH25 | Name::PUSH26
        | Name::PUSH27 | Name::PUSH28 | Name::PUSH29 | Name::PUSH30 | Name::PUSH31
        | Name::PUSH32 => true,
        _ => false,
    }
}

/// The intrinsic function that stands for an instruction: storage load and
/// store, event emission, far call, hashing, memory copy, and throwing.
pub open spec fn intrinsic_of(name: Name) -> Option<Intrinsic> {
    match name {
        Name::SLOAD => Some(Intrinsic::StorageLoad),
        Name::SSTORE => Some(Intrinsic::StorageStore),
        Name::LOG0 | Name::LOG1 | Name::LOG2 | Name::LOG3 | Name::LOG4 => Some(Intrinsic::Event),
        Name::CALL | Name::CALLCODE | Name::STATICCALL | Name::DELEGATECALL => Some(
            Intrinsic::FarCall,
        ),
        Name::KECCAK256 => Some(Intrinsic::HashOutput),
        Name::CODECOPY => Some(Intrinsic::MemoryCopy),
        Name::CALLDATACOPY => Some(Intrinsic::MemoryCopyFromParent),
        Name::RETURNDATACOPY => Some(Intrinsic::MemoryCopyFromChild),
        Name::RETURN => Some(Intrinsic::MemoryCopyToParent),
        Name::REVERT => Some(Intrinsic::Throw),
        _ => None,
    }
}

/// `count` slots are read from the slot of the index `top` down. Gives the
/// values in the order in which they were read.
pub open spec fn read_down(context: ContextView, registers: Registers, top: int, count: int) -> (
    ContextView,
    Seq<usize>,
)
    decreases count,
{
    if count <= 0 {
        (context, Seq::empty())
    } else {
        let (after, rest) = read_down(read(context, registers, top), registers, top - 1, count - 1);
        (after, seq![next(context)] + rest)
    }
}

/// An operation gives a value, which is stored to the slot of the index.
pub open spec fn give(
    context: ContextView,
    registers: Registers,
    index: int,
    operation: OperationView,
) -> ContextView {
    record(
        record(context, operation),
        OperationView::Store { pointer: slot(registers, index), value: next(context) },
    )
}

/// What the slot of the index holds is read.
pub open spec fn read(context: ContextView, registers: Registers, index: int) -> ContextView {
    record(
        context,
        OperationView::Load { pointer: slot(registers, index), label: LabelView::Anonymous },
    )
}

/// An instruction that an intrinsic function stands for: see
/// [`translate`].
pub open spec fn call(context: ContextView, element: BlockElementView, registers: Registers) -> Result<
    ContextView,
    Error,
>
    recommends
        intrinsic_of(element.instruction.name) is Some,
{
    let name = element.instruction.name;
    let depth = element.stack.len() as int;
    let inputs = spec_input_size(name, registers.version) as int;
    let has_result = spec_output_size(name) == 1;
    let before = if has_result {
        depth - 1
    } else {
        depth
    };
    if before < inputs {
        Err(Error::StackUnderflow)
    } else {
        let (after, values) = read_down(context, registers, before - 1, inputs);
        let called = record(
            after,
            OperationView::Intrinsic {
                intrinsic: intrinsic_of(name)->0,
                arguments: values,
                has_result,
            },
        );
        let stored = if has_result {
            record(
                called,
                OperationView::Store {
                    pointer: slot(registers, before - inputs),
                    value: next(after),
                },
            )
        } else {
            called
        };
        Ok(
            if name == Name::RETURN {
                branch(stored, registers.return_block)
            } else {
                stored
            },
        )
    }
}

/// An instruction that computes, with its snapshot of `depth` elements.
///
/// A push stores its number to the top slot of the snapshot, a duplication
/// the value of the slot that it copies; an exchange stores the values of
/// its two slots crosswise. An operation on two operands reads the two
/// slots under the top of the snapshot, the upper first, and stores its
/// result to the lower of them; a comparison casts its bit to a machine
/// word before. The test for zero compares the slot under the top with
/// zero and stores the word there. `STOP` leads to the return block,
/// `INVALID` throws. An instruction that an intrinsic function stands for
/// reads its inputs from the top down and calls the function with them;
/// where it gives a result, that is stored to the slot of its lowest input,
/// or on top where it has none; `RETURN` leads to the return block then.
/// Any other instruction is handed on as it is.
///
/// A snapshot that is deeper than the function has slots, or not deep
/// enough for the instruction, is an error.
pub open spec fn translate(
    context: ContextView,
    element: BlockElementView,
    registers: Registers,
) -> Result<ContextView, Error> {
    let name = element.instruction.name;
    let depth = element.stack.len() as int;
    if depth > registers.count {
        Err(Error::StackOverflow)
    } else if name == Name::PUSH_Tag && element.instruction.value is Some {
        match decimal(element.instruction.value->0) {
            None => Err(Error::InvalidTag),
            Some(tag) => if depth < 1 {
                Err(Error::StackUnderflow)
            } else {
                Ok(
                    give(
                        context,
                        registers,
                        depth - 1,
                        OperationView::Integer { kind: field(), number: tag as u64 },
                    ),
                )
            },
        }
    } else if pushes_number(name) && element.instruction.value is Some {
        if depth < 1 {
            Err(Error::StackUnderflow)
        } else {
            Ok(
                give(
                    context,
                    registers,
                    depth - 1,
                    OperationView::Word { hexadecimal: true, text: element.instruction.value->0 },
                ),
            )
        }
    } else if spec_dup_index(name) is Some {
        let index = spec_dup_index(name)->0 as int;
        if depth < index + 1 {
            Err(Error::StackUnderflow)
        } else {
            Ok(
                give(
                    context,
                    registers,
                    depth - 1,
                    OperationView::Load {
                        pointer: slot(registers, depth - 1 - index),
                        label: LabelView::Anonymous,
                    },
                ),
            )
        }
    } else if spec_swap_index(name) is Some {
        let index = spec_swap_index(name)->0 as int;
        if depth < index + 1 {
            Err(Error::StackUnderflow)
        } else {
            let upper = read(context, registers, depth - 1);
            let lower = read(upper, registers, depth - 1 - index);
            let stored = record(
                lower,
                OperationView::Store { pointer: slot(registers, depth - 1), value: next(upper) },
            );
            Ok(
                record(
                    stored,
                    OperationView::Store {
                        pointer: slot(registers, depth - 1 - index),
                        value: next(context),
                    },
                ),
            )
        }
    } else if binary_of(name) is Some || predicate_of(name) is Some {
        if depth < 3 {
            Err(Error::StackUnderflow)
        } else {
            let upper = read(context, registers, depth - 2);
            let lower = read(upper, registers, depth - 3);
            match binary_of(name) {
                Some((operator, top_left)) => Ok(
                    give(
                        lower,
                        registers,
                        depth - 3,
                        OperationView::Binary {
                            operator,
                            left: if top_left {
                                next(context)
                            } else {
                                next(upper)
                            },
                            right: if top_left {
                                next(upper)
                            } else {
                                next(context)
                            },
                        },
                    ),
                ),
                None => {
                    let compared = record(
                        lower,
                        OperationView::Compare {
                            predicate: predicate_of(name)->0,
                            left: next(context),
                            right: next(upper),
                        },
                    );
                    Ok(
                        give(
                            compared,
                            registers,
                            depth - 3,
                            OperationView::Cast { value: next(lower), kind: field() },
                        ),
                    )
                },
            }
        }
    } else if name == Name::ISZERO {
        if depth < 2 {
            Err(Error::StackUnderflow)
        } else {
            let operand = read(context, registers, depth - 2);
            let zero = record(operand, OperationView::Integer { kind: field(), number: 0 });
            let compared = record(
                zero,
                OperationView::Compare {
                    predicate: Predicate::Equal,
                    left: next(context),
                    right: next(operand),
                },
            );
            Ok(
                give(
                    compared,
                    registers,
                    depth - 2,
                    OperationView::Cast { value: next(zero), kind: field() },
                ),
            )
        }
    } else if name == Name::STOP {
        Ok(branch(context, registers.return_block))
    } else if name == Name::INVALID {
        Ok(
            record(
                context,
                OperationView::Intrinsic {
                    intrinsic: Intrinsic::Throw,
                    arguments: Seq::empty(),
                    has_result: false,
                },
            ),
        )
    } else if intrinsic_of(name) is Some {
        call(context, element, registers)
    } else {
        Ok(
            record(
                context,
                OperationView::Instruction { instruction: element.instruction, depth: depth as usize },
            ),
        )
    }
}

impl Name {
    /// The integer operation of the instruction: see [`binary_of`].
    pub fn binary(self) -> (operator: Option<(Binary, bool)>)
        ensures
            operator == binary_of(self),
    {
        match self {
            Name::ADD => Some((Binary::Add, true)),
            Name::SUB => Some((Binary::Sub, true)),
            Name::MUL => Some((Binary::Mul, true)),
            Name::DIV => Some((Binary::UnsignedDiv, true)),
            Name::MOD => Some((Binary::UnsignedRem, true)),
            Name::SDIV => Some((Binary::SignedDiv, true)),
            Name::SMOD => Some((Binary::SignedRem, true)),
            Name::AND => Some((Binary::And, true)),
            Name::OR => Some((Binary::Or, true)),
            Name::XOR => Some((Binary::Xor, true)),
            Name::SHL => Some((Binary::ShiftLeft, false)),
            Name::SHR => Some((Binary::LogicalShiftRight, false)),
            Name::SAR => Some((Binary::ArithmeticShiftRight, false)),
            _ => None,
        }
    }

    /// The comparison of the instruction: see [`predicate_of`].
    pub fn predicate(self) -> (predicate: Option<Predicate>)
        ensures
            predicate == predicate_of(self),
    {
        match self {
            Name::LT => Some(Predicate::UnsignedLess),
            Name::GT => Some(Predicate::UnsignedGreater),
            Name::EQ => Some(Predicate::Equal),
            Name::SLT => Some(Predicate::SignedLess),
            Name::SGT => Some(Predicate::SignedGreater),
            _ => None,
        }
    }

    /// The intrinsic function that stands for the instruction: see
    /// [`intrinsic_of`].
    pub fn intrinsic(self) -> (intrinsic: Option<Intrinsic>)
        ensures
            intrinsic == intrinsic_of(self),
    {
        match self {
            Name::SLOAD => Some(Intrinsic::StorageLoad),
            Name::SSTORE => Some(Intrinsic::StorageStore),
            Name::LOG0 | Name::LOG1 | Name::LOG2 | Name::LOG3 | Name::LOG4 => Some(
                Intrinsic::Event,
            ),
            Name::CALL | Name::CALLCODE | Name::STATICCALL | Name::DELEGATECALL => Some(
                Intrinsic::FarCall,
            ),
            Name::KECCAK256 => Some(Intrinsic::HashOutput),
            Name::CODECOPY => Some(Intrinsic::MemoryCopy),
            Name::CALLDATACOPY => Some(Intrinsic::MemoryCopyFromParent),
            Name::RETURNDATACOPY => Some(Intrinsic::MemoryCopyFromChild),
            Name::RETURN => Some(Intrinsic::MemoryCopyToParent),
            Name::REVERT => Some(Intrinsic::Throw),
            _ => None,
        }
    }

    /// Whether the instruction pushes a number: see [`pushes_number`].
    pub fn is_number_push(self) -> (yes: bool)
        ensures
            yes == pushes_number(self),
    {
        match self {
            Name::PUSH | Name::PUSH1 | Name::PUSH2 | Name::PUSH3 | Name::PUSH4 | Name::PUSH5
            | Name::PUSH6 | Name::PUSH7 | Name::PUSH8 | Name::PUSH9 | Name::PUSH10
            | Name::PUSH11 | Name::PUSH12 | Name::PUSH13 | Name::PUSH14 | Name::PUSH15
            | Name::PUSH16 | Name::PUSH17 | Name::PUSH18 | Name::PUSH19 | Name::PUSH20
            | Name::PUSH21 | Name::PUSH22 | Name::PUSH23 | Name::PUSH24 | Name::PUSH25
            | Name::PUSH26 | Name::PUSH27 | Name::PUSH28 | Name::PUSH29 | Name::PUSH30
            | Name::PUSH31 | Name::PUSH32 => true,
            _ => false,
        }
    }
}

fn give_to(context: &mut Context, registers: &Registers, index: usize, operation: Operation)
    requires
        registers.first + registers.count <= usize::MAX,
        index < registers.count,
    ensures
        final(context)@ == give(old(context)@, *registers, index as int, operation@),
{
    let value = context.record(operation);
    context.record(Operation::Store { pointer: registers.first + index, value });
}

fn read_from(context: &mut Context, registers: &Registers, index: usize) -> (value: usize)
    requires
        registers.first + registers.count <= usize::MAX,
        index < registers.count,
    ensures
        final(context)@ == read(old(context)@, *registers, index as int),
        value == next(old(context)@),
{
    context.record(Operation::Load { pointer: registers.first + index, label: Label::Anonymous })
}

fn read_slots(
    context: &mut Context,
    registers: &Registers,
    above: usize,
    count: usize,
    values: &mut Vec<usize>,
)
    requires
        registers.first + registers.count <= usize::MAX,
        count <= above <= registers.count,
    ensures
        final(context)@ == read_down(old(context)@, *registers, above - 1, count as int).0,
        final(values)@ == old(values)@ + read_down(
            old(context)@,
            *registers,
            above - 1,
            count as int,
        ).1,
    decreases count,
{
    if count > 0 {
        let ghost before = values@;
        let value = read_from(context, registers, above - 1);
        values.push(value);
        let ghost listed = values@;
        read_slots(context, registers, above - 1, count - 1, values);
        proof {
            let rest = values@.skip(listed.len() as int);
            assert(values@ =~= listed + rest);
            assert(listed + rest =~= before + (seq![value] + rest));
        }
    } else {
        assert(values@ + Seq::<usize>::empty() =~= values@);
    }
}

fn call_intrinsic(
    context: &mut Context,
    element: &BlockElement,
    registers: &Registers,
    intrinsic: Intrinsic,
) -> (result: Result<(), Error>)
    requires
        registers.first + registers.count <= usize::MAX,
        element@.stack.len() <= registers.count,
        intrinsic_of(element.instruction.name) == Some(intrinsic),
    ensures
        match call(old(context)@, element@, *registers) {
            Ok(after) => result is Ok && final(context)@ == after,
            Err(error) => result == Err::<(), Error>(error),
        },
{
    let name = element.instruction.name;
    let depth = element.stack.len();
    let inputs = name.input_size(&registers.version);
    let has_result = name.output_size() == 1;
    if has_result && depth == 0 {
        return Err(Error::StackUnderflow);
    }
    let before = if has_result {
        depth - 1
    } else {
        depth
    };
    if before < inputs {
        return Err(Error::StackUnderflow);
    }
    let mut values: Vec<usize> = Vec::new();
    read_slots(context, registers, before, inputs, &mut values);
    assert(Seq::<usize>::empty() + values@ =~= values@);
    let result = context.record(Operation::Intrinsic { intrinsic, arguments: values, has_result });
    if has_result {
        context.record(
            Operation::Store { pointer: registers.first + (before - inputs), value: result },
        );
    }
    if name == Name::RETURN {
        if !context.is_terminated() {
            context.record(Operation::Branch { block: registers.return_block });
        }
    }
    Ok(())
}

/// Translates an instruction that computes: see [`translate`].
pub fn translate_element(context: &mut Context, element: &BlockElement, registers: &Registers) -> (result:
    Result<(), Error>)
    requires
        registers.first + registers.count <= usize::MAX,
    ensures
        match translate(old(context)@, element@, *registers) {
            Ok(after) => result is Ok && final(context)@ == after,
            Err(error) => result == Err::<(), Error>(error),
        },
{
    let name = element.instruction.name;
    let depth = element.stack.len();
    if depth > registers.count {
        return Err(Error::StackOverflow);
    }
    match &element.instruction.value {
        Some(value) => {
            if name == Name::PUSH_Tag {
                return match parse_decimal(value.as_str()) {
                    None => Err(Error::InvalidTag),
                    Some(tag) => {
                        if depth < 1 {
                            Err(Error::StackUnderflow)
                        } else {
                            give_to(
                                context,
                                registers,
                                depth - 1,
                                Operation::Integer {
                                    kind: Type::Integer(BITLENGTH_FIELD),
                                    number: tag as u64,
                                },
                            );
                            Ok(())
                        }
                    },
                };
            } else if name.is_number_push() {
                if depth < 1 {
                    return Err(Error::StackUnderflow);
                }
                give_to(
                    context,
                    registers,
                    depth - 1,
                    Operation::Word { hexadecimal: true, text: value.clone() },
                );
                return Ok(());
            }
        },
        None => {},
    }
    match name.dup_index() {
        Some(index) => {
            if depth < index + 1 {
                return Err(Error::StackUnderflow);
            }
            give_to(
                context,
                registers,
                depth - 1,
                Operation::Load {
                    pointer: registers.first + (depth - 1 - index),
                    label: Label::Anonymous,
                },
            );
            return Ok(());
        },
        None => {},
    }
    match name.swap_index() {
        Some(index) => {
            if depth < index + 1 {
                return Err(Error::StackUnderflow);
            }
            let upper = read_from(context, registers, depth - 1);
            let lower = read_from(context, registers, depth - 1 - index);
            context.record(Operation::Store { pointer: registers.first + (depth - 1), value: lower });
            context.record(
                Operation::Store { pointer: registers.first + (depth - 1 - index), value: upper },
            );
            return Ok(());
        },
        None => {},
    }
    let binary = name.binary();
    let predicate = name.predicate();
    if binary.is_some() || predicate.is_some() {
        if depth < 3 {
            return Err(Error::StackUnderflow);
        }
        let upper = read_from(context, registers, depth - 2);
        let lower = read_from(context, registers, depth - 3);
        match binary {
            Some((operator, top_left)) => {
                let (left, right) = if top_left {
                    (upper, lower)
                } else {
                    (lower, upper)
                };
                give_to(context, registers, depth - 3, Operation::Binary { operator, left, right });
            },
            None => {
                let bit = context.record(
                    Operation::Compare { predicate: predicate.unwrap(), left: upper, right: lower },
                );
                give_to(
                    context,
                    registers,
                    depth - 3,
                    Operation::Cast { value: bit, kind: Type::Integer(BITLENGTH_FIELD) },
                );
            },
        }
        Ok(())
    } else if name == Name::ISZERO {
        if depth < 2 {
            return Err(Error::StackUnderflow);
        }
        let operand = read_from(context, registers, depth - 2);
        let zero = context.record(
            Operation::Integer { kind: Type::Integer(BITLENGTH_FIELD), number: 0 },
        );
        let bit = context.record(
            Operation::Compare { predicate: Predicate::Equal, left: operand, right: zero },
        );
        give_to(
            context,
            registers,
            depth - 2,
            Operation::Cast { value: bit, kind: Type::Integer(BITLENGTH_FIELD) },
        );
        Ok(())
    } else if name == Name::STOP {
        if !context.is_terminated() {
            context.record(Operation::Branch { block: registers.return_block });
        }
        Ok(())
    } else if name == Name::INVALID {
        context.record(
            Operation::Intrinsic {
                intrinsic: Intrinsic::Throw,
                arguments: Vec::new(),
                has_result: false,
            },
        );
        Ok(())
    } else {
        match name.intrinsic() {
            Some(intrinsic) => {
                return call_intrinsic(context, element, registers, intrinsic);
            },
            None => {},
        }
        context.record(
            Operation::Instruction { instruction: element.instruction.clone(), depth },
        );
        Ok(())
    }
}

} // verus!
