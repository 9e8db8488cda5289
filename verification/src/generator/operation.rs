//! The operations of the code-generator sink: what the emission asks the
//! back end to do, one after the other.

use vstd::prelude::*;

use crate::evm::instruction::InstructionView;
use crate::evm::instruction::Instruction;
use crate::generator::intrinsic::Intrinsic;
use crate::yul::lexer::lexeme::Literal;
use crate::yul::lexer::lexeme::LiteralView;

verus! {

/// The width of the machine word of the target, in bits.
pub const BITLENGTH_FIELD: usize = 256;

/// The width of an index into an aggregate, in bits.
pub const BITLENGTH_X32: usize = 32;

/// The size of the machine word of the target, in bytes.
pub const SIZE_FIELD: usize = 32;

/// The size of an index, in bytes.
pub const SIZE_X32: usize = 4;

/// The address spaces of the target.
#[derive(Debug, Clone, Copy, PartialEq, Eq, Hash, Structural)]
pub enum AddressSpace {
    /// The stack.
    Stack,
    /// The heap.
    Heap,
    /// The memory of the calling contract.
    Parent,
    /// The memory of the called contract.
    Child,
}

/// The types of the values of the sink.
#[derive(Debug, Clone, Copy, PartialEq, Eq, Hash, Structural)]
pub enum Type {
    /// An integer of the given width in bits.
    Integer(usize),
    /// A pointer to an integer of the given width, in an address space.
    Pointer(usize, AddressSpace),
    /// An aggregate of the given number of machine words.
    Structure(usize),
}

/// The integer operations with two operands.
#[derive(Debug, Clone, Copy, PartialEq, Eq, Hash, Structural)]
pub enum Binary {
    Add,
    Sub,
    Mul,
    UnsignedDiv,
    SignedDiv,
    UnsignedRem,
    SignedRem,
    And,
    Or,
    Xor,
    ShiftLeft,
    LogicalShiftRight,
    ArithmeticShiftRight,
}

/// The integer comparisons.
#[derive(Debug, Clone, Copy, PartialEq, Eq, Hash, Structural)]
pub enum Predicate {
    Equal,
    NotEqual,
    UnsignedLess,
    UnsignedGreater,
    SignedLess,
    SignedGreater,
}

/// The names that the emission gives to blocks and values.
#[derive(Debug, PartialEq, Eq)]
pub enum Label {
    /// No name.
    Anonymous,
    /// A name of the source.
    Source(String),
    /// The value that a function hands back.
    Result,
    /// The block behind a switch.
    SwitchJoin,
    /// The block of a case of a switch, counted from 1.
    SwitchCase(usize),
    /// The block of the default of a switch.
    SwitchDefault,
    /// The block of a conditional.
    IfMain,
    /// The block behind a conditional.
    IfJoin,
    /// The block of the condition of a loop.
    ForCondition,
    /// The block of the round of a loop.
    ForBody,
    /// The block of what is run behind each round of a loop.
    ForIncrement,
    /// The block behind a loop.
    ForJoin,
    /// The aggregate of an assignment to several targets.
    AssignmentPointer,
    /// The address of a part of that aggregate.
    AssignmentBindingPointer(usize),
    /// The value of a part of that aggregate.
    AssignmentBindingValue(usize),
    /// A clone of a block of the Ethereal IR: its tag and its index.
    Block(usize, usize),
    /// A slot of the stack of the Ethereal IR.
    StackVariable(usize),
    /// The block that failures are caught in.
    Catch,
    /// The block that failures are thrown from.
    Throw,
}

/// The mathematical value of a [`Label`].
pub ghost enum LabelView {
    Anonymous,
    Source(Seq<char>),
    Result,
    SwitchJoin,
    SwitchCase(usize),
    SwitchDefault,
    IfMain,
    IfJoin,
    ForCondition,
    ForBody,
    ForIncrement,
    ForJoin,
    AssignmentPointer,
    AssignmentBindingPointer(usize),
    AssignmentBindingValue(usize),
    Block(usize, usize),
    StackVariable(usize),
    Catch,
    Throw,
}

impl View for Label {
    type V = LabelView;

    open spec fn view(&self) -> LabelView {
        match self {
            Label::Anonymous => LabelView::Anonymous,
            Label::Source(name) => LabelView::Source(name@),
            Label::Result => LabelView::Result,
            Label::SwitchJoin => LabelView::SwitchJoin,
            Label::SwitchCase(index) => LabelView::SwitchCase(*index),
            Label::SwitchDefault => LabelView::SwitchDefault,
            Label::IfMain => LabelView::IfMain,
            Label::IfJoin => LabelView::IfJoin,
            Label::ForCondition => LabelView::ForCondition,
            Label::ForBody => LabelView::ForBody,
            Label::ForIncrement => LabelView::ForIncrement,
            Label::ForJoin => LabelView::ForJoin,
            Label::AssignmentPointer => LabelView::AssignmentPointer,
            Label::AssignmentBindingPointer(index) => LabelView::AssignmentBindingPointer(*index),
            Label::AssignmentBindingValue(index) => LabelView::AssignmentBindingValue(*index),
            Label::Block(tag, index) => LabelView::Block(*tag, *index),
            Label::StackVariable(index) => LabelView::StackVariable(*index),
            Label::Catch => LabelView::Catch,
            Label::Throw => LabelView::Throw,
        }
    }
}

/// An operation of the sink. Blocks, functions and values are meant by
/// numbers: the first block is block 0, the first function that is added is
/// function 0, and the value that an operation gives bears the number of
/// that operation among all operations, counted from 0.
#[derive(Debug, PartialEq, Eq)]
pub enum Operation {
    /// Declares a function with so many arguments and results. It can be
    /// private to the module, and carry the stack size of a function of the
    /// Ethereal IR. The function gets an entry block and a return block,
    /// which take the next two block numbers.
    AddFunction { name: String, parameters: usize, results: usize, private: bool, stack_size: Option<usize> },
    /// Makes a function the current one.
    SetFunction { function: usize },
    /// Appends a block to the current function.
    AppendBasicBlock { label: Label },
    /// Makes a block the current one.
    SetBasicBlock { block: usize },
    /// Reserves a slot; gives its address.
    Alloca { kind: Type, label: Label },
    /// Reads a slot; gives what it holds.
    Load { pointer: usize, label: Label },
    /// Writes a slot.
    Store { pointer: usize, value: usize },
    /// Writes a machine word, or its lowest byte, to the heap at an offset.
    MemoryStore { offset: usize, value: usize, byte: bool },
    /// Gives the machine word of a literal of the source.
    Constant { literal: Literal },
    /// Gives an integer of a type.
    Integer { kind: Type, number: u64 },
    /// Gives the machine word that a text writes: in decimal, or in
    /// hexadecimal without a prefix.
    Word { hexadecimal: bool, text: String },
    /// Computes on two integers; gives the result.
    Binary { operator: Binary, left: usize, right: usize },
    /// Compares two integers; gives one bit.
    Compare { predicate: Predicate, left: usize, right: usize },
    /// Changes the type of an integer; gives the result.
    Cast { value: usize, kind: Type },
    /// Gives the address of a part of an aggregate.
    ElementPointer { pointer: usize, indices: Vec<usize>, label: Label },
    /// Calls a function of the module; gives its result if it has one.
    Call { name: String, arguments: Vec<usize>, has_result: bool },
    /// Calls an intrinsic function of the target; gives its result if it has
    /// one.
    Intrinsic { intrinsic: Intrinsic, arguments: Vec<usize>, has_result: bool },
    /// Jumps.
    Branch { block: usize },
    /// Jumps to one of two blocks.
    ConditionalBranch { condition: usize, then: usize, otherwise: usize },
    /// Jumps to the block of the case whose constant the value equals.
    Switch { scrutinee: usize, default: usize, cases: Vec<(usize, usize)> },
    /// Gives the argument of the current function of the index.
    Argument { index: usize },
    /// Returns from the function, with the values that it hands back.
    Return { values: Vec<usize> },
    /// Runs an instruction of the EVM on the stack slots of the function,
    /// of which `depth` are in use before it.
    Instruction { instruction: Instruction, depth: usize },
}

/// The mathematical value of an [`Operation`].
pub ghost enum OperationView {
    AddFunction { name: Seq<char>, parameters: usize, results: usize, private: bool, stack_size: Option<usize> },
    SetFunction { function: usize },
    AppendBasicBlock { label: LabelView },
    SetBasicBlock { block: usize },
    Alloca { kind: Type, label: LabelView },
    Load { pointer: usize, label: LabelView },
    Store { pointer: usize, value: usize },
    MemoryStore { offset: usize, value: usize, byte: bool },
    Constant { literal: LiteralView },
    Integer { kind: Type, number: u64 },
    Word { hexadecimal: bool, text: Seq<char> },
    Binary { operator: Binary, left: usize, right: usize },
    Compare { predicate: Predicate, left: usize, right: usize },
    Cast { value: usize, kind: Type },
    ElementPointer { pointer: usize, indices: Seq<usize>, label: LabelView },
    Call { name: Seq<char>, arguments: Seq<usize>, has_result: bool },
    Intrinsic { intrinsic: Intrinsic, arguments: Seq<usize>, has_result: bool },
    Branch { block: usize },
    ConditionalBranch { condition: usize, then: usize, otherwise: usize },
    Switch { scrutinee: usize, default: usize, cases: Seq<(usize, usize)> },
    Argument { index: usize },
    Return { values: Seq<usize> },
    Instruction { instruction: InstructionView, depth: usize },
}

impl View for Operation {
    type V = OperationView;

    open spec fn view(&self) -> OperationView {
        match self {
            Operation::AddFunction { name, parameters, results, private, stack_size } => {
                OperationView::AddFunction {
                    name: name@,
                    parameters: *parameters,
                    results: *results,
                    private: *private,
                    stack_size: *stack_size,
                }
            },
            Operation::SetFunction { function } => OperationView::SetFunction {
                function: *function,
            },
            Operation::AppendBasicBlock { label } => OperationView::AppendBasicBlock {
                label: label@,
            },
            Operation::SetBasicBlock { block } => OperationView::SetBasicBlock { block: *block },
            Operation::Alloca { kind, label } => OperationView::Alloca {
                kind: *kind,
                label: label@,
            },
            Operation::Load { pointer, label } => OperationView::Load {
                pointer: *pointer,
                label: label@,
            },
            Operation::Store { pointer, value } => OperationView::Store {
                pointer: *pointer,
                value: *value,
            },
            Operation::MemoryStore { offset, value, byte } => OperationView::MemoryStore {
                offset: *offset,
                value: *value,
                byte: *byte,
            },
            Operation::Constant { literal } => OperationView::Constant { literal: literal@ },
            Operation::Integer { kind, number } => OperationView::Integer {
                kind: *kind,
                number: *number,
            },
            Operation::Word { hexadecimal, text } => OperationView::Word {
                hexadecimal: *hexadecimal,
                text: text@,
            },
            Operation::Binary { operator, left, right } => OperationView::Binary {
                operator: *operator,
                left: *left,
                right: *right,
            },
            Operation::Compare { predicate, left, right } => OperationView::Compare {
                predicate: *predicate,
                left: *left,
                right: *right,
            },
            Operation::Cast { value, kind } => OperationView::Cast { value: *value, kind: *kind },
            Operation::ElementPointer { pointer, indices, label } => OperationView::ElementPointer {
                pointer: *pointer,
                indices: indices@,
                label: label@,
            },
            Operation::Call { name, arguments, has_result } => OperationView::Call {
                name: name@,
                arguments: arguments@,
                has_result: *has_result,
            },
            Operation::Intrinsic { intrinsic, arguments, has_result } => OperationView::Intrinsic {
                intrinsic: *intrinsic,
                arguments: arguments@,
                has_result: *has_result,
            },
            Operation::Branch { block } => OperationView::Branch { block: *block },
            Operation::ConditionalBranch { condition, then, otherwise } => {
                OperationView::ConditionalBranch {
                    condition: *condition,
                    then: *then,
                    otherwise: *otherwise,
                }
            },
            Operation::Switch { scrutinee, default, cases } => OperationView::Switch {
                scrutinee: *scrutinee,
                default: *default,
                cases: cases@,
            },
            Operation::Argument { index } => OperationView::Argument { index: *index },
            Operation::Return { values } => OperationView::Return { values: values@ },
            Operation::Instruction { instruction, depth } => OperationView::Instruction {
                instruction: instruction@,
                depth: *depth,
            },
        }
    }
}

/// Whether the operation ends the block that it stands in.
pub open spec fn terminates(operation: OperationView) -> bool {
    match operation {
        OperationView::Branch { .. } => true,
        OperationView::ConditionalBranch { .. } => true,
        OperationView::Switch { .. } => true,
        OperationView::Return { .. } => true,
        _ => false,
    }
}

impl Operation {
    /// Whether the operation ends the block that it stands in.
    pub fn is_terminator(&self) -> (yes: bool)
        ensures
            yes == terminates(self@),
    {
        match self {
            Operation::Branch { .. } => true,
            Operation::ConditionalBranch { .. } => true,
            Operation::Switch { .. } => true,
            Operation::Return { .. } => true,
            _ => false,
        }
    }
}

} // verus!
