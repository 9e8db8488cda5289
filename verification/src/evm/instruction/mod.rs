//! An instruction of the assembly listing.

pub mod codecopy;
pub mod name;

use vstd::prelude::*;

use crate::evm::instruction::name::Name;
use crate::evm::instruction::name::spec_input_size;
use crate::evm::instruction::name::spec_output_size;
use crate::version::Version;

verus! {

/// An instruction: its name and, where it has one, its immediate.
#[derive(Debug, PartialEq, Eq)]
pub struct Instruction {
    /// The opcode or pseudo-opcode.
    pub name: Name,
    /// The immediate, as the listing writes it.
    pub value: Option<String>,
}

/// The mathematical value of an [`Instruction`].
pub ghost struct InstructionView {
    pub name: Name,
    pub value: Option<Seq<char>>,
}

impl View for Instruction {
    type V = InstructionView;

    open spec fn view(&self) -> InstructionView {
        InstructionView {
            name: self.name,
            value: match self.value {
                Some(value) => Some(value@),
                None => None,
            },
        }
    }
}

impl Clone for Instruction {
    fn clone(&self) -> (copy: Instruction)
        ensures
            copy@ == self@,
    {
        Instruction {
            name: self.name,
            value: match &self.value {
                Some(value) => Some(value.clone()),
                None => None,
            },
        }
    }
}

impl Instruction {
    /// The instruction of the name and the immediate.
    pub fn new(name: Name, value: Option<String>) -> (instruction: Instruction)
        ensures
            instruction.name == name,
            instruction.value == value,
    {
        Instruction { name, value }
    }

    /// The number of stack slots that the instruction takes.
    pub fn input_size(&self, version: &Version) -> (size: usize)
        ensures
            size == spec_input_size(self.name, *version),
            size <= 7,
    {
        self.name.input_size(version)
    }

    /// The number of stack slots that the instruction gives.
    pub fn output_size(&self) -> (size: usize)
        ensures
            size == spec_output_size(self.name),
            size <= 1,
    {
        self.name.output_size()
    }
}

} // verus!
