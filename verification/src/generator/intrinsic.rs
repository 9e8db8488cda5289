//! The intrinsic functions of the target.

use vstd::prelude::*;

use crate::generator::operation::AddressSpace;
use crate::generator::operation::Type;
use crate::generator::operation::BITLENGTH_FIELD;

verus! {

/// An intrinsic function of the target.
#[derive(Debug, Clone, Copy, PartialEq, Eq, Hash, Structural)]
pub enum Intrinsic {
    /// The contract storage load.
    StorageLoad,
    /// The contract storage store.
    StorageStore,
    /// The contract storage set.
    SetStorage,
    /// The event emitting.
    Event,
    /// The contract context switch.
    SwitchContext,
    /// The contract context getter.
    GetFromContext,
    /// The call of a function of another contract.
    FarCall,
    /// The error throwing.
    Throw,
    /// The hash absorbing.
    HashAbsorb,
    /// The hash absorbing with reset.
    HashAbsorbReset,
    /// The hash output.
    HashOutput,
    /// The memory copy.
    MemoryCopy,
    /// The memory copy from the parent.
    MemoryCopyFromParent,
    /// The memory copy to the parent.
    MemoryCopyToParent,
    /// The memory copy from the child.
    MemoryCopyFromChild,
    /// The memory copy to the child.
    MemoryCopyToChild,
    /// The memory move.
    MemoryMove,
    /// The memory set.
    MemorySet,
    /// The `eq` flag getter.
    EqualsFlag,
    /// The `gt` flag getter.
    GreaterFlag,
    /// The `lt` flag getter.
    LesserFlag,
}

/// The pointer to a machine word in an address space.
pub open spec fn word_pointer(space: AddressSpace) -> Type {
    Type::Pointer(BITLENGTH_FIELD, space)
}

/// The types by which an intrinsic function is picked among those of its
/// name: for a copy, the destination, the source and the size.
pub open spec fn spec_argument_types(intrinsic: Intrinsic) -> Seq<Type> {
    match intrinsic {
        Intrinsic::MemoryCopy => seq![
            word_pointer(AddressSpace::Stack),
            word_pointer(AddressSpace::Stack),
            Type::Integer(BITLENGTH_FIELD),
        ],
        Intrinsic::MemoryCopyFromParent => seq![
            word_pointer(AddressSpace::Stack),
            word_pointer(AddressSpace::Parent),
            Type::Integer(BITLENGTH_FIELD),
        ],
        Intrinsic::MemoryCopyToParent => seq![
            word_pointer(AddressSpace::Parent),
            word_pointer(AddressSpace::Stack),
            Type::Integer(BITLENGTH_FIELD),
        ],
        Intrinsic::MemoryCopyFromChild => seq![
            word_pointer(AddressSpace::Stack),
            word_pointer(AddressSpace::Child),
            Type::Integer(BITLENGTH_FIELD),
        ],
        Intrinsic::MemoryCopyToChild => seq![
            word_pointer(AddressSpace::Child),
            word_pointer(AddressSpace::Stack),
            Type::Integer(BITLENGTH_FIELD),
        ],
        Intrinsic::MemoryMove => seq![
            word_pointer(AddressSpace::Stack),
            word_pointer(AddressSpace::Stack),
            Type::Integer(BITLENGTH_FIELD),
        ],
        Intrinsic::MemorySet => seq![
            word_pointer(AddressSpace::Stack),
            Type::Integer(BITLENGTH_FIELD),
        ],
        _ => Seq::empty(),
    }
}

/// The name of an intrinsic function in the target.
pub open spec fn spec_name(intrinsic: Intrinsic) -> Seq<char> {
    match intrinsic {
        Intrinsic::StorageLoad => "llvm.syncvm.sload"@,
        Intrinsic::StorageStore => "llvm.syncvm.sstore"@,
        Intrinsic::SetStorage => "llvm.syncvm.setstorage"@,
        Intrinsic::Event => "llvm.syncvm.event"@,
        Intrinsic::SwitchContext => "llvm.syncvm.switchcontext"@,
        Intrinsic::GetFromContext => "llvm.syncvm.getfromcontext"@,
        Intrinsic::FarCall => "llvm.syncvm.farcall"@,
        Intrinsic::Throw => "llvm.syncvm.throw"@,
        Intrinsic::HashAbsorb => "llvm.syncvm.habs"@,
        Intrinsic::HashAbsorbReset => "llvm.syncvm.habsr"@,
        Intrinsic::HashOutput => "llvm.syncvm.hout"@,
        Intrinsic::MemoryCopy => "llvm.memcpy"@,
        Intrinsic::MemoryCopyFromParent => "llvm.memcpy"@,
        Intrinsic::MemoryCopyToParent => "llvm.memcpy"@,
        Intrinsic::MemoryCopyFromChild => "llvm.memcpy"@,
        Intrinsic::MemoryCopyToChild => "llvm.memcpy"@,
        Intrinsic::MemoryMove => "llvm.memmov"@,
        Intrinsic::MemorySet => "llvm.memset"@,
        Intrinsic::EqualsFlag => "llvm.syncvm.eqflag"@,
        Intrinsic::LesserFlag => "llvm.syncvm.ltflag"@,
        Intrinsic::GreaterFlag => "llvm.syncvm.gtflag"@,
    }
}

impl Intrinsic {
    /// The name of the intrinsic function in the target.
    pub fn name(&self) -> (name: &'static str)
        ensures
            name@ == spec_name(*self),
    {
        match self {
            Intrinsic::StorageLoad => "llvm.syncvm.sload",
            Intrinsic::StorageStore => "llvm.syncvm.sstore",
            Intrinsic::SetStorage => "llvm.syncvm.setstorage",
            Intrinsic::Event => "llvm.syncvm.event",
            Intrinsic::SwitchContext => "llvm.syncvm.switchcontext",
            Intrinsic::GetFromContext => "llvm.syncvm.getfromcontext",
            Intrinsic::FarCall => "llvm.syncvm.farcall",
            Intrinsic::Throw => "llvm.syncvm.throw",
            Intrinsic::HashAbsorb => "llvm.syncvm.habs",
            Intrinsic::HashAbsorbReset => "llvm.syncvm.habsr",
            Intrinsic::HashOutput => "llvm.syncvm.hout",
            Intrinsic::MemoryCopy => "llvm.memcpy",
            Intrinsic::MemoryCopyFromParent => "llvm.memcpy",
            Intrinsic::MemoryCopyToParent => "llvm.memcpy",
            Intrinsic::MemoryCopyFromChild => "llvm.memcpy",
            Intrinsic::MemoryCopyToChild => "llvm.memcpy",
            Intrinsic::MemoryMove => "llvm.memmov",
            Intrinsic::MemorySet => "llvm.memset",
            Intrinsic::EqualsFlag => "llvm.syncvm.eqflag",
            Intrinsic::LesserFlag => "llvm.syncvm.ltflag",
            Intrinsic::GreaterFlag => "llvm.syncvm.gtflag",
        }
    }

    /// The types by which the intrinsic function is picked among those of
    /// its name.
    pub fn argument_types(&self) -> (types: Vec<Type>)
        ensures
            types@ == spec_argument_types(*self),
    {
        let field = Type::Integer(BITLENGTH_FIELD);
        let stack = Type::Pointer(BITLENGTH_FIELD, AddressSpace::Stack);
        let parent = Type::Pointer(BITLENGTH_FIELD, AddressSpace::Parent);
        let child = Type::Pointer(BITLENGTH_FIELD, AddressSpace::Child);
        let types = match self {
            Intrinsic::MemoryCopy => vec![stack, stack, field],
            Intrinsic::MemoryCopyFromParent => vec![stack, parent, field],
            Intrinsic::MemoryCopyToParent => vec![parent, stack, field],
            Intrinsic::MemoryCopyFromChild => vec![stack, child, field],
            Intrinsic::MemoryCopyToChild => vec![child, stack, field],
            Intrinsic::MemoryMove => vec![stack, stack, field],
            Intrinsic::MemorySet => vec![stack, field],
            _ => vec![],
        };
        assert(types@ =~= spec_argument_types(*self));
        types
    }
}

} // verus!
