//! The names of the instructions of the assembly listing, and how many
//! stack slots each one takes and gives.

use vstd::prelude::*;

use crate::text::equals;
use crate::version::Version;

verus! {

/// The name of an instruction: an opcode of the EVM or one of the
/// pseudo-opcodes of the listing (`Tag`, `PUSH_Tag`, `PUSH_Data` and the like).
#[allow(non_camel_case_types)]
#[allow(clippy::upper_case_acronyms)]
#[derive(Debug, Clone, Copy, PartialEq, Eq, Hash, Structural)]
pub enum Name {
    // The data pushes of the assembly listing.
    PUSH,
    PUSH_Tag,
    PUSH_Data,
    PUSH_ContractHash,
    PUSH_ContractHashSize,
    PUSHLIB,
    PUSHDEPLOYADDRESS,
    // The sized pushes.
    PUSH1,
    PUSH2,
    PUSH3,
    PUSH4,
    PUSH5,
    PUSH6,
    PUSH7,
    PUSH8,
    PUSH9,
    PUSH10,
    PUSH11,
    PUSH12,
    PUSH13,
    PUSH14,
    PUSH15,
    PUSH16,
    PUSH17,
    PUSH18,
    PUSH19,
    PUSH20,
    PUSH21,
    PUSH22,
    PUSH23,
    PUSH24,
    PUSH25,
    PUSH26,
    PUSH27,
    PUSH28,
    PUSH29,
    PUSH30,
    PUSH31,
    PUSH32,
    // The duplications.
    DUP1,
    DUP2,
    DUP3,
    DUP4,
    DUP5,
    DUP6,
    DUP7,
    DUP8,
    DUP9,
    DUP10,
    DUP11,
    DUP12,
    DUP13,
    DUP14,
    DUP15,
    DUP16,
    // The exchanges.
    SWAP1,
    SWAP2,
    SWAP3,
    SWAP4,
    SWAP5,
    SWAP6,
    SWAP7,
    SWAP8,
    SWAP9,
    SWAP10,
    SWAP11,
    SWAP12,
    SWAP13,
    SWAP14,
    SWAP15,
    SWAP16,
    // Labels and control flow.
    Tag,
    JUMP,
    JUMPI,
    JUMPDEST,
    POP,
    // Arithmetic.
    ADD,
    SUB,
    MUL,
    DIV,
    MOD,
    SDIV,
    SMOD,
    EXP,
    SIGNEXTEND,
    ADDMOD,
    MULMOD,
    // Comparison.
    LT,
    GT,
    EQ,
    ISZERO,
    SLT,
    SGT,
    // Bitwise.
    AND,
    OR,
    XOR,
    NOT,
    BYTE,
    SHL,
    SHR,
    SAR,
    // Memory, storage and immutables.
    MLOAD,
    MSTORE,
    MSTORE8,
    SLOAD,
    SSTORE,
    PUSHIMMUTABLE,
    ASSIGNIMMUTABLE,
    // Call data, code and return data.
    CALLDATALOAD,
    CALLDATASIZE,
    CALLDATACOPY,
    CODESIZE,
    CODECOPY,
    PUSHSIZE,
    EXTCODESIZE,
    EXTCODEHASH,
    EXTCODECOPY,
    RETURNDATASIZE,
    RETURNDATACOPY,
    // Termination.
    RETURN,
    REVERT,
    STOP,
    INVALID,
    SELFDESTRUCT,
    // Events.
    LOG0,
    LOG1,
    LOG2,
    LOG3,
    LOG4,
    // Calls and creation.
    CALL,
    CALLCODE,
    STATICCALL,
    DELEGATECALL,
    CREATE,
    CREATE2,
    // Hashing.
    KECCAK256,
    // The execution context.
    ADDRESS,
    CALLER,
    CALLVALUE,
    GAS,
    BALANCE,
    SELFBALANCE,
    // The block context.
    GASLIMIT,
    GASPRICE,
    ORIGIN,
    CHAINID,
    TIMESTAMP,
    NUMBER,
    BLOCKHASH,
    DIFFICULTY,
    COINBASE,
    BASEFEE,
    PC,
    MSIZE,
}

/// The index of a `DUP`: 1 for `DUP1`, up to 16.
pub open spec fn spec_dup_index(name: Name) -> Option<usize> {
    match name {
        Name::DUP1 => Some(1usize),
        Name::DUP2 => Some(2usize),
        Name::DUP3 => Some(3usize),
        Name::DUP4 => Some(4usize),
        Name::DUP5 => Some(5usize),
        Name::DUP6 => Some(6usize),
        Name::DUP7 => Some(7usize),
        Name::DUP8 => Some(8usize),
        Name::DUP9 => Some(9usize),
        Name::DUP10 => Some(10usize),
        Name::DUP11 => Some(11usize),
        Name::DUP12 => Some(12usize),
        Name::DUP13 => Some(13usize),
        Name::DUP14 => Some(14usize),
        Name::DUP15 => Some(15usize),
        Name::DUP16 => Some(16usize),
        _ => None,
    }
}

/// The index of a `SWAP`: 1 for `SWAP1`, up to 16.
pub open spec fn spec_swap_index(name: Name) -> Option<usize> {
    match name {
        Name::SWAP1 => Some(1usize),
        Name::SWAP2 => Some(2usize),
        Name::SWAP3 => Some(3usize),
        Name::SWAP4 => Some(4usize),
        Name::SWAP5 => Some(5usize),
        Name::SWAP6 => Some(6usize),
        Name::SWAP7 => Some(7usize),
        Name::SWAP8 => Some(8usize),
        Name::SWAP9 => Some(9usize),
        Name::SWAP10 => Some(10usize),
        Name::SWAP11 => Some(11usize),
        Name::SWAP12 => Some(12usize),
        Name::SWAP13 => Some(13usize),
        Name::SWAP14 => Some(14usize),
        Name::SWAP15 => Some(15usize),
        Name::SWAP16 => Some(16usize),
        _ => None,
    }
}

/// Whether the name is a push of an immediate constant, of any form but `PUSH_Tag`.
pub open spec fn spec_is_constant_push(name: Name) -> bool {
    match name {
        Name::PUSH | Name::PUSH_Data | Name::PUSH_ContractHash | Name::PUSH_ContractHashSize
        | Name::PUSHLIB | Name::PUSHDEPLOYADDRESS | Name::PUSH1 | Name::PUSH2 | Name::PUSH3
        | Name::PUSH4 | Name::PUSH5 | Name::PUSH6 | Name::PUSH7 | Name::PUSH8 | Name::PUSH9
        | Name::PUSH10 | Name::PUSH11 | Name::PUSH12 | Name::PUSH13 | Name::PUSH14
        | Name::PUSH15 | Name::PUSH16 | Name::PUSH17 | Name::PUSH18 | Name::PUSH19
        | Name::PUSH20 | Name::PUSH21 | Name::PUSH22 | Name::PUSH23 | Name::PUSH24
        | Name::PUSH25 | Name::PUSH26 | Name::PUSH27 | Name::PUSH28 | Name::PUSH29
        | Name::PUSH30 | Name::PUSH31 | Name::PUSH32 => true,
        _ => false,
    }
}

/// The number of stack slots that an instruction of this name takes, for a
/// compiler of the given version. The pushes, duplications and exchanges
/// count as taking none. `ASSIGNIMMUTABLE` takes the value alone before
/// 0.8, and the value and an offset from 0.8 on.
pub open spec fn spec_input_size(name: Name, version: Version) -> usize {
    match name {
        Name::ASSIGNIMMUTABLE => if version.minor >= 8 { 2 } else { 1 },
        Name::JUMP | Name::POP | Name::ISZERO | Name::NOT | Name::MLOAD | Name::SLOAD
        | Name::CALLDATALOAD | Name::EXTCODESIZE | Name::EXTCODEHASH | Name::SELFDESTRUCT
        | Name::BALANCE | Name::BLOCKHASH => 1,
        Name::JUMPI | Name::ADD | Name::SUB | Name::MUL | Name::DIV | Name::MOD | Name::SDIV
        | Name::SMOD | Name::EXP | Name::SIGNEXTEND | Name::LT | Name::GT | Name::EQ | Name::SLT
        | Name::SGT | Name::AND | Name::OR | Name::XOR | Name::BYTE | Name::SHL | Name::SHR
        | Name::SAR | Name::MSTORE | Name::MSTORE8 | Name::SSTORE | Name::RETURN | Name::REVERT
        | Name::LOG0 | Name::KECCAK256 => 2,
        Name::ADDMOD | Name::MULMOD | Name::CALLDATACOPY | Name::CODECOPY | Name::RETURNDATACOPY
        | Name::LOG1 | Name::CREATE => 3,
        Name::EXTCODECOPY | Name::LOG2 | Name::CREATE2 => 4,
        Name::LOG3 => 5,
        Name::LOG4 | Name::STATICCALL | Name::DELEGATECALL => 6,
        Name::CALL | Name::CALLCODE => 7,
        _ => 0,
    }
}

/// The number of stack slots that an instruction of this name gives: one or none.
pub open spec fn spec_output_size(name: Name) -> usize {
    match name {
        Name::SWAP1 | Name::SWAP2 | Name::SWAP3 | Name::SWAP4 | Name::SWAP5 | Name::SWAP6
        | Name::SWAP7 | Name::SWAP8 | Name::SWAP9 | Name::SWAP10 | Name::SWAP11 | Name::SWAP12
        | Name::SWAP13 | Name::SWAP14 | Name::SWAP15 | Name::SWAP16 | Name::Tag | Name::JUMP
        | Name::JUMPI | Name::JUMPDEST | Name::POP | Name::MSTORE | Name::MSTORE8 | Name::SSTORE
        | Name::ASSIGNIMMUTABLE | Name::CALLDATACOPY | Name::CODECOPY | Name::EXTCODECOPY
        | Name::RETURNDATACOPY | Name::RETURN | Name::REVERT | Name::STOP | Name::INVALID
        | Name::SELFDESTRUCT | Name::LOG0 | Name::LOG1 | Name::LOG2 | Name::LOG3 | Name::LOG4 => 0,
        _ => 1,
    }
}

/// The name that the listing writes so: the opcodes by their mnemonics,
/// `KECCAK256` as `SHA3` too and `SELFDESTRUCT` as `SUICIDE` too; a label
/// as `tag`; and the pushes of the listing as `PUSH [tag]`, `PUSH data`,
/// `PUSH #[$]` and `PUSH [$]`.
pub open spec fn spec_from_wire(text: Seq<char>) -> Option<Name> {
    if text == "PUSH"@ {
        Some(Name::PUSH)
    } else if text == "PUSH [tag]"@ {
        Some(Name::PUSH_Tag)
    } else if text == "PUSH data"@ {
        Some(Name::PUSH_Data)
    } else if text == "PUSH #[$]"@ {
        Some(Name::PUSH_ContractHash)
    } else if text == "PUSH [$]"@ {
        Some(Name::PUSH_ContractHashSize)
    } else if text == "PUSHLIB"@ {
        Some(Name::PUSHLIB)
    } else if text == "PUSHDEPLOYADDRESS"@ {
        Some(Name::PUSHDEPLOYADDRESS)
    } else if text == "PUSH1"@ {
        Some(Name::PUSH1)
    } else if text == "PUSH2"@ {
        Some(Name::PUSH2)
    } else if text == "PUSH3"@ {
        Some(Name::PUSH3)
    } else if text == "PUSH4"@ {
        Some(Name::PUSH4)
    } else if text == "PUSH5"@ {
        Some(Name::PUSH5)
    } else if text == "PUSH6"@ {
        Some(Name::PUSH6)
    } else if text == "PUSH7"@ {
        Some(Name::PUSH7)
    } else if text == "PUSH8"@ {
        Some(Name::PUSH8)
    } else if text == "PUSH9"@ {
        Some(Name::PUSH9)
    } else if text == "PUSH10"@ {
        Some(Name::PUSH10)
    } else if text == "PUSH11"@ {
        Some(Name::PUSH11)
    } else if text == "PUSH12"@ {
        Some(Name::PUSH12)
    } else if text == "PUSH13"@ {
        Some(Name::PUSH13)
    } else if text == "PUSH14"@ {
        Some(Name::PUSH14)
    } else if text == "PUSH15"@ {
        Some(Name::PUSH15)
    } else if text == "PUSH16"@ {
        Some(Name::PUSH16)
    } else if text == "PUSH17"@ {
        Some(Name::PUSH17)
    } else if text == "PUSH18"@ {
        Some(Name::PUSH18)
    } else if text == "PUSH19"@ {
        Some(Name::PUSH19)
    } else if text == "PUSH20"@ {
        Some(Name::PUSH20)
    } else if text == "PUSH21"@ {
        Some(Name::PUSH21)
    } else if text == "PUSH22"@ {
        Some(Name::PUSH22)
    } else if text == "PUSH23"@ {
        Some(Name::PUSH23)
    } else if text == "PUSH24"@ {
        Some(Name::PUSH24)
    } else if text == "PUSH25"@ {
        Some(Name::PUSH25)
    } else if text == "PUSH26"@ {
        Some(Name::PUSH26)
    } else if text == "PUSH27"@ {
        Some(Name::PUSH27)
    } else if text == "PUSH28"@ {
        Some(Name::PUSH28)
    } else if text == "PUSH29"@ {
        Some(Name::PUSH29)
    } else if text == "PUSH30"@ {
        Some(Name::PUSH30)
    } else if text == "PUSH31"@ {
        Some(Name::PUSH31)
    } else if text == "PUSH32"@ {
        Some(Name::PUSH32)
    } else if text == "DUP1"@ {
        Some(Name::DUP1)
    } else if text == "DUP2"@ {
        Some(Name::DUP2)
    } else if text == "DUP3"@ {
        Some(Name::DUP3)
    } else if text == "DUP4"@ {
        Some(Name::DUP4)
    } else if text == "DUP5"@ {
        Some(Name::DUP5)
    } else if text == "DUP6"@ {
        Some(Name::DUP6)
    } else if text == "DUP7"@ {
        Some(Name::DUP7)
    } else if text == "DUP8"@ {
        Some(Name::DUP8)
    } else if text == "DUP9"@ {
        Some(Name::DUP9)
    } else if text == "DUP10"@ {
        Some(Name::DUP10)
    } else if text == "DUP11"@ {
        Some(Name::DUP11)
    } else if text == "DUP12"@ {
        Some(Name::DUP12)
    } else if text == "DUP13"@ {
        Some(Name::DUP13)
    } else if text == "DUP14"@ {
        Some(Name::DUP14)
    } else if text == "DUP15"@ {
        Some(Name::DUP15)
    } else if text == "DUP16"@ {
        Some(Name::DUP16)
    } else if text == "SWAP1"@ {
        Some(Name::SWAP1)
    } else if text == "SWAP2"@ {
        Some(Name::SWAP2)
    } else if text == "SWAP3"@ {
        Some(Name::SWAP3)
    } else if text == "SWAP4"@ {
        Some(Name::SWAP4)
    } else if text == "SWAP5"@ {
        Some(Name::SWAP5)
    } else if text == "SWAP6"@ {
        Some(Name::SWAP6)
    } else if text == "SWAP7"@ {
        Some(Name::SWAP7)
    } else if text == "SWAP8"@ {
        Some(Name::SWAP8)
    } else if text == "SWAP9"@ {
        Some(Name::SWAP9)
    } else if text == "SWAP10"@ {
        Some(Name::SWAP10)
    } else if text == "SWAP11"@ {
        Some(Name::SWAP11)
    } else if text == "SWAP12"@ {
        Some(Name::SWAP12)
    } else if text == "SWAP13"@ {
        Some(Name::SWAP13)
    } else if text == "SWAP14"@ {
        Some(Name::SWAP14)
    } else if text == "SWAP15"@ {
        Some(Name::SWAP15)
    } else if text == "SWAP16"@ {
        Some(Name::SWAP16)
    } else if text == "tag"@ {
        Some(Name::Tag)
    } else if text == "JUMP"@ {
        Some(Name::JUMP)
    } else if text == "JUMPI"@ {
        Some(Name::JUMPI)
    } else if text == "JUMPDEST"@ {
        Some(Name::JUMPDEST)
    } else if text == "POP"@ {
        Some(Name::POP)
    } else if text == "ADD"@ {
        Some(Name::ADD)
    } else if text == "SUB"@ {
        Some(Name::SUB)
    } else if text == "MUL"@ {
        Some(Name::MUL)
    } else if text == "DIV"@ {
        Some(Name::DIV)
    } else if text == "MOD"@ {
        Some(Name::MOD)
    } else if text == "SDIV"@ {
        Some(Name::SDIV)
    } else if text == "SMOD"@ {
        Some(Name::SMOD)
    } else if text == "EXP"@ {
        Some(Name::EXP)
    } else if text == "SIGNEXTEND"@ {
        Some(Name::SIGNEXTEND)
    } else if text == "ADDMOD"@ {
        Some(Name::ADDMOD)
    } else if text == "MULMOD"@ {
        Some(Name::MULMOD)
    } else if text == "LT"@ {
        Some(Name::LT)
    } else if text == "GT"@ {
        Some(Name::GT)
    } else if text == "EQ"@ {
        Some(Name::EQ)
    } else if text == "ISZERO"@ {
        Some(Name::ISZERO)
    } else if text == "SLT"@ {
        Some(Name::SLT)
    } else if text == "SGT"@ {
        Some(Name::SGT)
    } else if text == "AND"@ {
        Some(Name::AND)
    } else if text == "OR"@ {
        Some(Name::OR)
    } else if text == "XOR"@ {
        Some(Name::XOR)
    } else if text == "NOT"@ {
        Some(Name::NOT)
    } else if text == "BYTE"@ {
        Some(Name::BYTE)
    } else if text == "SHL"@ {
        Some(Name::SHL)
    } else if text == "SHR"@ {
        Some(Name::SHR)
    } else if text == "SAR"@ {
        Some(Name::SAR)
    } else if text == "MLOAD"@ {
        Some(Name::MLOAD)
    } else if text == "MSTORE"@ {
        Some(Name::MSTORE)
    } else if text == "MSTORE8"@ {
        Some(Name::MSTORE8)
    } else if text == "SLOAD"@ {
        Some(Name::SLOAD)
    } else if text == "SSTORE"@ {
        Some(Name::SSTORE)
    } else if text == "PUSHIMMUTABLE"@ {
        Some(Name::PUSHIMMUTABLE)
    } else if text == "ASSIGNIMMUTABLE"@ {
        Some(Name::ASSIGNIMMUTABLE)
    } else if text == "CALLDATALOAD"@ {
        Some(Name::CALLDATALOAD)
    } else if text == "CALLDATASIZE"@ {
        Some(Name::CALLDATASIZE)
    } else if text == "CALLDATACOPY"@ {
        Some(Name::CALLDATACOPY)
    } else if text == "CODESIZE"@ {
        Some(Name::CODESIZE)
    } else if text == "CODECOPY"@ {
        Some(Name::CODECOPY)
    } else if text == "PUSHSIZE"@ {
        Some(Name::PUSHSIZE)
    } else if text == "EXTCODESIZE"@ {
        Some(Name::EXTCODESIZE)
    } else if text == "EXTCODEHASH"@ {
        Some(Name::EXTCODEHASH)
    } else if text == "EXTCODECOPY"@ {
        Some(Name::EXTCODECOPY)
    } else if text == "RETURNDATASIZE"@ {
        Some(Name::RETURNDATASIZE)
    } else if text == "RETURNDATACOPY"@ {
        Some(Name::RETURNDATACOPY)
    } else if text == "RETURN"@ {
        Some(Name::RETURN)
    } else if text == "REVERT"@ {
        Some(Name::REVERT)
    } else if text == "STOP"@ {
        Some(Name::STOP)
    } else if text == "INVALID"@ {
        Some(Name::INVALID)
    } else if text == "SELFDESTRUCT"@ {
        Some(Name::SELFDESTRUCT)
    } else if text == "LOG0"@ {
        Some(Name::LOG0)
    } else if text == "LOG1"@ {
        Some(Name::LOG1)
    } else if text == "LOG2"@ {
        Some(Name::LOG2)
    } else if text == "LOG3"@ {
        Some(Name::LOG3)
    } else if text == "LOG4"@ {
        Some(Name::LOG4)
    } else if text == "CALL"@ {
        Some(Name::CALL)
    } else if text == "CALLCODE"@ {
        Some(Name::CALLCODE)
    } else if text == "STATICCALL"@ {
        Some(Name::STATICCALL)
    } else if text == "DELEGATECALL"@ {
        Some(Name::DELEGATECALL)
    } else if text == "CREATE"@ {
        Some(Name::CREATE)
    } else if text == "CREATE2"@ {
        Some(Name::CREATE2)
    } else if text == "KECCAK256"@ {
        Some(Name::KECCAK256)
    } else if text == "ADDRESS"@ {
        Some(Name::ADDRESS)
    } else if text == "CALLER"@ {
        Some(Name::CALLER)
    } else if text == "CALLVALUE"@ {
        Some(Name::CALLVALUE)
    } else if text == "GAS"@ {
        Some(Name::GAS)
    } else if text == "BALANCE"@ {
        Some(Name::BALANCE)
    } else if text == "SELFBALANCE"@ {
        Some(Name::SELFBALANCE)
    } else if text == "GASLIMIT"@ {
        Some(Name::GASLIMIT)
    } else if text == "GASPRICE"@ {
        Some(Name::GASPRICE)
    } else if text == "ORIGIN"@ {
        Some(Name::ORIGIN)
    } else if text == "CHAINID"@ {
        Some(Name::CHAINID)
    } else if text == "TIMESTAMP"@ {
        Some(Name::TIMESTAMP)
    } else if text == "NUMBER"@ {
        Some(Name::NUMBER)
    } else if text == "BLOCKHASH"@ {
        Some(Name::BLOCKHASH)
    } else if text == "DIFFICULTY"@ {
        Some(Name::DIFFICULTY)
    } else if text == "COINBASE"@ {
        Some(Name::COINBASE)
    } else if text == "BASEFEE"@ {
        Some(Name::BASEFEE)
    } else if text == "PC"@ {
        Some(Name::PC)
    } else if text == "MSIZE"@ {
        Some(Name::MSIZE)
    } else if text == "SHA3"@ {
        Some(Name::KECCAK256)
    } else if text == "SUICIDE"@ {
        Some(Name::SELFDESTRUCT)
    } else {
        None
    }
}

/// How the listing writes the name.
pub open spec fn spec_wire(name: Name) -> Seq<char> {
    match name {
        Name::PUSH => "PUSH"@,
        Name::PUSH_Tag => "PUSH [tag]"@,
        Name::PUSH_Data => "PUSH data"@,
        Name::PUSH_ContractHash => "PUSH #[$]"@,
        Name::PUSH_ContractHashSize => "PUSH [$]"@,
        Name::PUSHLIB => "PUSHLIB"@,
        Name::PUSHDEPLOYADDRESS => "PUSHDEPLOYADDRESS"@,
        Name::PUSH1 => "PUSH1"@,
        Name::PUSH2 => "PUSH2"@,
        Name::PUSH3 => "PUSH3"@,
        Name::PUSH4 => "PUSH4"@,
        Name::PUSH5 => "PUSH5"@,
        Name::PUSH6 => "PUSH6"@,
        Name::PUSH7 => "PUSH7"@,
        Name::PUSH8 => "PUSH8"@,
        Name::PUSH9 => "PUSH9"@,
        Name::PUSH10 => "PUSH10"@,
        Name::PUSH11 => "PUSH11"@,
        Name::PUSH12 => "PUSH12"@,
        Name::PUSH13 => "PUSH13"@,
        Name::PUSH14 => "PUSH14"@,
        Name::PUSH15 => "PUSH15"@,
        Name::PUSH16 => "PUSH16"@,
        Name::PUSH17 => "PUSH17"@,
        Name::PUSH18 => "PUSH18"@,
        Name::PUSH19 => "PUSH19"@,
        Name::PUSH20 => "PUSH20"@,
        Name::PUSH21 => "PUSH21"@,
        Name::PUSH22 => "PUSH22"@,
        Name::PUSH23 => "PUSH23"@,
        Name::PUSH24 => "PUSH24"@,
        Name::PUSH25 => "PUSH25"@,
        Name::PUSH26 => "PUSH26"@,
        Name::PUSH27 => "PUSH27"@,
        Name::PUSH28 => "PUSH28"@,
        Name::PUSH29 => "PUSH29"@,
        Name::PUSH30 => "PUSH30"@,
        Name::PUSH31 => "PUSH31"@,
        Name::PUSH32 => "PUSH32"@,
        Name::DUP1 => "DUP1"@,
        Name::DUP2 => "DUP2"@,
        Name::DUP3 => "DUP3"@,
        Name::DUP4 => "DUP4"@,
        Name::DUP5 => "DUP5"@,
        Name::DUP6 => "DUP6"@,
        Name::DUP7 => "DUP7"@,
        Name::DUP8 => "DUP8"@,
        Name::DUP9 => "DUP9"@,
        Name::DUP10 => "DUP10"@,
        Name::DUP11 => "DUP11"@,
        Name::DUP12 => "DUP12"@,
        Name::DUP13 => "DUP13"@,
        Name::DUP14 => "DUP14"@,
        Name::DUP15 => "DUP15"@,
        Name::DUP16 => "DUP16"@,
        Name::SWAP1 => "SWAP1"@,
        Name::SWAP2 => "SWAP2"@,
        Name::SWAP3 => "SWAP3"@,
        Name::SWAP4 => "SWAP4"@,
        Name::SWAP5 => "SWAP5"@,
        Name::SWAP6 => "SWAP6"@,
        Name::SWAP7 => "SWAP7"@,
        Name::SWAP8 => "SWAP8"@,
        Name::SWAP9 => "SWAP9"@,
        Name::SWAP10 => "SWAP10"@,
        Name::SWAP11 => "SWAP11"@,
        Name::SWAP12 => "SWAP12"@,
        Name::SWAP13 => "SWAP13"@,
        Name::SWAP14 => "SWAP14"@,
        Name::SWAP15 => "SWAP15"@,
        Name::SWAP16 => "SWAP16"@,
        Name::Tag => "tag"@,
        Name::JUMP => "JUMP"@,
        Name::JUMPI => "JUMPI"@,
        Name::JUMPDEST => "JUMPDEST"@,
        Name::POP => "POP"@,
        Name::ADD => "ADD"@,
        Name::SUB => "SUB"@,
        Name::MUL => "MUL"@,
        Name::DIV => "DIV"@,
        Name::MOD => "MOD"@,
        Name::SDIV => "SDIV"@,
        Name::SMOD => "SMOD"@,
        Name::EXP => "EXP"@,
        Name::SIGNEXTEND => "SIGNEXTEND"@,
        Name::ADDMOD => "ADDMOD"@,
        Name::MULMOD => "MULMOD"@,
        Name::LT => "LT"@,
        Name::GT => "GT"@,
        Name::EQ => "EQ"@,
        Name::ISZERO => "ISZERO"@,
        Name::SLT => "SLT"@,
        Name::SGT => "SGT"@,
        Name::AND => "AND"@,
        Name::OR => "OR"@,
        Name::XOR => "XOR"@,
        Name::NOT => "NOT"@,
        Name::BYTE => "BYTE"@,
        Name::SHL => "SHL"@,
        Name::SHR => "SHR"@,
        Name::SAR => "SAR"@,
        Name::MLOAD => "MLOAD"@,
        Name::MSTORE => "MSTORE"@,
        Name::MSTORE8 => "MSTORE8"@,
        Name::SLOAD => "SLOAD"@,
        Name::SSTORE => "SSTORE"@,
        Name::PUSHIMMUTABLE => "PUSHIMMUTABLE"@,
        Name::ASSIGNIMMUTABLE => "ASSIGNIMMUTABLE"@,
        Name::CALLDATALOAD => "CALLDATALOAD"@,
        Name::CALLDATASIZE => "CALLDATASIZE"@,
        Name::CALLDATACOPY => "CALLDATACOPY"@,
        Name::CODESIZE => "CODESIZE"@,
        Name::CODECOPY => "CODECOPY"@,
        Name::PUSHSIZE => "PUSHSIZE"@,
        Name::EXTCODESIZE => "EXTCODESIZE"@,
        Name::EXTCODEHASH => "EXTCODEHASH"@,
        Name::EXTCODECOPY => "EXTCODECOPY"@,
        Name::RETURNDATASIZE => "RETURNDATASIZE"@,
        Name::RETURNDATACOPY => "RETURNDATACOPY"@,
        Name::RETURN => "RETURN"@,
        Name::REVERT => "REVERT"@,
        Name::STOP => "STOP"@,
        Name::INVALID => "INVALID"@,
        Name::SELFDESTRUCT => "SELFDESTRUCT"@,
        Name::LOG0 => "LOG0"@,
        Name::LOG1 => "LOG1"@,
        Name::LOG2 => "LOG2"@,
        Name::LOG3 => "LOG3"@,
        Name::LOG4 => "LOG4"@,
        Name::CALL => "CALL"@,
        Name::CALLCODE => "CALLCODE"@,
        Name::STATICCALL => "STATICCALL"@,
        Name::DELEGATECALL => "DELEGATECALL"@,
        Name::CREATE => "CREATE"@,
        Name::CREATE2 => "CREATE2"@,
        Name::KECCAK256 => "KECCAK256"@,
        Name::ADDRESS => "ADDRESS"@,
        Name::CALLER => "CALLER"@,
        Name::CALLVALUE => "CALLVALUE"@,
        Name::GAS => "GAS"@,
        Name::BALANCE => "BALANCE"@,
        Name::SELFBALANCE => "SELFBALANCE"@,
        Name::GASLIMIT => "GASLIMIT"@,
        Name::GASPRICE => "GASPRICE"@,
        Name::ORIGIN => "ORIGIN"@,
        Name::CHAINID => "CHAINID"@,
        Name::TIMESTAMP => "TIMESTAMP"@,
        Name::NUMBER => "NUMBER"@,
        Name::BLOCKHASH => "BLOCKHASH"@,
        Name::DIFFICULTY => "DIFFICULTY"@,
        Name::COINBASE => "COINBASE"@,
        Name::BASEFEE => "BASEFEE"@,
        Name::PC => "PC"@,
        Name::MSIZE => "MSIZE"@,
    }
}

impl Name {
    /// The name that the listing writes so.
    pub fn from_wire(text: &String) -> (name: Option<Name>)
        ensures
            name == spec_from_wire(text@),
    {
        if equals(text, "PUSH") {
            Some(Name::PUSH)
        } else if equals(text, "PUSH [tag]") {
            Some(Name::PUSH_Tag)
        } else if equals(text, "PUSH data") {
            Some(Name::PUSH_Data)
        } else if equals(text, "PUSH #[$]") {
            Some(Name::PUSH_ContractHash)
        } else if equals(text, "PUSH [$]") {
            Some(Name::PUSH_ContractHashSize)
        } else if equals(text, "PUSHLIB") {
            Some(Name::PUSHLIB)
        } else if equals(text, "PUSHDEPLOYADDRESS") {
            Some(Name::PUSHDEPLOYADDRESS)
        } else if equals(text, "PUSH1") {
            Some(Name::PUSH1)
        } else if equals(text, "PUSH2") {
            Some(Name::PUSH2)
        } else if equals(text, "PUSH3") {
            Some(Name::PUSH3)
        } else if equals(text, "PUSH4") {
            Some(Name::PUSH4)
        } else if equals(text, "PUSH5") {
            Some(Name::PUSH5)
        } else if equals(text, "PUSH6") {
            Some(Name::PUSH6)
        } else if equals(text, "PUSH7") {
            Some(Name::PUSH7)
        } else if equals(text, "PUSH8") {
            Some(Name::PUSH8)
        } else if equals(text, "PUSH9") {
            Some(Name::PUSH9)
        } else if equals(text, "PUSH10") {
            Some(Name::PUSH10)
        } else if equals(text, "PUSH11") {
            Some(Name::PUSH11)
        } else if equals(text, "PUSH12") {
            Some(Name::PUSH12)
        } else if equals(text, "PUSH13") {
            Some(Name::PUSH13)
        } else if equals(text, "PUSH14") {
            Some(Name::PUSH14)
        } else if equals(text, "PUSH15") {
            Some(Name::PUSH15)
        } else if equals(text, "PUSH16") {
            Some(Name::PUSH16)
        } else if equals(text, "PUSH17") {
            Some(Name::PUSH17)
        } else if equals(text, "PUSH18") {
            Some(Name::PUSH18)
        } else if equals(text, "PUSH19") {
            Some(Name::PUSH19)
        } else if equals(text, "PUSH20") {
            Some(Name::PUSH20)
        } else if equals(text, "PUSH21") {
            Some(Name::PUSH21)
        } else if equals(text, "PUSH22") {
            Some(Name::PUSH22)
        } else if equals(text, "PUSH23") {
            Some(Name::PUSH23)
        } else if equals(text, "PUSH24") {
            Some(Name::PUSH24)
        } else if equals(text, "PUSH25") {
            Some(Name::PUSH25)
        } else if equals(text, "PUSH26") {
            Some(Name::PUSH26)
        } else if equals(text, "PUSH27") {
            Some(Name::PUSH27)
        } else if equals(text, "PUSH28") {
            Some(Name::PUSH28)
        } else if equals(text, "PUSH29") {
            Some(Name::PUSH29)
        } else if equals(text, "PUSH30") {
            Some(Name::PUSH30)
        } else if equals(text, "PUSH31") {
            Some(Name::PUSH31)
        } else if equals(text, "PUSH32") {
            Some(Name::PUSH32)
        } else if equals(text, "DUP1") {
            Some(Name::DUP1)
        } else if equals(text, "DUP2") {
            Some(Name::DUP2)
        } else if equals(text, "DUP3") {
            Some(Name::DUP3)
        } else if equals(text, "DUP4") {
            Some(Name::DUP4)
        } else if equals(text, "DUP5") {
            Some(Name::DUP5)
        } else if equals(text, "DUP6") {
            Some(Name::DUP6)
        } else if equals(text, "DUP7") {
            Some(Name::DUP7)
        } else if equals(text, "DUP8") {
            Some(Name::DUP8)
        } else if equals(text, "DUP9") {
            Some(Name::DUP9)
        } else if equals(text, "DUP10") {
            Some(Name::DUP10)
        } else if equals(text, "DUP11") {
            Some(Name::DUP11)
        } else if equals(text, "DUP12") {
            Some(Name::DUP12)
        } else if equals(text, "DUP13") {
            Some(Name::DUP13)
        } else if equals(text, "DUP14") {
            Some(Name::DUP14)
        } else if equals(text, "DUP15") {
            Some(Name::DUP15)
        } else if equals(text, "DUP16") {
            Some(Name::DUP16)
        } else if equals(text, "SWAP1") {
            Some(Name::SWAP1)
        } else if equals(text, "SWAP2") {
            Some(Name::SWAP2)
        } else if equals(text, "SWAP3") {
            Some(Name::SWAP3)
        } else if equals(text, "SWAP4") {
            Some(Name::SWAP4)
        } else if equals(text, "SWAP5") {
            Some(Name::SWAP5)
        } else if equals(text, "SWAP6") {
            Some(Name::SWAP6)
        } else if equals(text, "SWAP7") {
            Some(Name::SWAP7)
        } else if equals(text, "SWAP8") {
            Some(Name::SWAP8)
        } else if equals(text, "SWAP9") {
            Some(Name::SWAP9)
        } else if equals(text, "SWAP10") {
            Some(Name::SWAP10)
        } else if equals(text, "SWAP11") {
            Some(Name::SWAP11)
        } else if equals(text, "SWAP12") {
            Some(Name::SWAP12)
        } else if equals(text, "SWAP13") {
            Some(Name::SWAP13)
        } else if equals(text, "SWAP14") {
            Some(Name::SWAP14)
        } else if equals(text, "SWAP15") {
            Some(Name::SWAP15)
        } else if equals(text, "SWAP16") {
            Some(Name::SWAP16)
        } else if equals(text, "tag") {
            Some(Name::Tag)
        } else if equals(text, "JUMP") {
            Some(Name::JUMP)
        } else if equals(text, "JUMPI") {
            Some(Name::JUMPI)
        } else if equals(text, "JUMPDEST") {
            Some(Name::JUMPDEST)
        } else if equals(text, "POP") {
            Some(Name::POP)
        } else if equals(text, "ADD") {
            Some(Name::ADD)
        } else if equals(text, "SUB") {
            Some(Name::SUB)
        } else if equals(text, "MUL") {
            Some(Name::MUL)
        } else if equals(text, "DIV") {
            Some(Name::DIV)
        } else if equals(text, "MOD") {
            Some(Name::MOD)
        } else if equals(text, "SDIV") {
            Some(Name::SDIV)
        } else if equals(text, "SMOD") {
            Some(Name::SMOD)
        } else if equals(text, "EXP") {
            Some(Name::EXP)
        } else if equals(text, "SIGNEXTEND") {
            Some(Name::SIGNEXTEND)
        } else if equals(text, "ADDMOD") {
            Some(Name::ADDMOD)
        } else if equals(text, "MULMOD") {
            Some(Name::MULMOD)
        } else if equals(text, "LT") {
            Some(Name::LT)
        } else if equals(text, "GT") {
            Some(Name::GT)
        } else if equals(text, "EQ") {
            Some(Name::EQ)
        } else if equals(text, "ISZERO") {
            Some(Name::ISZERO)
        } else if equals(text, "SLT") {
            Some(Name::SLT)
        } else if equals(text, "SGT") {
            Some(Name::SGT)
        } else if equals(text, "AND") {
            Some(Name::AND)
        } else if equals(text, "OR") {
            Some(Name::OR)
        } else if equals(text, "XOR") {
            Some(Name::XOR)
        } else if equals(text, "NOT") {
            Some(Name::NOT)
        } else if equals(text, "BYTE") {
            Some(Name::BYTE)
        } else if equals(text, "SHL") {
            Some(Name::SHL)
        } else if equals(text, "SHR") {
            Some(Name::SHR)
        } else if equals(text, "SAR") {
            Some(Name::SAR)
        } else if equals(text, "MLOAD") {
            Some(Name::MLOAD)
        } else if equals(text, "MSTORE") {
            Some(Name::MSTORE)
        } else if equals(text, "MSTORE8") {
            Some(Name::MSTORE8)
        } else if equals(text, "SLOAD") {
            Some(Name::SLOAD)
        } else if equals(text, "SSTORE") {
            Some(Name::SSTORE)
        } else if equals(text, "PUSHIMMUTABLE") {
            Some(Name::PUSHIMMUTABLE)
        } else if equals(text, "ASSIGNIMMUTABLE") {
            Some(Name::ASSIGNIMMUTABLE)
        } else if equals(text, "CALLDATALOAD") {
            Some(Name::CALLDATALOAD)
        } else if equals(text, "CALLDATASIZE") {
            Some(Name::CALLDATASIZE)
        } else if equals(text, "CALLDATACOPY") {
            Some(Name::CALLDATACOPY)
        } else if equals(text, "CODESIZE") {
            Some(Name::CODESIZE)
        } else if equals(text, "CODECOPY") {
            Some(Name::CODECOPY)
        } else if equals(text, "PUSHSIZE") {
            Some(Name::PUSHSIZE)
        } else if equals(text, "EXTCODESIZE") {
            Some(Name::EXTCODESIZE)
        } else if equals(text, "EXTCODEHASH") {
            Some(Name::EXTCODEHASH)
        } else if equals(text, "EXTCODECOPY") {
            Some(Name::EXTCODECOPY)
        } else if equals(text, "RETURNDATASIZE") {
            Some(Name::RETURNDATASIZE)
        } else if equals(text, "RETURNDATACOPY") {
            Some(Name::RETURNDATACOPY)
        } else if equals(text, "RETURN") {
            Some(Name::RETURN)
        } else if equals(text, "REVERT") {
            Some(Name::REVERT)
        } else if equals(text, "STOP") {
            Some(Name::STOP)
        } else if equals(text, "INVALID") {
            Some(Name::INVALID)
        } else if equals(text, "SELFDESTRUCT") {
            Some(Name::SELFDESTRUCT)
        } else if equals(text, "LOG0") {
            Some(Name::LOG0)
        } else if equals(text, "LOG1") {
            Some(Name::LOG1)
        } else if equals(text, "LOG2") {
            Some(Name::LOG2)
        } else if equals(text, "LOG3") {
            Some(Name::LOG3)
        } else if equals(text, "LOG4") {
            Some(Name::LOG4)
        } else if equals(text, "CALL") {
            Some(Name::CALL)
        } else if equals(text, "CALLCODE") {
            Some(Name::CALLCODE)
        } else if equals(text, "STATICCALL") {
            Some(Name::STATICCALL)
        } else if equals(text, "DELEGATECALL") {
            Some(Name::DELEGATECALL)
        } else if equals(text, "CREATE") {
            Some(Name::CREATE)
        } else if equals(text, "CREATE2") {
            Some(Name::CREATE2)
        } else if equals(text, "KECCAK256") {
            Some(Name::KECCAK256)
        } else if equals(text, "ADDRESS") {
            Some(Name::ADDRESS)
        } else if equals(text, "CALLER") {
            Some(Name::CALLER)
        } else if equals(text, "CALLVALUE") {
            Some(Name::CALLVALUE)
        } else if equals(text, "GAS") {
            Some(Name::GAS)
        } else if equals(text, "BALANCE") {
            Some(Name::BALANCE)
        } else if equals(text, "SELFBALANCE") {
            Some(Name::SELFBALANCE)
        } else if equals(text, "GASLIMIT") {
            Some(Name::GASLIMIT)
        } else if equals(text, "GASPRICE") {
            Some(Name::GASPRICE)
        } else if equals(text, "ORIGIN") {
            Some(Name::ORIGIN)
        } else if equals(text, "CHAINID") {
            Some(Name::CHAINID)
        } else if equals(text, "TIMESTAMP") {
            Some(Name::TIMESTAMP)
        } else if equals(text, "NUMBER") {
            Some(Name::NUMBER)
        } else if equals(text, "BLOCKHASH") {
            Some(Name::BLOCKHASH)
        } else if equals(text, "DIFFICULTY") {
            Some(Name::DIFFICULTY)
        } else if equals(text, "COINBASE") {
            Some(Name::COINBASE)
        } else if equals(text, "BASEFEE") {
            Some(Name::BASEFEE)
        } else if equals(text, "PC") {
            Some(Name::PC)
        } else if equals(text, "MSIZE") {
            Some(Name::MSIZE)
        } else if equals(text, "SHA3") {
            Some(Name::KECCAK256)
        } else if equals(text, "SUICIDE") {
            Some(Name::SELFDESTRUCT)
        } else {
            None
        }
    }

    /// How the listing writes the name.
    pub fn wire(self) -> (text: &'static str)
        ensures
            text@ == spec_wire(self),
    {
        match self {
            Name::PUSH => "PUSH",
            Name::PUSH_Tag => "PUSH [tag]",
            Name::PUSH_Data => "PUSH data",
            Name::PUSH_ContractHash => "PUSH #[$]",
            Name::PUSH_ContractHashSize => "PUSH [$]",
            Name::PUSHLIB => "PUSHLIB",
            Name::PUSHDEPLOYADDRESS => "PUSHDEPLOYADDRESS",
            Name::PUSH1 => "PUSH1",
            Name::PUSH2 => "PUSH2",
            Name::PUSH3 => "PUSH3",
            Name::PUSH4 => "PUSH4",
            Name::PUSH5 => "PUSH5",
            Name::PUSH6 => "PUSH6",
            Name::PUSH7 => "PUSH7",
            Name::PUSH8 => "PUSH8",
            Name::PUSH9 => "PUSH9",
            Name::PUSH10 => "PUSH10",
            Name::PUSH11 => "PUSH11",
            Name::PUSH12 => "PUSH12",
            Name::PUSH13 => "PUSH13",
            Name::PUSH14 => "PUSH14",
            Name::PUSH15 => "PUSH15",
            Name::PUSH16 => "PUSH16",
            Name::PUSH17 => "PUSH17",
            Name::PUSH18 => "PUSH18",
            Name::PUSH19 => "PUSH19",
            Name::PUSH20 => "PUSH20",
            Name::PUSH21 => "PUSH21",
            Name::PUSH22 => "PUSH22",
            Name::PUSH23 => "PUSH23",
            Name::PUSH24 => "PUSH24",
            Name::PUSH25 => "PUSH25",
            Name::PUSH26 => "PUSH26",
            Name::PUSH27 => "PUSH27",
            Name::PUSH28 => "PUSH28",
            Name::PUSH29 => "PUSH29",
            Name::PUSH30 => "PUSH30",
            Name::PUSH31 => "PUSH31",
            Name::PUSH32 => "PUSH32",
            Name::DUP1 => "DUP1",
            Name::DUP2 => "DUP2",
            Name::DUP3 => "DUP3",
            Name::DUP4 => "DUP4",
            Name::DUP5 => "DUP5",
            Name::DUP6 => "DUP6",
            Name::DUP7 => "DUP7",
            Name::DUP8 => "DUP8",
            Name::DUP9 => "DUP9",
            Name::DUP10 => "DUP10",
            Name::DUP11 => "DUP11",
            Name::DUP12 => "DUP12",
            Name::DUP13 => "DUP13",
            Name::DUP14 => "DUP14",
            Name::DUP15 => "DUP15",
            Name::DUP16 => "DUP16",
            Name::SWAP1 => "SWAP1",
            Name::SWAP2 => "SWAP2",
            Name::SWAP3 => "SWAP3",
            Name::SWAP4 => "SWAP4",
            Name::SWAP5 => "SWAP5",
            Name::SWAP6 => "SWAP6",
            Name::SWAP7 => "SWAP7",
            Name::SWAP8 => "SWAP8",
            Name::SWAP9 => "SWAP9",
            Name::SWAP10 => "SWAP10",
            Name::SWAP11 => "SWAP11",
            Name::SWAP12 => "SWAP12",
            Name::SWAP13 => "SWAP13",
            Name::SWAP14 => "SWAP14",
            Name::SWAP15 => "SWAP15",
            Name::SWAP16 => "SWAP16",
            Name::Tag => "tag",
            Name::JUMP => "JUMP",
            Name::JUMPI => "JUMPI",
            Name::JUMPDEST => "JUMPDEST",
            Name::POP => "POP",
            Name::ADD => "ADD",
            Name::SUB => "SUB",
            Name::MUL => "MUL",
            Name::DIV => "DIV",
            Name::MOD => "MOD",
            Name::SDIV => "SDIV",
            Name::SMOD => "SMOD",
            Name::EXP => "EXP",
            Name::SIGNEXTEND => "SIGNEXTEND",
            Name::ADDMOD => "ADDMOD",
            Name::MULMOD => "MULMOD",
            Name::LT => "LT",
            Name::GT => "GT",
            Name::EQ => "EQ",
            Name::ISZERO => "ISZERO",
            Name::SLT => "SLT",
            Name::SGT => "SGT",
            Name::AND => "AND",
            Name::OR => "OR",
            Name::XOR => "XOR",
            Name::NOT => "NOT",
            Name::BYTE => "BYTE",
            Name::SHL => "SHL",
            Name::SHR => "SHR",
            Name::SAR => "SAR",
            Name::MLOAD => "MLOAD",
            Name::MSTORE => "MSTORE",
            Name::MSTORE8 => "MSTORE8",
            Name::SLOAD => "SLOAD",
            Name::SSTORE => "SSTORE",
            Name::PUSHIMMUTABLE => "PUSHIMMUTABLE",
            Name::ASSIGNIMMUTABLE => "ASSIGNIMMUTABLE",
            Name::CALLDATALOAD => "CALLDATALOAD",
            Name::CALLDATASIZE => "CALLDATASIZE",
            Name::CALLDATACOPY => "CALLDATACOPY",
            Name::CODESIZE => "CODESIZE",
            Name::CODECOPY => "CODECOPY",
            Name::PUSHSIZE => "PUSHSIZE",
            Name::EXTCODESIZE => "EXTCODESIZE",
            Name::EXTCODEHASH => "EXTCODEHASH",
            Name::EXTCODECOPY => "EXTCODECOPY",
            Name::RETURNDATASIZE => "RETURNDATASIZE",
            Name::RETURNDATACOPY => "RETURNDATACOPY",
            Name::RETURN => "RETURN",
            Name::REVERT => "REVERT",
            Name::STOP => "STOP",
            Name::INVALID => "INVALID",
            Name::SELFDESTRUCT => "SELFDESTRUCT",
            Name::LOG0 => "LOG0",
            Name::LOG1 => "LOG1",
            Name::LOG2 => "LOG2",
            Name::LOG3 => "LOG3",
            Name::LOG4 => "LOG4",
            Name::CALL => "CALL",
            Name::CALLCODE => "CALLCODE",
            Name::STATICCALL => "STATICCALL",
            Name::DELEGATECALL => "DELEGATECALL",
            Name::CREATE => "CREATE",
            Name::CREATE2 => "CREATE2",
            Name::KECCAK256 => "KECCAK256",
            Name::ADDRESS => "ADDRESS",
            Name::CALLER => "CALLER",
            Name::CALLVALUE => "CALLVALUE",
            Name::GAS => "GAS",
            Name::BALANCE => "BALANCE",
            Name::SELFBALANCE => "SELFBALANCE",
            Name::GASLIMIT => "GASLIMIT",
            Name::GASPRICE => "GASPRICE",
            Name::ORIGIN => "ORIGIN",
            Name::CHAINID => "CHAINID",
            Name::TIMESTAMP => "TIMESTAMP",
            Name::NUMBER => "NUMBER",
            Name::BLOCKHASH => "BLOCKHASH",
            Name::DIFFICULTY => "DIFFICULTY",
            Name::COINBASE => "COINBASE",
            Name::BASEFEE => "BASEFEE",
            Name::PC => "PC",
            Name::MSIZE => "MSIZE",
        }
    }

    /// The index of a `DUP`, if the name is one.
    pub fn dup_index(self) -> (index: Option<usize>)
        ensures
            index == spec_dup_index(self),
            index matches Some(k) ==> 1 <= k <= 16,
    {
        match self {
            Name::DUP1 => Some(1),
            Name::DUP2 => Some(2),
            Name::DUP3 => Some(3),
            Name::DUP4 => Some(4),
            Name::DUP5 => Some(5),
            Name::DUP6 => Some(6),
            Name::DUP7 => Some(7),
            Name::DUP8 => Some(8),
            Name::DUP9 => Some(9),
            Name::DUP10 => Some(10),
            Name::DUP11 => Some(11),
            Name::DUP12 => Some(12),
            Name::DUP13 => Some(13),
            Name::DUP14 => Some(14),
            Name::DUP15 => Some(15),
            Name::DUP16 => Some(16),
            _ => None,
        }
    }

    /// The index of a `SWAP`, if the name is one.
    pub fn swap_index(self) -> (index: Option<usize>)
        ensures
            index == spec_swap_index(self),
            index matches Some(k) ==> 1 <= k <= 16,
    {
        match self {
            Name::SWAP1 => Some(1),
            Name::SWAP2 => Some(2),
            Name::SWAP3 => Some(3),
            Name::SWAP4 => Some(4),
            Name::SWAP5 => Some(5),
            Name::SWAP6 => Some(6),
            Name::SWAP7 => Some(7),
            Name::SWAP8 => Some(8),
            Name::SWAP9 => Some(9),
            Name::SWAP10 => Some(10),
            Name::SWAP11 => Some(11),
            Name::SWAP12 => Some(12),
            Name::SWAP13 => Some(13),
            Name::SWAP14 => Some(14),
            Name::SWAP15 => Some(15),
            Name::SWAP16 => Some(16),
            _ => None,
        }
    }

    /// Whether the name is a push of an immediate constant, of any form but `PUSH_Tag`.
    pub fn is_constant_push(self) -> (yes: bool)
        ensures
            yes == spec_is_constant_push(self),
    {
        match self {
            Name::PUSH | Name::PUSH_Data | Name::PUSH_ContractHash | Name::PUSH_ContractHashSize
            | Name::PUSHLIB | Name::PUSHDEPLOYADDRESS | Name::PUSH1 | Name::PUSH2 | Name::PUSH3
            | Name::PUSH4 | Name::PUSH5 | Name::PUSH6 | Name::PUSH7 | Name::PUSH8 | Name::PUSH9
            | Name::PUSH10 | Name::PUSH11 | Name::PUSH12 | Name::PUSH13 | Name::PUSH14
            | Name::PUSH15 | Name::PUSH16 | Name::PUSH17 | Name::PUSH18 | Name::PUSH19
            | Name::PUSH20 | Name::PUSH21 | Name::PUSH22 | Name::PUSH23 | Name::PUSH24
            | Name::PUSH25 | Name::PUSH26 | Name::PUSH27 | Name::PUSH28 | Name::PUSH29
            | Name::PUSH30 | Name::PUSH31 | Name::PUSH32 => true,
            _ => false,
        }
    }

    /// The number of stack slots that an instruction of this name takes.
    pub fn input_size(self, version: &Version) -> (size: usize)
        ensures
            size == spec_input_size(self, *version),
            size <= 7,
    {
        match self {
            Name::ASSIGNIMMUTABLE => if version.minor >= 8 { 2 } else { 1 },
            Name::JUMP | Name::POP | Name::ISZERO | Name::NOT | Name::MLOAD | Name::SLOAD
            | Name::CALLDATALOAD | Name::EXTCODESIZE | Name::EXTCODEHASH | Name::SELFDESTRUCT
            | Name::BALANCE | Name::BLOCKHASH => 1,
            Name::JUMPI | Name::ADD | Name::SUB | Name::MUL | Name::DIV | Name::MOD | Name::SDIV
            | Name::SMOD | Name::EXP | Name::SIGNEXTEND | Name::LT | Name::GT | Name::EQ
            | Name::SLT | Name::SGT | Name::AND | Name::OR | Name::XOR | Name::BYTE | Name::SHL
            | Name::SHR | Name::SAR | Name::MSTORE | Name::MSTORE8 | Name::SSTORE | Name::RETURN
            | Name::REVERT | Name::LOG0 | Name::KECCAK256 => 2,
            Name::ADDMOD | Name::MULMOD | Name::CALLDATACOPY | Name::CODECOPY
            | Name::RETURNDATACOPY | Name::LOG1 | Name::CREATE => 3,
            Name::EXTCODECOPY | Name::LOG2 | Name::CREATE2 => 4,
            Name::LOG3 => 5,
            Name::LOG4 | Name::STATICCALL | Name::DELEGATECALL => 6,
            Name::CALL | Name::CALLCODE => 7,
            _ => 0,
        }
    }

    /// The number of stack slots that an instruction of this name gives.
    pub fn output_size(self) -> (size: usize)
        ensures
            size == spec_output_size(self),
            size <= 1,
    {
        match self {
            Name::SWAP1 | Name::SWAP2 | Name::SWAP3 | Name::SWAP4 | Name::SWAP5 | Name::SWAP6
            | Name::SWAP7 | Name::SWAP8 | Name::SWAP9 | Name::SWAP10 | Name::SWAP11
            | Name::SWAP12 | Name::SWAP13 | Name::SWAP14 | Name::SWAP15 | Name::SWAP16
            | Name::Tag | Name::JUMP | Name::JUMPI | Name::JUMPDEST | Name::POP | Name::MSTORE
            | Name::MSTORE8 | Name::SSTORE | Name::ASSIGNIMMUTABLE | Name::CALLDATACOPY
            | Name::CODECOPY | Name::EXTCODECOPY | Name::RETURNDATACOPY | Name::RETURN
            | Name::REVERT | Name::STOP | Name::INVALID | Name::SELFDESTRUCT | Name::LOG0
            | Name::LOG1 | Name::LOG2 | Name::LOG3 | Name::LOG4 => 0,
            _ => 1,
        }
    }
}

} // verus!
