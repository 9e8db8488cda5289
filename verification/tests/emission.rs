use std::collections::HashMap;

use compiler_solidity::evm::assembly::Assembly;
use compiler_solidity::evm::assembly::Data;
use compiler_solidity::evm::assembly::DataEntry;
use compiler_solidity::evm::error::Error;
use compiler_solidity::evm::ethereal_ir::block::Block;
use compiler_solidity::evm::ethereal_ir::function::Function;
use compiler_solidity::evm::ethereal_ir::segment::segment;
use compiler_solidity::evm::ethereal_ir::stack::Stack;
use compiler_solidity::evm::ethereal_ir::visited_element::Visited;
use compiler_solidity::evm::instruction::codecopy::contract_hash;
use compiler_solidity::evm::instruction::codecopy::library_marker;
use compiler_solidity::evm::instruction::codecopy::static_data;
use compiler_solidity::evm::instruction::name::Name;
use compiler_solidity::evm::instruction::Instruction;
use compiler_solidity::generator::context::Context;
use compiler_solidity::generator::intrinsic::Intrinsic;
use compiler_solidity::generator::operation::Binary;
use compiler_solidity::generator::operation::Label;
use compiler_solidity::generator::operation::Operation;
use compiler_solidity::generator::operation::Predicate;
use compiler_solidity::generator::operation::Type;
use compiler_solidity::project::EmissionError;
use compiler_solidity::project::Source;
use compiler_solidity::version::CodeType;
use compiler_solidity::version::Version;
use compiler_solidity::yul::error::Error as YulError;
use compiler_solidity::yul::lexer::Lexer;
use compiler_solidity::yul::parser::ast::Object;

fn with(name: Name, value: &str) -> Instruction {
    Instruction::new(name, Some(value.to_owned()))
}

fn plain(name: Name) -> Instruction {
    Instruction::new(name, None)
}

fn function_of(instructions: Vec<Instruction>) -> Result<Function, Error> {
    let blocks: HashMap<usize, Block> = segment(&instructions);
    let mut visited = Visited::new();
    Function::new(Version::new(0, 8, 10), CodeType::Runtime, &blocks, &mut visited)
}

#[test]
fn a_listing_is_cut_at_labels_and_terminators() {
    let blocks = segment(&vec![
        with(Name::PUSH_Tag, "1"),
        plain(Name::JUMP),
        plain(Name::ADD),
        with(Name::Tag, "1"),
        plain(Name::CALLVALUE),
        with(Name::Tag, "2"),
        plain(Name::STOP),
        with(Name::Tag, "zero"),
    ]);
    assert_eq!(blocks.len(), 3);
    assert_eq!(blocks[&0], Block::new(0, vec![with(Name::PUSH_Tag, "1"), plain(Name::JUMP)]));
    assert_eq!(blocks[&1], Block::new(1, vec![plain(Name::CALLVALUE), with(Name::Tag, "2")]));
    assert_eq!(blocks[&2], Block::new(2, vec![plain(Name::STOP)]));
    let empty = segment(&vec![]);
    assert_eq!(empty.len(), 1);
    assert_eq!(empty[&0], Block::new(0, vec![]));
}

#[test]
fn minimal_jump_from_the_listing() {
    let function = function_of(vec![
        with(Name::PUSH_Tag, "1"),
        plain(Name::JUMP),
        with(Name::Tag, "1"),
        plain(Name::STOP),
    ])
    .expect("the listing is in order");
    assert_eq!(function.blocks.len(), 2);
    assert_eq!(function.blocks[0].blocks.len(), 1);
    assert_eq!(function.blocks[0].blocks[0].stack, Stack::new());
    assert_eq!(function.blocks[1].tag, 1);
    assert_eq!(function.blocks[1].blocks[0].initial_stack, Stack::new());
    assert_eq!(function.stack_size, 1);
}

#[test]
fn function_emission() {
    let function = function_of(vec![
        plain(Name::CALLVALUE),
        with(Name::PUSH_Tag, "1"),
        plain(Name::JUMPI),
        with(Name::PUSH_Tag, "1"),
        plain(Name::JUMP),
        with(Name::Tag, "1"),
        plain(Name::STOP),
    ])
    .expect("the listing is in order");
    assert_eq!(function.stack_size, 2);
    let mut context = Context::new();
    function.declare(&mut context);
    assert_eq!(
        context.operations,
        vec![Operation::AddFunction {
            name: "function_runtime".to_owned(),
            parameters: 0,
            results: 0,
            private: true,
            stack_size: Some(2),
        }]
    );
    assert_eq!(function.into_llvm(&mut context), Ok(()));
    let expected = vec![
        Operation::AddFunction {
            name: "function_runtime".to_owned(),
            parameters: 0,
            results: 0,
            private: true,
            stack_size: Some(2),
        },
        Operation::SetFunction { function: 0 },
        Operation::AppendBasicBlock { label: Label::Block(0, 0) },
        Operation::AppendBasicBlock { label: Label::Block(1, 0) },
        Operation::SetBasicBlock { block: 0 },
        Operation::Alloca { kind: Type::Integer(256), label: Label::StackVariable(0) },
        Operation::Alloca { kind: Type::Integer(256), label: Label::StackVariable(1) },
        Operation::Branch { block: 2 },
        Operation::SetBasicBlock { block: 2 },
        Operation::Instruction { instruction: plain(Name::CALLVALUE), depth: 1 },
        Operation::Integer { kind: Type::Integer(256), number: 1 },
        Operation::Store { pointer: 6, value: 10 },
        Operation::Load { pointer: 5, label: Label::Anonymous },
        Operation::Integer { kind: Type::Integer(256), number: 0 },
        Operation::Compare { predicate: Predicate::NotEqual, left: 12, right: 13 },
        Operation::AppendBasicBlock { label: Label::IfJoin },
        Operation::ConditionalBranch { condition: 14, then: 3, otherwise: 4 },
        Operation::SetBasicBlock { block: 4 },
        Operation::Integer { kind: Type::Integer(256), number: 1 },
        Operation::Store { pointer: 5, value: 18 },
        Operation::Branch { block: 3 },
        Operation::SetBasicBlock { block: 3 },
        Operation::Branch { block: 1 },
        Operation::AppendBasicBlock { label: Label::Catch },
        Operation::AppendBasicBlock { label: Label::Throw },
        Operation::SetBasicBlock { block: 5 },
        Operation::Branch { block: 6 },
        Operation::SetBasicBlock { block: 6 },
        Operation::Intrinsic {
            intrinsic: Intrinsic::Throw,
            arguments: vec![],
            has_result: false,
        },
        Operation::SetBasicBlock { block: 1 },
        Operation::Return { values: vec![] },
    ];
    assert_eq!(context.operations, expected);
}

#[test]
fn function_emission_failures() {
    let function = function_of(vec![plain(Name::STOP)]).expect("the listing is in order");
    let mut context = Context::new();
    assert_eq!(function.into_llvm(&mut context), Err(Error::UndeclaredFunction));

    let mut function = function_of(vec![plain(Name::STOP)]).expect("the listing is in order");
    function.blocks.clear();
    let mut context = Context::new();
    function.declare(&mut context);
    assert_eq!(function.into_llvm(&mut context), Err(Error::UndeclaredBlock(0)));
}

#[test]
fn copies() {
    let mut context = Context::new();
    assert_eq!(contract_hash(&mut context, [7, 8, 9]), None);
    assert_eq!(
        context.operations,
        vec![
            Operation::Integer { kind: Type::Integer(256), number: 36 },
            Operation::Binary { operator: Binary::Add, left: 7, right: 0 },
            Operation::MemoryStore { offset: 1, value: 8, byte: false },
        ]
    );

    let mut context = Context::new();
    assert_eq!(library_marker(&mut context, "0b", "73"), None);
    assert_eq!(
        context.operations,
        vec![
            Operation::Word { hexadecimal: true, text: "0b".to_owned() },
            Operation::Word { hexadecimal: true, text: "73".to_owned() },
            Operation::MemoryStore { offset: 0, value: 1, byte: true },
        ]
    );

    let mut context = Context::new();
    let source = format!("{}{}", "ab".repeat(32), "cdef");
    assert_eq!(static_data(&mut context, [3, 0, 0], &source), None);
    assert_eq!(
        context.operations,
        vec![
            Operation::Integer { kind: Type::Integer(256), number: 0 },
            Operation::Binary { operator: Binary::Add, left: 3, right: 0 },
            Operation::Word { hexadecimal: false, text: "ab".repeat(32) },
            Operation::MemoryStore { offset: 1, value: 2, byte: false },
            Operation::Integer { kind: Type::Integer(256), number: 32 },
            Operation::Binary { operator: Binary::Add, left: 3, right: 4 },
            Operation::Word { hexadecimal: false, text: format!("cdef{}", "0".repeat(60)) },
            Operation::MemoryStore { offset: 5, value: 6, byte: false },
        ]
    );
    let mut context = Context::new();
    assert_eq!(static_data(&mut context, [3, 0, 0], ""), None);
    assert!(context.operations.is_empty());
}

#[test]
fn a_snapshot_deeper_than_the_stack_of_its_function() {
    let mut function = function_of(vec![
        plain(Name::CALLVALUE),
        with(Name::PUSH_Tag, "1"),
        plain(Name::JUMPI),
        with(Name::Tag, "1"),
        plain(Name::STOP),
    ])
    .expect("the listing is in order");
    assert_eq!(function.stack_size, 2);
    function.stack_size = 1;
    let mut context = Context::new();
    function.declare(&mut context);
    assert_eq!(function.into_llvm(&mut context), Err(Error::StackOverflow));
}

#[test]
fn an_assembly_is_emitted_part_by_part() {
    let runtime = Assembly::new(Some(vec![plain(Name::STOP)]), None, vec![]);
    let assembly = Assembly::new(
        Some(vec![with(Name::PUSH_Tag, "1"), plain(Name::JUMP), with(Name::Tag, "1")]),
        Some(vec![
            DataEntry { key: "1".to_owned(), value: Data::Hash("00".to_owned()) },
            DataEntry { key: "0".to_owned(), value: Data::Assembly(runtime) },
        ]),
        vec![],
    );
    assert_eq!(assembly.runtime().and_then(|runtime| runtime.code.clone()), Some(vec![plain(Name::STOP)]));
    let mut context = Context::new();
    assert_eq!(assembly.into_llvm(Version::new(0, 8, 10), &mut context), Ok(()));
    assert_eq!(context.functions.len(), 2);
    assert_eq!(context.functions[0].name, "function_deploy");
    assert_eq!(context.functions[1].name, "function_runtime");
    assert_eq!(
        context.operations[0],
        Operation::AddFunction {
            name: "function_deploy".to_owned(),
            parameters: 0,
            results: 0,
            private: true,
            stack_size: Some(1),
        }
    );
    assert_eq!(context.functions[1].return_block, 7);
    assert!(context.operations.contains(&Operation::Branch { block: 7 }));

    let source = Source::new_evm(Assembly::new(
        Some(vec![with(Name::PUSH_Tag, "9"), plain(Name::JUMP)]),
        None,
        vec![],
    ));
    let mut context = Context::new();
    assert_eq!(
        source.into_llvm(Version::new(0, 8, 10), &mut context),
        Err(EmissionError::Evm(Error::UndeclaredBlock(9)))
    );
}

#[test]
fn an_object_is_emitted_with_the_object_nested_in_it() {
    let mut lexer = Lexer::new(
        "object \"A\" { code { { leave } } object \"A_deployed\" { code { { } } } data \"m\" hex\"00\" }"
            .to_owned(),
    );
    let object = Object::parse(&mut lexer, None).expect("the object parses");
    assert_eq!(object.name, "A");
    let source = Source::new_yul(String::new(), object);
    let mut context = Context::new();
    assert_eq!(source.into_llvm(Version::new(0, 8, 10), &mut context), Ok(()));
    let names: Vec<&str> =
        context.functions.iter().map(|function| function.name.as_str()).collect();
    assert_eq!(names, vec!["A", "A_deployed"]);

    let mut lexer = Lexer::new("object \"B\" { code { { x := 1 } } }".to_owned());
    let object = Object::parse(&mut lexer, None).expect("the object parses");
    let mut context = Context::new();
    assert_eq!(
        Source::new_yul(String::new(), object).into_llvm(Version::new(0, 8, 10), &mut context),
        Err(EmissionError::Yul(YulError::UnknownName { name: "x".to_owned() }))
    );
}

#[test]
fn names_of_the_listing() {
    assert_eq!(Name::from_wire(&"PUSH [tag]".to_owned()), Some(Name::PUSH_Tag));
    assert_eq!(Name::from_wire(&"PUSH data".to_owned()), Some(Name::PUSH_Data));
    assert_eq!(Name::from_wire(&"PUSH #[$]".to_owned()), Some(Name::PUSH_ContractHash));
    assert_eq!(Name::from_wire(&"PUSH [$]".to_owned()), Some(Name::PUSH_ContractHashSize));
    assert_eq!(Name::from_wire(&"tag".to_owned()), Some(Name::Tag));
    assert_eq!(Name::from_wire(&"SHA3".to_owned()), Some(Name::KECCAK256));
    assert_eq!(Name::from_wire(&"KECCAK256".to_owned()), Some(Name::KECCAK256));
    assert_eq!(Name::from_wire(&"SUICIDE".to_owned()), Some(Name::SELFDESTRUCT));
    assert_eq!(Name::from_wire(&"SWAP16".to_owned()), Some(Name::SWAP16));
    assert_eq!(Name::from_wire(&"swap16".to_owned()), None);
    assert_eq!(Name::from_wire(&"".to_owned()), None);
    assert_eq!(Name::PUSH_Tag.wire(), "PUSH [tag]");
    assert_eq!(Name::KECCAK256.wire(), "KECCAK256");
    assert_eq!(Name::from_wire(&Name::MSIZE.wire().to_owned()), Some(Name::MSIZE));
}

fn translated(instructions: Vec<Instruction>) -> Result<Vec<Operation>, Error> {
    let function = function_of(instructions)?;
    let mut context = Context::new();
    function.declare(&mut context);
    let slots = function.stack_size;
    function.into_llvm(&mut context)?;
    let start = 6 + slots;
    let end = context.operations.len() - 8;
    Ok(context.operations.drain(start..end).collect())
}

#[test]
fn instructions_work_on_the_stack_slots() {
    let operations = translated(vec![
        with(Name::PUSH1, "2a"),
        with(Name::PUSH, "01"),
        plain(Name::DUP2),
        plain(Name::SWAP1),
        plain(Name::SUB),
        plain(Name::SHL),
        plain(Name::ISZERO),
        plain(Name::INVALID),
    ])
    .expect("the listing is in order");
    assert_eq!(
        operations,
        vec![
            Operation::Word { hexadecimal: true, text: "2a".to_owned() },
            Operation::Store { pointer: 4, value: 10 },
            Operation::Word { hexadecimal: true, text: "01".to_owned() },
            Operation::Store { pointer: 5, value: 12 },
            Operation::Load { pointer: 4, label: Label::Anonymous },
            Operation::Store { pointer: 6, value: 14 },
            Operation::Load { pointer: 6, label: Label::Anonymous },
            Operation::Load { pointer: 5, label: Label::Anonymous },
            Operation::Store { pointer: 6, value: 17 },
            Operation::Store { pointer: 5, value: 16 },
            Operation::Load { pointer: 6, label: Label::Anonymous },
            Operation::Load { pointer: 5, label: Label::Anonymous },
            Operation::Binary { operator: Binary::Sub, left: 20, right: 21 },
            Operation::Store { pointer: 5, value: 22 },
            Operation::Load { pointer: 5, label: Label::Anonymous },
            Operation::Load { pointer: 4, label: Label::Anonymous },
            Operation::Binary { operator: Binary::ShiftLeft, left: 25, right: 24 },
            Operation::Store { pointer: 4, value: 26 },
            Operation::Load { pointer: 4, label: Label::Anonymous },
            Operation::Integer { kind: Type::Integer(256), number: 0 },
            Operation::Compare { predicate: Predicate::Equal, left: 28, right: 29 },
            Operation::Cast { value: 30, kind: Type::Integer(256) },
            Operation::Store { pointer: 4, value: 31 },
            Operation::Intrinsic {
            intrinsic: Intrinsic::Throw,
            arguments: vec![],
            has_result: false,
        },
        ]
    );
}

#[test]
fn comparison_of_the_two_topmost_slots() {
    let operations = translated(vec![
        plain(Name::CALLVALUE),
        plain(Name::CALLDATASIZE),
        plain(Name::LT),
    ])
    .expect("the listing is in order");
    assert_eq!(
        operations,
        vec![
            Operation::Instruction { instruction: plain(Name::CALLVALUE), depth: 1 },
            Operation::Instruction { instruction: plain(Name::CALLDATASIZE), depth: 2 },
            Operation::Load { pointer: 5, label: Label::Anonymous },
            Operation::Load { pointer: 4, label: Label::Anonymous },
            Operation::Compare { predicate: Predicate::UnsignedLess, left: 11, right: 12 },
            Operation::Cast { value: 13, kind: Type::Integer(256) },
            Operation::Store { pointer: 4, value: 14 },
        ]
    );
    assert_eq!(translated(vec![plain(Name::CALLVALUE), plain(Name::ADD)]), Err(Error::StackUnderflow));
}

#[test]
fn the_text_of_a_function() {
    let function = function_of(vec![
        with(Name::PUSH_Tag, "1"),
        plain(Name::JUMP),
        with(Name::Tag, "1"),
        with(Name::PUSH1, "2a"),
        plain(Name::CALLVALUE),
        plain(Name::STOP),
    ])
    .expect("the listing is in order");
    let expected = [
        "function runtime (max_sp = 2) {\n".to_owned(),
        format!("{:92}{}\n", "block_0/0: ", "[ ]"),
        format!("{:92}{}\n", "    PUSH [tag] 1", "[ T_1 ]"),
        format!("{:92}{}\n", "    JUMP", "[ T_1 ]"),
        format!("{:92}{}\n", "block_1/0: (predecessors: [0])", "[ ]"),
        format!("{:92}{}\n", "    PUSH1 2a", "[ 2a ]"),
        format!("{:92}{}\n", "    CALLVALUE", "[ 2a V ]"),
        format!("{:92}{}\n", "    STOP", "[ 2a V ]"),
        "}\n".to_owned(),
    ]
    .concat();
    assert_eq!(function.to_text(), expected);

    let mut long = function_of(vec![with(Name::PUSH1, &"f".repeat(100))])
        .expect("the listing is in order");
    long.code_type = CodeType::Deploy;
    long.blocks[0].blocks[0].predecessors = vec![3, 14];
    let text = long.to_text();
    assert!(text.starts_with("function deploy (max_sp = 1) {\n"));
    assert!(text.contains(&format!("{:92}[ ]\n", "block_0/0: (predecessors: [3, 14])")));
    assert!(text.contains(&format!("    PUSH1 {}[ {} ]\n", "f".repeat(100), "f".repeat(100))));
    assert!(text.ends_with("}\n"));
}

#[test]
fn instructions_of_the_target_become_intrinsic_calls() {
    let operations = translated(vec![
        with(Name::PUSH1, "01"),
        plain(Name::SLOAD),
        with(Name::PUSH1, "02"),
        plain(Name::SSTORE),
        plain(Name::STOP),
    ])
    .expect("the listing is in order");
    assert_eq!(
        operations,
        vec![
            Operation::Word { hexadecimal: true, text: "01".to_owned() },
            Operation::Store { pointer: 4, value: 8 },
            Operation::Load { pointer: 4, label: Label::Anonymous },
            Operation::Intrinsic {
                intrinsic: Intrinsic::StorageLoad,
                arguments: vec![10],
                has_result: true,
            },
            Operation::Store { pointer: 4, value: 11 },
            Operation::Word { hexadecimal: true, text: "02".to_owned() },
            Operation::Store { pointer: 5, value: 13 },
            Operation::Load { pointer: 5, label: Label::Anonymous },
            Operation::Load { pointer: 4, label: Label::Anonymous },
            Operation::Intrinsic {
                intrinsic: Intrinsic::StorageStore,
                arguments: vec![15, 16],
                has_result: false,
            },
            Operation::Branch { block: 1 },
        ]
    );

    let operations = translated(vec![
        plain(Name::CALLDATASIZE),
        plain(Name::CALLVALUE),
        plain(Name::RETURN),
    ])
    .expect("the listing is in order");
    assert_eq!(
        operations[2..],
        [
            Operation::Load { pointer: 5, label: Label::Anonymous },
            Operation::Load { pointer: 4, label: Label::Anonymous },
            Operation::Intrinsic {
                intrinsic: Intrinsic::MemoryCopyToParent,
                arguments: vec![10, 11],
                has_result: false,
            },
            Operation::Branch { block: 1 },
        ]
    );
    assert_eq!(translated(vec![plain(Name::SLOAD)]), Err(Error::StackUnderflow));
    assert_eq!(
        translated(vec![plain(Name::CALLVALUE), plain(Name::LOG1)]),
        Err(Error::StackUnderflow)
    );
}
