use compiler_solidity::compile;
use compiler_solidity::generator::context::Context;
use compiler_solidity::generator::intrinsic::Intrinsic;
use compiler_solidity::generator::operation::AddressSpace;
use compiler_solidity::generator::operation::Binary;
use compiler_solidity::generator::operation::Label;
use compiler_solidity::generator::operation::Operation;
use compiler_solidity::generator::operation::Predicate;
use compiler_solidity::generator::operation::Type;
use compiler_solidity::parse;
use compiler_solidity::yul::error::Error;
use compiler_solidity::yul::lexer::lexeme::Literal;
use compiler_solidity::yul::lexer::lexeme::LiteralKind;

fn decimal(text: &str) -> Literal {
    Literal { kind: LiteralKind::Decimal, text: text.to_owned() }
}

#[test]
fn ok_compile_void() {
    let input = r#"{
            function bar() {}

            function foo() -> x {
                x := 42
                bar()
            }
        }"#;

    compile(input).expect("compiles");
}

#[test]
fn ok_compile_non_void() {
    let input = r#"{
            function bar() -> x {
                x:= 42
            }

            function foo() -> x {
                x := bar()
            }
        }"#;

    compile(input).expect("compiles");
}

#[test]
fn ok_compile_with_arguments() {
    let input = r#"{
            function foo(z) -> x {
                let y := 3
                x := add(3, y)
            }
        }"#;

    compile(input).expect("compiles");
}

#[test]
fn ok_compile_builtin_add() {
    let input = r#"{
            function foo() -> x {let y := 3 x := add(3, y)}
        }"#;

    compile(input).expect("compiles");
}

#[test]
fn ok_compile_builtin_sub() {
    let input = r#"{
            function foo() -> x {let y := 3 x := sub(3, y)}
        }"#;

    compile(input).expect("compiles");
}

#[test]
fn ok_compile_builtin_mul() {
    let input = r#"{
            function foo() -> x {let y := 3 x := mul(3, y)}
        }"#;

    compile(input).expect("compiles");
}

#[test]
fn ok_compile_builtin_div() {
    let input = r#"{
            function foo() -> x {let y := 3 x := div(3, y)}
        }"#;

    compile(input).expect("compiles");
}

#[test]
fn ok_compile_builtin_sdiv() {
    let input = r#"{
            function foo() -> x {let y := 3 x := sdiv(3, y)}
        }"#;

    compile(input).expect("compiles");
}

#[test]
fn ok_compile_builtin_mod() {
    let input = r#"{
            function foo() -> x {let y := 3 x := mod(3, y)}
        }"#;

    compile(input).expect("compiles");
}

#[test]
fn ok_compile_builtin_smod() {
    let input = r#"{
            function foo() -> x {let y := 3 x := smod(3, y)}
        }"#;

    compile(input).expect("compiles");
}

#[test]
fn compile_records_the_operations_in_order() {
    let context = compile("{ function foo() -> x {let y := 3 x := add(3, y)} }").expect("compiles");
    let expected = vec![
        Operation::AddFunction {
            name: "foo".to_owned(),
            parameters: 0,
            results: 1,
            private: false,
            stack_size: None,
        },
        Operation::SetFunction { function: 0 },
        Operation::SetBasicBlock { block: 0 },
        Operation::Alloca { kind: Type::Integer(256), label: Label::Source("x".to_owned()) },
        Operation::SetFunction { function: 0 },
        Operation::SetBasicBlock { block: 0 },
        Operation::Constant {
            literal: Literal { kind: LiteralKind::Decimal, text: "3".to_owned() },
        },
        Operation::Alloca { kind: Type::Integer(256), label: Label::Source("y".to_owned()) },
        Operation::Store { pointer: 7, value: 6 },
        Operation::Constant {
            literal: Literal { kind: LiteralKind::Decimal, text: "3".to_owned() },
        },
        Operation::Load { pointer: 7, label: Label::Source("y".to_owned()) },
        Operation::Binary { operator: Binary::Add, left: 9, right: 10 },
        Operation::Store { pointer: 3, value: 11 },
        Operation::Branch { block: 1 },
        Operation::SetBasicBlock { block: 1 },
        Operation::Load { pointer: 3, label: Label::Result },
        Operation::Return { values: vec![15] },
    ];
    assert_eq!(context.operations, expected);
    assert_eq!(context.blocks, vec![true, true]);
    assert!(context.variables.is_empty());
}

#[test]
fn compile_turns_a_block_into_the_function_of_the_object() {
    let context = compile("{ { leave } }").expect("compiles");
    let expected = vec![
        Operation::AddFunction {
            name: "main".to_owned(),
            parameters: 0,
            results: 1,
            private: false,
            stack_size: None,
        },
        Operation::SetFunction { function: 0 },
        Operation::SetBasicBlock { block: 0 },
        Operation::Alloca { kind: Type::Integer(256), label: Label::Result },
        Operation::Branch { block: 1 },
        Operation::SetBasicBlock { block: 1 },
        Operation::Load { pointer: 3, label: Label::Anonymous },
        Operation::Return { values: vec![6] },
    ];
    assert_eq!(context.operations, expected);
}

#[test]
fn statements_behind_a_terminator_are_left_out() {
    let context = compile("{ { leave let a := 1 } }").expect("compiles");
    assert_eq!(context.operations.len(), 8);
    assert!(context.variables.is_empty());
    let context = compile("{ { for { } 1 { } { break let a := 1 } let b := 2 } }")
        .expect("compiles");
    let names: Vec<&Label> = context
        .operations
        .iter()
        .filter_map(|operation| match operation {
            Operation::Alloca { label, .. } => Some(label),
            _ => None,
        })
        .collect();
    assert_eq!(names, vec![&Label::Result, &Label::Source("b".to_owned())]);
}

#[test]
fn comparison_is_cast_to_a_word() {
    let context = compile("{ { let a := lt(1, 2) let b := iszero(a) } }").expect("compiles");
    let operations = &context.operations[4..];
    assert_eq!(operations[0], Operation::Constant { literal: decimal("1") });
    assert_eq!(operations[1], Operation::Constant { literal: decimal("2") });
    assert_eq!(
        operations[2],
        Operation::Compare { predicate: Predicate::UnsignedLess, left: 4, right: 5 }
    );
    assert_eq!(operations[3], Operation::Cast { value: 6, kind: Type::Integer(256) });
    assert_eq!(
        operations[4],
        Operation::Alloca { kind: Type::Integer(256), label: Label::Source("a".to_owned()) }
    );
    assert_eq!(operations[5], Operation::Store { pointer: 8, value: 7 });
    assert_eq!(operations[6], Operation::Load { pointer: 8, label: Label::Source("a".to_owned()) });
    assert_eq!(operations[7], Operation::Integer { kind: Type::Integer(256), number: 0 });
    assert_eq!(
        operations[8],
        Operation::Compare { predicate: Predicate::Equal, left: 10, right: 11 }
    );
    assert_eq!(operations[9], Operation::Cast { value: 12, kind: Type::Integer(256) });
}

#[test]
fn switch_lowering() {
    let context = compile("{ { let x := 1 switch x case 1 { } case 2 { leave } default { } } }")
        .expect("compiles");
    let tail = &context.operations[7..];
    let expected = vec![
        Operation::AppendBasicBlock { label: Label::SwitchJoin },
        Operation::Constant { literal: decimal("1") },
        Operation::AppendBasicBlock { label: Label::SwitchCase(1) },
        Operation::SetBasicBlock { block: 3 },
        Operation::SetFunction { function: 0 },
        Operation::SetBasicBlock { block: 3 },
        Operation::Branch { block: 2 },
        Operation::Constant { literal: decimal("2") },
        Operation::AppendBasicBlock { label: Label::SwitchCase(2) },
        Operation::SetBasicBlock { block: 4 },
        Operation::SetFunction { function: 0 },
        Operation::SetBasicBlock { block: 4 },
        Operation::Branch { block: 1 },
        Operation::AppendBasicBlock { label: Label::SwitchDefault },
        Operation::SetBasicBlock { block: 5 },
        Operation::SetFunction { function: 0 },
        Operation::SetBasicBlock { block: 5 },
        Operation::Branch { block: 2 },
        Operation::SetBasicBlock { block: 0 },
        Operation::Load { pointer: 5, label: Label::Source("x".to_owned()) },
        Operation::Switch { scrutinee: 26, default: 5, cases: vec![(8, 3), (14, 4)] },
        Operation::SetBasicBlock { block: 2 },
        Operation::SetBasicBlock { block: 1 },
        Operation::Load { pointer: 3, label: Label::Anonymous },
        Operation::Return { values: vec![30] },
    ];
    assert_eq!(tail, &expected[..]);
}

#[test]
fn switch_without_cases_is_its_default() {
    let with = compile("{ { switch 1 default { let a := 2 } } }").expect("compiles");
    let without = compile("{ { { let a := 2 } } }").expect("compiles");
    assert_eq!(with.operations, without.operations);
}

#[test]
fn assignment_to_several_targets_goes_through_an_aggregate() {
    let context = compile("{ function f() -> a, b { } { let x, y := f() } }").expect("compiles");
    let start = context
        .operations
        .iter()
        .position(|operation| matches!(operation, Operation::Call { .. }))
        .expect("the call is recorded");
    let call = start;
    let tail = &context.operations[start..];
    assert_eq!(
        tail[0],
        Operation::Call { name: "f".to_owned(), arguments: vec![], has_result: true }
    );
    assert_eq!(
        tail[1],
        Operation::Alloca { kind: Type::Integer(256), label: Label::Source("x".to_owned()) }
    );
    assert_eq!(
        tail[2],
        Operation::Alloca { kind: Type::Integer(256), label: Label::Source("y".to_owned()) }
    );
    assert_eq!(
        tail[3],
        Operation::Alloca { kind: Type::Structure(2), label: Label::AssignmentPointer }
    );
    assert_eq!(tail[4], Operation::Store { pointer: call + 3, value: call });
    assert_eq!(tail[5], Operation::Integer { kind: Type::Integer(256), number: 0 });
    assert_eq!(tail[6], Operation::Integer { kind: Type::Integer(32), number: 0 });
    assert_eq!(
        tail[7],
        Operation::ElementPointer {
            pointer: call + 3,
            indices: vec![call + 5, call + 6],
            label: Label::AssignmentBindingPointer(0),
        }
    );
    assert_eq!(
        tail[8],
        Operation::Load { pointer: call + 7, label: Label::AssignmentBindingValue(0) }
    );
    assert_eq!(tail[9], Operation::Store { pointer: call + 1, value: call + 8 });
    assert_eq!(tail[11], Operation::Integer { kind: Type::Integer(32), number: 1 });
    assert_eq!(tail[14], Operation::Store { pointer: call + 2, value: call + 13 });
}

#[test]
fn emission_errors() {
    assert_eq!(
        compile("{ { x := 1 } }"),
        Err(Error::UnknownName { name: "x".to_owned() })
    );
    assert_eq!(
        compile("{ { let a := g() } }"),
        Err(Error::UnknownName { name: "g".to_owned() })
    );
    assert_eq!(compile("{ { let a := add(1) } }"), Err(Error::MissingValue));
    assert_eq!(
        compile("{ function v() { } { let a := add(1, v()) } }"),
        Err(Error::MissingValue)
    );
    assert_eq!(compile("{ { break } }"), Err(Error::OutsideLoop));
    assert_eq!(compile("{ { continue } }"), Err(Error::OutsideLoop));
    assert!(compile("{ { break } }").unwrap_err().is_semantic());
    assert!(compile("{ ").unwrap_err().is_syntax());
    assert!(compile("{ ? }").unwrap_err().is_lexical());
    let block = parse("{ leave }").expect("parses");
    let mut context = Context::new();
    assert_eq!(block.into_llvm_local(&mut context), Err(Error::OutsideFunction));
}

#[test]
fn functions_can_call_those_defined_behind_them() {
    let context = compile("{ function a() { b() } function b() { } }").expect("compiles");
    assert_eq!(context.functions.len(), 2);
    assert_eq!(context.functions[1].name, "b");
    assert_eq!(context.functions[1].entry_block, 2);
    assert_eq!(context.functions[1].return_block, 3);
    assert!(context
        .operations
        .contains(&Operation::Call { name: "b".to_owned(), arguments: vec![], has_result: false }));
}

#[test]
fn intrinsic_names_and_types() {
    assert_eq!(Intrinsic::StorageLoad.name(), "llvm.syncvm.sload");
    assert_eq!(Intrinsic::MemoryCopyToChild.name(), "llvm.memcpy");
    assert_eq!(Intrinsic::MemoryMove.name(), "llvm.memmov");
    assert_eq!(Intrinsic::LesserFlag.name(), "llvm.syncvm.ltflag");
    assert_eq!(Intrinsic::Throw.argument_types(), vec![]);
    assert_eq!(
        Intrinsic::MemoryCopyFromParent.argument_types(),
        vec![
            Type::Pointer(256, AddressSpace::Stack),
            Type::Pointer(256, AddressSpace::Parent),
            Type::Integer(256),
        ]
    );
    assert_eq!(
        Intrinsic::MemorySet.argument_types(),
        vec![Type::Pointer(256, AddressSpace::Stack), Type::Integer(256)]
    );
}

#[test]
fn the_tail_is_cut_without_a_current_block_too() {
    let mut context = Context::new();
    context.add_function("f".to_owned(), 0, 0, false, None);
    context.set_function(0);
    assert_eq!(context.block, None);
    let block = parse("{ { leave } let a := 1 }").expect("parses");
    assert_eq!(block.into_llvm_local(&mut context), Ok(()));
    assert_eq!(
        context.operations[2..],
        [Operation::SetFunction { function: 0 }, Operation::Branch { block: 1 }]
    );
    assert!(context.terminated);
    assert!(context.variables.is_empty());
    assert_eq!(context.blocks, vec![false, false]);

    context.set_basic_block(0);
    assert!(!context.terminated);
    let block = parse("{ let a := iszero(1) }").expect("parses");
    assert_eq!(block.into_llvm_local(&mut context), Ok(()));
    assert_eq!(context.variables.len(), 1);
}
