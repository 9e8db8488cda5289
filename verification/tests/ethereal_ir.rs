use std::collections::HashMap;

use compiler_solidity::evm::error::Error;
use compiler_solidity::evm::ethereal_ir::block::Block;
use compiler_solidity::evm::ethereal_ir::function::Function;
use compiler_solidity::evm::ethereal_ir::stack::Element;
use compiler_solidity::evm::ethereal_ir::stack::Stack;
use compiler_solidity::evm::ethereal_ir::visited_element::Visited;
use compiler_solidity::evm::ethereal_ir::visited_element::VisitedElement;
use compiler_solidity::evm::instruction::name::Name;
use compiler_solidity::evm::instruction::Instruction;
use compiler_solidity::version::CodeType;
use compiler_solidity::version::Version;

fn plain(name: Name) -> Instruction {
    Instruction::new(name, None)
}

fn with(name: Name, value: &str) -> Instruction {
    Instruction::new(name, Some(value.to_owned()))
}

fn stack(elements: Vec<Element>) -> Stack {
    Stack { elements }
}

fn build(blocks: Vec<Block>) -> Result<Function, Error> {
    let mut map = HashMap::new();
    for block in blocks {
        map.insert(block.tag, block);
    }
    let mut visited = Visited::new();
    Function::new(Version::new(0, 8, 10), CodeType::Runtime, &map, &mut visited)
}

#[test]
fn minimal_jump() {
    let function = build(vec![
        Block::new(0, vec![with(Name::PUSH_Tag, "1"), plain(Name::JUMP), with(Name::Tag, "1")]),
        Block::new(1, vec![plain(Name::STOP)]),
    ])
    .expect("the listing is in order");

    assert_eq!(function.blocks.len(), 2);
    assert_eq!(function.blocks[0].tag, 0);
    assert_eq!(function.blocks[0].blocks.len(), 1);
    let entry = &function.blocks[0].blocks[0];
    assert_eq!(entry.elements[0].stack, stack(vec![Element::Tag(1)]));
    assert_eq!(entry.elements[1].stack, stack(vec![Element::Tag(1)]));
    assert_eq!(entry.elements[2].stack, stack(vec![]));
    assert_eq!(entry.stack, stack(vec![]));

    assert_eq!(function.blocks[1].tag, 1);
    assert_eq!(function.blocks[1].blocks.len(), 1);
    let target = &function.blocks[1].blocks[0];
    assert_eq!(target.initial_stack, stack(vec![]));
    assert_eq!(target.predecessors, vec![0]);
    assert_eq!(function.stack_size, 1);
    assert_eq!(function.name(), "function_runtime");
}

#[test]
fn divergent_reentry() {
    let function = build(vec![
        Block::new(
            0,
            vec![
                with(Name::PUSH_Tag, "3"),
                plain(Name::CALLVALUE),
                with(Name::PUSH_Tag, "2"),
                plain(Name::JUMP),
                with(Name::Tag, "1"),
            ],
        ),
        Block::new(
            1,
            vec![
                plain(Name::POP),
                plain(Name::POP),
                plain(Name::CALLVALUE),
                with(Name::PUSH_Tag, "3"),
                with(Name::PUSH_Tag, "2"),
                plain(Name::JUMP),
            ],
        ),
        Block::new(2, vec![plain(Name::STOP)]),
        Block::new(3, vec![plain(Name::STOP)]),
    ])
    .expect("the listing is in order");

    let clones = &function.blocks[2];
    assert_eq!(clones.tag, 2);
    assert_eq!(clones.blocks.len(), 2);
    assert_eq!(clones.blocks[0].initial_stack, stack(vec![Element::Tag(3), Element::Value]));
    assert_eq!(clones.blocks[1].initial_stack, stack(vec![Element::Value, Element::Tag(3)]));
    assert_eq!(clones.blocks[0].elements[0].stack, stack(vec![Element::Tag(3), Element::Value]));
    assert_eq!(clones.blocks[1].elements[0].stack, stack(vec![Element::Value, Element::Tag(3)]));
    assert_ne!(clones.blocks[0].initial_stack.hash(), clones.blocks[1].initial_stack.hash());
    assert_eq!(function.stack_size, 3);
    for group in function.blocks.iter() {
        for block in group.blocks.iter() {
            for element in block.elements.iter() {
                assert!(element.stack.elements.len() <= function.stack_size);
            }
        }
    }
}

#[test]
fn a_loop_is_visited_once() {
    let mut map = HashMap::new();
    map.insert(0, Block::new(0, vec![with(Name::Tag, "1")]));
    map.insert(1, Block::new(1, vec![with(Name::PUSH_Tag, "1"), plain(Name::JUMP)]));
    let mut visited = Visited::new();
    let function = Function::new(Version::new(0, 8, 10), CodeType::Deploy, &map, &mut visited)
        .expect("the listing is in order");
    assert_eq!(function.blocks[1].blocks.len(), 1);
    assert_eq!(function.blocks[1].blocks[0].predecessors, vec![0]);
    assert!(visited.contains(&VisitedElement::new(0, Stack::new().hash())));
    assert!(visited.contains(&VisitedElement::new(1, Stack::new().hash())));
    assert!(!visited.contains(&VisitedElement::new(2, Stack::new().hash())));
    assert_eq!(function.name(), "function_deploy");
}

#[test]
fn undeclared_block() {
    let result = build(vec![Block::new(0, vec![with(Name::PUSH_Tag, "7"), plain(Name::JUMP)])]);
    assert_eq!(result, Err(Error::UndeclaredBlock(7)));
    assert_eq!(build(vec![]), Err(Error::UndeclaredBlock(0)));
}

#[test]
fn malformed_control_flow() {
    let result = build(vec![Block::new(0, vec![plain(Name::CALLVALUE), plain(Name::JUMP)])]);
    assert_eq!(result, Err(Error::MalformedControlFlow));
    let result = build(vec![Block::new(0, vec![plain(Name::JUMPI)])]);
    assert_eq!(result, Err(Error::MalformedControlFlow));
}

#[test]
fn stack_underflow_and_invalid_tag() {
    assert_eq!(build(vec![Block::new(0, vec![plain(Name::SWAP1)])]), Err(Error::StackUnderflow));
    assert_eq!(build(vec![Block::new(0, vec![plain(Name::DUP1)])]), Err(Error::StackUnderflow));
    assert_eq!(
        build(vec![Block::new(0, vec![with(Name::PUSH_Tag, "one")])]),
        Err(Error::InvalidTag)
    );
    assert_eq!(
        build(vec![Block::new(0, vec![with(Name::Tag, "99999999999999999999999")])]),
        Err(Error::InvalidTag)
    );
}

#[test]
fn swap_and_dup_count_from_one() {
    let mut stack = stack(vec![
        Element::Constant("a".to_owned()),
        Element::Constant("b".to_owned()),
        Element::Constant("c".to_owned()),
    ]);
    stack.swap(1);
    assert_eq!(
        stack.elements,
        vec![
            Element::Constant("a".to_owned()),
            Element::Constant("c".to_owned()),
            Element::Constant("b".to_owned()),
        ]
    );
    stack.swap(2);
    assert_eq!(
        stack.elements,
        vec![
            Element::Constant("b".to_owned()),
            Element::Constant("c".to_owned()),
            Element::Constant("a".to_owned()),
        ]
    );
    stack.dup(1);
    assert_eq!(stack.elements.last(), Some(&Element::Constant("a".to_owned())));
    stack.dup(4);
    assert_eq!(stack.elements.last(), Some(&Element::Constant("b".to_owned())));
    assert_eq!(stack.len(), 5);
}

#[test]
fn fingerprint_values() {
    assert_eq!(Stack::new().hash(), 0xcbf2_9ce4_8422_2325);
    let value = stack(vec![Element::Value]).hash();
    assert_eq!(value, (0xcbf2_9ce4_8422_2325u64 ^ 3).wrapping_mul(0x0000_0100_0000_01b3));
    let tag = stack(vec![Element::Tag(7)]).hash();
    let step = (0xcbf2_9ce4_8422_2325u64 ^ 1).wrapping_mul(0x0000_0100_0000_01b3);
    assert_eq!(tag, (step ^ 7).wrapping_mul(0x0000_0100_0000_01b3));
    assert_ne!(
        stack(vec![Element::Constant("ab".to_owned())]).hash(),
        stack(vec![Element::Constant("ba".to_owned())]).hash()
    );
    assert_eq!(
        stack(vec![Element::Constant("ab".to_owned()), Element::Value]).hash(),
        stack(vec![Element::Constant("ab".to_owned()), Element::Value]).clone().hash()
    );
}

#[test]
fn tag_provenance_through_and_and_shifts() {
    let function = build(vec![
        Block::new(
            0,
            vec![
                with(Name::PUSH_Tag, "1"),
                with(Name::PUSH, "ffff"),
                plain(Name::AND),
                plain(Name::JUMP),
            ],
        ),
        Block::new(
            1,
            vec![
                with(Name::PUSH_Tag, "2"),
                with(Name::PUSH1, "00"),
                plain(Name::SHL),
                with(Name::PUSH1, "00"),
                with(Name::PUSH1, "01"),
                plain(Name::AND),
                plain(Name::POP),
                plain(Name::JUMP),
            ],
        ),
        Block::new(2, vec![plain(Name::STOP)]),
    ])
    .expect("the listing is in order");
    let entry = &function.blocks[0].blocks[0];
    assert_eq!(
        entry.elements[2].stack,
        stack(vec![Element::Tag(1), Element::Constant("ffff".to_owned()), Element::Tag(1)])
    );
    assert_eq!(entry.elements[3].stack, stack(vec![Element::Tag(1)]));
    let second = &function.blocks[1].blocks[0];
    assert_eq!(
        second.elements[2].stack,
        stack(vec![Element::Tag(2), Element::Constant("00".to_owned()), Element::Tag(2)])
    );
    assert_eq!(
        second.elements[5].stack,
        stack(vec![
            Element::Tag(2),
            Element::Constant("00".to_owned()),
            Element::Constant("01".to_owned()),
            Element::Value,
        ])
    );
    assert_eq!(function.blocks[2].blocks[0].initial_stack, stack(vec![]));
    assert_eq!(function.stack_size, 4);
}

#[test]
fn arity_depends_on_the_version() {
    let old = Version::new(0, 7, 6);
    let new = Version::new(0, 8, 0);
    assert_eq!(plain(Name::ASSIGNIMMUTABLE).input_size(&old), 1);
    assert_eq!(plain(Name::ASSIGNIMMUTABLE).input_size(&new), 2);
    assert_eq!(plain(Name::CALL).input_size(&new), 7);
    assert_eq!(plain(Name::CALL).output_size(), 1);
    assert_eq!(plain(Name::LOG4).input_size(&new), 6);
    assert_eq!(plain(Name::LOG4).output_size(), 0);
    assert_eq!(plain(Name::ADD).input_size(&old), 2);
    assert_eq!(plain(Name::PUSH32).output_size(), 1);
    assert_eq!(plain(Name::SSTORE).output_size(), 0);
}
