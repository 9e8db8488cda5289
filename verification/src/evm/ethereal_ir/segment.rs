//! The flat blocks of a listing.

use std::collections::HashMap;
use vstd::prelude::*;

use crate::evm::assembly::instruction_views;
use crate::evm::ethereal_ir::block::flat;
use crate::evm::ethereal_ir::block::Block;
use crate::evm::ethereal_ir::block::BlockView;
use crate::evm::ethereal_ir::function::block_map;
use crate::evm::instruction::name::Name;
use crate::evm::instruction::Instruction;
use crate::evm::instruction::InstructionView;
use crate::text::decimal;
use crate::text::parse_decimal;

verus! {

broadcast use vstd::std_specs::hash::group_hash_axioms;

/// Whether no instruction is reached from the one of the name by running
/// on behind it.
pub open spec fn ends_block(name: Name) -> bool {
    name == Name::JUMP || name == Name::RETURN || name == Name::REVERT || name == Name::STOP
        || name == Name::INVALID || name == Name::SELFDESTRUCT
}

/// The tag that a label declares, if the instruction is a label with a
/// decimal immediate.
pub open spec fn declared_tag(instruction: InstructionView) -> Option<usize> {
    if instruction.name == Name::Tag && instruction.value is Some {
        decimal(instruction.value->0)
    } else {
        None
    }
}

/// Where the cutting of a listing stands.
pub ghost struct Cut {
    /// The blocks that are complete, by tag.
    pub blocks: Map<usize, Seq<InstructionView>>,
    /// The tag of the block that is being filled.
    pub tag: usize,
    /// Whether a block is being filled: none is behind an instruction that
    /// ends a block, up to the next label.
    pub open: bool,
    /// The instructions of the block that is being filled.
    pub current: Seq<InstructionView>,
}

/// The cutting of the first `count` instructions. The listing starts in the
/// block of tag 0. A label completes the block before it, which it joins as
/// its last instruction where that block runs on into it, and starts the
/// block of its tag. An instruction that ends a block completes it; what
/// stands behind it up to the next label is never reached, and is left out.
pub open spec fn cut(instructions: Seq<InstructionView>, count: int) -> Cut
    decreases count,
{
    if count <= 0 || count > instructions.len() {
        Cut { blocks: Map::empty(), tag: 0, open: true, current: Seq::empty() }
    } else {
        let before = cut(instructions, count - 1);
        let instruction = instructions[count - 1];
        match declared_tag(instruction) {
            Some(tag) => Cut {
                blocks: if before.open {
                    before.blocks.insert(before.tag, before.current.push(instruction))
                } else {
                    before.blocks
                },
                tag,
                open: true,
                current: Seq::empty(),
            },
            None => if !before.open {
                before
            } else if ends_block(instruction.name) {
                Cut {
                    blocks: before.blocks.insert(before.tag, before.current.push(instruction)),
                    tag: before.tag,
                    open: false,
                    current: Seq::empty(),
                }
            } else {
                Cut { current: before.current.push(instruction), ..before }
            },
        }
    }
}

/// The instructions of the flat blocks of a listing, by tag. Where a tag is
/// declared twice, the later block counts.
pub open spec fn segments(instructions: Seq<InstructionView>) -> Map<usize, Seq<InstructionView>> {
    let end = cut(instructions, instructions.len() as int);
    if end.open {
        end.blocks.insert(end.tag, end.current)
    } else {
        end.blocks
    }
}

/// The flat blocks of the instructions by tag.
pub open spec fn flat_blocks(expected: Map<usize, Seq<InstructionView>>) -> Map<usize, BlockView> {
    Map::new(|tag: usize| expected.dom().contains(tag), |tag: usize| flat(tag, expected[tag]))
}

/// Whether the blocks are the flat blocks of the instructions by tag.
pub open spec fn holds(blocks: Map<usize, Block>, expected: Map<usize, Seq<InstructionView>>) -> bool {
    &&& blocks.dom() == expected.dom()
    &&& forall|tag: usize| #[trigger]
        expected.dom().contains(tag) ==> blocks[tag]@ == flat(tag, expected[tag])
}

fn ends(name: Name) -> (yes: bool)
    ensures
        yes == ends_block(name),
{
    name == Name::JUMP || name == Name::RETURN || name == Name::REVERT || name == Name::STOP
        || name == Name::INVALID || name == Name::SELFDESTRUCT
}

fn tag_of(instruction: &Instruction) -> (tag: Option<usize>)
    ensures
        tag == declared_tag(instruction@),
{
    if instruction.name == Name::Tag {
        match &instruction.value {
            Some(value) => parse_decimal(value.as_str()),
            None => None,
        }
    } else {
        None
    }
}

fn complete(blocks: &mut HashMap<usize, Block>, tag: usize, current: &mut Vec<Instruction>)
    ensures
        final(current)@.len() == 0,
        forall|expected: Map<usize, Seq<InstructionView>>|
            holds(old(blocks)@, expected) ==> #[trigger] holds(
                final(blocks)@,
                expected.insert(tag, instruction_views(old(current)@)),
            ),
{
    let mut instructions: Vec<Instruction> = Vec::new();
    core::mem::swap(current, &mut instructions);
    let ghost views = instruction_views(instructions@);
    let block = Block::new(tag, instructions);
    assert(instruction_views(old(current)@) =~= views);
    blocks.insert(tag, block);
    assert forall|expected: Map<usize, Seq<InstructionView>>|
        holds(old(blocks)@, expected) implies #[trigger] holds(
        blocks@,
        expected.insert(tag, views),
    ) by {
        assert(blocks@.dom() =~= expected.insert(tag, views).dom());
    }
}

/// Cuts a listing into its flat blocks: see [`cut`].
pub fn segment(instructions: &Vec<Instruction>) -> (blocks: HashMap<usize, Block>)
    ensures
        block_map(blocks@) == flat_blocks(segments(instruction_views(instructions@))),
{
    let ghost views = instruction_views(instructions@);
    let mut blocks: HashMap<usize, Block> = HashMap::new();
    let mut current: Vec<Instruction> = Vec::new();
    let mut tag: usize = 0;
    let mut open = true;
    let mut i: usize = 0;
    assert(instruction_views(current@) =~= Seq::<InstructionView>::empty());
    assert(blocks@.dom() =~= Map::<usize, Seq<InstructionView>>::empty().dom());
    while i < instructions.len()
        invariant
            i <= instructions.len(),
            views == instruction_views(instructions@),
            holds(blocks@, cut(views, i as int).blocks),
            cut(views, i as int).tag == tag,
            cut(views, i as int).open == open,
            cut(views, i as int).current == instruction_views(current@),
            !open ==> current@.len() == 0,
        decreases instructions.len() - i,
    {
        let ghost before = cut(views, i as int);
        let ghost listed = instruction_views(current@);
        assert(views[i as int] == instructions@[i as int]@);
        match tag_of(&instructions[i]) {
            Some(next) => {
                if open {
                    current.push(instructions[i].clone());
                    assert(instruction_views(current@) =~= listed.push(views[i as int]));
                    complete(&mut blocks, tag, &mut current);
                }
                assert(instruction_views(current@) =~= Seq::<InstructionView>::empty());
                tag = next;
                open = true;
            },
            None => {
                if open {
                    current.push(instructions[i].clone());
                    assert(instruction_views(current@) =~= listed.push(views[i as int]));
                    if ends(instructions[i].name) {
                        complete(&mut blocks, tag, &mut current);
                        assert(instruction_views(current@) =~= Seq::<InstructionView>::empty());
                        open = false;
                    }
                }
            },
        }
        i += 1;
    }
    if open {
        complete(&mut blocks, tag, &mut current);
    }
    assert(holds(blocks@, segments(views)));
    proof {
        let expected = segments(views);
        assert forall|tag: usize| #[trigger]
            block_map(blocks@).dom().contains(tag) <==> flat_blocks(expected).dom().contains(
                tag,
            ) by {
            assert(blocks@.dom().contains(tag) <==> expected.dom().contains(tag));
        }
        assert forall|tag: usize| #[trigger]
            flat_blocks(expected).dom().contains(tag) implies block_map(blocks@)[tag]
            == flat_blocks(expected)[tag] by {
            assert(expected.dom().contains(tag));
        }
        assert(block_map(blocks@) =~= flat_blocks(expected));
    }
    blocks
}

} // verus!
