//! The emission of a function of the Ethereal IR.

use vstd::prelude::*;

use crate::evm::error::Error;
use crate::evm::ethereal_ir::block::Block;
use crate::evm::ethereal_ir::block::BlockElement;
use crate::evm::ethereal_ir::block::BlockElementView;
use crate::evm::ethereal_ir::block::BlockView;
use crate::evm::ethereal_ir::function::Clones;
use crate::evm::ethereal_ir::function::ClonesView;
use crate::evm::ethereal_ir::function::Function;
use crate::evm::ethereal_ir::function::FunctionView;
use crate::evm::ethereal_ir::stack::fingerprint;
use crate::evm::ethereal_ir::stack::without_top;
use crate::evm::ethereal_ir::stack::ElementView;
use crate::evm::ethereal_ir::stack::Element;
use crate::evm::ethereal_ir::stack::FINGERPRINT_OFFSET;
use crate::evm::ethereal_ir::translate::slot;
use crate::evm::ethereal_ir::translate::translate;
use crate::evm::ethereal_ir::translate::translate_element;
use crate::evm::ethereal_ir::translate::Registers;
use crate::generator::context::terminated;
use crate::evm::instruction::name::Name;
use crate::generator::context::append;
use crate::generator::context::declare;
use crate::generator::context::enter;
use crate::generator::context::find;
use crate::generator::context::next;
use crate::generator::context::position;
use crate::generator::context::record;
use crate::generator::context::Context;
use crate::generator::context::ContextView;
use crate::generator::intrinsic::Intrinsic;
use crate::generator::operation::Label;
use crate::generator::operation::LabelView;
use crate::generator::operation::Operation;
use crate::generator::operation::OperationView;
use crate::generator::operation::Predicate;
use crate::generator::operation::Type;
use crate::generator::operation::BITLENGTH_FIELD;
use crate::yul::emit::model::branch;
use crate::yul::emit::model::field;
use crate::yul::emit::model::nonzero;
use crate::version::CodeType;

verus! {

/// The name that a function of the part of the contract is declared under.
pub open spec fn function_name(code_type: CodeType) -> Seq<char> {
    match code_type {
        CodeType::Deploy => "function_deploy"@,
        CodeType::Runtime => "function_runtime"@,
    }
}

/// The number of clones of the tags before the index.
pub open spec fn clones_before(groups: Seq<ClonesView>, index: int) -> nat
    decreases index,
{
    if index <= 0 || index > groups.len() {
        0
    } else {
        clones_before(groups, index - 1) + groups[index - 1].blocks.len()
    }
}

/// The index of the first of the blocks, at or behind `from`, that was
/// entered with a stack of the fingerprint.
pub open spec fn clone_of(blocks: Seq<BlockView>, hash: u64, from: int) -> Option<int>
    decreases blocks.len() - from,
{
    if 0 <= from < blocks.len() {
        if fingerprint(blocks[from].initial_stack) == hash {
            Some(from)
        } else {
            clone_of(blocks, hash, from + 1)
        }
    } else {
        None
    }
}

/// The place of the clone of the tag that was entered with a stack of the
/// fingerprint, among all clones in the order of emission: by ascending
/// tag, then by the index of the clone. The tags are looked through from
/// the index on.
pub open spec fn place_of(groups: Seq<ClonesView>, tag: usize, hash: u64, from: int) -> Option<int>
    decreases groups.len() - from,
{
    if 0 <= from < groups.len() {
        if groups[from].tag == tag {
            match clone_of(groups[from].blocks, hash, 0) {
                Some(index) => Some(clones_before(groups, from) + index),
                None => None,
            }
        } else {
            place_of(groups, tag, hash, from + 1)
        }
    } else {
        None
    }
}

/// A block is appended for each clone of the tag, from the index on.
pub open spec fn append_clones(context: ContextView, tag: usize, count: int, from: int) -> ContextView
    decreases count - from,
{
    if 0 <= from < count {
        append_clones(
            append(context, LabelView::Block(tag, from as usize)),
            tag,
            count,
            from + 1,
        )
    } else {
        context
    }
}

/// A block is appended for each clone of each tag, from the index on.
pub open spec fn append_blocks(context: ContextView, groups: Seq<ClonesView>, from: int) -> ContextView
    decreases groups.len() - from,
{
    if 0 <= from < groups.len() {
        append_blocks(
            append_clones(context, groups[from].tag, groups[from].blocks.len() as int, 0),
            groups,
            from + 1,
        )
    } else {
        context
    }
}

/// A slot is reserved for each stack element of the function, from the
/// index on.
pub open spec fn reserve_stack(context: ContextView, size: int, from: int) -> ContextView
    decreases size - from,
{
    if 0 <= from < size {
        reserve_stack(
            record(
                context,
                OperationView::Alloca { kind: field(), label: LabelView::StackVariable(from as usize) },
            ),
            size,
            from + 1,
        )
    } else {
        context
    }
}

/// Where the emission of the blocks of a function finds what it needs.
pub ghost struct Frame {
    /// The clones of the function.
    pub groups: Seq<ClonesView>,
    /// The number of the block of the first clone.
    pub first_block: usize,
    /// The stack slots and the return block of the function.
    pub registers: Registers,
}

/// The number of the block of a clone: see [`place_of`].
pub open spec fn block_of(frame: Frame, tag: usize, stack: Seq<ElementView>) -> Option<usize> {
    match place_of(frame.groups, tag, fingerprint(stack), 0) {
        Some(place) => Some((frame.first_block + place) as usize),
        None => None,
    }
}

/// An instruction with its snapshot. A jump becomes a branch to the clone of
/// its destination that is entered with the stack behind the jump; a
/// conditional jump tests the element under the destination, and goes on in
/// a block of its own; a label becomes a branch to the clone that is
/// entered with the stack as it is. Any other instruction is translated:
/// see [`translate`].
pub open spec fn emit_element(context: ContextView, element: BlockElementView, frame: Frame) -> Result<
    ContextView,
    Error,
> {
    let name = element.instruction.name;
    let stack = element.stack;
    if name == Name::JUMP || name == Name::JUMPI {
        if stack.len() > 0 && stack.last() is Tag {
            let tag = stack.last()->Tag_0;
            if name == Name::JUMP {
                match block_of(frame, tag, without_top(stack, 1)) {
                    Some(block) => Ok(record(context, OperationView::Branch { block })),
                    None => Err(Error::UndeclaredBlock(tag)),
                }
            } else if stack.len() < 2 {
                Err(Error::StackUnderflow)
            } else if stack.len() > frame.registers.count {
                Err(Error::StackOverflow)
            } else {
                match block_of(frame, tag, without_top(stack, 2)) {
                    None => Err(Error::UndeclaredBlock(tag)),
                    Some(block) => {
                        let loaded = record(
                            context,
                            OperationView::Load {
                                pointer: slot(frame.registers, stack.len() - 2),
                                label: LabelView::Anonymous,
                            },
                        );
                        let (tested, condition) = nonzero(loaded, next(context));
                        let otherwise = tested.blocks.len() as usize;
                        Ok(
                            position(
                                record(
                                    append(tested, LabelView::IfJoin),
                                    OperationView::ConditionalBranch {
                                        condition,
                                        then: block,
                                        otherwise,
                                    },
                                ),
                                otherwise,
                            ),
                        )
                    },
                }
            }
        } else {
            Err(Error::MalformedControlFlow)
        }
    } else if name == Name::Tag && element.instruction.value is Some {
        match crate::text::decimal(element.instruction.value->0) {
            None => Err(Error::InvalidTag),
            Some(tag) => match block_of(frame, tag, stack) {
                Some(block) => Ok(record(context, OperationView::Branch { block })),
                None => Err(Error::UndeclaredBlock(tag)),
            },
        }
    } else {
        translate(context, element, frame.registers)
    }
}

/// The instructions of a block, from the index on, up to the first behind
/// which the emission has reached a terminator.
pub open spec fn emit_elements(
    context: ContextView,
    elements: Seq<BlockElementView>,
    from: int,
    frame: Frame,
) -> Result<ContextView, Error>
    decreases elements.len() - from,
{
    if 0 <= from < elements.len() && !terminated(context) {
        match emit_element(context, elements[from], frame) {
            Err(error) => Err(error),
            Ok(after) => emit_elements(after, elements, from + 1, frame),
        }
    } else {
        Ok(context)
    }
}

/// The clones of a tag, from the index on: each in its block. `before` is
/// the number of clones of the tags before this one.
pub open spec fn emit_clones(
    context: ContextView,
    blocks: Seq<BlockView>,
    from: int,
    before: int,
    frame: Frame,
) -> Result<ContextView, Error>
    decreases blocks.len() - from,
{
    if 0 <= from < blocks.len() {
        match emit_elements(
            position(context, (frame.first_block + before + from) as usize),
            blocks[from].elements,
            0,
            frame,
        ) {
            Err(error) => Err(error),
            Ok(after) => emit_clones(after, blocks, from + 1, before, frame),
        }
    } else {
        Ok(context)
    }
}

/// The clones of the tags, from the index on.
pub open spec fn emit_groups(context: ContextView, from: int, frame: Frame) -> Result<
    ContextView,
    Error,
>
    decreases frame.groups.len() - from,
{
    if 0 <= from < frame.groups.len() {
        match emit_clones(
            context,
            frame.groups[from].blocks,
            0,
            clones_before(frame.groups, from) as int,
            frame,
        ) {
            Err(error) => Err(error),
            Ok(after) => emit_groups(after, from + 1, frame),
        }
    } else {
        Ok(context)
    }
}

/// The end of a function: a block that catches failures and leads to one
/// that throws them; and, in the return block, the return.
pub open spec fn finish(context: ContextView, return_block: usize) -> ContextView {
    let catch = context.blocks.len() as usize;
    let throw = (context.blocks.len() + 1) as usize;
    let caught = record(
        position(append(append(context, LabelView::Catch), LabelView::Throw), catch),
        OperationView::Branch { block: throw },
    );
    let thrown = record(
        position(caught, throw),
        OperationView::Intrinsic {
            intrinsic: Intrinsic::Throw,
            arguments: Seq::empty(),
            has_result: false,
        },
    );
    record(position(thrown, return_block), OperationView::Return { values: Seq::empty() })
}

/// A function of the Ethereal IR, which was declared: a block for each
/// clone, by ascending tag, then by the index of the clone; in the entry
/// block of the function, a slot for each stack element, and the branch to
/// the clone of tag 0 that is entered with the empty stack; then the
/// clones, each in its block; then the end.
pub open spec fn emit_function(context: ContextView, function: FunctionView) -> Result<
    ContextView,
    Error,
> {
    match find(context.functions, function_name(function.code_type)) {
        None => Err(Error::UndeclaredFunction),
        Some(index) => if clones_before(function.blocks, function.blocks.len() as int)
            > usize::MAX {
            Err(Error::StackOverflow)
        } else {
            let declaration = context.functions[index as int];
            let entered = enter(context, index);
            let appended = append_blocks(entered, function.blocks, 0);
            let positioned = position(appended, declaration.entry_block);
            let frame = Frame {
                groups: function.blocks,
                first_block: entered.blocks.len() as usize,
                registers: Registers {
                    first: next(positioned),
                    count: function.stack_size,
                    return_block: declaration.return_block,
                    version: function.solc_version,
                },
            };
            let reserved = reserve_stack(positioned, function.stack_size as int, 0);
            match block_of(frame, 0, Seq::empty()) {
                None => Err(Error::UndeclaredBlock(0)),
                Some(entry) => match emit_groups(branch(reserved, entry), 0, frame) {
                    Err(error) => Err(error),
                    Ok(body) => Ok(finish(body, declaration.return_block)),
                },
            }
        },
    }
}

/// What the emission of the blocks of a function has to know.
pub struct Places {
    /// The number of the block of the first clone.
    pub first_block: usize,
    /// The number of clones.
    pub clones: usize,
    /// The stack slots and the return block of the function.
    pub registers: Registers,
}

/// The frame of the places in the function.
pub open spec fn frame_of(function: FunctionView, places: Places) -> Frame {
    Frame { groups: function.blocks, first_block: places.first_block, registers: places.registers }
}

/// The place of a clone is less than the number of clones.
pub proof fn lemma_place_bounded(groups: Seq<ClonesView>, tag: usize, hash: u64, from: int)
    requires
        0 <= from <= groups.len(),
    ensures
        place_of(groups, tag, hash, from) matches Some(place) ==> 0 <= place < clones_before(
            groups,
            groups.len() as int,
        ),
    decreases groups.len() - from,
{
    if from < groups.len() {
        if groups[from].tag == tag {
            lemma_clone_bounded(groups[from].blocks, hash, 0);
            lemma_clones_before_grows(groups, from + 1, groups.len() as int);
        } else {
            lemma_place_bounded(groups, tag, hash, from + 1);
        }
    }
}

/// The index of a clone lies among the blocks.
pub proof fn lemma_clone_bounded(blocks: Seq<BlockView>, hash: u64, from: int)
    requires
        0 <= from,
    ensures
        clone_of(blocks, hash, from) matches Some(index) ==> from <= index < blocks.len(),
    decreases blocks.len() - from,
{
    if from < blocks.len() && fingerprint(blocks[from].initial_stack) != hash {
        lemma_clone_bounded(blocks, hash, from + 1);
    }
}

/// There are no fewer clones before a later tag.
pub proof fn lemma_clones_before_grows(groups: Seq<ClonesView>, lower: int, upper: int)
    requires
        0 <= lower <= upper <= groups.len(),
    ensures
        clones_before(groups, lower) <= clones_before(groups, upper),
    decreases upper - lower,
{
    if lower < upper {
        lemma_clones_before_grows(groups, lower, upper - 1);
    }
}

/// The values of the blocks.
pub open spec fn block_views(blocks: Seq<Block>) -> Seq<BlockView> {
    blocks.map_values(|block: Block| block@)
}

fn find_clone(blocks: &Vec<Block>, hash: u64) -> (found: Option<usize>)
    ensures
        match clone_of(block_views(blocks@), hash, 0) {
            Some(index) => found == Some(index as usize) && 0 <= index < blocks.len(),
            None => found is None,
        },
{
    let ghost views = block_views(blocks@);
    let mut k: usize = 0;
    proof {
        lemma_clone_bounded(views, hash, 0);
    }
    while k < blocks.len()
        invariant
            k <= blocks.len(),
            views == block_views(blocks@),
            clone_of(views, hash, 0) == clone_of(views, hash, k as int),
        decreases blocks.len() - k,
    {
        assert(views[k as int] == blocks@[k as int]@);
        if blocks[k].initial_stack.hash() == hash {
            return Some(k);
        }
        k += 1;
    }
    None
}

fn find_place(function: &Function, tag: usize, hash: u64, total: usize) -> (place: Option<usize>)
    requires
        total == clones_before(function@.blocks, function@.blocks.len() as int),
    ensures
        match place_of(function@.blocks, tag, hash, 0) {
            Some(index) => place == Some(index as usize) && 0 <= index < total,
            None => place is None,
        },
{
    let ghost groups = function@.blocks;
    let mut before: usize = 0;
    let mut g: usize = 0;
    proof {
        lemma_place_bounded(groups, tag, hash, 0);
    }
    while g < function.blocks.len()
        invariant
            g <= function.blocks.len(),
            groups == function@.blocks,
            before == clones_before(groups, g as int),
            total == clones_before(groups, groups.len() as int),
            place_of(groups, tag, hash, 0) == place_of(groups, tag, hash, g as int),
            place_of(groups, tag, hash, 0) matches Some(index) ==> index < total,
        decreases function.blocks.len() - g,
    {
        assert(groups[g as int] == function.blocks@[g as int]@);
        proof {
            lemma_clones_before_grows(groups, g + 1, groups.len() as int);
        }
        assert(clones_before(groups, g + 1) == clones_before(groups, g as int)
            + groups[g as int].blocks.len());
        assert(groups[g as int].blocks =~= block_views(function.blocks@[g as int].blocks@));
        if function.blocks[g].tag == tag {
            let found = find_clone(&function.blocks[g].blocks, hash);
            match found {
                Some(index) => {
                    return Some(before + index);
                },
                None => {
                    return None;
                },
            }
        }
        before = before + function.blocks[g].blocks.len();
        g += 1;
    }
    None
}

fn count_clones(function: &Function) -> (total: Option<usize>)
    ensures
        match total {
            Some(total) => total == clones_before(function@.blocks, function@.blocks.len() as int),
            None => clones_before(function@.blocks, function@.blocks.len() as int) > usize::MAX,
        },
{
    let ghost groups = function@.blocks;
    let mut total: usize = 0;
    let mut g: usize = 0;
    while g < function.blocks.len()
        invariant
            g <= function.blocks.len(),
            groups == function@.blocks,
            total == clones_before(groups, g as int),
        decreases function.blocks.len() - g,
    {
        assert(groups[g as int] == function.blocks@[g as int]@);
        let count = function.blocks[g].blocks.len();
        if count > usize::MAX - total {
            proof {
                lemma_clones_before_grows(groups, g + 1, groups.len() as int);
            }
            return None;
        }
        total = total + count;
        g += 1;
    }
    Some(total)
}

/// Appending the blocks of the clones adds a block for each clone, and
/// leaves the rest of the record but the operations as it is.
pub proof fn lemma_append_clones(context: ContextView, tag: usize, count: int, from: int)
    requires
        0 <= from <= count,
    ensures
        append_clones(context, tag, count, from).blocks.len() == context.blocks.len() + count - from,
        append_clones(context, tag, count, from).operations.len() == context.operations.len()
            + count - from,
        append_clones(context, tag, count, from).functions == context.functions,
    decreases count - from,
{
    if from < count {
        lemma_append_clones(append(context, LabelView::Block(tag, from as usize)), tag, count, from + 1);
    }
}

/// Appending the blocks of all clones adds a block for each.
pub proof fn lemma_append_blocks(context: ContextView, groups: Seq<ClonesView>, from: int)
    requires
        0 <= from <= groups.len(),
    ensures
        append_blocks(context, groups, from).blocks.len() == context.blocks.len() + clones_before(
            groups,
            groups.len() as int,
        ) - clones_before(groups, from),
        append_blocks(context, groups, from).functions == context.functions,
    decreases groups.len() - from,
{
    if from < groups.len() {
        let appended = append_clones(context, groups[from].tag, groups[from].blocks.len() as int, 0);
        lemma_append_clones(context, groups[from].tag, groups[from].blocks.len() as int, 0);
        lemma_append_blocks(appended, groups, from + 1);
        assert(clones_before(groups, from + 1) == clones_before(groups, from)
            + groups[from].blocks.len());
    }
}

/// Reserving the stack adds an operation for each slot.
pub proof fn lemma_reserve_stack(context: ContextView, size: int, from: int)
    requires
        0 <= from <= size,
    ensures
        reserve_stack(context, size, from).operations.len() == context.operations.len() + size
            - from,
    decreases size - from,
{
    if from < size {
        lemma_reserve_stack(
            record(
                context,
                OperationView::Alloca { kind: field(), label: LabelView::StackVariable(from as usize) },
            ),
            size,
            from + 1,
        );
    }
}

fn append_clones_from(context: &mut Context, tag: usize, count: usize, from: usize)
    ensures
        final(context)@ == append_clones(old(context)@, tag, count as int, from as int),
    decreases count - from,
{
    if from < count {
        context.append_basic_block(Label::Block(tag, from));
        append_clones_from(context, tag, count, from + 1);
    }
}

fn append_blocks_from(context: &mut Context, function: &Function, from: usize)
    ensures
        final(context)@ == append_blocks(old(context)@, function@.blocks, from as int),
    decreases function.blocks.len() - from,
{
    if from < function.blocks.len() {
        assert(function@.blocks[from as int] == function.blocks@[from as int]@);
        append_clones_from(
            context,
            function.blocks[from].tag,
            function.blocks[from].blocks.len(),
            0,
        );
        append_blocks_from(context, function, from + 1);
    }
}

fn reserve_stack_from(context: &mut Context, size: usize, from: usize)
    ensures
        final(context)@ == reserve_stack(old(context)@, size as int, from as int),
    decreases size - from,
{
    if from < size {
        context.record(
            Operation::Alloca {
                kind: Type::Integer(BITLENGTH_FIELD),
                label: Label::StackVariable(from),
            },
        );
        reserve_stack_from(context, size, from + 1);
    }
}

fn find_block(function: &Function, places: &Places, tag: usize, hash: u64) -> (block: Option<usize>)
    requires
        places.clones == clones_before(function@.blocks, function@.blocks.len() as int),
        places.first_block + places.clones <= usize::MAX,
    ensures
        forall|stack: Seq<ElementView>|
            fingerprint(stack) == hash ==> block == block_of(
                frame_of(function@, *places),
                tag,
                stack,
            ),
{
    match find_place(function, tag, hash, places.clones) {
        Some(place) => Some(places.first_block + place),
        None => None,
    }
}

fn emit_one(context: &mut Context, element: &BlockElement, function: &Function, places: &Places) -> (result:
    Result<(), Error>)
    requires
        places.clones == clones_before(function@.blocks, function@.blocks.len() as int),
        places.first_block + places.clones <= usize::MAX,
        places.registers.first + places.registers.count <= usize::MAX,
    ensures
        match emit_element(old(context)@, element@, frame_of(function@, *places)) {
            Ok(after) => result is Ok && final(context)@ == after,
            Err(error) => result == Err::<(), Error>(error),
        },
{
    let name = element.instruction.name;
    let depth = element.stack.len();
    if name == Name::JUMP || name == Name::JUMPI {
        let tag = if depth > 0 {
            match &element.stack.elements[depth - 1] {
                Element::Tag(tag) => *tag,
                _ => {
                    return Err(Error::MalformedControlFlow);
                },
            }
        } else {
            return Err(Error::MalformedControlFlow);
        };
        assert(element@.stack.last() == element.stack.elements@[depth - 1]@);
        if name == Name::JUMP {
            let mut behind = element.stack.clone();
            behind.pop_many(1);
            match find_block(function, places, tag, behind.hash()) {
                Some(block) => {
                    context.record(Operation::Branch { block });
                    Ok(())
                },
                None => Err(Error::UndeclaredBlock(tag)),
            }
        } else if depth < 2 {
            Err(Error::StackUnderflow)
        } else if depth > places.registers.count {
            Err(Error::StackOverflow)
        } else {
            let mut behind = element.stack.clone();
            behind.pop_many(2);
            match find_block(function, places, tag, behind.hash()) {
                None => Err(Error::UndeclaredBlock(tag)),
                Some(block) => {
                    let loaded = context.record(
                        Operation::Load {
                            pointer: places.registers.first + (depth - 2),
                            label: Label::Anonymous,
                        },
                    );
                    let zero = context.record(
                        Operation::Integer { kind: Type::Integer(BITLENGTH_FIELD), number: 0 },
                    );
                    let condition = context.record(
                        Operation::Compare {
                            predicate: Predicate::NotEqual,
                            left: loaded,
                            right: zero,
                        },
                    );
                    let otherwise = context.append_basic_block(Label::IfJoin);
                    context.record(
                        Operation::ConditionalBranch { condition, then: block, otherwise },
                    );
                    context.set_basic_block(otherwise);
                    Ok(())
                },
            }
        }
    } else {
        match &element.instruction.value {
            Some(value) => {
                if name == Name::Tag {
                    return match crate::text::parse_decimal(value.as_str()) {
                        None => Err(Error::InvalidTag),
                        Some(tag) => match find_block(function, places, tag, element.stack.hash()) {
                            Some(block) => {
                                context.record(Operation::Branch { block });
                                Ok(())
                            },
                            None => Err(Error::UndeclaredBlock(tag)),
                        },
                    };
                }
            },
            None => {},
        }
        translate_element(context, element, &places.registers)
    }
}

fn elements_from(
    context: &mut Context,
    block: &Block,
    from: usize,
    function: &Function,
    places: &Places,
) -> (result: Result<(), Error>)
    requires
        places.clones == clones_before(function@.blocks, function@.blocks.len() as int),
        places.first_block + places.clones <= usize::MAX,
        places.registers.first + places.registers.count <= usize::MAX,
    ensures
        match emit_elements(
            old(context)@,
            block@.elements,
            from as int,
            frame_of(function@, *places),
        ) {
            Ok(after) => result is Ok && final(context)@ == after,
            Err(error) => result == Err::<(), Error>(error),
        },
    decreases block.elements.len() - from,
{
    if from < block.elements.len() && !context.is_terminated() {
        assert(block@.elements[from as int] == block.elements@[from as int]@);
        match emit_one(context, &block.elements[from], function, places) {
            Err(error) => Err(error),
            Ok(()) => elements_from(context, block, from + 1, function, places),
        }
    } else {
        Ok(())
    }
}

fn clones_from(
    context: &mut Context,
    clones: &Clones,
    from: usize,
    before: usize,
    function: &Function,
    places: &Places,
) -> (result: Result<(), Error>)
    requires
        places.clones == clones_before(function@.blocks, function@.blocks.len() as int),
        places.first_block + places.clones <= usize::MAX,
        places.registers.first + places.registers.count <= usize::MAX,
        before + clones.blocks.len() <= places.clones,
    ensures
        match emit_clones(
            old(context)@,
            clones@.blocks,
            from as int,
            before as int,
            frame_of(function@, *places),
        ) {
            Ok(after) => result is Ok && final(context)@ == after,
            Err(error) => result == Err::<(), Error>(error),
        },
    decreases clones.blocks.len() - from,
{
    if from < clones.blocks.len() {
        assert(clones@.blocks[from as int] == clones.blocks@[from as int]@);
        context.set_basic_block(places.first_block + before + from);
        match elements_from(context, &clones.blocks[from], 0, function, places) {
            Err(error) => Err(error),
            Ok(()) => clones_from(context, clones, from + 1, before, function, places),
        }
    } else {
        Ok(())
    }
}

fn groups_from(
    context: &mut Context,
    from: usize,
    before: usize,
    function: &Function,
    places: &Places,
) -> (result: Result<(), Error>)
    requires
        places.clones == clones_before(function@.blocks, function@.blocks.len() as int),
        places.first_block + places.clones <= usize::MAX,
        places.registers.first + places.registers.count <= usize::MAX,
        from <= function.blocks.len(),
        before == clones_before(function@.blocks, from as int),
    ensures
        match emit_groups(old(context)@, from as int, frame_of(function@, *places)) {
            Ok(after) => result is Ok && final(context)@ == after,
            Err(error) => result == Err::<(), Error>(error),
        },
    decreases function.blocks.len() - from,
{
    if from < function.blocks.len() {
        assert(function@.blocks[from as int] == function.blocks@[from as int]@);
        proof {
            lemma_clones_before_grows(function@.blocks, from + 1, function@.blocks.len() as int);
        }
        match clones_from(context, &function.blocks[from], 0, before, function, places) {
            Err(error) => Err(error),
            Ok(()) => groups_from(
                context,
                from + 1,
                before + function.blocks[from].blocks.len(),
                function,
                places,
            ),
        }
    } else {
        Ok(())
    }
}

fn finish_function(context: &mut Context, return_block: usize)
    ensures
        final(context)@ == finish(old(context)@, return_block),
{
    let catch = context.append_basic_block(Label::Catch);
    let throw = context.append_basic_block(Label::Throw);
    context.set_basic_block(catch);
    context.record(Operation::Branch { block: throw });
    context.set_basic_block(throw);
    context.record(
        Operation::Intrinsic {
            intrinsic: Intrinsic::Throw,
            arguments: Vec::new(),
            has_result: false,
        },
    );
    context.set_basic_block(return_block);
    context.record(Operation::Return { values: Vec::new() });
}

impl Function {
    /// Declares the function: private to the module, with no argument and
    /// no result, and with its stack size.
    pub fn declare(&self, context: &mut Context)
        ensures
            final(context)@ == declare(
                old(context)@,
                function_name(self.code_type),
                0,
                0,
                true,
                Some(self.stack_size),
            ),
    {
        context.add_function(self.name().to_owned(), 0, 0, true, Some(self.stack_size));
    }

    /// Emits the function, which was declared: see [`emit_function`].
    pub fn into_llvm(self, context: &mut Context) -> (result: Result<(), Error>)
        ensures
            match emit_function(old(context)@, self@) {
                Ok(after) => result is Ok && final(context)@ == after,
                Err(error) => result == Err::<(), Error>(error),
            },
    {
        let name = self.name().to_owned();
        let index = match context.find_function(&name) {
            Some(index) => index,
            None => {
                return Err(Error::UndeclaredFunction);
            },
        };
        let clones = match count_clones(&self) {
            Some(clones) => clones,
            None => {
                return Err(Error::StackOverflow);
            },
        };
        let entry_block = context.functions[index].entry_block;
        let return_block = context.functions[index].return_block;
        context.set_function(index);
        let first_block = context.blocks.len();
        proof {
            lemma_append_blocks(context@, self@.blocks, 0);
        }
        append_blocks_from(context, &self, 0);
        let _ = context.blocks.len();
        context.set_basic_block(entry_block);
        let first_slot = context.operations.len();
        proof {
            lemma_reserve_stack(context@, self.stack_size as int, 0);
        }
        reserve_stack_from(context, self.stack_size, 0);
        let _ = context.operations.len();
        let places = Places {
            first_block,
            clones,
            registers: Registers {
                first: first_slot,
                count: self.stack_size,
                return_block,
                version: self.solc_version,
            },
        };
        let entry = match find_block(&self, &places, 0, FINGERPRINT_OFFSET) {
            Some(entry) => entry,
            None => {
                return Err(Error::UndeclaredBlock(0));
            },
        };
        if !context.is_terminated() {
            context.record(Operation::Branch { block: entry });
        }
        match groups_from(context, 0, 0, &self, &places) {
            Err(error) => Err(error),
            Ok(()) => {
                finish_function(context, return_block);
                Ok(())
            },
        }
    }
}

/// The assembly of the runtime code: what stands under the key `0` of the
/// data, if that is an assembly.
pub open spec fn runtime_of(assembly: crate::evm::assembly::AssemblyView) -> Option<
    crate::evm::assembly::AssemblyView,
> {
    match assembly.data {
        Some(entries) => match crate::evm::assembly::runtime_entry(entries, 0) {
            Some(index) => match entries[index].value {
                crate::evm::assembly::DataView::Assembly(runtime) => Some(runtime),
                _ => None,
            },
            None => None,
        },
        None => None,
    }
}

/// A code of an assembly: the listing is cut into its flat blocks, the
/// function of the part of the contract is built of them, declared, and
/// emitted. No code asks nothing.
pub open spec fn emit_code(
    context: ContextView,
    code: Option<Seq<crate::evm::instruction::InstructionView>>,
    code_type: CodeType,
    version: crate::version::Version,
) -> Result<ContextView, Error> {
    match code {
        None => Ok(context),
        Some(instructions) => match crate::evm::ethereal_ir::function::built(
            crate::evm::ethereal_ir::segment::flat_blocks(
                crate::evm::ethereal_ir::segment::segments(instructions),
            ),
            Set::empty(),
            version,
            code_type,
        ) {
            Err(error) => Err(error),
            Ok((function, _)) => emit_function(
                declare(
                    context,
                    function_name(code_type),
                    0,
                    0,
                    true,
                    Some(function.stack_size),
                ),
                function,
            ),
        },
    }
}

/// An assembly: its deploy code, then its runtime code.
pub open spec fn emit_assembly(
    context: ContextView,
    assembly: crate::evm::assembly::AssemblyView,
    version: crate::version::Version,
) -> Result<ContextView, Error> {
    match emit_code(context, assembly.code, CodeType::Deploy, version) {
        Err(error) => Err(error),
        Ok(after) => match runtime_of(assembly) {
            Some(runtime) => emit_code(after, runtime.code, CodeType::Runtime, version),
            None => Ok(after),
        },
    }
}

fn code_into_llvm(
    code: &Option<Vec<crate::evm::instruction::Instruction>>,
    code_type: CodeType,
    version: crate::version::Version,
    context: &mut Context,
) -> (result: Result<(), Error>)
    ensures
        match emit_code(
            old(context)@,
            match *code {
                Some(code) => Some(crate::evm::assembly::instruction_views(code@)),
                None => None,
            },
            code_type,
            version,
        ) {
            Ok(after) => result is Ok && final(context)@ == after,
            Err(error) => result == Err::<(), Error>(error),
        },
{
    match code {
        None => Ok(()),
        Some(instructions) => {
            let blocks = crate::evm::ethereal_ir::segment::segment(instructions);
            let mut visited = crate::evm::ethereal_ir::visited_element::Visited::new();
            match Function::new(version, code_type, &blocks, &mut visited) {
                Err(error) => Err(error),
                Ok(function) => {
                    function.declare(context);
                    function.into_llvm(context)
                },
            }
        },
    }
}

impl crate::evm::assembly::Assembly {
    /// The assembly of the runtime code.
    pub fn runtime(&self) -> (runtime: Option<&crate::evm::assembly::Assembly>)
        ensures
            match runtime_of(self@) {
                Some(view) => runtime is Some && runtime->0@ == view,
                None => runtime is None,
            },
    {
        proof {
            crate::evm::assembly::lemma_assembly_view(*self);
        }
        match &self.data {
            Some(entries) => match crate::evm::assembly::find_runtime(entries) {
                Some(index) => {
                    assert(crate::evm::assembly::entry_views(entries@)[index as int]
                        == entries@[index as int]@);
                    match &entries[index].value {
                        crate::evm::assembly::Data::Assembly(runtime) => Some(runtime),
                        _ => None,
                    }
                },
                None => None,
            },
            None => None,
        }
    }

    /// Emits the assembly: see [`emit_assembly`].
    pub fn into_llvm(&self, version: crate::version::Version, context: &mut Context) -> (result:
        Result<(), Error>)
        ensures
            match emit_assembly(old(context)@, self@, version) {
                Ok(after) => result is Ok && final(context)@ == after,
                Err(error) => result == Err::<(), Error>(error),
            },
    {
        proof {
            crate::evm::assembly::lemma_assembly_view(*self);
        }
        match code_into_llvm(&self.code, CodeType::Deploy, version, context) {
            Err(error) => Err(error),
            Ok(()) => match self.runtime() {
                Some(runtime) => {
                    proof {
                        crate::evm::assembly::lemma_assembly_view(*runtime);
                    }
                    code_into_llvm(&runtime.code, CodeType::Runtime, version, context)
                },
                None => Ok(()),
            },
        }
    }
}

} // verus!
