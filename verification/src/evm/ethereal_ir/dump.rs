//! The text of a function of the Ethereal IR, for reading.

use vstd::prelude::*;

use crate::evm::ethereal_ir::block::Block;
use crate::evm::ethereal_ir::block::BlockElement;
use crate::evm::ethereal_ir::block::BlockElementView;
use crate::evm::ethereal_ir::block::BlockView;
use crate::evm::ethereal_ir::function::Clones;
use crate::evm::ethereal_ir::function::ClonesView;
use crate::evm::ethereal_ir::function::Function;
use crate::evm::ethereal_ir::function::FunctionView;
use crate::evm::ethereal_ir::stack::Element;
use crate::evm::ethereal_ir::stack::ElementView;
use crate::evm::ethereal_ir::stack::Stack;
use crate::evm::instruction::name::spec_wire;
use crate::text::decimal_text;
use crate::text::to_decimal;
use crate::version::CodeType;

verus! {

/// The column at which the stacks start.
pub const STACK_COLUMN: usize = 92;

/// So many spaces.
pub open spec fn spaces(count: int) -> Seq<char> {
    if count <= 0 {
        Seq::empty()
    } else {
        Seq::new(count as nat, |i: int| ' ')
    }
}

/// The text filled up with spaces to the column of the stacks; a longer text
/// is as it is.
pub open spec fn padded(text: Seq<char>) -> Seq<char> {
    text + spaces(STACK_COLUMN - text.len())
}

/// The text of a stack element: `T_` and the tag, the constant itself, `V`
/// for a value, and the index in `IN[..]` or `OUT[..]`.
pub open spec fn element_text(element: ElementView) -> Seq<char> {
    match element {
        ElementView::Tag(tag) => "T_"@ + decimal_text(tag as nat),
        ElementView::Constant(constant) => constant,
        ElementView::Value => "V"@,
        ElementView::UserInput(index) => "IN["@ + decimal_text(index as nat) + "]"@,
        ElementView::ReturnData(index) => "OUT["@ + decimal_text(index as nat) + "]"@,
    }
}

/// The texts of the first `count` elements of a stack, each with a space
/// behind it.
pub open spec fn elements_text(stack: Seq<ElementView>, count: int) -> Seq<char>
    decreases count,
{
    if count <= 0 || count > stack.len() {
        Seq::empty()
    } else {
        elements_text(stack, count - 1) + element_text(stack[count - 1]) + " "@
    }
}

/// The text of a stack: its elements from the bottom to the top between
/// brackets.
pub open spec fn stack_text(stack: Seq<ElementView>) -> Seq<char> {
    "[ "@ + elements_text(stack, stack.len() as int) + "]"@
}

/// The first `count` numbers with `, ` between them.
pub open spec fn numbers_text(numbers: Seq<usize>, count: int) -> Seq<char>
    decreases count,
{
    if count <= 0 || count > numbers.len() {
        Seq::empty()
    } else if count == 1 {
        decimal_text(numbers[0] as nat)
    } else {
        numbers_text(numbers, count - 1) + ", "@ + decimal_text(numbers[count - 1] as nat)
    }
}

/// The line of an instruction: its name and its immediate, and its
/// snapshot at the column of the stacks.
pub open spec fn element_line(element: BlockElementView) -> Seq<char> {
    padded(
        "    "@ + spec_wire(element.instruction.name) + (match element.instruction.value {
            Some(value) => " "@ + value,
            None => Seq::empty(),
        }),
    ) + stack_text(element.stack) + "\n"@
}

/// The lines of the first `count` instructions.
pub open spec fn elements_lines(elements: Seq<BlockElementView>, count: int) -> Seq<char>
    decreases count,
{
    if count <= 0 || count > elements.len() {
        Seq::empty()
    } else {
        elements_lines(elements, count - 1) + element_line(elements[count - 1])
    }
}

/// The lines of a clone: its head, with its tag, its index, its
/// predecessors if it has any, and the stack that it is entered with; then
/// its instructions.
pub open spec fn block_lines(block: BlockView, tag: usize, index: int) -> Seq<char> {
    padded(
        "block_"@ + decimal_text(tag as nat) + "/"@ + decimal_text(index as nat) + ": "@ + (
        if block.predecessors.len() == 0 {
            Seq::empty()
        } else {
            "(predecessors: ["@ + numbers_text(block.predecessors, block.predecessors.len() as int)
                + "])"@
        }),
    ) + stack_text(block.initial_stack) + "\n"@ + elements_lines(
        block.elements,
        block.elements.len() as int,
    )
}

/// The lines of the first `count` clones of a tag.
pub open spec fn clones_lines(clones: ClonesView, count: int) -> Seq<char>
    decreases count,
{
    if count <= 0 || count > clones.blocks.len() {
        Seq::empty()
    } else {
        clones_lines(clones, count - 1) + block_lines(clones.blocks[count - 1], clones.tag, count - 1)
    }
}

/// The lines of the clones of the first `count` tags.
pub open spec fn groups_lines(groups: Seq<ClonesView>, count: int) -> Seq<char>
    decreases count,
{
    if count <= 0 || count > groups.len() {
        Seq::empty()
    } else {
        groups_lines(groups, count - 1) + clones_lines(
            groups[count - 1],
            groups[count - 1].blocks.len() as int,
        )
    }
}

/// The text of a function: a head with the part of the contract and the
/// stack size, the clones by ascending tag, and a closing brace.
pub open spec fn function_text(function: FunctionView) -> Seq<char> {
    "function "@ + (match function.code_type {
        CodeType::Deploy => "deploy"@,
        CodeType::Runtime => "runtime"@,
    }) + " (max_sp = "@ + decimal_text(function.stack_size as nat) + ") {\n"@ + groups_lines(
        function.blocks,
        function.blocks.len() as int,
    ) + "}\n"@
}

fn pad(text: &mut String)
    ensures
        final(text)@ == padded(old(text)@),
{
    let mut length = text.as_str().unicode_len();
    let ghost start = text@;
    assert(start + spaces(0) =~= start);
    while length < STACK_COLUMN
        invariant
            start.len() <= length,
            start.len() < STACK_COLUMN ==> length <= STACK_COLUMN,
            start.len() >= STACK_COLUMN ==> length == start.len(),
            text@ == start + spaces(length - start.len()),
            length == text@.len(),
        decreases STACK_COLUMN - length,
    {
        text.push(' ');
        length += 1;
        assert(text@ =~= start + spaces(length - start.len()));
    }
    assert(spaces(0) =~= Seq::<char>::empty());
    assert(text@ =~= padded(start));
}

fn append_element(text: &mut String, element: &Element)
    ensures
        final(text)@ == old(text)@ + element_text(element@) + " "@,
{
    let ghost start = text@;
    match element {
        Element::Tag(tag) => {
            text.append("T_");
            text.append(to_decimal(*tag).as_str());
            assert(text@ =~= start + ("T_"@ + decimal_text(*tag as nat)));
        },
        Element::Constant(constant) => {
            text.append(constant.as_str());
        },
        Element::Value => {
            text.append("V");
        },
        Element::UserInput(index) => {
            text.append("IN[");
            text.append(to_decimal(*index).as_str());
            text.append("]");
            assert(text@ =~= start + ("IN["@ + decimal_text(*index as nat) + "]"@));
        },
        Element::ReturnData(index) => {
            text.append("OUT[");
            text.append(to_decimal(*index).as_str());
            text.append("]");
            assert(text@ =~= start + ("OUT["@ + decimal_text(*index as nat) + "]"@));
        },
    }
    text.append(" ");
}

fn append_stack(text: &mut String, stack: &Stack)
    ensures
        final(text)@ == old(text)@ + stack_text(stack@),
{
    let ghost start = text@;
    text.append("[ ");
    let mut i: usize = 0;
    assert(start + "[ "@ + elements_text(stack@, 0) =~= start + "[ "@);
    while i < stack.elements.len()
        invariant
            i <= stack.elements.len(),
            text@ == start + "[ "@ + elements_text(stack@, i as int),
        decreases stack.elements.len() - i,
    {
        assert(stack@[i as int] == stack.elements@[i as int]@);
        let ghost before = text@;
        append_element(text, &stack.elements[i]);
        i += 1;
        assert(text@ =~= start + "[ "@ + elements_text(stack@, i as int)) by {
            assert(elements_text(stack@, i as int) == elements_text(stack@, i - 1)
                + element_text(stack@[i - 1]) + " "@);
        }
    }
    text.append("]");
    assert(text@ =~= start + stack_text(stack@));
}

fn append_numbers(text: &mut String, numbers: &Vec<usize>)
    ensures
        final(text)@ == old(text)@ + numbers_text(numbers@, numbers@.len() as int),
{
    let ghost start = text@;
    let mut i: usize = 0;
    assert(start + numbers_text(numbers@, 0) =~= start);
    while i < numbers.len()
        invariant
            i <= numbers.len(),
            text@ == start + numbers_text(numbers@, i as int),
        decreases numbers.len() - i,
    {
        if i > 0 {
            text.append(", ");
        }
        text.append(to_decimal(numbers[i]).as_str());
        i += 1;
        assert(text@ =~= start + numbers_text(numbers@, i as int));
    }
}

fn append_element_line(text: &mut String, element: &BlockElement)
    ensures
        final(text)@ == old(text)@ + element_line(element@),
{
    let ghost start = text@;
    let mut line = "    ".to_owned();
    line.append(element.instruction.name.wire());
    match &element.instruction.value {
        Some(value) => {
            line.append(" ");
            line.append(value.as_str());
            assert(line@ =~= "    "@ + spec_wire(element.instruction.name) + (" "@ + value@));
        },
        None => {
            assert(line@ =~= "    "@ + spec_wire(element.instruction.name) + Seq::<char>::empty());
        },
    }
    pad(&mut line);
    append_stack(&mut line, &element.stack);
    line.append("\n");
    text.append(line.as_str());
}

fn append_block(text: &mut String, block: &Block, tag: usize, index: usize)
    ensures
        final(text)@ == old(text)@ + block_lines(block@, tag, index as int),
{
    let ghost start = text@;
    let mut line = "block_".to_owned();
    line.append(to_decimal(tag).as_str());
    line.append("/");
    line.append(to_decimal(index).as_str());
    line.append(": ");
    let ghost head = line@;
    if block.predecessors.len() > 0 {
        line.append("(predecessors: [");
        append_numbers(&mut line, &block.predecessors);
        line.append("])");
        assert(line@ =~= head + ("(predecessors: ["@ + numbers_text(
            block.predecessors@,
            block.predecessors@.len() as int,
        ) + "])"@));
    } else {
        assert(line@ =~= head + Seq::<char>::empty());
    }
    pad(&mut line);
    append_stack(&mut line, &block.initial_stack);
    line.append("\n");
    let ghost first = line@;
    let mut i: usize = 0;
    assert(first + elements_lines(block@.elements, 0) =~= first);
    while i < block.elements.len()
        invariant
            i <= block.elements.len(),
            line@ == first + elements_lines(block@.elements, i as int),
        decreases block.elements.len() - i,
    {
        assert(block@.elements[i as int] == block.elements@[i as int]@);
        append_element_line(&mut line, &block.elements[i]);
        i += 1;
        assert(line@ =~= first + elements_lines(block@.elements, i as int));
    }
    text.append(line.as_str());
}

fn append_clones(text: &mut String, clones: &Clones)
    ensures
        final(text)@ == old(text)@ + clones_lines(clones@, clones@.blocks.len() as int),
{
    let ghost start = text@;
    let mut i: usize = 0;
    assert(start + clones_lines(clones@, 0) =~= start);
    while i < clones.blocks.len()
        invariant
            i <= clones.blocks.len(),
            text@ == start + clones_lines(clones@, i as int),
        decreases clones.blocks.len() - i,
    {
        assert(clones@.blocks[i as int] == clones.blocks@[i as int]@);
        append_block(text, &clones.blocks[i], clones.tag, i);
        i += 1;
        assert(text@ =~= start + clones_lines(clones@, i as int));
    }
}

impl Function {
    /// The text of the function: see [`function_text`].
    pub fn to_text(&self) -> (text: String)
        ensures
            text@ == function_text(self@),
    {
        let mut text = "function ".to_owned();
        match self.code_type {
            CodeType::Deploy => {
                text.append("deploy");
            },
            CodeType::Runtime => {
                text.append("runtime");
            },
        }
        text.append(" (max_sp = ");
        text.append(to_decimal(self.stack_size).as_str());
        text.append(") {\n");
        let ghost head = text@;
        let mut i: usize = 0;
        assert(head + groups_lines(self@.blocks, 0) =~= head);
        while i < self.blocks.len()
            invariant
                i <= self.blocks.len(),
                text@ == head + groups_lines(self@.blocks, i as int),
            decreases self.blocks.len() - i,
        {
            assert(self@.blocks[i as int] == self.blocks@[i as int]@);
            append_clones(&mut text, &self.blocks[i]);
            i += 1;
            assert(text@ =~= head + groups_lines(self@.blocks, i as int));
        }
        text.append("}\n");
        text
    }
}

} // verus!
