//! A block of the Ethereal IR, and how one run through its instructions
//! changes the symbolic stack.

use vstd::prelude::*;

use crate::evm::error::Error;
use crate::evm::ethereal_ir::queue_element::QueueElement;
use crate::evm::ethereal_ir::stack::dupped;
use crate::evm::ethereal_ir::stack::swapped;
use crate::evm::ethereal_ir::stack::without_top;
use crate::evm::ethereal_ir::stack::Element;
use crate::evm::ethereal_ir::stack::ElementView;
use crate::evm::ethereal_ir::stack::Stack;
use crate::evm::instruction::name::spec_dup_index;
use crate::evm::instruction::name::spec_input_size;
use crate::evm::instruction::name::spec_is_constant_push;
use crate::evm::instruction::name::spec_output_size;
use crate::evm::instruction::name::spec_swap_index;
use crate::evm::instruction::name::Name;
use crate::evm::instruction::Instruction;
use crate::evm::instruction::InstructionView;
use crate::text::decimal;
use crate::text::parse_decimal;
use crate::version::Version;

verus! {

/// An instruction of a block with the stack that the emission sees at it.
#[derive(Debug, PartialEq, Eq)]
pub struct BlockElement {
    /// The instruction.
    pub instruction: Instruction,
    /// The snapshot of the stack.
    pub stack: Stack,
}

/// The mathematical value of a [`BlockElement`].
pub ghost struct BlockElementView {
    pub instruction: InstructionView,
    pub stack: Seq<ElementView>,
}

impl View for BlockElement {
    type V = BlockElementView;

    open spec fn view(&self) -> BlockElementView {
        BlockElementView { instruction: self.instruction@, stack: self.stack@ }
    }
}

impl Clone for BlockElement {
    fn clone(&self) -> (copy: BlockElement)
        ensures
            copy@ == self@,
    {
        BlockElement { instruction: self.instruction.clone(), stack: self.stack.clone() }
    }
}

impl BlockElement {
    /// The element of the instruction, with an empty snapshot.
    pub fn new(instruction: Instruction) -> (element: BlockElement)
        ensures
            element@ == (BlockElementView { instruction: instruction@, stack: Seq::empty() }),
    {
        BlockElement { instruction, stack: Stack::new() }
    }
}

/// A block: a run of instructions under one tag. The listing gives one flat
/// block for each tag; the builder makes a clone of it for each stack that
/// the block is entered with.
#[derive(Debug, PartialEq, Eq)]
pub struct Block {
    /// The tag of the block.
    pub tag: usize,
    /// The stack on entry.
    pub initial_stack: Stack,
    /// The working stack.
    pub stack: Stack,
    /// The instructions with their snapshots.
    pub elements: Vec<BlockElement>,
    /// The tags of the blocks that lead here, each once, in the order in
    /// which they were found.
    pub predecessors: Vec<usize>,
}

/// The mathematical value of a [`Block`].
pub ghost struct BlockView {
    pub tag: usize,
    pub initial_stack: Seq<ElementView>,
    pub stack: Seq<ElementView>,
    pub elements: Seq<BlockElementView>,
    pub predecessors: Seq<usize>,
}

impl View for Block {
    type V = BlockView;

    open spec fn view(&self) -> BlockView {
        BlockView {
            tag: self.tag,
            initial_stack: self.initial_stack@,
            stack: self.stack@,
            elements: self.elements@.map_values(|element: BlockElement| element@),
            predecessors: self.predecessors@,
        }
    }
}

impl Clone for Block {
    fn clone(&self) -> (copy: Block)
        ensures
            copy@ == self@,
    {
        let mut elements: Vec<BlockElement> = Vec::new();
        let mut i: usize = 0;
        while i < self.elements.len()
            invariant
                i <= self.elements.len(),
                elements.len() == i,
                forall|j: int| 0 <= j < i ==> elements[j]@ == self.elements[j]@,
            decreases self.elements.len() - i,
        {
            elements.push(self.elements[i].clone());
            i += 1;
        }
        let mut predecessors: Vec<usize> = Vec::new();
        let mut k: usize = 0;
        while k < self.predecessors.len()
            invariant
                k <= self.predecessors.len(),
                predecessors@ == self.predecessors@.take(k as int),
            decreases self.predecessors.len() - k,
        {
            predecessors.push(self.predecessors[k]);
            k += 1;
            assert(predecessors@ =~= self.predecessors@.take(k as int));
        }
        assert(self.predecessors@.take(k as int) == self.predecessors@);
        let copy = Block {
            tag: self.tag,
            initial_stack: self.initial_stack.clone(),
            stack: self.stack.clone(),
            elements,
            predecessors,
        };
        assert(copy@.elements =~= self@.elements);
        copy
    }
}

/// The flat block that a listing gives for a tag: the instructions with
/// empty snapshots, empty stacks and no predecessor.
pub open spec fn flat(tag: usize, instructions: Seq<InstructionView>) -> BlockView {
    BlockView {
        tag,
        initial_stack: Seq::empty(),
        stack: Seq::empty(),
        elements: instructions.map_values(
            |instruction: InstructionView|
                BlockElementView { instruction, stack: Seq::empty() },
        ),
        predecessors: Seq::empty(),
    }
}

/// What one instruction does to the symbolic stack.
pub ghost struct Outcome {
    /// The stack that the emission sees at the instruction.
    pub snapshot: Seq<ElementView>,
    /// The working stack after the instruction.
    pub stack: Seq<ElementView>,
    /// The tag of the block that the instruction leads to, if it leads to one:
    /// that block is entered with `stack`.
    pub target: Option<usize>,
    /// Whether the run through the block ends here.
    pub stop: bool,
}

/// The first tag among the `depth` topmost elements, looking from the top
/// down; `Value` where none of them is a tag.
pub open spec fn first_tag(stack: Seq<ElementView>, depth: nat) -> ElementView
    decreases depth,
{
    if depth == 0 || stack.len() == 0 {
        ElementView::Value
    } else if stack.last() is Tag {
        stack.last()
    } else {
        first_tag(stack.drop_last(), (depth - 1) as nat)
    }
}

/// The second element from the top where that is a tag, else `Value`.
pub open spec fn second_tag(stack: Seq<ElementView>) -> ElementView {
    if stack.len() >= 2 && stack[stack.len() - 2] is Tag {
        stack[stack.len() - 2]
    } else {
        ElementView::Value
    }
}

/// Where one of the `depth` topmost elements is a tag, [`first_tag`] is the
/// topmost tag among them; where none is, it is `Value`.
pub proof fn lemma_first_tag(stack: Seq<ElementView>, depth: nat)
    ensures
        (exists|i: int| stack.len() - depth <= i < stack.len() && 0 <= i && stack[i] is Tag)
            ==> exists|i: int|
            stack.len() - depth <= i < stack.len() && 0 <= i && first_tag(stack, depth)
                == #[trigger] stack[i] && stack[i] is Tag && forall|j: int|
                i < j < stack.len() ==> !(#[trigger] stack[j] is Tag),
        (forall|i: int| stack.len() - depth <= i < stack.len() && 0 <= i ==> !(stack[i] is Tag))
            ==> first_tag(stack, depth) == ElementView::Value,
    decreases depth,
{
    if depth == 0 || stack.len() == 0 {
    } else if stack.last() is Tag {
        assert(first_tag(stack, depth) == stack[stack.len() - 1]);
    } else {
        let below = stack.drop_last();
        lemma_first_tag(below, (depth - 1) as nat);
        if exists|i: int| stack.len() - depth <= i < stack.len() && 0 <= i && stack[i] is Tag {
            let i = choose|i: int|
                stack.len() - depth <= i < stack.len() && 0 <= i && stack[i] is Tag;
            assert(below[i] is Tag);
            let top = choose|i: int|
                below.len() - (depth - 1) <= i < below.len() && 0 <= i && first_tag(
                    below,
                    (depth - 1) as nat,
                ) == #[trigger] below[i] && below[i] is Tag && forall|j: int|
                    i < j < below.len() ==> !(#[trigger] below[j] is Tag);
            assert(first_tag(stack, depth) == stack[top]);
            assert forall|j: int| top < j < stack.len() implies !(#[trigger] stack[j] is Tag) by {
                if j < below.len() {
                    assert(!(below[j] is Tag));
                }
            }
        } else {
            assert forall|i: int| below.len() - (depth - 1) <= i < below.len() && 0 <= i implies !(
            below[i] is Tag) by {
                assert(!(stack[i] is Tag));
            }
        }
    }
}

/// A tag keeps its provenance through masking and shifting. `AND` gives
/// the topmost tag among its two inputs, and `Value` where neither is a
/// tag; `SHL` and `SHR` give the second element from the top where that is
/// a tag, else `Value`. The result is seen on top of the snapshot, and
/// stands in place of the inputs on the working stack.
pub proof fn lemma_tag_provenance(
    stack: Seq<ElementView>,
    instruction: InstructionView,
    version: Version,
)
    requires
        instruction.name == Name::AND || instruction.name == Name::SHL || instruction.name
            == Name::SHR,
    ensures
        step(stack, instruction, version) is Ok,
        ({
            let outcome = step(stack, instruction, version)->Ok_0;
            let result = outcome.snapshot.last();
            &&& outcome.snapshot == stack.push(result)
            &&& outcome.stack == without_top(stack, 2).push(result)
            &&& outcome.target is None
            &&& !outcome.stop
            &&& instruction.name == Name::AND ==> {
                &&& stack.len() >= 1 && stack[stack.len() - 1] is Tag ==> result
                    == stack[stack.len() - 1]
                &&& stack.len() >= 2 && !(stack[stack.len() - 1] is Tag) && stack[stack.len()
                    - 2] is Tag ==> result == stack[stack.len() - 2]
                &&& (stack.len() == 0 || !(stack[stack.len() - 1] is Tag)) && (stack.len() < 2
                    || !(stack[stack.len() - 2] is Tag)) ==> result == ElementView::Value
            }
            &&& instruction.name != Name::AND ==> {
                &&& stack.len() >= 2 && stack[stack.len() - 2] is Tag ==> result
                    == stack[stack.len() - 2]
                &&& stack.len() < 2 || !(stack[stack.len() - 2] is Tag) ==> result
                    == ElementView::Value
            }
        }),
{
    lemma_first_tag(stack, 2);
    reveal_with_fuel(first_tag, 3);
    if stack.len() >= 1 {
        assert(stack.drop_last().len() == stack.len() - 1);
        if stack.len() >= 2 {
            assert(stack.drop_last().last() == stack[stack.len() - 2]);
        }
    }
}

/// The outcome of an instruction that pushes `element` and is seen after the
/// push.
pub open spec fn pushing(stack: Seq<ElementView>, element: ElementView) -> Outcome {
    Outcome { snapshot: stack.push(element), stack: stack.push(element), target: None, stop: false }
}

/// The outcome of an instruction that takes `inputs` slots and gives `result`:
/// the snapshot shows the result on top of the inputs, the working stack has
/// the result in their place.
pub open spec fn computing(stack: Seq<ElementView>, result: ElementView, inputs: nat) -> Outcome {
    Outcome {
        snapshot: stack.push(result),
        stack: without_top(stack, inputs).push(result),
        target: None,
        stop: false,
    }
}

/// What the instruction does on the given stack. A push of a tag or of a
/// constant and an exchange or a duplication are seen after they are done;
/// a jump and a label are seen before. A jump takes the tag off the top,
/// and a conditional jump the condition under it too. A label ends the run
/// through the block.
pub open spec fn step(
    stack: Seq<ElementView>,
    instruction: InstructionView,
    version: Version,
) -> Result<Outcome, Error> {
    let name = instruction.name;
    let inputs = spec_input_size(name, version) as nat;
    if name == Name::PUSH_Tag && instruction.value is Some {
        match decimal(instruction.value->0) {
            Some(tag) => Ok(pushing(stack, ElementView::Tag(tag))),
            None => Err(Error::InvalidTag),
        }
    } else if name == Name::Tag && instruction.value is Some {
        match decimal(instruction.value->0) {
            Some(tag) => Ok(Outcome { snapshot: stack, stack, target: Some(tag), stop: true }),
            None => Err(Error::InvalidTag),
        }
    } else if name == Name::JUMP || name == Name::JUMPI {
        if stack.len() > 0 && stack.last() is Tag {
            Ok(
                Outcome {
                    snapshot: stack,
                    stack: without_top(stack, inputs),
                    target: Some(stack.last()->Tag_0),
                    stop: false,
                },
            )
        } else {
            Err(Error::MalformedControlFlow)
        }
    } else if spec_swap_index(name) is Some {
        let index = spec_swap_index(name)->0 as nat;
        if index < stack.len() {
            Ok(
                Outcome {
                    snapshot: swapped(stack, index),
                    stack: swapped(stack, index),
                    target: None,
                    stop: false,
                },
            )
        } else {
            Err(Error::StackUnderflow)
        }
    } else if spec_dup_index(name) is Some {
        let index = spec_dup_index(name)->0 as nat;
        if index <= stack.len() {
            Ok(
                Outcome {
                    snapshot: dupped(stack, index),
                    stack: dupped(stack, index),
                    target: None,
                    stop: false,
                },
            )
        } else {
            Err(Error::StackUnderflow)
        }
    } else if spec_is_constant_push(name) && instruction.value is Some {
        Ok(pushing(stack, ElementView::Constant(instruction.value->0)))
    } else if name == Name::SHL || name == Name::SHR {
        Ok(computing(stack, second_tag(stack), inputs))
    } else if name == Name::AND {
        Ok(computing(stack, first_tag(stack, inputs), inputs))
    } else if spec_output_size(name) == 1 {
        Ok(computing(stack, ElementView::Value, inputs))
    } else {
        Ok(Outcome { snapshot: stack, stack: without_top(stack, inputs), target: None, stop: false })
    }
}

/// A jump destination found during a run, with the stack that it is entered
/// with.
pub ghost struct Target {
    pub tag: usize,
    pub stack: Seq<ElementView>,
}

/// What a run through the instructions of a block gives.
pub ghost struct Run {
    /// The snapshots of the instructions that were run, in order.
    pub snapshots: Seq<Seq<ElementView>>,
    /// The working stack after the last of them.
    pub stack: Seq<ElementView>,
    /// The destinations found, in order.
    pub targets: Seq<Target>,
    /// Whether the run ended at a label, before the end of the block.
    pub stopped: bool,
}

/// The run through the instructions from the given stack: each instruction
/// in turn, up to the first label, or the first failure.
pub open spec fn run(
    stack: Seq<ElementView>,
    instructions: Seq<InstructionView>,
    version: Version,
) -> Result<Run, Error>
    decreases instructions.len(),
{
    if instructions.len() == 0 {
        Ok(Run { snapshots: Seq::empty(), stack, targets: Seq::empty(), stopped: false })
    } else {
        match run(stack, instructions.drop_last(), version) {
            Err(error) => Err(error),
            Ok(before) => if before.stopped {
                Ok(before)
            } else {
                match step(before.stack, instructions.last(), version) {
                    Err(error) => Err(error),
                    Ok(outcome) => Ok(
                        Run {
                            snapshots: before.snapshots.push(outcome.snapshot),
                            stack: outcome.stack,
                            targets: match outcome.target {
                                Some(tag) => before.targets.push(
                                    Target { tag, stack: outcome.stack },
                                ),
                                None => before.targets,
                            },
                            stopped: outcome.stop,
                        },
                    ),
                }
            },
        }
    }
}

/// A run that has stopped or failed on a prefix of the instructions gives
/// the same on all of them.
pub proof fn lemma_run_settled(
    stack: Seq<ElementView>,
    instructions: Seq<InstructionView>,
    version: Version,
    prefix: int,
)
    requires
        0 <= prefix <= instructions.len(),
        match run(stack, instructions.take(prefix), version) {
            Ok(before) => before.stopped,
            Err(_) => true,
        },
    ensures
        run(stack, instructions, version) == run(stack, instructions.take(prefix), version),
    decreases instructions.len() - prefix,
{
    if prefix == instructions.len() {
        assert(instructions.take(prefix) == instructions);
    } else {
        assert(instructions.take(prefix + 1).drop_last() == instructions.take(prefix));
        lemma_run_settled(stack, instructions, version, prefix + 1);
    }
}

/// The instructions of the elements.
pub open spec fn instructions_of(elements: Seq<BlockElementView>) -> Seq<InstructionView> {
    elements.map_values(|element: BlockElementView| element.instruction)
}

/// The block after a run: the instructions that were run show their
/// snapshots, the others are as before.
pub open spec fn after_run(block: BlockView, run: Run) -> BlockView {
    BlockView {
        tag: block.tag,
        initial_stack: block.initial_stack,
        stack: run.stack,
        elements: Seq::new(
            block.elements.len(),
            |i: int|
                BlockElementView {
                    instruction: block.elements[i].instruction,
                    stack: if i < run.snapshots.len() {
                        run.snapshots[i]
                    } else {
                        block.elements[i].stack
                    },
                },
        ),
        predecessors: block.predecessors,
    }
}

/// The worklist entries of the destinations: each has the block of the
/// given tag as its predecessor.
pub open spec fn entries(from: usize, targets: Seq<Target>) -> Seq<
    crate::evm::ethereal_ir::queue_element::QueueElementView,
> {
    targets.map_values(
        |target: Target|
            crate::evm::ethereal_ir::queue_element::QueueElementView {
                tag: target.tag,
                predecessor: Some(from),
                stack: target.stack,
            },
    )
}

fn first_tag_of(stack: &Stack, depth: usize) -> (element: Element)
    ensures
        element@ == first_tag(stack@, depth as nat),
{
    let len = stack.elements.len();
    let mut i: usize = 0;
    assert(stack@.take(len as int) == stack@);
    while i < depth && i < len
        invariant
            len == stack.elements.len(),
            i <= depth,
            i <= len,
            first_tag(stack@, depth as nat) == first_tag(
                stack@.take(len - i),
                (depth - i) as nat,
            ),
        decreases len - i,
    {
        proof {
            let rest = stack@.take(len - i);
            assert(rest.last() == stack.elements@[len - 1 - i]@);
            assert(rest.drop_last() == stack@.take(len - i - 1));
        }
        match &stack.elements[len - 1 - i] {
            Element::Tag(tag) => {
                return Element::Tag(*tag);
            },
            _ => {},
        }
        i += 1;
    }
    Element::Value
}

fn second_tag_of(stack: &Stack) -> (element: Element)
    ensures
        element@ == second_tag(stack@),
{
    let len = stack.elements.len();
    if len >= 2 {
        match &stack.elements[len - 2] {
            Element::Tag(tag) => Element::Tag(*tag),
            _ => Element::Value,
        }
    } else {
        Element::Value
    }
}

/// An instruction that computes: the result is pushed and shown, then it
/// changes places with its inputs.
fn compute(stack: &mut Stack, result: Element, inputs: usize) -> (snapshot: Stack)
    ensures
        snapshot@ == computing(old(stack)@, result@, inputs as nat).snapshot,
        final(stack)@ == computing(old(stack)@, result@, inputs as nat).stack,
{
    stack.push(result.clone());
    let snapshot = stack.clone();
    stack.pop();
    stack.pop_many(inputs);
    stack.push(result);
    assert(old(stack)@.push(result@).drop_last() == old(stack)@);
    snapshot
}

/// Runs one instruction on the working stack. Returns the snapshot, the tag
/// that the instruction leads to, and whether the run ends here.
pub fn apply(stack: &mut Stack, instruction: &Instruction, version: &Version) -> (result: Result<
    (Stack, Option<usize>, bool),
    Error,
>)
    ensures
        match step(old(stack)@, instruction@, *version) {
            Ok(outcome) => result is Ok && result->Ok_0.0@ == outcome.snapshot && result->Ok_0.1
                == outcome.target && result->Ok_0.2 == outcome.stop && final(stack)@
                == outcome.stack,
            Err(error) => result == Err::<(Stack, Option<usize>, bool), Error>(error),
        },
{
    let name = instruction.name;
    let inputs = instruction.input_size(version);
    match &instruction.value {
        Some(value) => {
            if name == Name::PUSH_Tag {
                match parse_decimal(value.as_str()) {
                    Some(tag) => {
                        stack.push(Element::Tag(tag));
                        return Ok((stack.clone(), None, false));
                    },
                    None => {
                        return Err(Error::InvalidTag);
                    },
                }
            } else if name == Name::Tag {
                match parse_decimal(value.as_str()) {
                    Some(tag) => {
                        return Ok((stack.clone(), Some(tag), true));
                    },
                    None => {
                        return Err(Error::InvalidTag);
                    },
                }
            } else if name.is_constant_push() {
                stack.push(Element::Constant(value.clone()));
                return Ok((stack.clone(), None, false));
            }
        },
        None => {},
    }
    if name == Name::JUMP || name == Name::JUMPI {
        let snapshot = stack.clone();
        let ghost before = stack@;
        let tag = stack.pop_tag()?;
        if name == Name::JUMPI {
            stack.pop();
            assert(stack@ =~= without_top(before, 2));
        }
        return Ok((snapshot, Some(tag), false));
    }
    match name.swap_index() {
        Some(index) => {
            if index < stack.len() {
                stack.swap(index);
                return Ok((stack.clone(), None, false));
            } else {
                return Err(Error::StackUnderflow);
            }
        },
        None => {},
    }
    match name.dup_index() {
        Some(index) => {
            if index <= stack.len() {
                stack.dup(index);
                return Ok((stack.clone(), None, false));
            } else {
                return Err(Error::StackUnderflow);
            }
        },
        None => {},
    }
    if name == Name::SHL || name == Name::SHR {
        let result = second_tag_of(stack);
        let snapshot = compute(stack, result, inputs);
        Ok((snapshot, None, false))
    } else if name == Name::AND {
        let result = first_tag_of(stack, inputs);
        let snapshot = compute(stack, result, inputs);
        Ok((snapshot, None, false))
    } else if instruction.output_size() == 1 {
        let snapshot = compute(stack, Element::Value, inputs);
        Ok((snapshot, None, false))
    } else {
        let snapshot = stack.clone();
        stack.pop_many(inputs);
        Ok((snapshot, None, false))
    }
}

impl Block {
    /// The flat block of the tag and the instructions, with empty stacks and
    /// no predecessor.
    pub fn new(tag: usize, instructions: Vec<Instruction>) -> (block: Block)
        ensures
            block@ == flat(tag, instructions@.map_values(|instruction: Instruction| instruction@)),
    {
        let mut elements: Vec<BlockElement> = Vec::new();
        let mut i: usize = 0;
        while i < instructions.len()
            invariant
                i <= instructions.len(),
                elements.len() == i,
                forall|j: int|
                    0 <= j < i ==> (#[trigger] elements@[j])@ == (BlockElementView {
                        instruction: instructions@[j]@,
                        stack: Seq::empty(),
                    }),
            decreases instructions.len() - i,
        {
            elements.push(BlockElement::new(instructions[i].clone()));
            i += 1;
        }
        let block = Block {
            tag,
            initial_stack: Stack::new(),
            stack: Stack::new(),
            elements,
            predecessors: Vec::new(),
        };
        assert(block@.elements =~= flat(
            tag,
            instructions@.map_values(|instruction: Instruction| instruction@),
        ).elements);
        block
    }

    /// Records that the block of the given tag leads here, if that is not
    /// recorded yet.
    pub fn insert_predecessor(&mut self, tag: usize)
        ensures
            final(self)@ == (BlockView {
                predecessors: if old(self).predecessors@.contains(tag) {
                    old(self).predecessors@
                } else {
                    old(self).predecessors@.push(tag)
                },
                ..old(self)@
            }),
    {
        let mut i: usize = 0;
        while i < self.predecessors.len()
            invariant
                i <= self.predecessors.len(),
                *self == *old(self),
                forall|j: int| 0 <= j < i ==> self.predecessors@[j] != tag,
            decreases self.predecessors.len() - i,
        {
            if self.predecessors[i] == tag {
                return ;
            }
            i += 1;
        }
        self.predecessors.push(tag);
    }

    /// Runs through the instructions from the working stack, writes each
    /// snapshot, and returns the worklist entries of the destinations found.
    /// The run ends at the first label; the instructions behind it keep the
    /// snapshots that they had.
    pub fn interpret(&mut self, version: &Version) -> (result: Result<Vec<QueueElement>, Error>)
        ensures
            match run(old(self).stack@, instructions_of(old(self)@.elements), *version) {
                Ok(run) => result is Ok && final(self)@ == after_run(old(self)@, run)
                    && result->Ok_0@.map_values(|element: QueueElement| element@) == entries(
                    old(self).tag,
                    run.targets,
                ),
                Err(error) => result == Err::<Vec<QueueElement>, Error>(error),
            },
    {
        let ghost instructions = instructions_of(old(self)@.elements);
        let ghost start = self.stack@;
        let mut queue: Vec<QueueElement> = Vec::new();
        let mut i: usize = 0;
        let mut stopped = false;
        assert(instructions.take(0) =~= Seq::<InstructionView>::empty());
        while i < self.elements.len() && !stopped
            invariant
                i <= self.elements.len(),
                self.elements.len() == old(self).elements.len(),
                instructions == instructions_of(old(self)@.elements),
                start == old(self).stack@,
                self.tag == old(self).tag,
                self.initial_stack == old(self).initial_stack,
                self.predecessors == old(self).predecessors,
                run(start, instructions.take(i as int), *version) is Ok,
                ({
                    let run = run(start, instructions.take(i as int), *version)->Ok_0;
                    &&& run.stopped == stopped
                    &&& run.stack == self.stack@
                    &&& run.snapshots.len() == i
                    &&& queue@.len() == run.targets.len()
                    &&& forall|j: int|
                        0 <= j < queue@.len() ==> (#[trigger] queue@[j])@ == entries(
                            old(self).tag,
                            run.targets,
                        )[j]
                    &&& forall|j: int|
                        0 <= j < i ==> (#[trigger] self.elements@[j])@.stack == run.snapshots[j]
                }),
                forall|j: int|
                    0 <= j < self.elements.len() ==> (#[trigger] self.elements@[j])@.instruction
                        == old(self).elements@[j]@.instruction,
                forall|j: int|
                    i <= j < self.elements.len() ==> (#[trigger] self.elements@[j])@.stack == old(
                        self,
                    ).elements@[j]@.stack,
            decreases self.elements.len() - i,
        {
            proof {
                assert(instructions.take(i + 1).drop_last() == instructions.take(i as int));
                assert(instructions.take(i + 1).last() == self.elements@[i as int]@.instruction);
            }
            let instruction = self.elements[i].instruction.clone();
            match apply(&mut self.stack, &instruction, version) {
                Err(error) => {
                    proof {
                        lemma_run_settled(start, instructions, *version, i + 1);
                    }
                    return Err(error);
                },
                Ok((snapshot, target, stop)) => {
                    match target {
                        Some(tag) => {
                            queue.push(QueueElement::new(tag, Some(self.tag), self.stack.clone()));
                        },
                        None => {},
                    }
                    self.elements.set(i, BlockElement { instruction, stack: snapshot });
                    stopped = stop;
                },
            }
            i += 1;
        }
        proof {
            if stopped {
                lemma_run_settled(start, instructions, *version, i as int);
            } else {
                assert(instructions.take(i as int) == instructions);
            }
            let run = run(start, instructions, *version)->Ok_0;
            assert(self@.elements =~= after_run(old(self)@, run).elements);
            assert(queue@.map_values(|element: QueueElement| element@) =~= entries(
                old(self).tag,
                run.targets,
            ));
        }
        Ok(queue)
    }
}

} // verus!
