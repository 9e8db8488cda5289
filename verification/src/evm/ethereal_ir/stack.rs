//! The symbolic stack of the Ethereal IR: what is known of each slot while a
//! block is interpreted.

use vstd::prelude::*;

use crate::evm::error::Error;

verus! {

/// What is known of one stack slot.
#[derive(Debug, PartialEq, Eq)]
pub enum Element {
    /// The slot holds the tag of a block: a jump destination.
    Tag(usize),
    /// The slot holds the immediate of a push.
    Constant(String),
    /// The slot holds a value computed at run time.
    Value,
    /// The slot holds the call data word of the given index.
    UserInput(usize),
    /// The slot holds the return data word of the given index.
    ReturnData(usize),
}

/// The mathematical value of an [`Element`].
pub ghost enum ElementView {
    Tag(usize),
    Constant(Seq<char>),
    Value,
    UserInput(usize),
    ReturnData(usize),
}

impl View for Element {
    type V = ElementView;

    open spec fn view(&self) -> ElementView {
        match self {
            Element::Tag(tag) => ElementView::Tag(*tag),
            Element::Constant(constant) => ElementView::Constant(constant@),
            Element::Value => ElementView::Value,
            Element::UserInput(index) => ElementView::UserInput(*index),
            Element::ReturnData(index) => ElementView::ReturnData(*index),
        }
    }
}

impl Clone for Element {
    fn clone(&self) -> (copy: Element)
        ensures
            copy@ == self@,
    {
        match self {
            Element::Tag(tag) => Element::Tag(*tag),
            Element::Constant(constant) => Element::Constant(constant.clone()),
            Element::Value => Element::Value,
            Element::UserInput(index) => Element::UserInput(*index),
            Element::ReturnData(index) => Element::ReturnData(*index),
        }
    }
}

/// The start value of the fingerprint.
pub const FINGERPRINT_OFFSET: u64 = 0xcbf2_9ce4_8422_2325;

/// The multiplier of the fingerprint.
pub const FINGERPRINT_PRIME: u64 = 0x0000_0100_0000_01b3;

/// One round of the fingerprint: the word is xored in, then the state is
/// multiplied by the prime, modulo 2^64.
pub open spec fn mix(state: u64, word: u64) -> u64 {
    (state ^ word).wrapping_mul(FINGERPRINT_PRIME)
}

/// The fingerprint after the characters of a constant, each as one word.
pub open spec fn mix_chars(state: u64, chars: Seq<char>) -> u64
    decreases chars.len(),
{
    if chars.len() == 0 {
        state
    } else {
        mix(mix_chars(state, chars.drop_last()), chars.last() as u64)
    }
}

/// The fingerprint after one element: a word that tells the variant, then
/// the payload. A constant gives its length before its characters.
pub open spec fn mix_element(state: u64, element: ElementView) -> u64 {
    match element {
        ElementView::Tag(tag) => mix(mix(state, 1), tag as u64),
        ElementView::Constant(constant) => mix_chars(
            mix(mix(state, 2), constant.len() as u64),
            constant,
        ),
        ElementView::Value => mix(state, 3),
        ElementView::UserInput(index) => mix(mix(state, 4), index as u64),
        ElementView::ReturnData(index) => mix(mix(state, 5), index as u64),
    }
}

/// The fingerprint of a stack, taken from the bottom to the top.
pub open spec fn fingerprint(elements: Seq<ElementView>) -> u64
    decreases elements.len(),
{
    if elements.len() == 0 {
        FINGERPRINT_OFFSET
    } else {
        mix_element(fingerprint(elements.drop_last()), elements.last())
    }
}

/// The stack without its `count` topmost elements; the empty stack where it
/// holds no more than that.
pub open spec fn without_top(elements: Seq<ElementView>, count: nat) -> Seq<ElementView> {
    if count >= elements.len() {
        Seq::empty()
    } else {
        elements.take(elements.len() - count)
    }
}

/// The stack with its top and the element `index` below the top exchanged.
pub open spec fn swapped(elements: Seq<ElementView>, index: nat) -> Seq<ElementView>
    recommends
        index < elements.len(),
{
    let top = elements.len() - 1;
    elements.update(top, elements[top - index]).update(top - index, elements[top])
}

/// The stack with a copy of its `index`-th element from the top pushed: index
/// 1 copies the top itself.
pub open spec fn dupped(elements: Seq<ElementView>, index: nat) -> Seq<ElementView>
    recommends
        1 <= index <= elements.len(),
{
    elements.push(elements[elements.len() - index])
}

fn mix_word(state: u64, word: u64) -> (next: u64)
    ensures
        next == mix(state, word),
{
    (state ^ word).wrapping_mul(FINGERPRINT_PRIME)
}

fn mix_constant(state: u64, constant: &String) -> (next: u64)
    ensures
        next == mix_chars(state, constant@),
{
    let mut next: u64 = state;
    for c in it: constant.as_str().chars()
        invariant
            it.seq() == constant@,
            next == mix_chars(state, it.seq().take(it.index())),
    {
        proof {
            let before = it.seq().take(it.index());
            let after = it.seq().take(it.index() + 1);
            assert(after.drop_last() == before);
            assert(after.last() == c);
        }
        next = mix_word(next, c as u64);
    }
    assert(constant@.take(constant@.len() as int) == constant@);
    next
}

/// The symbolic stack: its elements from the bottom to the top.
#[derive(Debug, PartialEq, Eq)]
pub struct Stack {
    /// The elements, the top last.
    pub elements: Vec<Element>,
}

impl View for Stack {
    type V = Seq<ElementView>;

    open spec fn view(&self) -> Seq<ElementView> {
        self.elements@.map_values(|element: Element| element@)
    }
}

impl Clone for Stack {
    fn clone(&self) -> (copy: Stack)
        ensures
            copy@ == self@,
    {
        let mut elements: Vec<Element> = Vec::new();
        let mut i: usize = 0;
        while i < self.elements.len()
            invariant
                i <= self.elements.len(),
                elements.len() == i,
                forall|j: int| 0 <= j < i ==> elements[j]@ == self.elements[j]@,
            decreases self.elements.len() - i,
        {
            elements.push(self.elements[i].clone());
            i += 1;
        }
        let copy = Stack { elements };
        assert(copy@ =~= self@);
        copy
    }
}

impl Default for Stack {
    fn default() -> (stack: Stack)
        ensures
            stack@ == Seq::<ElementView>::empty(),
    {
        Stack::new()
    }
}

impl Stack {
    /// The empty stack.
    pub fn new() -> (stack: Stack)
        ensures
            stack@ == Seq::<ElementView>::empty(),
    {
        let stack = Stack { elements: Vec::new() };
        assert(stack@ =~= Seq::<ElementView>::empty());
        stack
    }

    /// The number of elements.
    pub fn len(&self) -> (len: usize)
        ensures
            len == self@.len(),
    {
        self.elements.len()
    }

    /// Puts an element on top.
    pub fn push(&mut self, element: Element)
        ensures
            final(self)@ == old(self)@.push(element@),
    {
        self.elements.push(element);
        assert(self@ =~= old(self)@.push(element@));
    }

    /// Takes the top element off. On the empty stack nothing changes and
    /// nothing is returned.
    pub fn pop(&mut self) -> (top: Option<Element>)
        ensures
            old(self)@.len() == 0 ==> top is None && final(self)@ == old(self)@,
            old(self)@.len() > 0 ==> top is Some && top->0@ == old(self)@.last() && final(self)@
                == old(self)@.drop_last(),
    {
        let top = self.elements.pop();
        assert(old(self)@.len() > 0 ==> self@ =~= old(self)@.drop_last());
        assert(old(self)@.len() == 0 ==> self@ =~= old(self)@);
        top
    }

    /// Takes the `count` topmost elements off, or all where the stack holds
    /// fewer.
    pub fn pop_many(&mut self, count: usize)
        ensures
            final(self)@ == without_top(old(self)@, count as nat),
    {
        let len = self.elements.len();
        let keep: usize = if count >= len { 0 } else { len - count };
        self.elements.truncate(keep);
        assert(self@ =~= without_top(old(self)@, count as nat));
    }

    /// Takes the top element off and returns the tag that it holds. The stack
    /// loses its top whether or not that was a tag.
    pub fn pop_tag(&mut self) -> (tag: Result<usize, Error>)
        ensures
            final(self)@ == without_top(old(self)@, 1),
            match tag {
                Ok(tag) => old(self)@.len() > 0 && old(self)@.last() == ElementView::Tag(tag),
                Err(error) => error == Error::MalformedControlFlow && !(old(self)@.len() > 0
                    && old(self)@.last() is Tag),
            },
    {
        let top = self.elements.pop();
        assert(self@ =~= without_top(old(self)@, 1));
        match top {
            Some(Element::Tag(tag)) => Ok(tag),
            _ => Err(Error::MalformedControlFlow),
        }
    }

    /// Exchanges the top with the element `index` below it: with index 1, the
    /// two topmost elements.
    pub fn swap(&mut self, index: usize)
        requires
            index < old(self)@.len(),
        ensures
            final(self)@ == swapped(old(self)@, index as nat),
    {
        let top = self.elements.len() - 1;
        let upper = self.elements[top].clone();
        let lower = self.elements[top - index].clone();
        self.elements.set(top, lower);
        self.elements.set(top - index, upper);
        assert(self@ =~= swapped(old(self)@, index as nat));
    }

    /// Pushes a copy of the `index`-th element from the top: with index 1, of
    /// the top itself.
    pub fn dup(&mut self, index: usize)
        requires
            1 <= index <= old(self)@.len(),
        ensures
            final(self)@ == dupped(old(self)@, index as nat),
    {
        let copy = self.elements[self.elements.len() - index].clone();
        self.elements.push(copy);
        assert(self@ =~= dupped(old(self)@, index as nat));
    }

    /// The fingerprint of the contents: equal stacks have equal fingerprints.
    pub fn hash(&self) -> (hash: u64)
        ensures
            hash == fingerprint(self@),
    {
        let mut hash: u64 = FINGERPRINT_OFFSET;
        let mut i: usize = 0;
        while i < self.elements.len()
            invariant
                i <= self.elements.len(),
                hash == fingerprint(self@.take(i as int)),
            decreases self.elements.len() - i,
        {
            proof {
                let after = self@.take(i + 1);
                assert(after.drop_last() == self@.take(i as int));
                assert(after.last() == self.elements@[i as int]@);
            }
            hash =
            match &self.elements[i] {
                Element::Tag(tag) => mix_word(mix_word(hash, 1), *tag as u64),
                Element::Constant(constant) => mix_constant(
                    mix_word(mix_word(hash, 2), constant.as_str().unicode_len() as u64),
                    constant,
                ),
                Element::Value => mix_word(hash, 3),
                Element::UserInput(index) => mix_word(mix_word(hash, 4), *index as u64),
                Element::ReturnData(index) => mix_word(mix_word(hash, 5), *index as u64),
            };
            i += 1;
        }
        assert(self@.take(i as int) == self@);
        hash
    }
}

} // verus!
