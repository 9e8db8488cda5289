//! What the builder has visited.

use vstd::prelude::*;
use vstd::relations::injective_on;
use vstd::set_lib::lemma_int_range;
use vstd::set_lib::lemma_len_subset;
use vstd::set_lib::lemma_map_size;

verus! {

/// A block together with the fingerprint of the stack that it was entered
/// with.
#[derive(Debug, Clone, Copy, PartialEq, Eq, Hash, Structural)]
pub struct VisitedElement {
    /// The tag of the block.
    pub tag: usize,
    /// The fingerprint of the stack on entry.
    pub stack_hash: u64,
}

impl VisitedElement {
    /// The element of the two parts.
    pub fn new(tag: usize, stack_hash: u64) -> (element: VisitedElement)
        ensures
            element == (VisitedElement { tag, stack_hash }),
    {
        VisitedElement { tag, stack_hash }
    }
}

/// A bound on how many different [`VisitedElement`] values there are: 2^128.
pub open spec fn universe() -> nat {
    0x1_0000_0000_0000_0000nat * 0x1_0000_0000_0000_0000nat
}

/// How many elements a set can still take in before it holds every one
/// there is.
pub open spec fn room(visited: Set<VisitedElement>) -> nat {
    if visited.finite() && visited.len() <= universe() {
        (universe() - visited.len()) as nat
    } else {
        0
    }
}

spec fn code(element: VisitedElement) -> int {
    element.tag as int * 0x1_0000_0000_0000_0000 + element.stack_hash as int
}

/// A finite set of elements holds no more than [`universe`] of them.
pub proof fn lemma_visited_bounded(visited: Set<VisitedElement>)
    requires
        visited.finite(),
    ensures
        visited.len() <= universe(),
{
    let f = |element: VisitedElement| code(element);
    let image = visited.map(f);
    let all = Set::<int>::new(|i: int| 0 <= i < universe());
    assert forall|a: VisitedElement, b: VisitedElement|
        visited.contains(a) && visited.contains(b) && #[trigger] f(a) == #[trigger] f(
            b,
        ) implies a == b by {
        assert(a.stack_hash == b.stack_hash && a.tag == b.tag) by (nonlinear_arith)
            requires
                a.tag as int * 0x1_0000_0000_0000_0000 + a.stack_hash as int == b.tag as int
                    * 0x1_0000_0000_0000_0000 + b.stack_hash as int,
                0 <= a.stack_hash < 0x1_0000_0000_0000_0000,
                0 <= b.stack_hash < 0x1_0000_0000_0000_0000,
        ;
    }
    assert(injective_on(f, visited));
    visited.lemma_map_finite(f);
    lemma_map_size(visited, image, f);
    lemma_int_range(0, universe() as int);
    assert(all =~= vstd::set_lib::set_int_range(0, universe() as int));
    assert forall|i: int| image.contains(i) implies all.contains(i) by {
        let element = choose|element: VisitedElement| visited.contains(element) && f(element) == i;
        assert(0 <= code(element) < universe()) by (nonlinear_arith)
            requires
                code(element) == element.tag as int * 0x1_0000_0000_0000_0000
                    + element.stack_hash as int,
                0 <= element.tag < 0x1_0000_0000_0000_0000,
                0 <= element.stack_hash < 0x1_0000_0000_0000_0000,
                universe() == 0x1_0000_0000_0000_0000nat * 0x1_0000_0000_0000_0000nat,
        ;
    }
    lemma_len_subset(image, all);
}

/// Taking in one more element leaves less room.
pub proof fn lemma_room_shrinks(visited: Set<VisitedElement>, element: VisitedElement)
    requires
        visited.finite(),
        !visited.contains(element),
    ensures
        room(visited.insert(element)) < room(visited),
{
    lemma_visited_bounded(visited);
    lemma_visited_bounded(visited.insert(element));
}

/// The set of what was visited.
#[derive(Debug)]
pub struct Visited {
    elements: Vec<VisitedElement>,
}

impl View for Visited {
    type V = Set<VisitedElement>;

    closed spec fn view(&self) -> Set<VisitedElement> {
        self.elements@.to_set()
    }
}

impl Visited {
    /// The empty set.
    pub fn new() -> (visited: Visited)
        ensures
            visited@ == Set::<VisitedElement>::empty(),
    {
        let visited = Visited { elements: Vec::new() };
        assert(visited@ =~= Set::<VisitedElement>::empty());
        visited
    }

    /// What is visited is a finite set.
    pub proof fn lemma_finite(&self)
        ensures
            self@.finite(),
    {
    }

    /// Whether the element is in the set.
    pub fn contains(&self, element: &VisitedElement) -> (found: bool)
        ensures
            found == self@.contains(*element),
    {
        let mut i: usize = 0;
        while i < self.elements.len()
            invariant
                i <= self.elements.len(),
                forall|j: int| 0 <= j < i ==> self.elements@[j] != *element,
            decreases self.elements.len() - i,
        {
            if self.elements[i] == *element {
                return true;
            }
            i += 1;
        }
        false
    }

    /// Puts the element into the set. Returns whether it was new.
    pub fn insert(&mut self, element: VisitedElement) -> (new: bool)
        ensures
            final(self)@ == old(self)@.insert(element),
            new == !old(self)@.contains(element),
    {
        if self.contains(&element) {
            assert(self@ =~= old(self)@.insert(element));
            false
        } else {
            self.elements.push(element);
            assert(self.elements@.drop_last() == old(self).elements@);
            assert(self@ =~= old(self)@.insert(element)) by {
                assert forall|e: VisitedElement| self@.contains(e) <==> old(self)@.insert(
                    element,
                ).contains(e) by {
                    if self@.contains(e) {
                        let i = choose|i: int| 0 <= i < self.elements@.len() && self.elements@[i] == e;
                        if i < old(self).elements@.len() {
                            assert(old(self).elements@[i] == e);
                        }
                    }
                    if old(self)@.contains(e) {
                        let i = choose|i: int|
                            0 <= i < old(self).elements@.len() && old(self).elements@[i] == e;
                        assert(self.elements@[i] == e);
                    }
                    if e == element {
                        assert(self.elements@[self.elements@.len() - 1] == e);
                    }
                }
            }
            true
        }
    }
}

} // verus!
