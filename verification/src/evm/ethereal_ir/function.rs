//! The function of the Ethereal IR: the blocks of a listing, one clone for
//! each stack that a block is entered with.

use std::collections::HashMap;
use vstd::prelude::*;

use crate::evm::error::Error;
use crate::evm::ethereal_ir::block::after_run;
use crate::evm::ethereal_ir::block::entries;
use crate::evm::ethereal_ir::block::instructions_of;
use crate::evm::ethereal_ir::block::run;
use crate::evm::ethereal_ir::block::Block;
use crate::evm::ethereal_ir::block::BlockView;
use crate::evm::ethereal_ir::queue_element::QueueElement;
use crate::evm::ethereal_ir::queue_element::QueueElementView;
use crate::evm::ethereal_ir::stack::fingerprint;
use crate::evm::ethereal_ir::stack::Stack;
use crate::evm::ethereal_ir::visited_element::lemma_room_shrinks;
use crate::evm::ethereal_ir::visited_element::room;
use crate::evm::ethereal_ir::visited_element::Visited;
use crate::evm::ethereal_ir::visited_element::VisitedElement;
use crate::version::CodeType;
use crate::version::Version;

verus! {

broadcast use vstd::std_specs::hash::group_hash_axioms;

/// The clones of the block of one tag, in the order in which the builder
/// made them.
#[derive(Debug, PartialEq, Eq)]
pub struct Clones {
    /// The tag.
    pub tag: usize,
    /// The clones.
    pub blocks: Vec<Block>,
}

/// The mathematical value of [`Clones`].
pub ghost struct ClonesView {
    pub tag: usize,
    pub blocks: Seq<BlockView>,
}

impl View for Clones {
    type V = ClonesView;

    open spec fn view(&self) -> ClonesView {
        ClonesView { tag: self.tag, blocks: self.blocks@.map_values(|block: Block| block@) }
    }
}

/// The function of the Ethereal IR.
#[derive(Debug, PartialEq, Eq)]
pub struct Function {
    /// The version of the Solidity compiler.
    pub solc_version: Version,
    /// The contract part that the function belongs to.
    pub code_type: CodeType,
    /// The blocks, by ascending tag.
    pub blocks: Vec<Clones>,
    /// The greatest depth that the stack reaches at any instruction.
    pub stack_size: usize,
}

/// The mathematical value of a [`Function`].
pub ghost struct FunctionView {
    pub solc_version: Version,
    pub code_type: CodeType,
    pub blocks: Seq<ClonesView>,
    pub stack_size: usize,
}

impl View for Function {
    type V = FunctionView;

    open spec fn view(&self) -> FunctionView {
        FunctionView {
            solc_version: self.solc_version,
            code_type: self.code_type,
            blocks: self.blocks@.map_values(|clones: Clones| clones@),
            stack_size: self.stack_size,
        }
    }
}

/// Whether one of the blocks was entered with a stack of the given
/// fingerprint.
pub open spec fn has_fingerprint(blocks: Seq<BlockView>, hash: u64) -> bool {
    exists|k: int| 0 <= k < blocks.len() && fingerprint((#[trigger] blocks[k]).initial_stack) == hash
}

/// The blocks of a function are well formed where the tags ascend, every tag
/// has a clone, every clone bears the tag that it stands under, and no two
/// clones of a tag were entered with stacks of one fingerprint.
pub open spec fn well_formed(groups: Seq<ClonesView>) -> bool {
    &&& forall|i: int, j: int|
        0 <= i < j < groups.len() ==> (#[trigger] groups[i]).tag < (#[trigger] groups[j]).tag
    &&& forall|i: int| 0 <= i < groups.len() ==> (#[trigger] groups[i]).blocks.len() > 0
    &&& forall|i: int, k: int|
        0 <= i < groups.len() && 0 <= k < groups[i].blocks.len() ==> (#[trigger] groups[i].blocks[k]).tag
            == groups[i].tag
    &&& forall|i: int, k: int, l: int|
        0 <= i < groups.len() && 0 <= k < l < groups[i].blocks.len() ==> fingerprint(
            (#[trigger] groups[i].blocks[k]).initial_stack,
        ) != fingerprint((#[trigger] groups[i].blocks[l]).initial_stack)
}

/// The fingerprints of the stacks that the blocks were entered with.
pub open spec fn fingerprints(blocks: Seq<BlockView>) -> Seq<u64> {
    blocks.map_values(|block: BlockView| fingerprint(block.initial_stack))
}

/// In well-formed blocks the clones of a tag have as many different
/// fingerprints as there are clones.
pub proof fn lemma_clones_distinct(groups: Seq<ClonesView>, i: int)
    requires
        well_formed(groups),
        0 <= i < groups.len(),
    ensures
        fingerprints(groups[i].blocks).to_set().len() == groups[i].blocks.len(),
{
    let hashes = fingerprints(groups[i].blocks);
    assert forall|k: int, l: int| 0 <= k < hashes.len() && 0 <= l < hashes.len() && k != l implies hashes[k]
        != hashes[l] by {
        if k < l {
            assert(fingerprint(groups[i].blocks[k].initial_stack) != fingerprint(
                groups[i].blocks[l].initial_stack,
            ));
        } else {
            assert(fingerprint(groups[i].blocks[l].initial_stack) != fingerprint(
                groups[i].blocks[k].initial_stack,
            ));
        }
    }
    hashes.unique_seq_to_set();
}

/// Where the clones of a tag stand, or would be put: behind every group of
/// a smaller tag.
pub open spec fn position(groups: Seq<ClonesView>, tag: usize) -> int
    decreases groups.len(),
{
    if groups.len() == 0 {
        0
    } else if groups.last().tag < tag {
        groups.len() as int
    } else {
        position(groups.drop_last(), tag)
    }
}

/// The blocks with one more clone published: it joins the clones of its
/// tag, behind them, unless one of them was entered with a stack of the same
/// fingerprint; a tag without clones gets its place in the ascending order.
pub open spec fn inserted(groups: Seq<ClonesView>, block: BlockView) -> Seq<ClonesView> {
    let at = position(groups, block.tag);
    if at < groups.len() && groups[at].tag == block.tag {
        if has_fingerprint(groups[at].blocks, fingerprint(block.initial_stack)) {
            groups
        } else {
            groups.update(
                at,
                ClonesView { tag: block.tag, blocks: groups[at].blocks.push(block) },
            )
        }
    } else {
        groups.insert(at, ClonesView { tag: block.tag, blocks: seq![block] })
    }
}

/// With ascending tags, the position of a tag is the one index that parts
/// the smaller tags from the others.
pub proof fn lemma_position(groups: Seq<ClonesView>, tag: usize, at: int)
    requires
        0 <= at <= groups.len(),
        forall|i: int, j: int|
            0 <= i < j < groups.len() ==> (#[trigger] groups[i]).tag < (#[trigger] groups[j]).tag,
        forall|i: int| 0 <= i < at ==> (#[trigger] groups[i]).tag < tag,
        forall|i: int| at <= i < groups.len() ==> (#[trigger] groups[i]).tag >= tag,
    ensures
        position(groups, tag) == at,
    decreases groups.len(),
{
    if groups.len() > 0 {
        if groups.last().tag < tag {
            if at < groups.len() {
                assert(groups[groups.len() - 1].tag >= tag);
            }
        } else {
            let shorter = groups.drop_last();
            if at == groups.len() {
                assert(groups[at - 1].tag < tag);
            }
            assert forall|i: int, j: int| 0 <= i < j < shorter.len() implies (#[trigger] shorter[i]).tag
                < (#[trigger] shorter[j]).tag by {
                assert(groups[i].tag < groups[j].tag);
            }
            assert forall|i: int| 0 <= i < at implies (#[trigger] shorter[i]).tag < tag by {
                assert(groups[i].tag < tag);
            }
            assert forall|i: int| at <= i < shorter.len() implies (#[trigger] shorter[i]).tag
                >= tag by {
                assert(groups[i].tag >= tag);
            }
            lemma_position(shorter, tag, at);
        }
    }
}

/// Publishing a clone keeps the blocks well formed.
pub proof fn lemma_inserted_well_formed(groups: Seq<ClonesView>, block: BlockView)
    requires
        well_formed(groups),
    ensures
        well_formed(inserted(groups, block)),
{
    let at = position(groups, block.tag);
    lemma_position_parts(groups, block.tag);
    let after = inserted(groups, block);
    if at < groups.len() && groups[at].tag == block.tag {
        if !has_fingerprint(groups[at].blocks, fingerprint(block.initial_stack)) {
            let grown = groups[at].blocks.push(block);
            assert forall|i: int, j: int| 0 <= i < j < after.len() implies (#[trigger] after[i]).tag
                < (#[trigger] after[j]).tag by {
                assert(groups[i].tag < groups[j].tag);
            }
            assert forall|i: int, k: int, l: int|
                0 <= i < after.len() && 0 <= k < l < after[i].blocks.len() implies fingerprint(
                (#[trigger] after[i].blocks[k]).initial_stack,
            ) != fingerprint((#[trigger] after[i].blocks[l]).initial_stack) by {
                if i == at {
                    if l == grown.len() - 1 {
                        assert(grown[k] == groups[at].blocks[k]);
                    } else {
                        assert(grown[k] == groups[at].blocks[k]);
                        assert(grown[l] == groups[at].blocks[l]);
                    }
                } else {
                    assert(after[i] == groups[i]);
                }
            }
            assert forall|i: int, k: int|
                0 <= i < after.len() && 0 <= k < after[i].blocks.len() implies (
            #[trigger] after[i].blocks[k]).tag == after[i].tag by {
                if i == at {
                    if k < grown.len() - 1 {
                        assert(grown[k] == groups[at].blocks[k]);
                    }
                } else {
                    assert(after[i] == groups[i]);
                }
            }
            assert forall|i: int| 0 <= i < after.len() implies (#[trigger] after[i]).blocks.len()
                > 0 by {
                if i != at {
                    assert(after[i] == groups[i]);
                }
            }
        }
    } else {
        assert forall|i: int, j: int| 0 <= i < j < after.len() implies (#[trigger] after[i]).tag < (
        #[trigger] after[j]).tag by {
            if i < at && j == at {
                assert(groups[i].tag < block.tag);
            } else if i < at && j > at {
                assert(groups[i].tag < groups[j - 1].tag);
            } else if i == at {
                assert(groups[j - 1].tag >= block.tag);
            } else if i > at {
                assert(groups[i - 1].tag < groups[j - 1].tag);
            } else {
                assert(groups[i].tag < groups[j].tag);
            }
        }
        assert forall|i: int| 0 <= i < after.len() implies (#[trigger] after[i]).blocks.len()
            > 0 by {
            if i < at {
                assert(after[i] == groups[i]);
            } else if i > at {
                assert(after[i] == groups[i - 1]);
            }
        }
        assert forall|i: int, k: int|
            0 <= i < after.len() && 0 <= k < after[i].blocks.len() implies (
        #[trigger] after[i].blocks[k]).tag == after[i].tag by {
            if i < at {
                assert(after[i] == groups[i]);
            } else if i > at {
                assert(after[i] == groups[i - 1]);
            }
        }
        assert forall|i: int, k: int, l: int|
            0 <= i < after.len() && 0 <= k < l < after[i].blocks.len() implies fingerprint(
            (#[trigger] after[i].blocks[k]).initial_stack,
        ) != fingerprint((#[trigger] after[i].blocks[l]).initial_stack) by {
            if i < at {
                assert(after[i] == groups[i]);
            } else if i > at {
                assert(after[i] == groups[i - 1]);
            }
        }
    }
}

/// With ascending tags, the groups before the position of a tag have
/// smaller tags, and the others have no smaller ones.
pub proof fn lemma_position_parts(groups: Seq<ClonesView>, tag: usize)
    requires
        forall|i: int, j: int|
            0 <= i < j < groups.len() ==> (#[trigger] groups[i]).tag < (#[trigger] groups[j]).tag,
    ensures
        0 <= position(groups, tag) <= groups.len(),
        forall|i: int| 0 <= i < position(groups, tag) ==> (#[trigger] groups[i]).tag < tag,
        forall|i: int| position(groups, tag) <= i < groups.len() ==> (#[trigger] groups[i]).tag >= tag,
    decreases groups.len(),
{
    if groups.len() > 0 {
        if groups.last().tag < tag {
            assert forall|i: int| 0 <= i < groups.len() implies (#[trigger] groups[i]).tag < tag by {
                if i < groups.len() - 1 {
                    assert(groups[i].tag < groups[groups.len() - 1].tag);
                }
            }
        } else {
            let shorter = groups.drop_last();
            assert forall|i: int, j: int| 0 <= i < j < shorter.len() implies (#[trigger] shorter[i]).tag
                < (#[trigger] shorter[j]).tag by {
                assert(groups[i].tag < groups[j].tag);
            }
            lemma_position_parts(shorter, tag);
            assert forall|i: int| 0 <= i < position(groups, tag) implies (#[trigger] groups[i]).tag
                < tag by {
                assert(shorter[i].tag < tag);
            }
            assert forall|i: int| position(groups, tag) <= i < groups.len() implies (
            #[trigger] groups[i]).tag >= tag by {
                if i < shorter.len() {
                    assert(shorter[i].tag >= tag);
                }
            }
        }
    }
}

/// The clone that the builder makes of a flat block for a worklist entry,
/// before the run: it bears the entry's tag, starts from the entry's stack,
/// and records the entry's predecessor.
pub open spec fn entered(flat: BlockView, entry: QueueElementView) -> BlockView {
    BlockView {
        tag: entry.tag,
        initial_stack: entry.stack,
        stack: entry.stack,
        elements: flat.elements,
        predecessors: match entry.predecessor {
            Some(tag) => if flat.predecessors.contains(tag) {
                flat.predecessors
            } else {
                flat.predecessors.push(tag)
            },
            None => flat.predecessors,
        },
    }
}

/// What the builder has made so far.
pub ghost struct Progress {
    /// The published clones.
    pub blocks: Seq<ClonesView>,
    /// What was visited.
    pub visited: Set<VisitedElement>,
}

/// What the builder has visited when it takes the entry up.
pub open spec fn visit(entry: QueueElementView) -> VisitedElement {
    VisitedElement { tag: entry.tag, stack_hash: fingerprint(entry.stack) }
}

/// The work of the builder on a worklist, the entry to take up next first.
/// An entry that was visited is dropped. Any other is marked as visited; its
/// flat block is cloned, run from the entry's stack and published, and the
/// destinations that the run found go to the front of the worklist, in the
/// order in which they were found. The work ends with the worklist, or with
/// the first entry whose tag no block declares or whose run fails.
pub open spec fn drain(
    flat: Map<usize, BlockView>,
    progress: Progress,
    worklist: Seq<QueueElementView>,
    version: Version,
) -> Result<Progress, Error>
    decreases room(progress.visited), worklist.len(),
    when progress.visited.finite()
{
    if worklist.len() == 0 {
        Ok(progress)
    } else {
        let entry = worklist.first();
        let rest = worklist.drop_first();
        if progress.visited.contains(visit(entry)) {
            drain(flat, progress, rest, version)
        } else if !flat.dom().contains(entry.tag) {
            Err(Error::UndeclaredBlock(entry.tag))
        } else {
            let block = entered(flat[entry.tag], entry);
            match run(entry.stack, instructions_of(block.elements), version) {
                Err(error) => Err(error),
                Ok(run) => {
                    proof {
                        lemma_room_shrinks(progress.visited, visit(entry));
                    }
                    drain(
                        flat,
                        Progress {
                            blocks: inserted(progress.blocks, after_run(block, run)),
                            visited: progress.visited.insert(visit(entry)),
                        },
                        entries(entry.tag, run.targets) + rest,
                        version,
                    )
                },
            }
        }
    }
}

/// The values of the flat blocks, by tag.
pub open spec fn block_map(blocks: Map<usize, Block>) -> Map<usize, BlockView> {
    blocks.map_values(|block: Block| block@)
}

/// Whether the blocks hold, under the tag, a clone that was entered with a
/// stack of the fingerprint.
pub open spec fn has_clone(groups: Seq<ClonesView>, tag: usize, hash: u64) -> bool {
    exists|i: int|
        0 <= i < groups.len() && (#[trigger] groups[i]).tag == tag && has_fingerprint(
            groups[i].blocks,
            hash,
        )
}

/// The position of a tag lies among the groups or at their end.
pub proof fn lemma_position_bounds(groups: Seq<ClonesView>, tag: usize)
    ensures
        0 <= position(groups, tag) <= groups.len(),
    decreases groups.len(),
{
    if groups.len() > 0 && !(groups.last().tag < tag) {
        lemma_position_bounds(groups.drop_last(), tag);
    }
}

/// Behind the publishing of a clone the blocks hold a clone of its tag and
/// of the fingerprint of its entry stack, and every clone that they held
/// before.
pub proof fn lemma_inserted_clones(groups: Seq<ClonesView>, block: BlockView)
    ensures
        has_clone(inserted(groups, block), block.tag, fingerprint(block.initial_stack)),
        forall|tag: usize, hash: u64| #[trigger]
            has_clone(groups, tag, hash) ==> has_clone(inserted(groups, block), tag, hash),
{
    lemma_position_bounds(groups, block.tag);
    let at = position(groups, block.tag);
    let after = inserted(groups, block);
    let own = fingerprint(block.initial_stack);
    if at < groups.len() && groups[at].tag == block.tag {
        if has_fingerprint(groups[at].blocks, own) {
            assert(after[at].tag == block.tag && has_fingerprint(after[at].blocks, own));
        } else {
            let grown = groups[at].blocks.push(block);
            assert(grown[grown.len() - 1] == block);
            assert(has_fingerprint(grown, own));
            assert(after[at].tag == block.tag && has_fingerprint(after[at].blocks, own));
            assert forall|tag: usize, hash: u64| #[trigger]
                has_clone(groups, tag, hash) implies has_clone(after, tag, hash) by {
                let i = choose|i: int|
                    0 <= i < groups.len() && (#[trigger] groups[i]).tag == tag && has_fingerprint(
                        groups[i].blocks,
                        hash,
                    );
                if i == at {
                    let k = choose|k: int|
                        0 <= k < groups[at].blocks.len() && fingerprint(
                            (#[trigger] groups[at].blocks[k]).initial_stack,
                        ) == hash;
                    assert(grown[k] == groups[at].blocks[k]);
                    assert(has_fingerprint(grown, hash));
                    assert(after[at].tag == tag && has_fingerprint(after[at].blocks, hash));
                } else {
                    assert(after[i] == groups[i]);
                }
            }
        }
    } else {
        let single = seq![block];
        assert(single[0] == block);
        assert(has_fingerprint(single, own));
        assert(after[at].tag == block.tag && has_fingerprint(after[at].blocks, own));
        assert forall|tag: usize, hash: u64| #[trigger]
            has_clone(groups, tag, hash) implies has_clone(after, tag, hash) by {
            let i = choose|i: int|
                0 <= i < groups.len() && (#[trigger] groups[i]).tag == tag && has_fingerprint(
                    groups[i].blocks,
                    hash,
                );
            if i < at {
                assert(after[i] == groups[i]);
            } else {
                assert(after[i + 1] == groups[i]);
            }
        }
    }
}

/// What the work of the builder covers. Where the work on a worklist ends
/// well, every entry of the worklist was visited by then, and nothing that
/// was visited before is lost; the blocks still hold every clone that they
/// held before; and for everything that was visited in the work, the blocks
/// hold a clone of that tag that was entered with a stack of that
/// fingerprint.
pub proof fn lemma_drain_covers(
    flat: Map<usize, BlockView>,
    progress: Progress,
    worklist: Seq<QueueElementView>,
    version: Version,
)
    requires
        progress.visited.finite(),
        drain(flat, progress, worklist, version) is Ok,
    ensures
        ({
            let done = drain(flat, progress, worklist, version)->Ok_0;
            &&& done.visited.finite()
            &&& progress.visited.subset_of(done.visited)
            &&& forall|i: int|
                0 <= i < worklist.len() ==> done.visited.contains(visit(#[trigger] worklist[i]))
            &&& forall|tag: usize, hash: u64| #[trigger]
                has_clone(progress.blocks, tag, hash) ==> has_clone(done.blocks, tag, hash)
            &&& forall|element: VisitedElement|
                #[trigger] done.visited.contains(element) && !progress.visited.contains(element)
                    ==> has_clone(done.blocks, element.tag, element.stack_hash)
        }),
    decreases room(progress.visited), worklist.len(),
{
    if worklist.len() > 0 {
        let entry = worklist.first();
        let rest = worklist.drop_first();
        let done = drain(flat, progress, worklist, version)->Ok_0;
        if progress.visited.contains(visit(entry)) {
            lemma_drain_covers(flat, progress, rest, version);
            assert forall|i: int| 0 <= i < worklist.len() implies done.visited.contains(
                visit(#[trigger] worklist[i]),
            ) by {
                if i > 0 {
                    assert(worklist[i] == rest[i - 1]);
                }
            }
        } else {
            let block = entered(flat[entry.tag], entry);
            let outcome = run(entry.stack, instructions_of(block.elements), version)->Ok_0;
            let published = after_run(block, outcome);
            let next = Progress {
                blocks: inserted(progress.blocks, published),
                visited: progress.visited.insert(visit(entry)),
            };
            let found = entries(entry.tag, outcome.targets);
            lemma_room_shrinks(progress.visited, visit(entry));
            lemma_drain_covers(flat, next, found + rest, version);
            lemma_inserted_clones(progress.blocks, published);
            assert(done.visited.contains(visit(entry)));
            assert forall|i: int| 0 <= i < worklist.len() implies done.visited.contains(
                visit(#[trigger] worklist[i]),
            ) by {
                if i > 0 {
                    assert(worklist[i] == rest[i - 1]);
                    assert((found + rest)[found.len() + i - 1] == rest[i - 1]);
                }
            }
            assert forall|tag: usize, hash: u64| #[trigger]
                has_clone(progress.blocks, tag, hash) implies has_clone(done.blocks, tag, hash) by {
                assert(has_clone(next.blocks, tag, hash));
            }
            assert forall|element: VisitedElement|
                #[trigger] done.visited.contains(element) && !progress.visited.contains(
                    element,
                ) implies has_clone(done.blocks, element.tag, element.stack_hash) by {
                if element == visit(entry) {
                    assert(has_clone(next.blocks, published.tag, fingerprint(published.initial_stack)));
                }
            }
        }
    }
}

/// Two entries of one tag with stacks of different fingerprints give two
/// clones. Where the work on a worklist ends well, and two of its entries
/// bear one tag and stacks of different fingerprints, neither of which was
/// visited under that tag before, the blocks hold a clone of that tag for
/// each of the two fingerprints.
pub proof fn lemma_two_entries(
    flat: Map<usize, BlockView>,
    progress: Progress,
    worklist: Seq<QueueElementView>,
    version: Version,
    first: int,
    second: int,
)
    requires
        progress.visited.finite(),
        drain(flat, progress, worklist, version) is Ok,
        0 <= first < worklist.len(),
        0 <= second < worklist.len(),
        worklist[first].tag == worklist[second].tag,
        fingerprint(worklist[first].stack) != fingerprint(worklist[second].stack),
        !progress.visited.contains(visit(worklist[first])),
        !progress.visited.contains(visit(worklist[second])),
    ensures
        ({
            let done = drain(flat, progress, worklist, version)->Ok_0;
            &&& has_clone(done.blocks, worklist[first].tag, fingerprint(worklist[first].stack))
            &&& has_clone(done.blocks, worklist[first].tag, fingerprint(worklist[second].stack))
        }),
{
    lemma_drain_covers(flat, progress, worklist, version);
    let done = drain(flat, progress, worklist, version)->Ok_0;
    assert(done.visited.contains(visit(worklist[first])));
    assert(done.visited.contains(visit(worklist[second])));
}

/// Whether the clone is the run of the flat block of its tag from the stack
/// that it was entered with, with the given predecessor: its snapshots come
/// from that stack and from nothing else.
pub open spec fn runs_alone(
    flat: Map<usize, BlockView>,
    clone: BlockView,
    version: Version,
    predecessor: Option<usize>,
) -> bool {
    let entry = QueueElementView { tag: clone.tag, predecessor, stack: clone.initial_stack };
    let block = entered(flat[clone.tag], entry);
    &&& flat.dom().contains(clone.tag)
    &&& run(clone.initial_stack, instructions_of(block.elements), version) is Ok
    &&& clone == after_run(
        block,
        run(clone.initial_stack, instructions_of(block.elements), version)->Ok_0,
    )
}

/// Whether the clone is the run of the flat block of its tag from the stack
/// that it was entered with, whatever its predecessor.
pub open spec fn clone_runs_alone(
    flat: Map<usize, BlockView>,
    clone: BlockView,
    version: Version,
) -> bool {
    exists|predecessor: Option<usize>| #[trigger] runs_alone(flat, clone, version, predecessor)
}

/// Whether every clone of the blocks is the run of the flat block of its
/// tag from its own entry stack.
pub open spec fn all_run_alone(
    flat: Map<usize, BlockView>,
    groups: Seq<ClonesView>,
    version: Version,
) -> bool {
    forall|i: int, k: int|
        0 <= i < groups.len() && 0 <= k < groups[i].blocks.len() ==> clone_runs_alone(
            flat,
            #[trigger] groups[i].blocks[k],
            version,
        )
}

/// Publishing a clone that runs alone among clones that run alone leaves
/// clones that run alone.
pub proof fn lemma_inserted_runs_alone(
    flat: Map<usize, BlockView>,
    groups: Seq<ClonesView>,
    block: BlockView,
    version: Version,
    predecessor: Option<usize>,
)
    requires
        all_run_alone(flat, groups, version),
        runs_alone(flat, block, version, predecessor),
    ensures
        all_run_alone(flat, inserted(groups, block), version),
{
    lemma_position_bounds(groups, block.tag);
    let at = position(groups, block.tag);
    let after = inserted(groups, block);
    assert(clone_runs_alone(flat, block, version));
    assert forall|i: int, k: int|
        0 <= i < after.len() && 0 <= k < after[i].blocks.len() implies clone_runs_alone(
        flat,
        #[trigger] after[i].blocks[k],
        version,
    ) by {
        if at < groups.len() && groups[at].tag == block.tag {
            if has_fingerprint(groups[at].blocks, fingerprint(block.initial_stack)) {
                assert(after[i].blocks[k] == groups[i].blocks[k]);
            } else if i == at {
                if k < groups[at].blocks.len() {
                    assert(after[i].blocks[k] == groups[at].blocks[k]);
                } else {
                    assert(after[i].blocks[k] == block);
                }
            } else {
                assert(after[i].blocks[k] == groups[i].blocks[k]);
            }
        } else if i < at {
            assert(after[i].blocks[k] == groups[i].blocks[k]);
        } else if i == at {
            assert(after[i].blocks[k] == block);
        } else {
            assert(after[i].blocks[k] == groups[i - 1].blocks[k]);
        }
    }
}

/// Each clone is run from its own entry stack. Where every clone of the
/// blocks runs alone before the work on a worklist, and the work ends well,
/// every clone runs alone behind it: the clones of one tag share nothing
/// but the flat block that they are copies of.
pub proof fn lemma_drain_runs_alone(
    flat: Map<usize, BlockView>,
    progress: Progress,
    worklist: Seq<QueueElementView>,
    version: Version,
)
    requires
        progress.visited.finite(),
        all_run_alone(flat, progress.blocks, version),
        drain(flat, progress, worklist, version) is Ok,
    ensures
        all_run_alone(flat, drain(flat, progress, worklist, version)->Ok_0.blocks, version),
    decreases room(progress.visited), worklist.len(),
{
    if worklist.len() > 0 {
        let entry = worklist.first();
        let rest = worklist.drop_first();
        if progress.visited.contains(visit(entry)) {
            lemma_drain_runs_alone(flat, progress, rest, version);
        } else {
            let block = entered(flat[entry.tag], entry);
            let outcome = run(entry.stack, instructions_of(block.elements), version)->Ok_0;
            let published = after_run(block, outcome);
            let next = Progress {
                blocks: inserted(progress.blocks, published),
                visited: progress.visited.insert(visit(entry)),
            };
            lemma_room_shrinks(progress.visited, visit(entry));
            assert(QueueElementView {
                tag: published.tag,
                predecessor: entry.predecessor,
                stack: published.initial_stack,
            } == entry);
            assert(runs_alone(flat, published, version, entry.predecessor));
            lemma_inserted_runs_alone(
                flat,
                progress.blocks,
                published,
                version,
                entry.predecessor,
            );
            lemma_drain_runs_alone(
                flat,
                next,
                entries(entry.tag, outcome.targets) + rest,
                version,
            );
        }
    }
}

/// Every clone of the function that the builder makes is run from its own
/// entry stack.
pub proof fn lemma_built_runs_alone(
    flat: Map<usize, BlockView>,
    visited: Set<VisitedElement>,
    version: Version,
    code_type: CodeType,
)
    requires
        visited.finite(),
        built(flat, visited, version, code_type) is Ok,
    ensures
        all_run_alone(flat, built(flat, visited, version, code_type)->Ok_0.0.blocks, version),
{
    lemma_drain_runs_alone(
        flat,
        Progress { blocks: Seq::empty(), visited },
        seq![start()],
        version,
    );
}

/// The entry that the builder starts from: the block of tag 0, entered with
/// the empty stack, with no predecessor.
pub open spec fn start() -> QueueElementView {
    QueueElementView { tag: 0, predecessor: None, stack: Seq::empty() }
}

/// No snapshot of the blocks is deeper than `depth`.
pub open spec fn depth_bounds(groups: Seq<ClonesView>, depth: usize) -> bool {
    forall|i: int, k: int, e: int|
        0 <= i < groups.len() && 0 <= k < groups[i].blocks.len() && 0 <= e
            < groups[i].blocks[k].elements.len() ==> (
        #[trigger] groups[i].blocks[k].elements[e]).stack.len() <= depth
}

/// Some snapshot of the blocks is exactly as deep as `depth`.
pub open spec fn depth_reached(groups: Seq<ClonesView>, depth: usize) -> bool {
    exists|i: int, k: int, e: int|
        0 <= i < groups.len() && 0 <= k < groups[i].blocks.len() && 0 <= e
            < groups[i].blocks[k].elements.len() && (
        #[trigger] groups[i].blocks[k].elements[e]).stack.len() == depth
}

/// The greater of two numbers.
pub open spec fn greater(a: nat, b: nat) -> nat {
    if a >= b {
        a
    } else {
        b
    }
}

/// The depth of the deepest snapshot among the first `count` elements.
pub open spec fn deepest_element(
    elements: Seq<crate::evm::ethereal_ir::block::BlockElementView>,
    count: int,
) -> nat
    decreases count,
{
    if count <= 0 || count > elements.len() {
        0
    } else {
        greater(deepest_element(elements, count - 1), elements[count - 1].stack.len())
    }
}

/// The depth of the deepest snapshot among the first `count` blocks.
pub open spec fn deepest_block(blocks: Seq<BlockView>, count: int) -> nat
    decreases count,
{
    if count <= 0 || count > blocks.len() {
        0
    } else {
        greater(
            deepest_block(blocks, count - 1),
            deepest_element(blocks[count - 1].elements, blocks[count - 1].elements.len() as int),
        )
    }
}

/// The depth of the deepest snapshot among the clones of the first `count`
/// tags.
pub open spec fn deepest(groups: Seq<ClonesView>, count: int) -> nat
    decreases count,
{
    if count <= 0 || count > groups.len() {
        0
    } else {
        greater(
            deepest(groups, count - 1),
            deepest_block(groups[count - 1].blocks, groups[count - 1].blocks.len() as int),
        )
    }
}

/// The function that the builder makes of the flat blocks, and what it has
/// visited then: the clones that the work from the start entry gives, and
/// as stack size the depth of the deepest snapshot.
pub open spec fn built(
    flat: Map<usize, BlockView>,
    visited: Set<VisitedElement>,
    version: Version,
    code_type: CodeType,
) -> Result<(FunctionView, Set<VisitedElement>), Error> {
    match drain(flat, Progress { blocks: Seq::empty(), visited }, seq![start()], version) {
        Err(error) => Err(error),
        Ok(progress) => Ok(
            (
                FunctionView {
                    solc_version: version,
                    code_type,
                    blocks: progress.blocks,
                    stack_size: deepest(progress.blocks, progress.blocks.len() as int) as usize,
                },
                progress.visited,
            ),
        ),
    }
}

/// The worklist of what is stacked up: the top of the stack, which is its
/// last element, is the entry to take up next.
pub open spec fn worklist_of(pending: Seq<QueueElement>) -> Seq<QueueElementView> {
    Seq::new(pending.len(), |i: int| pending[pending.len() - 1 - i]@)
}

/// Stacks the entries up so that the first of them is taken up next.
fn stack_up(pending: &mut Vec<QueueElement>, queue: Vec<QueueElement>)
    ensures
        worklist_of(final(pending)@) == queue@.map_values(|element: QueueElement| element@)
            + worklist_of(old(pending)@),
        final(pending)@.len() == old(pending)@.len() + queue@.len(),
{
    let ghost base = pending@;
    let mut queue = queue;
    let ghost found = queue@;
    while queue.len() > 0
        invariant
            queue@.len() <= found.len(),
            queue@ == found.take(queue@.len() as int),
            pending@.len() == base.len() + found.len() - queue@.len(),
            forall|i: int| 0 <= i < base.len() ==> pending@[i] == base[i],
            forall|i: int|
                base.len() <= i < pending@.len() ==> pending@[i] == found[found.len() - 1 - (i
                    - base.len())],
        decreases queue.len(),
    {
        let ghost shorter = queue@.drop_last();
        let next = queue.pop().unwrap();
        assert(next == found[queue@.len() as int]);
        pending.push(next);
        assert(queue@ =~= found.take(queue@.len() as int));
    }
    assert(worklist_of(pending@) =~= found.map_values(|element: QueueElement| element@)
        + worklist_of(base));
}

fn block_depth(block: &Block, least: usize) -> (depth: usize)
    ensures
        depth == greater(
            least as nat,
            deepest_element(block@.elements, block@.elements.len() as int),
        ),
        forall|e: int| 0 <= e < block@.elements.len() ==> (#[trigger] block@.elements[e]).stack.len() <= depth,
        depth == least || exists|e: int|
            0 <= e < block@.elements.len() && (#[trigger] block@.elements[e]).stack.len() == depth,
{
    let mut depth: usize = least;
    let mut e: usize = 0;
    while e < block.elements.len()
        invariant
            e <= block.elements.len(),
            depth == greater(least as nat, deepest_element(block@.elements, e as int)),
            forall|j: int| 0 <= j < e ==> (#[trigger] block@.elements[j]).stack.len() <= depth,
            depth == least || exists|j: int|
                0 <= j < e && (#[trigger] block@.elements[j]).stack.len() == depth,
        decreases block.elements.len() - e,
    {
        assert(block@.elements[e as int] == block.elements@[e as int]@);
        let len = block.elements[e].stack.len();
        if len > depth {
            depth = len;
        }
        e += 1;
    }
    depth
}

fn clones_depth(clones: &Clones, least: usize) -> (depth: usize)
    ensures
        depth == greater(least as nat, deepest_block(clones@.blocks, clones@.blocks.len() as int)),
        forall|k: int, e: int|
            0 <= k < clones@.blocks.len() && 0 <= e < clones@.blocks[k].elements.len() ==> (
            #[trigger] clones@.blocks[k].elements[e]).stack.len() <= depth,
        depth == least || exists|k: int, e: int|
            0 <= k < clones@.blocks.len() && 0 <= e < clones@.blocks[k].elements.len() && (
            #[trigger] clones@.blocks[k].elements[e]).stack.len() == depth,
{
    let mut depth: usize = least;
    let mut k: usize = 0;
    while k < clones.blocks.len()
        invariant
            k <= clones.blocks.len(),
            depth == greater(least as nat, deepest_block(clones@.blocks, k as int)),
            forall|j: int, e: int|
                0 <= j < k && 0 <= e < clones@.blocks[j].elements.len() ==> (
                #[trigger] clones@.blocks[j].elements[e]).stack.len() <= depth,
            depth == least || exists|j: int, e: int|
                0 <= j < k && 0 <= e < clones@.blocks[j].elements.len() && (
                #[trigger] clones@.blocks[j].elements[e]).stack.len() == depth,
        decreases clones.blocks.len() - k,
    {
        assert(clones@.blocks[k as int] == clones.blocks@[k as int]@);
        let ghost before = depth;
        depth = block_depth(&clones.blocks[k], depth);
        proof {
            if depth != before {
                let e = choose|e: int|
                    0 <= e < clones.blocks@[k as int]@.elements.len() && (
                    #[trigger] clones.blocks@[k as int]@.elements[e]).stack.len() == depth;
                assert(clones@.blocks[k as int].elements[e].stack.len() == depth);
            }
        }
        k += 1;
    }
    depth
}

impl Function {
    /// Builds the function of a listing: starts from the block of tag 0 with
    /// the empty stack, follows every jump and label, and measures the stack.
    pub fn new(
        solc_version: Version,
        code_type: CodeType,
        blocks: &HashMap<usize, Block>,
        visited: &mut Visited,
    ) -> (result: Result<Function, Error>)
        ensures
            match built(block_map(blocks@), old(visited)@, solc_version, code_type) {
                Ok((function, seen)) => result is Ok && result->Ok_0@ == function
                    && final(visited)@ == seen && well_formed(function.blocks) && depth_bounds(
                    function.blocks,
                    function.stack_size,
                ) && (function.stack_size == 0 || depth_reached(
                    function.blocks,
                    function.stack_size,
                )),
                Err(error) => result == Err::<Function, Error>(error),
            },
    {
        let mut function = Function { solc_version, code_type, blocks: Vec::new(), stack_size: 0 };
        assert(function@.blocks =~= Seq::<ClonesView>::empty());
        match function.consume_block(blocks, visited, QueueElement::new(0, None, Stack::new())) {
            Ok(()) => Ok(function.finalize()),
            Err(error) => Err(error),
        }
    }

    /// Takes up a worklist entry and all that follows from it.
    pub fn consume_block(
        &mut self,
        blocks: &HashMap<usize, Block>,
        visited: &mut Visited,
        queue_element: QueueElement,
    ) -> (result: Result<(), Error>)
        requires
            well_formed(old(self)@.blocks),
        ensures
            match drain(
                block_map(blocks@),
                Progress { blocks: old(self)@.blocks, visited: old(visited)@ },
                seq![queue_element@],
                old(self).solc_version,
            ) {
                Ok(progress) => result is Ok && final(self)@ == (FunctionView {
                    blocks: progress.blocks,
                    ..old(self)@
                }) && final(visited)@ == progress.visited && well_formed(final(self)@.blocks),
                Err(error) => result == Err::<(), Error>(error),
            },
    {
        let ghost goal = drain(
            block_map(blocks@),
            Progress { blocks: old(self)@.blocks, visited: old(visited)@ },
            seq![queue_element@],
            self.solc_version,
        );
        let mut pending: Vec<QueueElement> = Vec::new();
        pending.push(queue_element);
        assert(worklist_of(pending@) =~= seq![queue_element@]);
        proof {
            visited.lemma_finite();
        }
        while pending.len() > 0
            invariant
                self.solc_version == old(self).solc_version,
                self.code_type == old(self).code_type,
                self.stack_size == old(self).stack_size,
                well_formed(self@.blocks),
                visited@.finite(),
                goal == drain(
                    block_map(blocks@),
                    Progress { blocks: old(self)@.blocks, visited: old(visited)@ },
                    seq![queue_element@],
                    old(self).solc_version,
                ),
                goal == drain(
                    block_map(blocks@),
                    Progress { blocks: self@.blocks, visited: visited@ },
                    worklist_of(pending@),
                    self.solc_version,
                ),
            decreases room(visited@), pending.len(),
        {
            match self.consume_next(blocks, visited, &mut pending) {
                Ok(()) => {},
                Err(error) => {
                    return Err(error);
                },
            }
        }
        assert(worklist_of(pending@) =~= Seq::<QueueElementView>::empty());
        Ok(())
    }

    /// Takes up the entry on top of what is stacked up: one round of
    /// [`drain`].
    fn consume_next(
        &mut self,
        blocks: &HashMap<usize, Block>,
        visited: &mut Visited,
        pending: &mut Vec<QueueElement>,
    ) -> (result: Result<(), Error>)
        requires
            well_formed(old(self)@.blocks),
            old(pending)@.len() > 0,
        ensures
            drain(
                block_map(blocks@),
                Progress { blocks: old(self)@.blocks, visited: old(visited)@ },
                worklist_of(old(pending)@),
                old(self).solc_version,
            ) == (match result {
                Ok(_) => drain(
                    block_map(blocks@),
                    Progress { blocks: final(self)@.blocks, visited: final(visited)@ },
                    worklist_of(final(pending)@),
                    old(self).solc_version,
                ),
                Err(error) => Err(error),
            }),
            result is Ok ==> final(self)@ == (FunctionView {
                blocks: final(self)@.blocks,
                ..old(self)@
            }) && well_formed(final(self)@.blocks) && final(visited)@.finite() && (room(
                final(visited)@,
            ) < room(old(visited)@) || (room(final(visited)@) == room(old(visited)@)
                && final(pending)@.len() < old(pending)@.len())),
    {
        proof {
            visited.lemma_finite();
        }
        let version = self.solc_version;
        let ghost worklist = worklist_of(pending@);
        let entry = pending.pop().unwrap();
        assert(worklist.first() == entry@);
        assert(worklist.drop_first() =~= worklist_of(pending@));
        let element = VisitedElement::new(entry.tag, entry.stack.hash());
        if visited.contains(&element) {
            return Ok(());
        }
        let ghost before = visited@;
        visited.insert(element);
        proof {
            visited.lemma_finite();
            lemma_room_shrinks(before, element);
        }
        match blocks.get(&entry.tag) {
            None => Err(Error::UndeclaredBlock(entry.tag)),
            Some(flat) => {
                let ghost entry_view = entry@;
                let mut block = flat.clone();
                block.tag = entry.tag;
                block.stack = entry.stack.clone();
                block.initial_stack = entry.stack;
                match entry.predecessor {
                    Some(tag) => {
                        block.insert_predecessor(tag);
                    },
                    None => {},
                }
                assert(block@ == entered(flat@, entry_view));
                match block.interpret(&version) {
                    Err(error) => Err(error),
                    Ok(queue) => {
                        self.insert_block(block);
                        stack_up(pending, queue);
                        Ok(())
                    },
                }
            },
        }
    }

    /// Publishes a clone: see [`inserted`]. Returns where the last clone of
    /// that tag stands: the index of its tag among the tags, and its own
    /// among the clones.
    pub fn insert_block(&mut self, block: Block) -> (place: (usize, usize))
        requires
            well_formed(old(self)@.blocks),
        ensures
            final(self)@ == (FunctionView {
                blocks: inserted(old(self)@.blocks, block@),
                ..old(self)@
            }),
            well_formed(final(self)@.blocks),
            place.0 == position(old(self)@.blocks, block.tag),
            place.0 < final(self)@.blocks.len(),
            place.1 + 1 == final(self)@.blocks[place.0 as int].blocks.len(),
    {
        let tag = block.tag;
        let hash = block.initial_stack.hash();
        let ghost groups = self@.blocks;
        let mut at: usize = 0;
        while at < self.blocks.len() && self.blocks[at].tag < tag
            invariant
                at <= self.blocks.len(),
                *self == *old(self),
                forall|i: int| 0 <= i < at ==> (#[trigger] self.blocks@[i]).tag < tag,
            decreases self.blocks.len() - at,
        {
            at += 1;
        }
        proof {
            assert forall|i: int| 0 <= i < at implies (#[trigger] groups[i]).tag < tag by {
                assert(self.blocks@[i].tag < tag);
            }
            assert forall|i: int| at <= i < groups.len() implies (#[trigger] groups[i]).tag
                >= tag by {
                assert(self.blocks@[at as int]@ == groups[at as int]);
                if i > at {
                    assert(groups[at as int].tag < groups[i].tag);
                }
            }
            lemma_position(groups, tag, at as int);
            lemma_inserted_well_formed(groups, block@);
        }
        if at < self.blocks.len() && self.blocks[at].tag == tag {
            let mut k: usize = 0;
            let mut found = false;
            while k < self.blocks[at].blocks.len() && !found
                invariant
                    at < self.blocks.len(),
                    k <= self.blocks[at as int].blocks.len(),
                    *self == *old(self),
                    groups == self@.blocks,
                    !found ==> forall|j: int|
                        0 <= j < k ==> fingerprint((#[trigger] groups[at as int].blocks[j]).initial_stack)
                            != hash,
                    found ==> has_fingerprint(groups[at as int].blocks, hash),
                decreases self.blocks[at as int].blocks.len() - k + (if found { 0int } else { 1int }),
            {
                assert(groups[at as int].blocks[k as int] == self.blocks@[at as int].blocks@[k as int]@);
                if self.blocks[at].blocks[k].initial_stack.hash() == hash {
                    found = true;
                } else {
                    k += 1;
                }
            }
            if !found {
                self.blocks[at].blocks.push(block);
                proof {
                    assert(self@.blocks[at as int].blocks =~= groups[at as int].blocks.push(block@));
                    assert(self@.blocks =~= inserted(groups, block@));
                }
            }
            (at, self.blocks[at].blocks.len() - 1)
        } else {
            let mut clones: Vec<Block> = Vec::new();
            clones.push(block);
            let group = Clones { tag, blocks: clones };
            assert(group@.blocks =~= seq![block@]);
            self.blocks.insert(at, group);
            proof {
                assert(self@.blocks =~= inserted(groups, block@));
            }
            (at, 0)
        }
    }

    /// Measures the stack: the size becomes the greatest depth of any
    /// snapshot, where that is more than the size was.
    pub fn finalize(self) -> (function: Function)
        ensures
            function@ == (FunctionView { stack_size: function.stack_size, ..self@ }),
            function.stack_size == greater(
                self.stack_size as nat,
                deepest(self@.blocks, self@.blocks.len() as int),
            ),
            function.stack_size >= self.stack_size,
            depth_bounds(function@.blocks, function.stack_size),
            function.stack_size == self.stack_size || depth_reached(
                function@.blocks,
                function.stack_size,
            ),
    {
        let mut depth: usize = self.stack_size;
        let mut i: usize = 0;
        while i < self.blocks.len()
            invariant
                i <= self.blocks.len(),
                depth >= self.stack_size,
                depth == greater(self.stack_size as nat, deepest(self@.blocks, i as int)),
                forall|g: int, k: int, e: int|
                    0 <= g < i && 0 <= k < self@.blocks[g].blocks.len() && 0 <= e
                        < self@.blocks[g].blocks[k].elements.len() ==> (
                    #[trigger] self@.blocks[g].blocks[k].elements[e]).stack.len() <= depth,
                depth == self.stack_size || exists|g: int, k: int, e: int|
                    0 <= g < i && 0 <= k < self@.blocks[g].blocks.len() && 0 <= e
                        < self@.blocks[g].blocks[k].elements.len() && (
                    #[trigger] self@.blocks[g].blocks[k].elements[e]).stack.len() == depth,
            decreases self.blocks.len() - i,
        {
            assert(self@.blocks[i as int] == self.blocks@[i as int]@);
            let ghost before = depth;
            depth = clones_depth(&self.blocks[i], depth);
            proof {
                if depth != before {
                    let (k, e) = choose|k: int, e: int|
                        0 <= k < self.blocks@[i as int]@.blocks.len() && 0 <= e
                            < self.blocks@[i as int]@.blocks[k].elements.len() && (
                        #[trigger] self.blocks@[i as int]@.blocks[k].elements[e]).stack.len()
                            == depth;
                    assert(self@.blocks[i as int].blocks[k].elements[e].stack.len() == depth);
                }
            }
            i += 1;
        }
        Function {
            solc_version: self.solc_version,
            code_type: self.code_type,
            blocks: self.blocks,
            stack_size: depth,
        }
    }

    /// The name that the function is declared under.
    pub fn name(&self) -> (name: &'static str)
        ensures
            name@ == (match self.code_type {
                CodeType::Deploy => "function_deploy"@,
                CodeType::Runtime => "function_runtime"@,
            }),
    {
        match self.code_type {
            CodeType::Deploy => "function_deploy",
            CodeType::Runtime => "function_runtime",
        }
    }
}

} // verus!
