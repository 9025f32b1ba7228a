//! The control-flow graph of a method: its basic blocks, held in one
//! collection and naming each other by their index in it.

use vstd::prelude::*;

use crate::block::{with_edge, with_ranks, with_renamed, BasicBlock, BlockView};
use crate::instruction::Instruction;

verus! {

/// The graph of one method.
#[derive(Debug, Clone, PartialEq, Eq)]
pub struct MethodGraph {
    entry: usize,
    blocks: Vec<BasicBlock>,
}

/// What a graph is, as a value.
pub struct GraphView {
    pub entry: int,
    pub blocks: Seq<BlockView>,
}

impl View for MethodGraph {
    type V = GraphView;

    closed spec fn view(&self) -> GraphView {
        GraphView {
            entry: self.entry as int,
            blocks: Seq::new(self.blocks@.len(), |i: int| self.blocks@[i]@),
        }
    }
}

impl GraphView {
    /// There is an edge from block `from` to block `to`.
    pub open spec fn has_edge(self, from: int, to: int) -> bool {
        &&& 0 <= from < self.blocks.len()
        &&& 0 <= to < self.blocks.len()
        &&& self.blocks[from].successors.contains(to as usize)
    }

    /// Block `to` lists block `from` among its predecessors.
    pub open spec fn has_back_edge(self, from: int, to: int) -> bool {
        &&& 0 <= from < self.blocks.len()
        &&& 0 <= to < self.blocks.len()
        &&& self.blocks[to].predecessors.contains(from as usize)
    }

    /// The edges name blocks of the graph, and every edge is listed at both
    /// of its ends.
    pub open spec fn wf(self) -> bool {
        &&& 0 <= self.entry < self.blocks.len()
        &&& self.blocks.len() <= usize::MAX
        &&& forall|i: int| 0 <= i < self.blocks.len() ==> (#[trigger] self.blocks[i]).wf()
        &&& forall|i: int, s: usize|
            0 <= i < self.blocks.len() && #[trigger] self.blocks[i].successors.contains(s)
                ==> self.has_back_edge(i, s as int)
        &&& forall|i: int, p: usize|
            0 <= i < self.blocks.len() && #[trigger] self.blocks[i].predecessors.contains(p)
                ==> self.has_edge(p as int, i)
    }

    /// No two blocks start at the same offset.
    pub open spec fn distinct_starts(self) -> bool {
        forall|i: int, j: int|
            0 <= i < self.blocks.len() && 0 <= j < self.blocks.len() && (
            #[trigger] self.blocks[i]).start_offset == (#[trigger] self.blocks[j]).start_offset
                ==> i == j
    }

    /// `order` lists every block once, by ascending start.
    pub open spec fn is_offset_order(self, order: Seq<usize>) -> bool {
        &&& forall|j: int| 0 <= j < order.len() ==> (#[trigger] order[j]) < self.blocks.len()
        &&& forall|j: int, k: int|
            0 <= j < k < order.len() ==> self.blocks[(#[trigger] order[j]) as int].start_offset
                < self.blocks[(#[trigger] order[k]) as int].start_offset
        &&& forall|i: usize| i < self.blocks.len() ==> #[trigger] order.contains(i)
    }

    /// The blocks stand in the order of their starts.
    pub open spec fn is_sorted(self) -> bool {
        forall|i: int, j: int|
            0 <= i < j < self.blocks.len() ==> (#[trigger] self.blocks[i]).start_offset < (
            #[trigger] self.blocks[j]).start_offset
    }

    /// `after` is this graph with its blocks in another order: block `i` of
    /// this graph is block `rank[i]` of `after`, and block `j` of `after` is
    /// block `order[j]` of this graph.
    pub open spec fn is_ranked(self, after: GraphView, rank: Seq<usize>, order: Seq<usize>) -> bool {
        &&& rank.len() == self.blocks.len()
        &&& order.len() == after.blocks.len()
        &&& forall|i: int|
            0 <= i < rank.len() ==> (#[trigger] rank[i]) < order.len() && order[rank[i] as int]
                == i
        &&& forall|j: int|
            0 <= j < order.len() ==> (#[trigger] order[j]) < rank.len() && rank[order[j] as int]
                == j
        &&& after.entry == rank[self.entry]
        &&& forall|j: int|
            0 <= j < order.len() ==> #[trigger] after.blocks[j] == ranked_block(
                self.blocks[order[j] as int],
                rank,
            )
    }

    /// The index in block `block` of the instruction at `offset`.
    pub open spec fn position(self, block: int, offset: int, index: int) -> bool {
        &&& 0 <= block < self.blocks.len()
        &&& 0 <= index < self.blocks[block].instructions.len()
        &&& self.blocks[block].instructions[index]@.offset == offset
    }
}

/// A block whose neighbours are named by the numbers `rank` gives them.
pub open spec fn ranked_block(block: BlockView, rank: Seq<usize>) -> BlockView {
    BlockView {
        predecessors: with_ranks(block.predecessors, rank),
        successors: with_ranks(block.successors, rank),
        ..block
    }
}

/// `at` is the place of the first instruction after the first that lies at `offset`.
pub open spec fn split_point(
    instructions: Seq<Instruction>,
    offset: int,
    at: int,
) -> bool {
    &&& 0 < at < instructions.len()
    &&& instructions[at]@.offset == offset
    &&& forall|j: int| 0 < j < at ==> (#[trigger] instructions[j])@.offset != offset
}

/// `block` is among the first `upto` entries of `list`.
spec fn listed(list: Seq<usize>, upto: int, block: int) -> bool {
    exists|k: int| 0 <= k < upto && #[trigger] list[k] == block
}

/// A block whose predecessor `from` has been renamed to `to`.
spec fn renamed_block(block: BlockView, from: usize, to: usize) -> BlockView {
    BlockView { predecessors: with_renamed(block.predecessors, from, to), ..block }
}

impl MethodGraph {
    /// A graph of one block without instructions, which starts at offset 0.
    pub fn new(is_exception_entry: bool) -> (graph: MethodGraph)
        ensures
            graph@.wf(),
            graph@.entry == 0,
            graph@.blocks.len() == 1,
            graph@.blocks[0].start_offset == 0,
            graph@.blocks[0].is_exception_entry == is_exception_entry,
            graph@.blocks[0].instructions.len() == 0,
            graph@.blocks[0].predecessors.len() == 0,
            graph@.blocks[0].successors.len() == 0,
    {
        let mut blocks: Vec<BasicBlock> = Vec::new();
        blocks.push(BasicBlock::new(0, is_exception_entry));
        MethodGraph { entry: 0, blocks }
    }

    /// The index of the block at which the method is entered.
    pub fn entry(&self) -> (entry: usize)
        ensures
            entry == self@.entry,
    {
        self.entry
    }

    /// The number of blocks.
    pub fn len(&self) -> (len: usize)
        ensures
            len == self@.blocks.len(),
    {
        self.blocks.len()
    }

    pub fn block(&self, index: usize) -> (block: &BasicBlock)
        requires
            index < self@.blocks.len(),
        ensures
            block@ == self@.blocks[index as int],
    {
        &self.blocks[index]
    }

    pub fn blocks(&self) -> (blocks: &Vec<BasicBlock>)
        ensures
            blocks@.len() == self@.blocks.len(),
            forall|i: int| 0 <= i < blocks@.len() ==> (#[trigger] blocks@[i])@ == self@.blocks[i],
    {
        &self.blocks
    }

    /// The indices of the blocks, by ascending start.
    pub fn blocks_by_offset(&self) -> (order: Vec<usize>)
        requires
            self@.distinct_starts(),
        ensures
            self@.is_offset_order(order@),
    {
        let ghost view = self@;
        let count = self.blocks.len();
        let mut order: Vec<usize> = Vec::new();
        // The start of the block listed last, and whether there is one.
        let mut floor: usize = 0;
        let mut listed_any = false;
        let mut going = true;
        while going
            invariant
                view == self@,
                count == view.blocks.len(),
                view.distinct_starts(),
                forall|j: int| 0 <= j < order@.len() ==> (#[trigger] order@[j]) < count,
                forall|j: int, k: int|
                    0 <= j < k < order@.len() ==> view.blocks[(#[trigger] order@[j]) as int].start_offset
                        < view.blocks[(#[trigger] order@[k]) as int].start_offset,
                listed_any == (order@.len() > 0),
                listed_any ==> floor == view.blocks[order@.last() as int].start_offset,
                forall|i: usize|
                    i < count && listed_any && view.blocks[i as int].start_offset <= floor
                        ==> #[trigger] order@.contains(i),
                !going ==> forall|i: usize| i < count ==> #[trigger] order@.contains(i),
            decreases
                    (if going { 1int } else { 0int }) + if listed_any {
                        usize::MAX - floor
                    } else {
                        usize::MAX + 1
                    },
        {
            // The block with the least start above the floor.
            let mut best: Option<usize> = None;
            let mut i: usize = 0;
            while i < count
                invariant
                    i <= count,
                    view == self@,
                    count == view.blocks.len(),
                    best matches Some(b) ==> b < i && (!listed_any || view.blocks[b as int].start_offset
                        > floor),
                    forall|x: int|
                        0 <= x < i && (!listed_any || (#[trigger] view.blocks[x]).start_offset > floor)
                            ==> best.is_some() && view.blocks[best.unwrap() as int].start_offset
                            <= view.blocks[x].start_offset,
                decreases count - i,
            {
                let start = self.blocks[i].start_offset();
                if !listed_any || start > floor {
                    let better = match best {
                        Some(b) => start < self.blocks[b].start_offset(),
                        None => true,
                    };
                    if better {
                        best = Some(i);
                    }
                }
                i += 1;
            }
            match best {
                Some(b) => {
                    let ghost previous = order@;
                    let start = self.blocks[b].start_offset();
                    order.push(b);
                    proof {
                        assert forall|j: int, k: int| 0 <= j < k < order@.len() implies view.blocks[(
                        #[trigger] order@[j]) as int].start_offset < view.blocks[(
                        #[trigger] order@[k]) as int].start_offset by {
                            if k == previous.len() {
                                assert(order@[j] == previous[j]);
                                if j < previous.len() - 1 {
                                    assert(view.blocks[previous[j] as int].start_offset
                                        < view.blocks[previous[previous.len() - 1] as int].start_offset);
                                }
                            } else {
                                assert(order@[j] == previous[j]);
                                assert(order@[k] == previous[k]);
                            }
                        }
                        assert forall|x: usize|
                            x < count && view.blocks[x as int].start_offset
                                <= start implies #[trigger] order@.contains(x) by {
                            if listed_any && view.blocks[x as int].start_offset <= floor {
                                assert(previous.contains(x));
                                let j = choose|j: int| 0 <= j < previous.len() && previous[j] == x;
                                assert(order@[j] == x);
                            } else {
                                assert(view.blocks[x as int].start_offset > floor || !listed_any);
                                assert(view.blocks[b as int].start_offset
                                    <= view.blocks[x as int].start_offset);
                                assert(x == b);
                                assert(order@[previous.len() as int] == b);
                            }
                        }
                    }
                    floor = start;
                    listed_any = true;
                },
                None => {
                    proof {
                        assert forall|x: usize| x < count implies #[trigger] order@.contains(x) by {
                            let block = view.blocks[x as int];
                            if !listed_any || block.start_offset > floor {
                                assert(best.is_some());
                            } else {
                                assert(listed_any && view.blocks[x as int].start_offset <= floor);
                            }
                        }
                    }
                    going = false;
                },
            }
        }
        order
    }

    /// The same graph with its blocks in the order of their starts. With it
    /// come the number each block had, by its new number, and the new number
    /// of each block, by the number it had.
    pub(crate) fn sorted(self) -> (result: (MethodGraph, Ghost<Seq<usize>>, Ghost<Seq<usize>>))
        requires
            self@.wf(),
            self@.distinct_starts(),
        ensures
            self@.is_ranked(result.0@, result.1@, result.2@),
            result.0@.is_sorted(),
    {
        let ghost before = self@;
        let mut graph = self;
        let order = graph.blocks_by_offset();
        let count = graph.blocks.len();
        let mut rank: Vec<usize> = Vec::new();
        while rank.len() < count
            invariant
                rank@.len() <= count,
            decreases count - rank@.len(),
        {
            rank.push(0);
        }
        let mut j: usize = 0;
        while j < order.len()
            invariant
                j <= order@.len(),
                rank@.len() == count,
                count == before.blocks.len(),
                before.is_offset_order(order@),
                forall|k: int| 0 <= k < j ==> rank@[(#[trigger] order@[k]) as int] == k,
            decreases order@.len() - j,
        {
            let ghost previous = rank@;
            rank[order[j]] = j;
            proof {
                assert forall|k: int| 0 <= k < j + 1 implies rank@[(#[trigger] order@[k]) as int]
                    == k by {
                    if k < j {
                        assert(before.blocks[order@[k] as int].start_offset
                            < before.blocks[order@[j as int] as int].start_offset);
                        assert(previous[order@[k] as int] == k);
                    }
                }
            }
            j += 1;
        }
        proof {
            assert forall|i: int| 0 <= i < count implies (#[trigger] rank@[i]) < order@.len()
                && order@[rank@[i] as int] == i by {
                assert(order@.contains(i as usize));
                let k = choose|k: int| 0 <= k < order@.len() && order@[k] == i as usize;
                assert(rank@[order@[k] as int] == k);
            }
        }
        let entry = rank[graph.entry];
        let mut blocks: Vec<BasicBlock> = Vec::new();
        let mut j: usize = 0;
        while j < order.len()
            invariant
                j <= order@.len(),
                blocks@.len() == j,
                rank@.len() == count,
                count == before.blocks.len(),
                graph.blocks@.len() == count,
                before.wf(),
                before.is_offset_order(order@),
                forall|k: int| 0 <= k < order@.len() ==> rank@[(#[trigger] order@[k]) as int] == k,
                forall|k: int|
                    0 <= k < j ==> (#[trigger] blocks@[k])@ == ranked_block(
                        before.blocks[order@[k] as int],
                        rank@,
                    ),
                forall|i: int|
                    0 <= i < count && rank@[i] >= j ==> (#[trigger] graph.blocks@[i])@
                        == before.blocks[i],
            decreases order@.len() - j,
        {
            let from = order[j];
            let ghost standing = graph.blocks@;
            proof {
                let view = before.blocks[from as int];
                assert(standing[from as int]@ == view);
                assert forall|i: int| 0 <= i < view.predecessors.len() implies (
                #[trigger] view.predecessors[i]) < rank@.len() by {
                    assert(view.predecessors.contains(view.predecessors[i]));
                    assert(before.has_edge(view.predecessors[i] as int, from as int));
                }
                assert forall|i: int| 0 <= i < view.successors.len() implies (
                #[trigger] view.successors[i]) < rank@.len() by {
                    assert(view.successors.contains(view.successors[i]));
                    assert(before.has_back_edge(from as int, view.successors[i] as int));
                }
            }
            let block = graph.blocks[from].take_ranked(&rank);
            blocks.push(block);
            proof {
                assert forall|i: int| 0 <= i < count && rank@[i] >= j + 1 implies (
                #[trigger] graph.blocks@[i])@ == before.blocks[i] by {
                    assert(i != from);
                    assert(graph.blocks@[i] == standing[i]);
                }
            }
            j += 1;
        }
        let sorted = MethodGraph { entry, blocks };
        proof {
            let after = sorted@;
            assert forall|j: int| 0 <= j < order@.len() implies #[trigger] after.blocks[j]
                == ranked_block(before.blocks[order@[j] as int], rank@) by {
                assert(blocks@[j]@ == ranked_block(before.blocks[order@[j] as int], rank@));
            }
            assert forall|i: int, j: int| 0 <= i < j < after.blocks.len() implies (
            #[trigger] after.blocks[i]).start_offset < (#[trigger] after.blocks[j]).start_offset by {
                assert(before.blocks[order@[i] as int].start_offset
                    < before.blocks[order@[j] as int].start_offset);
            }
        }
        (sorted, Ghost(rank@), Ghost(order@))
    }

    /// Adds a block without instructions and without edges, and returns its index.
    pub fn add_block(&mut self, start_offset: usize, is_exception_entry: bool) -> (index: usize)
        requires
            old(self)@.wf(),
            old(self)@.blocks.len() < usize::MAX,
        ensures
            final(self)@.wf(),
            index == old(self)@.blocks.len(),
            final(self)@.entry == old(self)@.entry,
            final(self)@.blocks.len() == index + 1,
            forall|i: int| 0 <= i < index ==> final(self)@.blocks[i] == old(self)@.blocks[i],
            final(self)@.blocks[index as int] == (BlockView {
                start_offset: start_offset as int,
                instructions: Seq::empty(),
                predecessors: Seq::empty(),
                successors: Seq::empty(),
                is_exception_entry,
            }),
    {
        let index = self.blocks.len();
        let block = BasicBlock::new(start_offset, is_exception_entry);
        assert(block@.instructions =~= Seq::empty());
        assert(block@.predecessors =~= Seq::empty());
        assert(block@.successors =~= Seq::empty());
        self.blocks.push(block);
        proof {
            let after = self@;
            let before = old(self)@;
            assert forall|i: int| 0 <= i < index implies after.blocks[i] == before.blocks[i] by {}
            assert(after.blocks[index as int].successors.len() == 0);
            assert(after.blocks[index as int].predecessors.len() == 0);
            assert forall|i: int, s: usize|
                0 <= i < after.blocks.len() && #[trigger] after.blocks[i].successors.contains(
                    s,
                ) implies after.has_back_edge(i, s as int) by {
                if i < index {
                    assert(before.blocks[i].successors.contains(s));
                    assert(before.has_back_edge(i, s as int));
                }
            }
            assert forall|i: int, p: usize|
                0 <= i < after.blocks.len() && #[trigger] after.blocks[i].predecessors.contains(
                    p,
                ) implies after.has_edge(p as int, i) by {
                if i < index {
                    assert(before.blocks[i].predecessors.contains(p));
                    assert(before.has_edge(p as int, i));
                }
            }
        }
        index
    }

    /// Appends an instruction to a block.
    pub fn push_instruction(&mut self, block: usize, instruction: Instruction)
        requires
            old(self)@.wf(),
            block < old(self)@.blocks.len(),
        ensures
            final(self)@.wf(),
            final(self)@.entry == old(self)@.entry,
            final(self)@.blocks.len() == old(self)@.blocks.len(),
            forall|i: int|
                0 <= i < old(self)@.blocks.len() && i != block ==> final(self)@.blocks[i] == old(
                    self,
                )@.blocks[i],
            final(self)@.blocks[block as int] == (BlockView {
                instructions: old(self)@.blocks[block as int].instructions.push(instruction),
                ..old(self)@.blocks[block as int]
            }),
    {
        self.blocks[block].push(instruction);
        proof {
            let after = self@;
            let before = old(self)@;
            assert forall|i: int| 0 <= i < before.blocks.len() && i != block implies after.blocks[i]
                == before.blocks[i] by {}
            assert forall|i: int| 0 <= i < after.blocks.len() implies (#[trigger] after.blocks[i]).wf() by {
                assert(before.blocks[i].wf());
            }
            assert forall|i: int, s: usize|
                0 <= i < after.blocks.len() && #[trigger] after.blocks[i].successors.contains(
                    s,
                ) implies after.has_back_edge(i, s as int) by {
                assert(before.blocks[i].successors.contains(s));
                assert(before.has_back_edge(i, s as int));
            }
            assert forall|i: int, p: usize|
                0 <= i < after.blocks.len() && #[trigger] after.blocks[i].predecessors.contains(
                    p,
                ) implies after.has_edge(p as int, i) by {
                assert(before.blocks[i].predecessors.contains(p));
                assert(before.has_edge(p as int, i));
            }
        }
    }

    /// Adds the edge from block `from` to block `to`, at both of its ends.
    pub fn add_edge(&mut self, from: usize, to: usize)
        requires
            old(self)@.wf(),
            from < old(self)@.blocks.len(),
            to < old(self)@.blocks.len(),
        ensures
            final(self)@.wf(),
            final(self)@.entry == old(self)@.entry,
            final(self)@.blocks.len() == old(self)@.blocks.len(),
            forall|i: int|
                0 <= i < old(self)@.blocks.len() ==> {
                    &&& (#[trigger] final(self)@.blocks[i]).start_offset == old(
                        self,
                    )@.blocks[i].start_offset
                    &&& final(self)@.blocks[i].instructions == old(self)@.blocks[i].instructions
                    &&& final(self)@.blocks[i].is_exception_entry == old(
                        self,
                    )@.blocks[i].is_exception_entry
                    &&& final(self)@.blocks[i].successors == if i == from {
                        with_edge(old(self)@.blocks[i].successors, to)
                    } else {
                        old(self)@.blocks[i].successors
                    }
                    &&& final(self)@.blocks[i].predecessors == if i == to {
                        with_edge(old(self)@.blocks[i].predecessors, from)
                    } else {
                        old(self)@.blocks[i].predecessors
                    }
                },
            forall|a: int, b: int|
                final(self)@.has_edge(a, b) <==> old(self)@.has_edge(a, b) || (a == from && b
                    == to),
    {
        assert(self@.blocks[from as int].wf());
        self.blocks[from].add_succ(to);
        let ghost middle = self@;
        assert(middle.blocks[to as int].wf()) by {
            assert(old(self)@.blocks[to as int].wf());
        }
        self.blocks[to].add_prev(from);
        proof {
            let after = self@;
            let before = old(self)@;
            assert forall|i: int| 0 <= i < before.blocks.len() implies {
                &&& (#[trigger] after.blocks[i]).start_offset == before.blocks[i].start_offset
                &&& after.blocks[i].instructions == before.blocks[i].instructions
                &&& after.blocks[i].is_exception_entry == before.blocks[i].is_exception_entry
                &&& after.blocks[i].successors == if i == from {
                    with_edge(before.blocks[i].successors, to)
                } else {
                    before.blocks[i].successors
                }
                &&& after.blocks[i].predecessors == if i == to {
                    with_edge(before.blocks[i].predecessors, from)
                } else {
                    before.blocks[i].predecessors
                }
            } by {
                assert(middle.blocks[i] == if i == from {
                    BlockView {
                        successors: with_edge(before.blocks[i].successors, to),
                        ..before.blocks[i]
                    }
                } else {
                    before.blocks[i]
                });
            }
            assert forall|i: int| 0 <= i < after.blocks.len() implies (#[trigger] after.blocks[i]).wf() by {
                assert(before.blocks[i].wf());
                assert(middle.blocks[i].wf());
            }
            assert forall|a: int, b: int|
                after.has_edge(a, b) <==> before.has_edge(a, b) || (a == from && b == to) by {
                if 0 <= a < before.blocks.len() && 0 <= b < before.blocks.len() {
                    assert(middle.blocks[from as int].successors.contains(b as usize) <==> b
                        == to || before.blocks[from as int].successors.contains(b as usize));
                }
            }
            assert forall|a: int, b: int|
                after.has_back_edge(a, b) <==> before.has_back_edge(a, b) || (a == from && b
                    == to) by {
                if 0 <= a < before.blocks.len() && 0 <= b < before.blocks.len() {
                    assert(after.blocks[to as int].predecessors.contains(a as usize) <==> a
                        == from || middle.blocks[to as int].predecessors.contains(a as usize));
                }
            }
            assert forall|i: int, s: usize|
                0 <= i < after.blocks.len() && #[trigger] after.blocks[i].successors.contains(
                    s,
                ) implies after.has_back_edge(i, s as int) by {
                if !(i == from && s == to) {
                    assert(middle.blocks[i].successors.contains(s));
                    assert(before.blocks[i].successors.contains(s));
                    assert(before.has_back_edge(i, s as int));
                }
            }
            assert forall|i: int, p: usize|
                0 <= i < after.blocks.len() && #[trigger] after.blocks[i].predecessors.contains(
                    p,
                ) implies after.has_edge(p as int, i) by {
                if !(p == from && i == to) {
                    assert(middle.blocks[i].predecessors.contains(p));
                    assert(before.blocks[i].predecessors.contains(p));
                    assert(before.has_edge(p as int, i));
                }
            }
        }
    }

    /// Splits block `block` in two before its instruction at `offset`, which
    /// is not its first. The block keeps its index, its start, its
    /// predecessors and the instructions before `offset`; its only successor
    /// is now the new block, whose index is returned. The new block starts at
    /// `offset`, holds the instructions from there on, and has the successors
    /// the block had. Every other block has the successors it had; where it
    /// was a successor of the old block, it now names the new block as its
    /// predecessor in the old one's place.
    pub fn split(&mut self, block: usize, offset: usize, is_exception_entry: bool) -> (tail: usize)
        requires
            old(self)@.wf(),
            old(self)@.blocks.len() < usize::MAX,
            block < old(self)@.blocks.len(),
            exists|at: int|
                split_point(old(self)@.blocks[block as int].instructions, offset as int, at),
        ensures
            final(self)@.wf(),
            final(self)@.entry == old(self)@.entry,
            tail == old(self)@.blocks.len(),
            final(self)@.blocks.len() == tail + 1,
            forall|at: int|
                split_point(old(self)@.blocks[block as int].instructions, offset as int, at) ==> {
                    &&& final(self)@.blocks[block as int].instructions == old(
                        self,
                    )@.blocks[block as int].instructions.subrange(0, at)
                    &&& final(self)@.blocks[tail as int].instructions == old(
                        self,
                    )@.blocks[block as int].instructions.subrange(
                        at,
                        old(self)@.blocks[block as int].instructions.len() as int,
                    )
                },
            final(self)@.blocks[block as int].successors == seq![tail],
            final(self)@.blocks[tail as int].successors == old(self)@.blocks[block as int].successors,
            final(self)@.blocks[tail as int].predecessors == seq![block],
            final(self)@.blocks[tail as int].start_offset == offset,
            final(self)@.blocks[tail as int].is_exception_entry == is_exception_entry,
            forall|i: int|
                0 <= i < tail ==> {
                    &&& (#[trigger] final(self)@.blocks[i]).start_offset == old(
                        self,
                    )@.blocks[i].start_offset
                    &&& final(self)@.blocks[i].is_exception_entry == old(
                        self,
                    )@.blocks[i].is_exception_entry
                    &&& final(self)@.blocks[i].predecessors == if old(
                        self,
                    )@.blocks[block as int].successors.contains(i as usize) {
                        with_renamed(old(self)@.blocks[i].predecessors, block, tail)
                    } else {
                        old(self)@.blocks[i].predecessors
                    }
                    &&& i != block ==> final(self)@.blocks[i].successors == old(
                        self,
                    )@.blocks[i].successors && final(self)@.blocks[i].instructions == old(
                        self,
                    )@.blocks[i].instructions
                },
    {
        let ghost before = self@;
        let ghost whole = before.blocks[block as int];
        assert(whole.wf());
        let count = self.blocks[block].instructions().len();
        let mut at: usize = 1;
        while at < count && self.blocks[block].instructions()[at].offset() != offset
            invariant
                1 <= at,
                self@ == before,
                block < before.blocks.len(),
                count == whole.instructions.len(),
                whole == before.blocks[block as int],
                forall|j: int|
                    0 < j < at && j < count ==> (#[trigger] whole.instructions[j])@.offset
                        != offset,
                exists|k: int| split_point(whole.instructions, offset as int, k),
            decreases count - at,
        {
            at += 1;
        }
        assert(split_point(whole.instructions, offset as int, at as int));
        assert forall|k: int| split_point(whole.instructions, offset as int, k) implies k == at by {}
        let tail = self.blocks.len();
        let rest = self.blocks[block].split_off(at, offset, is_exception_entry, block, tail);
        let ghost cut = self@;
        assert forall|i: int| 0 <= i < tail implies (#[trigger] cut.blocks[i]).predecessors
            == before.blocks[i].predecessors && cut.blocks[i].wf() by {
            assert(before.blocks[i].wf());
        }
        let mut j: usize = 0;
        while j < rest.successors().len()
            invariant
                j <= whole.successors.len(),
                rest@.successors == whole.successors,
                whole.successors.no_duplicates(),
                whole == before.blocks[block as int],
                before.wf(),
                block < tail,
                tail == before.blocks.len(),
                self@.entry == before.entry,
                self@.blocks.len() == tail,
                cut.blocks.len() == tail,
                forall|i: int| 0 <= i < tail ==> (#[trigger] self@.blocks[i]).wf(),
                forall|i: int| 0 <= i < tail ==> (#[trigger] cut.blocks[i]).predecessors
                    == before.blocks[i].predecessors && cut.blocks[i].wf(),
                forall|i: int|
                    0 <= i < tail ==> #[trigger] self@.blocks[i] == if listed(
                        whole.successors,
                        j as int,
                        i,
                    ) {
                        renamed_block(cut.blocks[i], block, tail)
                    } else {
                        cut.blocks[i]
                    },
            decreases whole.successors.len() - j,
        {
            let successor = rest.successors()[j];
            let ghost step = self@;
            proof {
                assert(whole.successors.contains(successor));
                assert(before.has_back_edge(block as int, successor as int));
                assert(!listed(whole.successors, j as int, successor as int));
                assert(step.blocks[successor as int] == cut.blocks[successor as int]);
                assert(before.blocks[successor as int].wf());
                if before.blocks[successor as int].predecessors.contains(tail) {
                    assert(before.has_edge(tail as int, successor as int));
                }
            }
            self.blocks[successor].rename_prev(block, tail);
            j += 1;
            proof {
                assert forall|i: int| 0 <= i < tail implies (#[trigger] self@.blocks[i]).wf() by {
                    if i != successor {
                        assert(self@.blocks[i] == step.blocks[i]);
                    }
                }
                assert forall|i: int| 0 <= i < tail implies #[trigger] self@.blocks[i]
                    == if listed(whole.successors, j as int, i) {
                    renamed_block(cut.blocks[i], block, tail)
                } else {
                    cut.blocks[i]
                } by {
                    if i == successor {
                        assert(whole.successors[j - 1] == i);
                    } else {
                        assert(self@.blocks[i] == step.blocks[i]);
                        if listed(whole.successors, j as int, i) {
                            let k = choose|k: int| 0 <= k < j && #[trigger] whole.successors[k] == i;
                            assert(k < j - 1);
                            assert(listed(whole.successors, j - 1, i));
                        }
                        if listed(whole.successors, j - 1, i) {
                            let k = choose|k: int| 0 <= k < j - 1 && #[trigger] whole.successors[k] == i;
                            assert(listed(whole.successors, j as int, i));
                        }
                    }
                }
            }
        }
        let ghost fixed = self@;
        self.blocks.push(rest);
        proof {
            let after = self@;
            assert forall|i: int| 0 <= i < tail implies #[trigger] after.blocks[i] == fixed.blocks[i] by {}
            assert(after.blocks[tail as int] == rest@);
            assert forall|i: int| 0 <= i < tail implies (whole.successors.contains(i as usize)
                <==> #[trigger] listed(whole.successors, whole.successors.len() as int, i)) by {
                if whole.successors.contains(i as usize) {
                    let k = choose|k: int|
                        0 <= k < whole.successors.len() && whole.successors[k] == i as usize;
                    assert(whole.successors[k] == i);
                }
                if listed(whole.successors, whole.successors.len() as int, i) {
                    let k = choose|k: int|
                        0 <= k < whole.successors.len() && #[trigger] whole.successors[k] == i;
                    assert(whole.successors[k] == i as usize);
                }
            }
            assert forall|i: int| 0 <= i < tail implies {
                &&& (#[trigger] after.blocks[i]).start_offset == before.blocks[i].start_offset
                &&& after.blocks[i].predecessors.no_duplicates()
                &&& after.blocks[i].is_exception_entry == before.blocks[i].is_exception_entry
                &&& after.blocks[i].predecessors == if whole.successors.contains(i as usize) {
                    with_renamed(before.blocks[i].predecessors, block, tail)
                } else {
                    before.blocks[i].predecessors
                }
                &&& i != block ==> after.blocks[i].successors == before.blocks[i].successors
                    && after.blocks[i].instructions == before.blocks[i].instructions
            } by {
                assert(after.blocks[i] == fixed.blocks[i]);
                assert(fixed.blocks[i].wf());
                assert(cut.blocks[i].predecessors == before.blocks[i].predecessors);
                if i != block {
                    assert(cut.blocks[i] == before.blocks[i]);
                }
            }
            lemma_split_wf(before, after, block as int, tail as int);
        }
        tail
    }
}

/// The graph `after`, made from `before` by splitting block `block`, lists
/// every edge at both of its ends if `before` does.
proof fn lemma_split_wf(before: GraphView, after: GraphView, block: int, tail: int)
    requires
        before.wf(),
        0 <= block < tail,
        tail == before.blocks.len(),
        tail < usize::MAX,
        after.entry == before.entry,
        after.blocks.len() == tail + 1,
        after.blocks[block].successors == seq![tail as usize],
        after.blocks[tail].successors == before.blocks[block].successors,
        after.blocks[tail].predecessors == seq![block as usize],
        0 <= after.blocks[tail].start_offset <= usize::MAX,
        forall|i: int|
            0 <= i < tail ==> {
                &&& (#[trigger] after.blocks[i]).start_offset == before.blocks[i].start_offset
                &&& after.blocks[i].predecessors == if before.blocks[block].successors.contains(
                    i as usize,
                ) {
                    with_renamed(before.blocks[i].predecessors, block as usize, tail as usize)
                } else {
                    before.blocks[i].predecessors
                }
                &&& i != block ==> after.blocks[i].successors == before.blocks[i].successors
                &&& after.blocks[i].predecessors.no_duplicates()
            },
    ensures
        after.wf(),
{
    let whole = before.blocks[block];
    assert(whole.wf());
    assert(seq![tail as usize].no_duplicates());
    assert(seq![block as usize].no_duplicates());
    assert forall|i: int| 0 <= i < after.blocks.len() implies (#[trigger] after.blocks[i]).wf() by {
        if i < tail {
            assert(before.blocks[i].wf());
        }
    }
    assert forall|i: int, x: usize|
        0 <= i < tail && before.blocks[block].successors.contains(i as usize) implies (
        after.blocks[i].predecessors.contains(x) <==> (x != block
            && before.blocks[i].predecessors.contains(x)) || (x == tail
            && before.blocks[i].predecessors.contains(block as usize))) by {
        let old_list = before.blocks[i].predecessors;
        let new_list = with_renamed(old_list, block as usize, tail as usize);
        assert(after.blocks[i].predecessors == new_list);
        if new_list.contains(x) {
            let k = choose|k: int| 0 <= k < new_list.len() && new_list[k] == x;
            assert(old_list.contains(old_list[k]));
            if old_list[k] != block {
                assert(before.has_edge(old_list[k] as int, i));
            }
        }
        if x != block && old_list.contains(x) {
            let k = choose|k: int| 0 <= k < old_list.len() && old_list[k] == x;
            assert(new_list[k] == x);
        }
        if x == tail && old_list.contains(block as usize) {
            let k = choose|k: int| 0 <= k < old_list.len() && old_list[k] == block as usize;
            assert(new_list[k] == x);
        }
    }
    assert forall|i: int, s: usize|
        0 <= i < after.blocks.len() && #[trigger] after.blocks[i].successors.contains(
            s,
        ) implies after.has_back_edge(i, s as int) by {
        if i == block {
            assert(s == tail);
            assert(after.blocks[tail].predecessors[0] == block);
        } else if i == tail {
            assert(whole.successors.contains(s));
            assert(before.has_back_edge(block, s as int));
        } else {
            assert(before.blocks[i].successors.contains(s));
            assert(before.has_back_edge(i, s as int));
        }
    }
    assert forall|i: int, p: usize|
        0 <= i < after.blocks.len() && #[trigger] after.blocks[i].predecessors.contains(
            p,
        ) implies after.has_edge(p as int, i) by {
        if i == tail {
            assert(p == block);
            assert(after.blocks[block].successors[0] == tail);
        } else if before.blocks[block].successors.contains(i as usize) {
            if p == tail {
            } else {
                assert(before.blocks[i].predecessors.contains(p));
                assert(before.has_edge(p as int, i));
            }
        } else {
            assert(before.blocks[i].predecessors.contains(p));
            assert(before.has_edge(p as int, i));
        }
    }
}

} // verus!
