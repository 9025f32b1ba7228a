//! Basic blocks: runs of instructions that are entered at the top and left at
//! the bottom, with the edges to the blocks before and after them.

use vstd::prelude::*;

use crate::instruction::Instruction;

verus! {

/// A basic block of a method. Blocks name each other by their index in the
/// graph that owns them.
#[derive(Debug, Clone, PartialEq, Eq)]
pub struct BasicBlock {
    start_offset: usize,
    instructions: Vec<Instruction>,
    prev: Vec<usize>,
    succ: Vec<usize>,
    is_exception_entry: bool,
}

/// What a block is, as a value.
pub struct BlockView {
    pub start_offset: int,
    pub instructions: Seq<Instruction>,
    /// The blocks with an edge into this one, each once.
    pub predecessors: Seq<usize>,
    /// The blocks this one has an edge to, each once.
    pub successors: Seq<usize>,
    pub is_exception_entry: bool,
}

impl View for BasicBlock {
    type V = BlockView;

    closed spec fn view(&self) -> BlockView {
        BlockView {
            start_offset: self.start_offset as int,
            instructions: self.instructions@,
            predecessors: self.prev@,
            successors: self.succ@,
            is_exception_entry: self.is_exception_entry,
        }
    }
}

impl BlockView {
    /// No edge is listed twice.
    pub open spec fn wf(self) -> bool {
        &&& self.predecessors.no_duplicates()
        &&& self.successors.no_duplicates()
        &&& 0 <= self.start_offset <= usize::MAX
    }
}

/// `list` with `block` added, unless it is there already.
pub open spec fn with_edge(list: Seq<usize>, block: usize) -> Seq<usize> {
    if list.contains(block) {
        list
    } else {
        list.push(block)
    }
}

/// `list` with `to` in every place of `from`.
pub open spec fn with_renamed(list: Seq<usize>, from: usize, to: usize) -> Seq<usize> {
    Seq::new(
        list.len(),
        |i: int|
            if list[i] == from {
                to
            } else {
                list[i]
            },
    )
}

/// `list` with the number `rank` gives in place of each of its entries.
pub open spec fn with_ranks(list: Seq<usize>, rank: Seq<usize>) -> Seq<usize> {
    Seq::new(list.len(), |i: int| rank[list[i] as int])
}

fn list_ranks(list: &Vec<usize>, rank: &Vec<usize>) -> (ranks: Vec<usize>)
    requires
        forall|i: int| 0 <= i < list@.len() ==> (#[trigger] list@[i]) < rank@.len(),
    ensures
        ranks@ == with_ranks(list@, rank@),
{
    let mut ranks: Vec<usize> = Vec::new();
    let mut i: usize = 0;
    while i < list.len()
        invariant
            i <= list@.len(),
            forall|j: int| 0 <= j < list@.len() ==> (#[trigger] list@[j]) < rank@.len(),
            ranks@.len() == i,
            forall|j: int| 0 <= j < i ==> #[trigger] ranks@[j] == rank@[list@[j] as int],
        decreases list@.len() - i,
    {
        ranks.push(rank[list[i]]);
        i += 1;
    }
    assert(ranks@ =~= with_ranks(list@, rank@));
    ranks
}

fn list_contains(list: &Vec<usize>, block: usize) -> (found: bool)
    ensures
        found == list@.contains(block),
{
    let mut i: usize = 0;
    while i < list.len()
        invariant
            i <= list@.len(),
            forall|j: int| 0 <= j < i ==> list@[j] != block,
        decreases list@.len() - i,
    {
        if list[i] == block {
            return true;
        }
        i += 1;
    }
    false
}

fn list_add(list: &mut Vec<usize>, block: usize)
    requires
        old(list)@.no_duplicates(),
    ensures
        final(list)@ == with_edge(old(list)@, block),
        final(list)@.no_duplicates(),
        final(list)@.contains(block),
        forall|other: usize|
            final(list)@.contains(other) <==> other == block || old(list)@.contains(other),
{
    if !list_contains(list, block) {
        list.push(block);
        assert(list@.last() == block);
        assert forall|other: usize| old(list)@.contains(other) implies list@.contains(other) by {
            let j = choose|j: int| 0 <= j < old(list)@.len() && old(list)@[j] == other;
            assert(list@[j] == other);
        }
    }
}

impl BasicBlock {
    /// A block without instructions and without edges.
    pub fn new(start_offset: usize, is_exception_entry: bool) -> (block: BasicBlock)
        ensures
            block@.wf(),
            block@.start_offset == start_offset,
            block@.is_exception_entry == is_exception_entry,
            block@.instructions.len() == 0,
            block@.predecessors.len() == 0,
            block@.successors.len() == 0,
    {
        BasicBlock {
            start_offset,
            instructions: Vec::new(),
            prev: Vec::new(),
            succ: Vec::new(),
            is_exception_entry,
        }
    }

    pub fn start_offset(&self) -> (offset: usize)
        ensures
            offset == self@.start_offset,
    {
        self.start_offset
    }

    pub fn is_exception_entry(&self) -> (flag: bool)
        ensures
            flag == self@.is_exception_entry,
    {
        self.is_exception_entry
    }

    pub fn instructions(&self) -> (instructions: &Vec<Instruction>)
        ensures
            instructions@ == self@.instructions,
    {
        &self.instructions
    }

    pub fn predecessors(&self) -> (blocks: &Vec<usize>)
        ensures
            blocks@ == self@.predecessors,
    {
        &self.prev
    }

    pub fn successors(&self) -> (blocks: &Vec<usize>)
        ensures
            blocks@ == self@.successors,
    {
        &self.succ
    }

    /// Whether there is an edge from this block to `block`.
    pub fn has_succ(&self, block: usize) -> (found: bool)
        ensures
            found == self@.successors.contains(block),
    {
        list_contains(&self.succ, block)
    }

    /// Records an edge from `block` into this block.
    pub fn add_prev(&mut self, block: usize)
        requires
            old(self)@.wf(),
        ensures
            final(self)@.wf(),
            final(self)@ == (BlockView {
                predecessors: with_edge(old(self)@.predecessors, block),
                ..old(self)@
            }),
            forall|other: usize|
                final(self)@.predecessors.contains(other) <==> other == block || old(
                    self,
                )@.predecessors.contains(other),
    {
        list_add(&mut self.prev, block);
    }

    /// Records an edge from this block to `block`.
    pub fn add_succ(&mut self, block: usize)
        requires
            old(self)@.wf(),
        ensures
            final(self)@.wf(),
            final(self)@ == (BlockView {
                successors: with_edge(old(self)@.successors, block),
                ..old(self)@
            }),
            forall|other: usize|
                final(self)@.successors.contains(other) <==> other == block || old(
                    self,
                )@.successors.contains(other),
    {
        list_add(&mut self.succ, block);
    }

    /// Appends an instruction.
    pub fn push(&mut self, instruction: Instruction)
        ensures
            final(self)@ == (BlockView {
                instructions: old(self)@.instructions.push(instruction),
                ..old(self)@
            }),
    {
        self.instructions.push(instruction);
    }

    /// Names `to` as predecessor wherever `from` was named, for when the block
    /// `from` has handed its edges to `to`.
    pub fn rename_prev(&mut self, from: usize, to: usize)
        requires
            old(self)@.wf(),
            !old(self)@.predecessors.contains(to),
        ensures
            final(self)@.wf(),
            final(self)@ == (BlockView {
                predecessors: with_renamed(old(self)@.predecessors, from, to),
                ..old(self)@
            }),
            forall|other: usize|
                final(self)@.predecessors.contains(other) <==> (other != from && old(
                    self,
                )@.predecessors.contains(other)) || (other == to && old(
                    self,
                )@.predecessors.contains(from)),
    {
        let ghost before = self.prev@;
        let mut i: usize = 0;
        while i < self.prev.len()
            invariant
                i <= self.prev@.len(),
                self.prev@.len() == before.len(),
                before == old(self)@.predecessors,
                self.start_offset == old(self).start_offset,
                self.instructions == old(self).instructions,
                self.succ == old(self).succ,
                self.is_exception_entry == old(self).is_exception_entry,
                forall|j: int| 0 <= j < i ==> self.prev@[j] == with_renamed(before, from, to)[j],
                forall|j: int| i <= j < before.len() ==> self.prev@[j] == before[j],
            decreases self.prev@.len() - i,
        {
            if self.prev[i] == from {
                self.prev[i] = to;
            }
            i += 1;
        }
        assert(self.prev@ =~= with_renamed(before, from, to));
        let ghost after = self.prev@;
        assert(after.no_duplicates()) by {
            assert forall|a: int, b: int|
                0 <= a < after.len() && 0 <= b < after.len() && a != b implies after[a]
                != after[b] by {
                if after[a] == after[b] {
                    assert(before.contains(before[a]));
                    assert(before.contains(before[b]));
                    assert(before[a] != before[b]);
                }
            }
        }
        assert forall|other: usize|
            after.contains(other) <==> (other != from && before.contains(other)) || (other == to
                && before.contains(from)) by {
            if after.contains(other) {
                let j = choose|j: int| 0 <= j < after.len() && after[j] == other;
                assert(before.contains(before[j]));
            }
            if other != from && before.contains(other) {
                let j = choose|j: int| 0 <= j < before.len() && before[j] == other;
                assert(after[j] == other);
            }
            if other == to && before.contains(from) {
                let j = choose|j: int| 0 <= j < before.len() && before[j] == from;
                assert(after[j] == other);
            }
        }
    }

    /// Cuts the block in two before its instruction `at`. The block keeps the
    /// instructions before it and gets `tail` as its only successor. The block
    /// that is returned starts at `start_offset`, holds the instructions from
    /// `at` on, has this block, `head`, as its only predecessor, and takes over
    /// the successors this block had.
    pub fn split_off(
        &mut self,
        at: usize,
        start_offset: usize,
        is_exception_entry: bool,
        head: usize,
        tail: usize,
    ) -> (rest: BasicBlock)
        requires
            old(self)@.wf(),
            at <= old(self)@.instructions.len(),
        ensures
            final(self)@.wf(),
            rest@.wf(),
            final(self)@ == (BlockView {
                instructions: old(self)@.instructions.subrange(0, at as int),
                successors: seq![tail],
                ..old(self)@
            }),
            rest@ == (BlockView {
                start_offset: start_offset as int,
                instructions: old(self)@.instructions.subrange(
                    at as int,
                    old(self)@.instructions.len() as int,
                ),
                predecessors: seq![head],
                successors: old(self)@.successors,
                is_exception_entry,
            }),
    {
        let instructions = self.instructions.split_off(at);
        let succ = self.succ.split_off(0);
        self.succ.push(tail);
        let mut prev: Vec<usize> = Vec::new();
        prev.push(head);
        assert(self.succ@ =~= seq![tail]);
        assert(prev@ =~= seq![head]);
        assert(succ@ =~= old(self)@.successors);
        BasicBlock { start_offset, instructions, prev, succ, is_exception_entry }
    }

    /// Takes the block out, leaving a block without instructions behind, and
    /// names the blocks before and after it by the numbers `rank` gives them.
    pub fn take_ranked(&mut self, rank: &Vec<usize>) -> (block: BasicBlock)
        requires
            forall|i: int|
                0 <= i < old(self)@.predecessors.len() ==> (#[trigger] old(self)@.predecessors[i])
                    < rank@.len(),
            forall|i: int|
                0 <= i < old(self)@.successors.len() ==> (#[trigger] old(self)@.successors[i])
                    < rank@.len(),
        ensures
            block@ == (BlockView {
                predecessors: with_ranks(old(self)@.predecessors, rank@),
                successors: with_ranks(old(self)@.successors, rank@),
                ..old(self)@
            }),
    {
        proof {
            assert forall|i: int| 0 <= i < self.prev@.len() implies (#[trigger] self.prev@[i])
                < rank@.len() by {
                assert(self@.predecessors[i] == self.prev@[i]);
            }
            assert forall|i: int| 0 <= i < self.succ@.len() implies (#[trigger] self.succ@[i])
                < rank@.len() by {
                assert(self@.successors[i] == self.succ@[i]);
            }
        }
        let prev = list_ranks(&self.prev, rank);
        let succ = list_ranks(&self.succ, rank);
        let instructions = self.instructions.split_off(0);
        assert(instructions@ =~= old(self)@.instructions);
        BasicBlock {
            start_offset: self.start_offset,
            instructions,
            prev,
            succ,
            is_exception_entry: self.is_exception_entry,
        }
    }
}

} // verus!
