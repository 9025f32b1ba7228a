//! The builder of a method's graph: a work list of blocks that have been
//! found and not yet scanned, and the registers that say which block starts
//! at an offset and which block holds the instruction there.

use vstd::prelude::*;

use crate::error::BuildError;
use crate::flow::{
    can_start_block, instruction_at, is_branch_target, is_defect, is_leader, leads,
    lemma_scanned_entry, lemma_scanned_step, resumes_at, runs_into, scan_step, scanned,
    switch_size, switch_table_ok, switch_target,
};
use crate::graph::{split_point, GraphView, MethodGraph};
use crate::instruction::{lemma_decoded_length, spec_decode, Instruction, InstructionView};
use crate::model::{follows, lemma_models_ranked, lemma_no_defect, linked, starts_range};
use crate::opcode::TerminatorKind;
use crate::switch::read_switch_table;

verus! {

/// The number of offsets at which no block starts yet.
spec fn count_free(register: Seq<Option<usize>>) -> nat
    decreases register.len(),
{
    if register.len() == 0 {
        0
    } else {
        count_free(register.drop_last()) + if register.last().is_none() {
            1nat
        } else {
            0nat
        }
    }
}

/// Taking a free offset leaves one free offset fewer.
proof fn lemma_count_taken(register: Seq<Option<usize>>, at: int, block: usize)
    requires
        0 <= at < register.len(),
        register[at].is_none(),
    ensures
        count_free(register.update(at, Some(block))) + 1 == count_free(register),
    decreases register.len(),
{
    let taken = register.update(at, Some(block));
    if at == register.len() - 1 {
        assert(taken.drop_last() =~= register.drop_last());
    } else {
        assert(taken.drop_last() =~= register.drop_last().update(at, Some(block)));
        lemma_count_taken(register.drop_last(), at, block);
    }
}

/// A register without an entry has every offset free.
proof fn lemma_count_all_free(register: Seq<Option<usize>>)
    requires
        forall|i: int| 0 <= i < register.len() ==> (#[trigger] register[i]).is_none(),
    ensures
        count_free(register) == register.len(),
    decreases register.len(),
{
    if register.len() > 0 {
        lemma_count_all_free(register.drop_last());
    }
}

/// What the builder knows, as a value.
struct BuilderView {
    graph: GraphView,
    /// For each block, whether it has been scanned to its end.
    closed: Seq<bool>,
    /// For each offset, the block that starts there.
    block_at: Seq<Option<usize>>,
    /// For each offset, the block that holds the instruction there.
    owner: Seq<Option<usize>>,
}

impl BuilderView {
    /// Block `i` is the one being scanned: it holds the instruction at `current`.
    spec fn is_current(self, current: int, i: int) -> bool {
        0 <= current < self.owner.len() && self.owner[current] == Some(i as usize)
    }

    /// `block_at` names exactly the starts of the blocks.
    spec fn starts_registered(self, size: int) -> bool {
        &&& self.block_at.len() == size
        &&& forall|t: int|
            0 <= t < size ==> match #[trigger] self.block_at[t] {
                Some(i) => i < self.graph.blocks.len() && self.graph.blocks[i as int].start_offset
                    == t,
                None => true,
            }
        &&& forall|i: int|
            0 <= i < self.graph.blocks.len() ==> 0 <= (#[trigger] self.graph.blocks[i]).start_offset
                < size && self.block_at[self.graph.blocks[i].start_offset] == Some(i as usize)
    }

    /// `owner` names for exactly the offsets of the instructions in the
    /// blocks the block that holds each.
    spec fn owners_registered(self, size: int) -> bool {
        &&& self.owner.len() == size
        &&& forall|o: int|
            0 <= o < size ==> match #[trigger] self.owner[o] {
                Some(i) => i < self.graph.blocks.len() && exists|k: int| #[trigger]
                    self.graph.position(i as int, o, k),
                None => true,
            }
        &&& forall|i: int, k: int|
            0 <= i < self.graph.blocks.len() && 0 <= k < self.graph.blocks[i].instructions.len()
                ==> 0 <= (#[trigger] self.graph.blocks[i].instructions[k])@.offset < size
                && self.owner[self.graph.blocks[i].instructions[k]@.offset] == Some(i as usize)
    }

    /// The blocks are runs of scanned instructions that start where a block must.
    spec fn blocks_sound(self, words: Seq<u16>, ranges: Seq<(usize, usize)>) -> bool {
        let graph = self.graph;
        &&& forall|i: int| 0 <= i < graph.blocks.len() ==> #[trigger] graph.is_run(words, i)
        &&& forall|i: int|
            0 <= i < graph.blocks.len() ==> is_leader(words, (#[trigger] graph.blocks[i]).start_offset)
        &&& forall|i: int, k: int|
            0 <= i < graph.blocks.len() && 0 <= k < graph.blocks[i].instructions.len() ==> scanned(
                words,
                (#[trigger] graph.blocks[i].instructions[k])@.offset,
            )
        &&& forall|i: int|
            0 <= i < graph.blocks.len() ==> (#[trigger] graph.blocks[i]).is_exception_entry
                == starts_range(ranges, graph.blocks[i].start_offset)
    }

    /// A block that has been scanned to its end has its edges; one that has
    /// not has none, and holds one instruction, unless it is being scanned.
    spec fn progress_sound(self, words: Seq<u16>, current: int) -> bool {
        let graph = self.graph;
        &&& self.closed.len() == graph.blocks.len()
        &&& forall|i: int|
            0 <= i < graph.blocks.len() && #[trigger] self.closed[i] ==> graph.is_sealed(words, i)
        &&& forall|i: int|
            0 <= i < graph.blocks.len() && !#[trigger] self.closed[i] ==> {
                &&& graph.blocks[i].successors.len() == 0
                &&& self.is_current(current, i) || graph.blocks[i].instructions.len() == 1
            }
        &&& current >= 0 ==> {
            &&& current < self.owner.len()
            &&& self.owner[current] matches Some(c) && !self.closed[c as int]
                && graph.blocks[c as int].instructions.last()@.offset == current
        }
    }

    /// What holds of the builder between any two of its steps.
    spec fn inv(self, words: Seq<u16>, ranges: Seq<(usize, usize)>, current: int) -> bool {
        &&& self.graph.wf()
        &&& self.graph.entry == 0
        &&& self.graph.blocks[0].start_offset == 0
        &&& self.graph.blocks[0].predecessors.len() == 0
        &&& self.starts_registered(words.len() as int)
        &&& self.owners_registered(words.len() as int)
        &&& self.blocks_sound(words, ranges)
        &&& self.progress_sound(words, current)
        &&& self.graph.blocks.len() + count_free(self.block_at) == words.len()
    }
}

/// A block that has its edges keeps them while it keeps its last instruction
/// and its successors, and the blocks keep their starts.
proof fn lemma_sealed_kept(before: GraphView, after: GraphView, words: Seq<u16>, i: int)
    requires
        before.wf(),
        0 <= i < before.blocks.len() <= after.blocks.len(),
        before.is_sealed(words, i),
        after.blocks[i].instructions.last() == before.blocks[i].instructions.last(),
        after.blocks[i].successors == before.blocks[i].successors,
        forall|s: int|
            0 <= s < before.blocks.len() ==> (#[trigger] after.blocks[s]).start_offset
                == before.blocks[s].start_offset,
    ensures
        after.is_sealed(words, i),
{
    let last = before.blocks[i].instructions.last()@;
    assert forall|s: usize| #[trigger] after.blocks[i].successors.contains(s) implies follows(
        words,
        last,
        after.blocks[s as int].start_offset,
    ) by {
        assert(before.blocks[i].successors.contains(s));
        assert(before.has_back_edge(i, s as int));
    }
    assert forall|to: int| #[trigger] follows(words, last, to) implies after.edge_to_start(
        i,
        to,
    ) by {
        assert(before.edge_to_start(i, to));
        let s = choose|s: int| #[trigger] before.has_edge(i, s) && before.blocks[s].start_offset == to;
        assert(after.has_edge(i, s));
    }
    if before.starts_at(last.end()) {
        let s = choose|s: int|
            0 <= s < before.blocks.len() && (#[trigger] before.blocks[s]).start_offset == last.end();
        assert(after.blocks[s].start_offset == last.end());
        assert(after.starts_at(last.end()));
    }
}

/// The instruction at `offset` is among those of `run`.
spec fn lies_in(run: Seq<Instruction>, offset: int) -> bool {
    exists|j: int| 0 <= j < run.len() && (#[trigger] run[j])@.offset == offset
}

/// How the builder `after` comes from the builder `before` when the block
/// `head` is split before its instruction `at`, which lies at `offset`, and
/// the new block gets the index `tail`.
spec fn is_split(
    before: BuilderView,
    after: BuilderView,
    ranges: Seq<(usize, usize)>,
    head: int,
    tail: int,
    offset: int,
    at: int,
) -> bool {
    let whole = before.graph.blocks[head];
    &&& 0 <= head < tail
    &&& tail == before.graph.blocks.len()
    &&& 0 <= offset < before.block_at.len()
    &&& before.block_at[offset].is_none()
    &&& before.owner[offset] == Some(head as usize)
    &&& split_point(whole.instructions, offset, at)
    &&& after.graph.wf()
    &&& after.graph.entry == before.graph.entry
    &&& after.graph.blocks.len() == tail + 1
    &&& after.graph.blocks[head].instructions == whole.instructions.subrange(0, at)
    &&& after.graph.blocks[tail].instructions == whole.instructions.subrange(
        at,
        whole.instructions.len() as int,
    )
    &&& after.graph.blocks[head].successors == seq![tail as usize]
    &&& after.graph.blocks[tail].successors == whole.successors
    &&& after.graph.blocks[tail].start_offset == offset
    &&& after.graph.blocks[tail].is_exception_entry == starts_range(ranges, offset)
    &&& forall|i: int|
        0 <= i < tail ==> {
            &&& (#[trigger] after.graph.blocks[i]).start_offset
                == before.graph.blocks[i].start_offset
            &&& after.graph.blocks[i].is_exception_entry
                == before.graph.blocks[i].is_exception_entry
            &&& !whole.successors.contains(i as usize) ==> after.graph.blocks[i].predecessors
                == before.graph.blocks[i].predecessors
            &&& i != head ==> after.graph.blocks[i].successors
                == before.graph.blocks[i].successors && after.graph.blocks[i].instructions
                == before.graph.blocks[i].instructions
        }
    &&& after.closed == before.closed.push(before.closed[head]).update(head, true)
    &&& after.block_at == before.block_at.update(offset, Some(tail as usize))
    &&& after.owner.len() == before.owner.len()
    &&& forall|o: int|
        0 <= o < before.owner.len() ==> #[trigger] after.owner[o] == if lies_in(
            after.graph.blocks[tail].instructions,
            o,
        ) {
            Some(tail as usize)
        } else {
            before.owner[o]
        }
}

/// After a split the registers still name the starts and the instructions.
proof fn lemma_split_registers(
    before: BuilderView,
    after: BuilderView,
    words: Seq<u16>,
    ranges: Seq<(usize, usize)>,
    current: int,
    head: int,
    tail: int,
    offset: int,
    at: int,
)
    requires
        before.inv(words, ranges, current),
        is_split(before, after, ranges, head, tail, offset, at),
    ensures
        after.starts_registered(words.len() as int),
        after.owners_registered(words.len() as int),
        after.graph.blocks[0].start_offset == 0,
        after.graph.blocks[0].predecessors.len() == 0,
        after.graph.blocks.len() + count_free(after.block_at) == words.len(),
{
    let size = words.len() as int;
    let whole = before.graph.blocks[head];
    let rest = after.graph.blocks[tail].instructions;
    let kept = after.graph.blocks[head].instructions;
    lemma_count_taken(before.block_at, offset, tail as usize);
    assert(before.graph.is_run(words, head));
    if whole.successors.contains(0usize) {
        assert(before.graph.has_back_edge(head, 0));
    }
    assert forall|t: int| 0 <= t < size implies match #[trigger] after.block_at[t] {
        Some(i) => i < after.graph.blocks.len() && after.graph.blocks[i as int].start_offset == t,
        None => true,
    } by {
        if t != offset {
            assert(after.block_at[t] == before.block_at[t]);
        }
    }
    assert forall|i: int| 0 <= i < after.graph.blocks.len() implies 0 <= (
    #[trigger] after.graph.blocks[i]).start_offset < size
        && after.block_at[after.graph.blocks[i].start_offset] == Some(i as usize) by {
        if i < tail {
            assert(before.graph.blocks[i].start_offset != offset);
        }
    }
    assert forall|o: int| 0 <= o < size implies match #[trigger] after.owner[o] {
        Some(i) => i < after.graph.blocks.len() && exists|k: int| #[trigger]
            after.graph.position(i as int, o, k),
        None => true,
    } by {
        if lies_in(rest, o) {
            let j = choose|j: int| 0 <= j < rest.len() && (#[trigger] rest[j])@.offset == o;
            assert(after.graph.position(tail, o, j));
        } else if before.owner[o].is_some() {
            let i = before.owner[o].unwrap();
            let k = choose|k: int| #[trigger] before.graph.position(i as int, o, k);
            if i == head {
                if k >= at {
                    assert(rest[k - at] == whole.instructions[k]);
                    assert(lies_in(rest, o));
                }
                assert(kept[k] == whole.instructions[k]);
                assert(after.graph.position(i as int, o, k));
            } else {
                assert(after.graph.position(i as int, o, k));
            }
        }
    }
    assert forall|i: int, k: int|
        0 <= i < after.graph.blocks.len() && 0 <= k < after.graph.blocks[i].instructions.len()
        implies 0 <= (#[trigger] after.graph.blocks[i].instructions[k])@.offset < size
        && after.owner[after.graph.blocks[i].instructions[k]@.offset] == Some(i as usize) by {
        let o = after.graph.blocks[i].instructions[k]@.offset;
        if i == tail {
            assert(rest[k] == whole.instructions[k + at]);
            assert(lies_in(rest, o));
        } else if i == head {
            assert(kept[k] == whole.instructions[k]);
            if lies_in(rest, o) {
                let j = choose|j: int| 0 <= j < rest.len() && (#[trigger] rest[j])@.offset == o;
                assert(rest[j] == whole.instructions[j + at]);
                assert(whole.instructions[k]@.offset < whole.instructions[j + at]@.offset);
            }
        } else {
            assert(after.graph.blocks[i].instructions[k] == before.graph.blocks[i].instructions[k]);
            if lies_in(rest, o) {
                let j = choose|j: int| 0 <= j < rest.len() && (#[trigger] rest[j])@.offset == o;
                assert(rest[j] == whole.instructions[j + at]);
                assert(before.owner[whole.instructions[j + at]@.offset] == Some(head as usize));
            }
        }
    }
}

/// After a split the blocks are still runs of scanned instructions.
proof fn lemma_split_blocks(
    before: BuilderView,
    after: BuilderView,
    words: Seq<u16>,
    ranges: Seq<(usize, usize)>,
    current: int,
    head: int,
    tail: int,
    offset: int,
    at: int,
)
    requires
        before.inv(words, ranges, current),
        is_split(before, after, ranges, head, tail, offset, at),
        is_leader(words, offset),
    ensures
        after.blocks_sound(words, ranges),
{
    let whole = before.graph.blocks[head];
    let run = whole.instructions;
    let rest = after.graph.blocks[tail].instructions;
    let kept = after.graph.blocks[head].instructions;
    assert(before.graph.is_run(words, head));
    assert(after.graph.is_run(words, head)) by {
        assert(kept[0] == run[0]);
        assert forall|k: int| 0 <= k < kept.len() implies instruction_at(
            words,
            (#[trigger] kept[k])@.offset,
        ) == Some(kept[k]@) by {
            assert(kept[k] == run[k]);
        }
        assert forall|k: int| 0 <= k < kept.len() - 1 implies #[trigger] linked(kept, k) by {
            assert(linked(run, k));
            assert(kept[k] == run[k]);
            assert(kept[k + 1] == run[k + 1]);
        }
        assert forall|k: int, l: int| 0 <= k < l < kept.len() implies (#[trigger] kept[k])@.offset < (
        #[trigger] kept[l])@.offset by {
            assert(kept[k] == run[k]);
            assert(kept[l] == run[l]);
        }
    }
    assert(after.graph.is_run(words, tail)) by {
        assert(rest[0] == run[at]);
        assert forall|k: int| 0 <= k < rest.len() implies instruction_at(
            words,
            (#[trigger] rest[k])@.offset,
        ) == Some(rest[k]@) by {
            assert(rest[k] == run[k + at]);
        }
        assert forall|k: int| 0 <= k < rest.len() - 1 implies #[trigger] linked(rest, k) by {
            assert(linked(run, k + at));
            assert(rest[k] == run[k + at]);
            assert(rest[k + 1] == run[k + at + 1]);
        }
        assert forall|k: int, l: int| 0 <= k < l < rest.len() implies (#[trigger] rest[k])@.offset < (
        #[trigger] rest[l])@.offset by {
            assert(rest[k] == run[k + at]);
            assert(rest[l] == run[l + at]);
        }
    }
    assert forall|i: int| 0 <= i < after.graph.blocks.len() implies #[trigger] after.graph.is_run(
        words,
        i,
    ) by {
        if i != head && i != tail {
            assert(before.graph.is_run(words, i));
        }
    }
    assert forall|i: int, k: int|
        0 <= i < after.graph.blocks.len() && 0 <= k < after.graph.blocks[i].instructions.len()
        implies scanned(words, (#[trigger] after.graph.blocks[i].instructions[k])@.offset) by {
        if i == tail {
            assert(rest[k] == run[k + at]);
        } else if i == head {
            assert(kept[k] == run[k]);
        } else {
            assert(after.graph.blocks[i].instructions[k] == before.graph.blocks[i].instructions[k]);
        }
    }
}

/// After a split every block that had its edges has them, and so has the
/// block that was split.
proof fn lemma_split_progress(
    before: BuilderView,
    after: BuilderView,
    words: Seq<u16>,
    ranges: Seq<(usize, usize)>,
    current: int,
    head: int,
    tail: int,
    offset: int,
    at: int,
)
    requires
        before.inv(words, ranges, current),
        is_split(before, after, ranges, head, tail, offset, at),
        after.owners_registered(words.len() as int),
    ensures
        after.progress_sound(words, current),
{
    let whole = before.graph.blocks[head];
    let run = whole.instructions;
    let rest = after.graph.blocks[tail].instructions;
    let kept = after.graph.blocks[head].instructions;
    assert(before.graph.is_run(words, head));
    assert(rest.last() == run.last());
    assert(kept.last() == run[at - 1]);
    assert(rest[0] == run[at]);
    assert(linked(run, at - 1));
    assert(instruction_at(words, run[at]@.offset) == Some(run[at]@));
    assert(lies_in(rest, run.last()@.offset));
    assert(after.graph.is_sealed(words, head)) by {
        let last = kept.last()@;
        assert(after.graph.blocks[head].successors[0] == tail);
        assert(after.graph.has_edge(head, tail));
        assert forall|to: int| #[trigger] follows(words, last, to) implies after.graph.edge_to_start(
            head,
            to,
        ) by {}
    }
    if before.closed[head] {
        assert(before.graph.is_sealed(words, head));
        assert(after.graph.is_sealed(words, tail)) by {
            let last = run.last()@;
            assert forall|s: usize| #[trigger]
                after.graph.blocks[tail].successors.contains(s) implies follows(
                words,
                last,
                after.graph.blocks[s as int].start_offset,
            ) by {
                assert(before.graph.has_back_edge(head, s as int));
            }
            assert forall|to: int| #[trigger] follows(words, last, to) implies after.graph.edge_to_start(
                tail,
                to,
            ) by {
                assert(before.graph.edge_to_start(head, to));
                let s = choose|s: int| #[trigger]
                    before.graph.has_edge(head, s) && before.graph.blocks[s].start_offset == to;
                assert(after.graph.has_edge(tail, s));
            }
            if before.graph.starts_at(last.end()) {
                let s = choose|s: int|
                    0 <= s < before.graph.blocks.len() && (
                    #[trigger] before.graph.blocks[s]).start_offset == last.end();
                assert(after.graph.blocks[s].start_offset == last.end());
            }
        }
    } else {
        assert(before.is_current(current, head));
        assert(after.is_current(current, tail));
    }
    assert forall|i: int|
        0 <= i < after.graph.blocks.len() && #[trigger] after.closed[i] implies after.graph.is_sealed(
        words,
        i,
    ) by {
        if i != head && i != tail {
            assert(before.closed[i]);
            assert(before.graph.is_run(words, i));
            lemma_sealed_kept(before.graph, after.graph, words, i);
        }
    }
    assert forall|i: int| 0 <= i < after.graph.blocks.len() && !#[trigger] after.closed[i] implies {
        &&& after.graph.blocks[i].successors.len() == 0
        &&& after.is_current(current, i) || after.graph.blocks[i].instructions.len() == 1
    } by {
        if i != tail {
            assert(i != head);
            assert(!before.closed[i]);
            if before.is_current(current, i) {
                if lies_in(rest, current) {
                    let j = choose|j: int| 0 <= j < rest.len() && (#[trigger] rest[j])@.offset == current;
                    assert(rest[j] == run[j + at]);
                    assert(before.owner[run[j + at]@.offset] == Some(head as usize));
                }
            }
        }
    }
    if current >= 0 {
        let c = before.owner[current].unwrap() as int;
        if c != head {
            if lies_in(rest, current) {
                let j = choose|j: int| 0 <= j < rest.len() && (#[trigger] rest[j])@.offset == current;
                assert(rest[j] == run[j + at]);
                assert(before.owner[run[j + at]@.offset] == Some(head as usize));
            }
        }
    }
}

/// Every entry of `before` is an entry of `after`.
spec fn grows(before: Seq<Option<usize>>, after: Seq<Option<usize>>) -> bool {
    &&& after.len() == before.len()
    &&& forall|t: int|
        0 <= t < before.len() && (#[trigger] before[t]).is_some() ==> after[t] == before[t]
}

/// A block that was scanned to its end stays so, and an instruction stays in
/// its block unless that block is scanned to its end.
spec fn advances(before: BuilderView, after: BuilderView) -> bool {
    &&& before.closed.len() <= after.closed.len()
    &&& before.owner.len() == after.owner.len()
    &&& forall|i: int| 0 <= i < before.closed.len() && #[trigger] before.closed[i] ==> after.closed[i]
    &&& forall|o: int|
        0 <= o < before.owner.len() ==> match #[trigger] before.owner[o] {
            Some(i) => after.owner[o] == Some(i) || (i < after.closed.len()
                && after.closed[i as int]),
            None => true,
        }
}

/// `targets` are the offsets the blocks start at that a block ending in `last`
/// has an edge to, and `last` ends its block in good order.
spec fn is_plan(words: Seq<u16>, last: InstructionView, targets: Seq<usize>) -> bool {
    &&& forall|j: int|
        0 <= j < targets.len() ==> {
            &&& 0 < (#[trigger] targets[j]) < words.len()
            &&& follows(words, last, targets[j] as int)
            &&& is_leader(words, targets[j] as int)
            &&& scanned(words, targets[j] as int)
        }
    &&& forall|to: int| #[trigger]
        follows(words, last, to) ==> exists|j: int|
            0 <= j < targets.len() && (#[trigger] targets[j]) == to
    &&& last.opcode.spec_terminator() == TerminatorKind::Switch ==> switch_table_ok(words, last)
    &&& last.opcode.spec_terminator() == TerminatorKind::NoTerminator && last.end() < words.len()
        ==> spec_decode(words, last.end()).is_ok()
}

/// How the builder `now` comes from the builder `before` when the block
/// `block` is given edges to the blocks that start at the first `done` of `targets`.
spec fn is_linking(
    before: BuilderView,
    now: BuilderView,
    block: int,
    targets: Seq<usize>,
    done: int,
) -> bool {
    &&& now.closed == before.closed
    &&& now.block_at == before.block_at
    &&& now.owner == before.owner
    &&& now.graph.wf()
    &&& now.graph.entry == before.graph.entry
    &&& now.graph.blocks.len() == before.graph.blocks.len()
    &&& now.graph.blocks[0].predecessors.len() == 0
    &&& forall|i: int|
        0 <= i < before.graph.blocks.len() ==> {
            &&& (#[trigger] now.graph.blocks[i]).start_offset == before.graph.blocks[i].start_offset
            &&& now.graph.blocks[i].instructions == before.graph.blocks[i].instructions
            &&& now.graph.blocks[i].is_exception_entry
                == before.graph.blocks[i].is_exception_entry
            &&& i != block ==> now.graph.blocks[i].successors == before.graph.blocks[i].successors
        }
    &&& forall|s: usize| #[trigger]
        now.graph.blocks[block].successors.contains(s) ==> exists|j: int|
            0 <= j < done && before.block_at[(#[trigger] targets[j]) as int] == Some(s)
    &&& forall|j: int|
        0 <= j < done ==> now.graph.blocks[block].successors.contains(
            before.block_at[(#[trigger] targets[j]) as int].unwrap(),
        )
}

/// A block that has been given the edges its last instruction asks for can be
/// taken as scanned to its end.
proof fn lemma_finish(
    before: BuilderView,
    after: BuilderView,
    words: Seq<u16>,
    ranges: Seq<(usize, usize)>,
    current: int,
    targets: Seq<usize>,
)
    requires
        before.inv(words, ranges, current),
        current >= 0,
        is_plan(words, instruction_at(words, current).unwrap(), targets),
        forall|j: int| 0 <= j < targets.len() ==> before.block_at[(#[trigger] targets[j]) as int].is_some(),
        ({
            let last = instruction_at(words, current).unwrap();
            resumes_at(words, last, last.end()) ==> spec_decode(words, last.end()).is_ok() && (
            instruction_at(words, last.end()).is_some() ==> before.block_at[last.end()].is_some())
        }),
        is_linking(
            before,
            BuilderView { closed: before.closed, ..after },
            before.owner[current].unwrap() as int,
            targets,
            targets.len() as int,
        ),
        after.closed == before.closed.update(before.owner[current].unwrap() as int, true),
    ensures
        after.inv(words, ranges, -1),
{
    let block = before.owner[current].unwrap() as int;
    let size = words.len() as int;
    let last = instruction_at(words, current).unwrap();
    assert(before.graph.is_run(words, block));
    assert(instruction_at(words, before.graph.blocks[block].instructions.last()@.offset) == Some(
        before.graph.blocks[block].instructions.last()@,
    ));
    assert(after.starts_registered(size)) by {
        assert forall|t: int| 0 <= t < size implies match #[trigger] after.block_at[t] {
            Some(i) => i < after.graph.blocks.len() && after.graph.blocks[i as int].start_offset == t,
            None => true,
        } by {}
    }
    assert(after.owners_registered(size)) by {
        assert forall|o: int| 0 <= o < size implies match #[trigger] after.owner[o] {
            Some(i) => i < after.graph.blocks.len() && exists|k: int| #[trigger]
                after.graph.position(i as int, o, k),
            None => true,
        } by {
            if before.owner[o].is_some() {
                let i = before.owner[o].unwrap();
                let k = choose|k: int| #[trigger] before.graph.position(i as int, o, k);
                assert(after.graph.position(i as int, o, k));
            }
        }
    }
    assert(after.blocks_sound(words, ranges)) by {
        assert forall|i: int| 0 <= i < after.graph.blocks.len() implies #[trigger] after.graph.is_run(
            words,
            i,
        ) by {
            assert(before.graph.is_run(words, i));
        }
    }
    assert(after.graph.is_sealed(words, block)) by {
        assert forall|s: usize| #[trigger]
            after.graph.blocks[block].successors.contains(s) implies follows(
            words,
            last,
            after.graph.blocks[s as int].start_offset,
        ) by {
            let j = choose|j: int|
                0 <= j < targets.len() && before.block_at[(#[trigger] targets[j]) as int] == Some(s);
        }
        assert forall|to: int| #[trigger] follows(words, last, to) implies after.graph.edge_to_start(
            block,
            to,
        ) by {
            let j = choose|j: int| 0 <= j < targets.len() && (#[trigger] targets[j]) == to;
            let s = before.block_at[targets[j] as int].unwrap();
            assert(after.graph.has_edge(block, s as int));
        }
        if before.block_at[last.end()].is_some() && last.end() < size {
            let s = before.block_at[last.end()].unwrap();
            assert(after.graph.blocks[s as int].start_offset == last.end());
            assert(after.graph.starts_at(last.end()));
        }
    }
    assert(after.progress_sound(words, -1)) by {
        assert forall|i: int|
            0 <= i < after.graph.blocks.len() && #[trigger] after.closed[i] implies after.graph.is_sealed(
            words,
            i,
        ) by {
            if i != block {
                assert(before.closed[i]);
                assert(before.graph.is_run(words, i));
                lemma_sealed_kept(before.graph, after.graph, words, i);
            }
        }
        assert forall|i: int| 0 <= i < after.graph.blocks.len() && !#[trigger] after.closed[i] implies {
            &&& after.graph.blocks[i].successors.len() == 0
            &&& after.is_current(-1, i) || after.graph.blocks[i].instructions.len() == 1
        } by {
            assert(!before.closed[i]);
            assert(!before.is_current(current, i));
        }
    }
}

/// The scan of the block that holds the instruction at `current` cannot go
/// on: the instruction ends the block, or the buffer or a data table follows
/// it, or an instruction that some block already holds.
spec fn is_stopped(view: BuilderView, words: Seq<u16>, current: int) -> bool {
    let last = instruction_at(words, current).unwrap();
    last.opcode.spec_terminator() == TerminatorKind::NoTerminator ==> {
        ||| last.end() >= words.len()
        ||| view.block_at[last.end()].is_some()
        ||| view.owner[last.end()].is_some()
        ||| spec_decode(words, last.end()) matches Ok(None)
    }
}

/// Where the scan of a block runs on into an instruction that a block
/// already holds, a block must start.
proof fn lemma_run_into(
    view: BuilderView,
    words: Seq<u16>,
    ranges: Seq<(usize, usize)>,
    current: int,
    end: int,
)
    requires
        view.inv(words, ranges, current),
        current >= 0,
        runs_into(words, current, end),
        0 <= end < words.len(),
        view.block_at[end].is_some() || view.owner[end].is_some(),
    ensures
        is_leader(words, end),
        instruction_at(words, end).is_some(),
        scanned(words, end),
{
    assert(scan_step(words, current, end));
    lemma_scanned_step(words, current, end);
    if view.block_at[end].is_some() {
        let i = view.block_at[end].unwrap() as int;
        assert(view.graph.is_run(words, i));
        assert(view.graph.blocks[i].start_offset == end);
        assert(instruction_at(words, view.graph.blocks[i].instructions[0]@.offset) == Some(
            view.graph.blocks[i].instructions[0]@,
        ));
    } else {
        let b = view.owner[end].unwrap() as int;
        let k = choose|k: int| #[trigger] view.graph.position(b, end, k);
        let run = view.graph.blocks[b].instructions;
        assert(view.graph.is_run(words, b));
        assert(instruction_at(words, run[k]@.offset) == Some(run[k]@));
        assert(view.graph.blocks[b].start_offset != end);
        assert(k != 0);
        assert(linked(run, k - 1));
        let other = run[k - 1]@.offset;
        assert(instruction_at(words, run[k - 1]@.offset) == Some(run[k - 1]@));
        assert(runs_into(words, other, end));
        if other == current {
            assert(view.owner[run[k - 1]@.offset] == Some(b as usize));
            assert(run.last()@.offset == current);
            if k - 1 < run.len() - 1 {
                assert(run[k - 1]@.offset < run[run.len() - 1]@.offset);
            }
        }
        assert(current != other && runs_into(words, current, end) && runs_into(words, other, end));
    }
}

/// Where an instruction that ends its block passes control, the scan reads
/// and a block must start.
proof fn lemma_branch_leads(words: Seq<u16>, from: int, to: int)
    requires
        scanned(words, from),
        instruction_at(words, from) matches Some(instruction) && (is_branch_target(
            words,
            instruction,
            to,
        ) || resumes_at(words, instruction, to)),
    ensures
        is_leader(words, to),
        scanned(words, to),
{
    assert(leads(words, from, to));
    assert(scan_step(words, from, to));
    lemma_scanned_step(words, from, to);
}

/// What advances twice advances.
proof fn lemma_advances_twice(first: BuilderView, second: BuilderView, third: BuilderView)
    requires
        advances(first, second),
        advances(second, third),
    ensures
        advances(first, third),
{
    assert forall|o: int| 0 <= o < first.owner.len() implies match #[trigger] first.owner[o] {
        Some(i) => third.owner[o] == Some(i) || (i < third.closed.len() && third.closed[i as int]),
        None => true,
    } by {
        if first.owner[o].is_some() {
            let i = first.owner[o].unwrap();
            if second.owner[o] == Some(i) {
                assert(third.owner[o] == Some(i) || (i < third.closed.len()
                    && third.closed[i as int]));
            } else {
                assert(second.closed[i as int]);
            }
        }
    }
}

/// Whether one of `ranges` starts at `offset`.
pub fn is_range_start(ranges: &[(usize, usize)], offset: usize) -> (found: bool)
    ensures
        found == starts_range(ranges@, offset as int),
{
    let mut r: usize = 0;
    while r < ranges.len()
        invariant
            r <= ranges@.len(),
            forall|j: int| 0 <= j < r ==> (#[trigger] ranges@[j]).0 != offset,
        decreases ranges@.len() - r,
    {
        if ranges[r].0 == offset {
            return true;
        }
        r += 1;
    }
    false
}

fn empty_register(size: usize) -> (register: Vec<Option<usize>>)
    ensures
        register@.len() == size,
        forall|i: int| 0 <= i < size ==> (#[trigger] register@[i]).is_none(),
{
    let mut register: Vec<Option<usize>> = Vec::new();
    while register.len() < size
        invariant
            register@.len() <= size,
            forall|i: int| 0 <= i < register@.len() ==> (#[trigger] register@[i]).is_none(),
        decreases size - register@.len(),
    {
        register.push(None);
    }
    register
}

struct Builder {
    graph: MethodGraph,
    closed: Vec<bool>,
    block_at: Vec<Option<usize>>,
    owner: Vec<Option<usize>>,
}

impl View for Builder {
    type V = BuilderView;

    closed spec fn view(&self) -> BuilderView {
        BuilderView {
            graph: self.graph@,
            closed: self.closed@,
            block_at: self.block_at@,
            owner: self.owner@,
        }
    }
}

impl Builder {
    /// A builder that knows the entry block and its first instruction.
    fn start(words: &[u16], ranges: &[(usize, usize)]) -> (result: Result<Builder, BuildError>)
        ensures
            match result {
                Ok(builder) => builder@.inv(words@, ranges@, -1) && builder@.graph.blocks.len()
                    == 1,
                Err(error) => is_defect(words@, error),
            },
    {
        if words.len() == 0 {
            return Err(BuildError::NoEntry);
        }
        proof {
            lemma_scanned_entry(words@);
        }
        let first = match Instruction::try_from_raw_bytecode(words, 0) {
            Ok(Some((instruction, _))) => instruction,
            Ok(None) => {
                return Err(BuildError::NoEntry);
            },
            Err(failure) => {
                return Err(BuildError::Decode(failure));
            },
        };
        let mut graph = MethodGraph::new(is_range_start(ranges, 0));
        let ghost fresh = graph@;
        graph.push_instruction(0, first);
        let mut closed: Vec<bool> = Vec::new();
        closed.push(false);
        let mut block_at = empty_register(words.len());
        let mut owner = empty_register(words.len());
        proof {
            lemma_count_all_free(block_at@);
            lemma_count_taken(block_at@, 0, 0);
        }
        block_at[0] = Some(0);
        owner[0] = Some(0);
        let builder = Builder { graph, closed, block_at, owner };
        proof {
            let view = builder@;
            let run = view.graph.blocks[0].instructions;
            assert(run =~= seq![first]);
            assert(view.graph.position(0, 0, 0));
            assert(view.graph.is_run(words@, 0));
            assert(view.starts_registered(words@.len() as int));
            assert(view.owners_registered(words@.len() as int));
            assert(view.blocks_sound(words@, ranges@));
            assert(view.progress_sound(words@, -1));
        }
        Ok(builder)
    }

    /// The index of the block that holds the instruction at `offset`.
    fn block_of(&self, offset: usize) -> (block: usize)
        requires
            offset < self@.owner.len(),
            self@.owner[offset as int].is_some(),
        ensures
            self@.owner[offset as int] == Some(block),
    {
        match self.owner[offset] {
            Some(block) => block,
            None => 0,
        }
    }

    /// Appends the instruction that follows the last one of the block that is
    /// being scanned.
    fn append(
        &mut self,
        words: &[u16],
        ranges: &[(usize, usize)],
        current: usize,
        instruction: Instruction,
    )
        requires
            old(self)@.inv(words@, ranges@, current as int),
            runs_into(words@, current as int, instruction@.offset),
            instruction_at(words@, instruction@.offset) == Some(instruction@),
            old(self)@.block_at[instruction@.offset].is_none(),
            old(self)@.owner[instruction@.offset].is_none(),
        ensures
            final(self)@.inv(words@, ranges@, instruction@.offset),
            final(self)@.block_at == old(self)@.block_at,
            final(self)@.closed == old(self)@.closed,
            final(self)@.owner == old(self)@.owner.update(
                instruction@.offset,
                old(self)@.owner[current as int],
            ),
    {
        let block = self.block_of(current);
        let offset = instruction.offset();
        let ghost before = self@;
        let ghost placed = instruction;
        self.graph.push_instruction(block, instruction);
        self.owner[offset] = Some(block);
        proof {
            let after = self@;
            let run = after.graph.blocks[block as int].instructions;
            let old_run = before.graph.blocks[block as int].instructions;
            let size = words@.len() as int;
            assert(before.graph.is_run(words@, block as int));
            assert(run == old_run.push(placed));
            assert(run.last() == placed);
            assert(instruction_at(words@, old_run.last()@.offset) == Some(old_run.last()@));
            assert(scan_step(words@, current as int, offset as int));
            lemma_scanned_step(words@, current as int, offset as int);
            assert forall|i: int| 0 <= i < after.graph.blocks.len() implies (
            #[trigger] after.graph.blocks[i]).start_offset == before.graph.blocks[i].start_offset
                && after.graph.blocks[i].successors == before.graph.blocks[i].successors
                && after.graph.blocks[i].is_exception_entry
                == before.graph.blocks[i].is_exception_entry by {}
            assert(after.starts_registered(size)) by {
                assert forall|t: int| 0 <= t < size implies match #[trigger] after.block_at[t] {
                    Some(i) => i < after.graph.blocks.len() && after.graph.blocks[i as int].start_offset
                        == t,
                    None => true,
                } by {
                    assert(after.block_at[t] == before.block_at[t]);
                }
            }
            assert(after.owners_registered(size)) by {
                assert forall|o: int| 0 <= o < size implies match #[trigger] after.owner[o] {
                    Some(i) => i < after.graph.blocks.len() && exists|k: int| #[trigger]
                        after.graph.position(i as int, o, k),
                    None => true,
                } by {
                    if o == offset {
                        assert(after.graph.position(block as int, o, old_run.len() as int));
                    } else if before.owner[o].is_some() {
                        let i = before.owner[o].unwrap();
                        let k = choose|k: int| #[trigger] before.graph.position(i as int, o, k);
                        assert(after.graph.position(i as int, o, k));
                    }
                }
                assert forall|i: int, k: int|
                    0 <= i < after.graph.blocks.len() && 0 <= k
                        < after.graph.blocks[i].instructions.len() implies 0 <= (
                    #[trigger] after.graph.blocks[i].instructions[k])@.offset < size
                        && after.owner[after.graph.blocks[i].instructions[k]@.offset] == Some(
                        i as usize,
                    ) by {
                    if i == block && k == old_run.len() {
                    } else {
                        assert(after.graph.blocks[i].instructions[k]
                            == before.graph.blocks[i].instructions[k]);
                    }
                }
            }
            assert(after.graph.is_run(words@, block as int)) by {
                assert forall|k: int| 0 <= k < run.len() implies instruction_at(
                    words@,
                    (#[trigger] run[k])@.offset,
                ) == Some(run[k]@) by {
                    if k < old_run.len() {
                        assert(run[k] == old_run[k]);
                    }
                }
                assert forall|k: int| 0 <= k < run.len() - 1 implies #[trigger] linked(run, k) by {
                    if k < old_run.len() - 1 {
                        assert(linked(old_run, k));
                        assert(run[k] == old_run[k]);
                        assert(run[k + 1] == old_run[k + 1]);
                    } else {
                        assert(run[k] == old_run.last());
                    }
                }
                assert forall|k: int, l: int| 0 <= k < l < run.len() implies (#[trigger] run[k])@.offset
                    < (#[trigger] run[l])@.offset by {
                    assert(run[k] == old_run[k]);
                    if l < old_run.len() {
                        assert(run[l] == old_run[l]);
                    } else if k < old_run.len() - 1 {
                        assert(old_run[k]@.offset < old_run[old_run.len() - 1]@.offset);
                    }
                }
            }
            assert(after.blocks_sound(words@, ranges@)) by {
                assert forall|i: int| 0 <= i < after.graph.blocks.len() implies #[trigger]
                    after.graph.is_run(words@, i) by {
                    if i != block {
                        assert(before.graph.is_run(words@, i));
                        assert(after.graph.blocks[i] == before.graph.blocks[i]);
                    }
                }
                assert forall|i: int, k: int|
                    0 <= i < after.graph.blocks.len() && 0 <= k
                        < after.graph.blocks[i].instructions.len() implies scanned(
                    words@,
                    (#[trigger] after.graph.blocks[i].instructions[k])@.offset,
                ) by {
                    if i == block && k == old_run.len() {
                    } else {
                        assert(after.graph.blocks[i].instructions[k]
                            == before.graph.blocks[i].instructions[k]);
                    }
                }
            }
            assert(after.progress_sound(words@, offset as int)) by {
                assert forall|i: int|
                    0 <= i < after.graph.blocks.len() && #[trigger] after.closed[i]
                    implies after.graph.is_sealed(words@, i) by {
                    assert(before.closed[i]);
                    assert(after.graph.blocks[i] == before.graph.blocks[i]);
                    lemma_sealed_kept(before.graph, after.graph, words@, i);
                }
                assert forall|i: int|
                    0 <= i < after.graph.blocks.len() && !#[trigger] after.closed[i] implies {
                    &&& after.graph.blocks[i].successors.len() == 0
                    &&& after.is_current(offset as int, i) || after.graph.blocks[i].instructions.len()
                        == 1
                } by {
                    assert(!before.closed[i]);
                    if i != block {
                        assert(after.graph.blocks[i] == before.graph.blocks[i]);
                        assert(!before.is_current(current as int, i));
                    }
                }
            }
        }
    }

    /// Adds a block that starts with `instruction`, to be scanned later.
    fn open_block(
        &mut self,
        words: &[u16],
        ranges: &[(usize, usize)],
        Ghost(current): Ghost<int>,
        instruction: Instruction,
    ) -> (index: usize)
        requires
            old(self)@.inv(words@, ranges@, current),
            instruction_at(words@, instruction@.offset) == Some(instruction@),
            is_leader(words@, instruction@.offset),
            scanned(words@, instruction@.offset),
            old(self)@.block_at[instruction@.offset].is_none(),
            old(self)@.owner[instruction@.offset].is_none(),
        ensures
            final(self)@.inv(words@, ranges@, current),
            index == old(self)@.graph.blocks.len(),
            final(self)@.block_at == old(self)@.block_at.update(
                instruction@.offset,
                Some(index),
            ),
            advances(old(self)@, final(self)@),
    {
        let offset = instruction.offset();
        let ghost before = self@;
        let ghost placed = instruction;
        let length = words.len();
        proof {
            lemma_count_taken(before.block_at, offset as int, 0);
            assert(before.graph.blocks.len() < length);
        }
        let index = self.graph.add_block(offset, is_range_start(ranges, offset));
        let ghost added = self@;
        self.graph.push_instruction(index, instruction);
        self.closed.push(false);
        self.block_at[offset] = Some(index);
        self.owner[offset] = Some(index);
        proof {
            let after = self@;
            let size = words@.len() as int;
            let run = after.graph.blocks[index as int].instructions;
            assert(run =~= seq![placed]);
            lemma_count_taken(before.block_at, offset as int, index);
            assert forall|i: int| 0 <= i < index implies #[trigger] after.graph.blocks[i]
                == before.graph.blocks[i] by {
                assert(added.graph.blocks[i] == before.graph.blocks[i]);
            }
            assert(after.starts_registered(size)) by {
                assert forall|t: int| 0 <= t < size implies match #[trigger] after.block_at[t] {
                    Some(i) => i < after.graph.blocks.len() && after.graph.blocks[i as int].start_offset
                        == t,
                    None => true,
                } by {
                    if t != offset {
                        assert(after.block_at[t] == before.block_at[t]);
                    }
                }
                assert forall|i: int| 0 <= i < after.graph.blocks.len() implies 0 <= (
                #[trigger] after.graph.blocks[i]).start_offset < size
                    && after.block_at[after.graph.blocks[i].start_offset] == Some(i as usize) by {
                    if i < index {
                        assert(before.graph.blocks[i].start_offset != offset);
                    }
                }
            }
            assert(after.owners_registered(size)) by {
                assert forall|o: int| 0 <= o < size implies match #[trigger] after.owner[o] {
                    Some(i) => i < after.graph.blocks.len() && exists|k: int| #[trigger]
                        after.graph.position(i as int, o, k),
                    None => true,
                } by {
                    if o == offset {
                        assert(after.graph.position(index as int, o, 0));
                    } else if before.owner[o].is_some() {
                        let i = before.owner[o].unwrap();
                        let k = choose|k: int| #[trigger] before.graph.position(i as int, o, k);
                        assert(after.graph.position(i as int, o, k));
                    }
                }
                assert forall|i: int, k: int|
                    0 <= i < after.graph.blocks.len() && 0 <= k
                        < after.graph.blocks[i].instructions.len() implies 0 <= (
                    #[trigger] after.graph.blocks[i].instructions[k])@.offset < size
                        && after.owner[after.graph.blocks[i].instructions[k]@.offset] == Some(
                        i as usize,
                    ) by {
                    if i < index {
                        assert(after.graph.blocks[i].instructions[k]
                            == before.graph.blocks[i].instructions[k]);
                        assert(before.graph.blocks[i].instructions[k]@.offset != offset);
                    }
                }
            }
            assert(after.graph.is_run(words@, index as int));
            assert(after.blocks_sound(words@, ranges@)) by {
                assert forall|i: int| 0 <= i < after.graph.blocks.len() implies #[trigger]
                    after.graph.is_run(words@, i) by {
                    if i < index {
                        assert(before.graph.is_run(words@, i));
                    }
                }
                assert forall|i: int, k: int|
                    0 <= i < after.graph.blocks.len() && 0 <= k
                        < after.graph.blocks[i].instructions.len() implies scanned(
                    words@,
                    (#[trigger] after.graph.blocks[i].instructions[k])@.offset,
                ) by {
                    if i < index {
                        assert(after.graph.blocks[i].instructions[k]
                            == before.graph.blocks[i].instructions[k]);
                    }
                }
            }
            assert(after.progress_sound(words@, current)) by {
                assert forall|i: int|
                    0 <= i < after.graph.blocks.len() && #[trigger] after.closed[i]
                    implies after.graph.is_sealed(words@, i) by {
                    assert(i < index);
                    assert(before.closed[i]);
                    assert(after.graph.blocks[i] == before.graph.blocks[i]);
                    lemma_sealed_kept(before.graph, after.graph, words@, i);
                }
                assert forall|i: int|
                    0 <= i < after.graph.blocks.len() && !#[trigger] after.closed[i] implies {
                    &&& after.graph.blocks[i].successors.len() == 0
                    &&& after.is_current(current, i) || after.graph.blocks[i].instructions.len()
                        == 1
                } by {
                    if i < index {
                        assert(!before.closed[i]);
                        assert(after.graph.blocks[i] == before.graph.blocks[i]);
                        if before.is_current(current, i) {
                            assert(current != offset);
                        }
                    }
                }
                if current >= 0 {
                    assert(current != offset);
                    let c = before.owner[current].unwrap();
                    assert(after.graph.blocks[c as int] == before.graph.blocks[c as int]);
                }
            }
            assert(after.graph.blocks[0] == before.graph.blocks[0]);
        }
        index
    }

    /// Splits the block that holds the instruction at `offset` before that
    /// instruction, so that a block starts there.
    fn split_block(
        &mut self,
        words: &[u16],
        ranges: &[(usize, usize)],
        Ghost(current): Ghost<int>,
        offset: usize,
    ) -> (tail: usize)
        requires
            old(self)@.inv(words@, ranges@, current),
            offset < words@.len(),
            old(self)@.block_at[offset as int].is_none(),
            old(self)@.owner[offset as int].is_some(),
            is_leader(words@, offset as int),
        ensures
            final(self)@.inv(words@, ranges@, current),
            tail == old(self)@.graph.blocks.len(),
            final(self)@.block_at == old(self)@.block_at.update(offset as int, Some(tail)),
            advances(old(self)@, final(self)@),
    {
        let head = self.block_of(offset);
        let ghost before = self@;
        let ghost whole = before.graph.blocks[head as int];
        let length = words.len();
        let ghost at = choose|k: int| #[trigger] before.graph.position(head as int, offset as int, k);
        proof {
            lemma_count_taken(before.block_at, offset as int, 0);
            assert(before.graph.is_run(words@, head as int));
            assert(before.graph.position(head as int, offset as int, at));
            assert(before.graph.blocks[head as int].start_offset != offset);
            assert(at != 0);
            assert forall|j: int| 0 < j < at implies (#[trigger] whole.instructions[j])@.offset
                != offset by {
                assert(whole.instructions[j]@.offset < whole.instructions[at]@.offset);
            }
            assert(split_point(whole.instructions, offset as int, at));
        }
        let was_closed = self.closed[head];
        let tail = self.graph.split(head, offset, is_range_start(ranges, offset));
        self.closed.push(was_closed);
        self.closed[head] = true;
        self.block_at[offset] = Some(tail);
        let count = self.graph.block(tail).instructions().len();
        let ghost rest = self@.graph.blocks[tail as int].instructions;
        proof {
            assert(rest == whole.instructions.subrange(at, whole.instructions.len() as int));
            assert forall|j: int| 0 <= j < rest.len() implies 0 <= (#[trigger] rest[j])@.offset
                < length by {
                assert(rest[j] == whole.instructions[j + at]);
            }
        }
        let ghost cut = self@.graph;
        let mut j: usize = 0;
        while j < count
            invariant
                j <= count,
                count == rest.len(),
                self@.graph == cut,
                head < before.closed.len(),
                cut.blocks[tail as int].instructions == rest,
                cut.blocks.len() == tail + 1,
                self.owner@.len() == length,
                self@.closed == before.closed.push(before.closed[head as int]).update(
                    head as int,
                    true,
                ),
                self@.block_at == before.block_at.update(offset as int, Some(tail)),
                forall|i: int| 0 <= i < rest.len() ==> 0 <= (#[trigger] rest[i])@.offset < length,
                forall|o: int|
                    0 <= o < length ==> #[trigger] self.owner@[o] == if lies_in(
                        rest.subrange(0, j as int),
                        o,
                    ) {
                        Some(tail)
                    } else {
                        before.owner[o]
                    },
            decreases count - j,
        {
            let place = self.graph.block(tail).instructions()[j].offset();
            let ghost previous = self.owner@;
            self.owner[place] = Some(tail);
            j += 1;
            proof {
                let shorter = rest.subrange(0, j - 1);
                let longer = rest.subrange(0, j as int);
                assert forall|o: int| 0 <= o < length implies #[trigger] self.owner@[o] == if lies_in(
                    longer,
                    o,
                ) {
                    Some(tail)
                } else {
                    before.owner[o]
                } by {
                    if lies_in(shorter, o) {
                        let i = choose|i: int| 0 <= i < shorter.len() && (#[trigger] shorter[i])@.offset == o;
                        assert(longer[i] == shorter[i]);
                    }
                    if o == place {
                        assert(longer[j - 1] == rest[j - 1]);
                    }
                    if lies_in(longer, o) && o != place {
                        let i = choose|i: int| 0 <= i < longer.len() && (#[trigger] longer[i])@.offset == o;
                        assert(shorter[i] == longer[i]);
                        assert(previous[o] == Some(tail));
                    }
                    if !lies_in(longer, o) {
                        assert(previous[o] == before.owner[o]);
                    }
                }
            }
        }
        proof {
            let after = self@;
            assert(rest.subrange(0, count as int) =~= rest);
            assert(is_split(before, after, ranges@, head as int, tail as int, offset as int, at));
            lemma_split_registers(
                before,
                after,
                words@,
                ranges@,
                current,
                head as int,
                tail as int,
                offset as int,
                at,
            );
            lemma_split_blocks(
                before,
                after,
                words@,
                ranges@,
                current,
                head as int,
                tail as int,
                offset as int,
                at,
            );
            lemma_split_progress(
                before,
                after,
                words@,
                ranges@,
                current,
                head as int,
                tail as int,
                offset as int,
                at,
            );
        }
        tail
    }

    /// Sees to it that a block starts at `offset`: one that is there already,
    /// the lower part of a block that is split there, or a new one. Answers
    /// `false`, and changes nothing, where a data table starts at `offset`.
    fn ensure_block(
        &mut self,
        words: &[u16],
        ranges: &[(usize, usize)],
        Ghost(current): Ghost<int>,
        offset: usize,
    ) -> (result: Result<bool, BuildError>)
        requires
            old(self)@.inv(words@, ranges@, current),
            offset < words@.len(),
            is_leader(words@, offset as int),
            scanned(words@, offset as int),
        ensures
            match result {
                Ok(found) => {
                    &&& final(self)@.inv(words@, ranges@, current)
                    &&& grows(old(self)@.block_at, final(self)@.block_at)
                    &&& advances(old(self)@, final(self)@)
                    &&& found ==> final(self)@.block_at[offset as int].is_some()
                    &&& !found ==> spec_decode(words@, offset as int) matches Ok(None)
                },
                Err(error) => is_defect(words@, error),
            },
    {
        if self.block_at[offset].is_some() {
            return Ok(true);
        }
        if self.owner[offset].is_some() {
            self.split_block(words, ranges, Ghost(current), offset);
            return Ok(true);
        }
        match Instruction::try_from_raw_bytecode(words, offset) {
            Ok(Some((instruction, _))) => {
                proof {
                    assert(instruction_at(words@, offset as int) == Some(instruction@));
                }
                self.open_block(words, ranges, Ghost(current), instruction);
                Ok(true)
            },
            Ok(None) => Ok(false),
            Err(failure) => Err(BuildError::Decode(failure)),
        }
    }

    /// The index of the block that starts at `offset`.
    fn block_starting_at(&self, offset: usize) -> (block: usize)
        requires
            offset < self@.block_at.len(),
            self@.block_at[offset as int].is_some(),
        ensures
            self@.block_at[offset as int] == Some(block),
    {
        match self.block_at[offset] {
            Some(block) => block,
            None => 0,
        }
    }

    /// Gives the block that is being scanned its edges, one to the block at
    /// each of `targets`, and takes it as scanned to its end.
    fn finish(
        &mut self,
        words: &[u16],
        ranges: &[(usize, usize)],
        current: usize,
        targets: &Vec<usize>,
    )
        requires
            old(self)@.inv(words@, ranges@, current as int),
            is_plan(words@, instruction_at(words@, current as int).unwrap(), targets@),
            forall|j: int|
                0 <= j < targets@.len() ==> old(self)@.block_at[(#[trigger] targets@[j]) as int].is_some(),
            ({
                let last = instruction_at(words@, current as int).unwrap();
                resumes_at(words@, last, last.end()) ==> spec_decode(words@, last.end()).is_ok() && (
                instruction_at(words@, last.end()).is_some()
                    ==> old(self)@.block_at[last.end()].is_some())
            }),
        ensures
            final(self)@.inv(words@, ranges@, -1),
            advances(old(self)@, final(self)@),
            final(self)@.closed[old(self)@.owner[current as int].unwrap() as int],
            final(self)@.graph.blocks.len() == old(self)@.graph.blocks.len(),
    {
        let block = self.block_of(current);
        let ghost before = self@;
        let length = words.len();
        let mut j: usize = 0;
        proof {
            assert(before.graph.blocks[block as int].successors.len() == 0);
            assert forall|s: usize| #[trigger]
                before.graph.blocks[block as int].successors.contains(s) implies false by {}
        }
        while j < targets.len()
            invariant
                j <= targets@.len(),
                block < before.graph.blocks.len(),
                before.inv(words@, ranges@, current as int),
                before.owner[current as int] == Some(block),
                length == words@.len(),
                forall|i: int|
                    0 <= i < targets@.len() ==> 0 < (#[trigger] targets@[i]) < length
                        && before.block_at[targets@[i] as int].is_some(),
                is_linking(before, self@, block as int, targets@, j as int),
            decreases targets@.len() - j,
        {
            let to = self.block_starting_at(targets[j]);
            let ghost step = self@;
            self.graph.add_edge(block, to);
            proof {
                let now = self@;
                assert(to != 0);
                assert(now.graph.blocks[0].predecessors == step.graph.blocks[0].predecessors);
                assert forall|s: usize| #[trigger]
                    now.graph.blocks[block as int].successors.contains(s) implies exists|i: int|
                    0 <= i < j + 1 && before.block_at[(#[trigger] targets@[i]) as int] == Some(s) by {
                    if s == to {
                        assert(before.block_at[targets@[j as int] as int] == Some(s));
                    } else {
                        assert(step.graph.has_edge(block as int, s as int) || (s == to));
                        assert(now.graph.has_edge(block as int, s as int));
                        assert(step.graph.blocks[block as int].successors.contains(s));
                        let i = choose|i: int|
                            0 <= i < j && before.block_at[(#[trigger] targets@[i]) as int] == Some(s);
                        assert(before.block_at[targets@[i] as int] == Some(s));
                    }
                }
                assert forall|i: int|
                    0 <= i < j + 1 implies now.graph.blocks[block as int].successors.contains(
                    before.block_at[(#[trigger] targets@[i]) as int].unwrap(),
                ) by {
                    let s = before.block_at[targets@[i] as int].unwrap();
                    if i < j {
                        assert(step.graph.blocks[block as int].successors.contains(s));
                        assert(step.graph.has_edge(block as int, s as int));
                    }
                    assert(now.graph.has_edge(block as int, s as int));
                }
            }
            j += 1;
        }
        let ghost linked_up = self@;
        self.closed[block] = true;
        proof {
            let after = self@;
            assert(BuilderView { closed: before.closed, ..after } == linked_up);
            lemma_finish(before, after, words@, ranges@, current as int, targets@);
        }
    }

    /// Goes on reading instructions into the block `block`, whose last
    /// instruction lies at `current`, until the scan of the block cannot go
    /// on. Answers the offset of the instruction that is then the last.
    fn extend(
        &mut self,
        words: &[u16],
        ranges: &[(usize, usize)],
        block: usize,
        current: usize,
    ) -> (result: Result<usize, BuildError>)
        requires
            old(self)@.inv(words@, ranges@, current as int),
            old(self)@.owner[current as int] == Some(block),
        ensures
            match result {
                Ok(now) => {
                    &&& final(self)@.inv(words@, ranges@, now as int)
                    &&& final(self)@.owner[now as int] == Some(block)
                    &&& is_stopped(final(self)@, words@, now as int)
                    &&& advances(old(self)@, final(self)@)
                },
                Err(error) => is_defect(words@, error),
            },
    {
        let length = words.len();
        let mut now = current;
        let mut going = true;
        while going
            invariant
                self@.inv(words@, ranges@, now as int),
                self@.owner[now as int] == Some(block),
                advances(old(self)@, self@),
                length == words@.len(),
                now < length,
                !going ==> is_stopped(self@, words@, now as int),
            decreases (length - now) + if going { 1int } else { 0int },
        {
            let ghost view = self@;
            proof {
                assert(view.graph.is_run(words@, block as int));
                let run = view.graph.blocks[block as int].instructions;
                assert(instruction_at(words@, run.last()@.offset) == Some(run.last()@));
                lemma_decoded_length(words@, now as int);
            }
            let run = self.graph.block(block).instructions();
            let last = &run[run.len() - 1];
            let end = last.end();
            let kind = last.opcode().terminator();
            if kind != TerminatorKind::NoTerminator || end >= length || self.block_at[end].is_some()
                || self.owner[end].is_some() {
                going = false;
            } else {
                proof {
                    assert(runs_into(words@, now as int, end as int));
                    assert(scan_step(words@, now as int, end as int));
                    lemma_scanned_step(words@, now as int, end as int);
                }
                match Instruction::try_from_raw_bytecode(words, end) {
                    Ok(Some((instruction, _))) => {
                        proof {
                            assert(instruction_at(words@, end as int) == Some(instruction@));
                        }
                        self.append(words, ranges, now, instruction);
                        now = end;
                    },
                    Ok(None) => {
                        going = false;
                    },
                    Err(failure) => {
                        return Err(BuildError::Decode(failure));
                    },
                }
            }
        }
        Ok(now)
    }

    /// Says where the block whose last instruction lies at `current` has
    /// edges to, and where a block may start behind it without an edge.
    fn plan(&self, words: &[u16], ranges: &[(usize, usize)], block: usize, current: usize) -> (result:
        Result<(Vec<usize>, Option<usize>), BuildError>)
        requires
            self@.inv(words@, ranges@, current as int),
            self@.owner[current as int] == Some(block),
            is_stopped(self@, words@, current as int),
        ensures
            match result {
                Ok((targets, resume)) => {
                    let last = instruction_at(words@, current as int).unwrap();
                    &&& is_plan(words@, last, targets@)
                    &&& resumes_at(words@, last, last.end()) ==> resume == Some(last.end() as usize)
                    &&& resume matches Some(offset) ==> offset == last.end() && resumes_at(
                        words@,
                        last,
                        last.end(),
                    )
                },
                Err(error) => is_defect(words@, error),
            },
    {
        let length = words.len();
        let ghost view = self@;
        let ghost last = instruction_at(words@, current as int).unwrap();
        proof {
            assert(view.graph.is_run(words@, block as int));
            let run = view.graph.blocks[block as int].instructions;
            assert(instruction_at(words@, run.last()@.offset) == Some(run.last()@));
            lemma_decoded_length(words@, current as int);
        }
        let run = self.graph.block(block).instructions();
        let instruction = &run[run.len() - 1];
        let end = instruction.end();
        let mut targets: Vec<usize> = Vec::new();
        let mut resume: Option<usize> = None;
        match instruction.opcode().terminator() {
            TerminatorKind::NoTerminator => {
                if end < length && (self.block_at[end].is_some() || self.owner[end].is_some()) {
                    proof {
                        lemma_run_into(view, words@, ranges@, current as int, end as int);
                    }
                    targets.push(end);
                }
            },
            TerminatorKind::Return | TerminatorKind::Throw => {
                if end < length && words[end] != 0 {
                    resume = Some(end);
                }
            },
            TerminatorKind::Goto => {
                let target = instruction.target();
                if target <= 0 || target >= length as i128 {
                    proof {
                        assert(is_branch_target(words@, last, target as int));
                        assert(!can_start_block(words@, target as int));
                    }
                    return Err(BuildError::BranchTarget { offset: current });
                }
                proof {
                    lemma_branch_leads(words@, current as int, target as int);
                }
                targets.push(target as usize);
            },
            TerminatorKind::ConditionalBranch => {
                let target = instruction.target();
                if target <= 0 || target >= length as i128 {
                    proof {
                        assert(is_branch_target(words@, last, target as int));
                        assert(!can_start_block(words@, target as int));
                    }
                    return Err(BuildError::BranchTarget { offset: current });
                }
                if end >= length {
                    proof {
                        assert(is_branch_target(words@, last, end as int));
                        assert(!can_start_block(words@, end as int));
                    }
                    return Err(BuildError::BranchTarget { offset: current });
                }
                proof {
                    lemma_branch_leads(words@, current as int, target as int);
                    lemma_branch_leads(words@, current as int, end as int);
                }
                targets.push(target as usize);
                targets.push(end);
            },
            TerminatorKind::Switch => {
                let table = match read_switch_table(words, instruction) {
                    Ok(table) => table,
                    Err(error) => {
                        proof {
                            match error {
                                BuildError::BranchTarget { offset } => {
                                    let i = choose|i: int|
                                        0 <= i < switch_size(words@, last.target()) && !(
                                        0 < #[trigger] switch_target(words@, last, i)
                                            < words@.len());
                                    let to = switch_target(words@, last, i);
                                    assert(is_branch_target(words@, last, to));
                                    assert(!can_start_block(words@, to));
                                },
                                _ => {},
                            }
                        }
                        return Err(error);
                    },
                };
                let mut i: usize = 0;
                while i < table.len()
                    invariant
                        i <= table@.len(),
                        targets@.len() == i,
                        scanned(words@, current as int),
                        instruction_at(words@, current as int) == Some(last),
                        last.opcode.spec_terminator() == TerminatorKind::Switch,
                        switch_table_ok(words@, last),
                        table@.len() == switch_size(words@, last.target()),
                        forall|j: int|
                            0 <= j < table@.len() ==> {
                                &&& (#[trigger] table@[j]).1 == switch_target(
                                    words@,
                                    last,
                                    j,
                                )
                                &&& 0 < table@[j].1 < words@.len()
                            },
                        forall|j: int|
                            0 <= j < i ==> {
                                &&& (#[trigger] targets@[j]) == table@[j].1
                                &&& is_leader(words@, targets@[j] as int)
                                &&& scanned(words@, targets@[j] as int)
                                &&& follows(words@, last, targets@[j] as int)
                            },
                    decreases table@.len() - i,
                {
                    let target = table[i].1;
                    proof {
                        assert(target == switch_target(words@, last, i as int));
                        assert(is_branch_target(words@, last, target as int));
                        lemma_branch_leads(words@, current as int, target as int);
                    }
                    targets.push(target);
                    i += 1;
                }
                proof {
                    assert forall|to: int| #[trigger] follows(words@, last, to) implies exists|j: int|
                        0 <= j < targets@.len() && (#[trigger] targets@[j]) == to by {
                        let index = choose|index: int|
                            0 <= index < switch_size(words@, last.target()) && to
                                == #[trigger] switch_target(words@, last, index);
                        assert(targets@[index] == table@[index].1);
                    }
                }
            },
        }
        proof {
            assert forall|to: int| #[trigger] follows(words@, last, to) implies exists|j: int|
                0 <= j < targets@.len() && (#[trigger] targets@[j]) == to by {
                if last.opcode.spec_terminator() == TerminatorKind::ConditionalBranch {
                    if to == last.target() {
                        assert(targets@[0] == to);
                    } else {
                        assert(targets@[1] == to);
                    }
                } else if last.opcode.spec_terminator() == TerminatorKind::Goto {
                    assert(targets@[0] == to);
                } else if last.opcode.spec_terminator() == TerminatorKind::NoTerminator {
                    assert(targets@[0] == to);
                }
            }
        }
        Ok((targets, resume))
    }

    /// Sees to it that a block starts at each of `targets`, and at `resume`
    /// unless a data table starts there.
    fn prepare(
        &mut self,
        words: &[u16],
        ranges: &[(usize, usize)],
        current: usize,
        targets: &Vec<usize>,
        resume: Option<usize>,
    ) -> (result: Result<(), BuildError>)
        requires
            old(self)@.inv(words@, ranges@, current as int),
            ({
                let last = instruction_at(words@, current as int).unwrap();
                &&& is_plan(words@, last, targets@)
                &&& resumes_at(words@, last, last.end()) ==> resume == Some(last.end() as usize)
                &&& resume matches Some(offset) ==> offset == last.end() && resumes_at(
                    words@,
                    last,
                    last.end(),
                )
            }),
        ensures
            match result {
                Ok(()) => {
                    let last = instruction_at(words@, current as int).unwrap();
                    &&& final(self)@.inv(words@, ranges@, current as int)
                    &&& advances(old(self)@, final(self)@)
                    &&& forall|j: int|
                        0 <= j < targets@.len() ==> final(self)@.block_at[(
                        #[trigger] targets@[j]) as int].is_some()
                    &&& resumes_at(words@, last, last.end()) ==> spec_decode(
                        words@,
                        last.end(),
                    ).is_ok() && (instruction_at(words@, last.end()).is_some()
                        ==> final(self)@.block_at[last.end()].is_some())
                },
                Err(error) => is_defect(words@, error),
            },
    {
        let ghost last = instruction_at(words@, current as int).unwrap();
        proof {
            let view = self@;
            let block = view.owner[current as int].unwrap() as int;
            assert(view.graph.is_run(words@, block));
            let run = view.graph.blocks[block].instructions;
            assert(instruction_at(words@, run.last()@.offset) == Some(run.last()@));
            assert(scanned(words@, run[run.len() - 1]@.offset));
        }
        let mut j: usize = 0;
        while j < targets.len()
            invariant
                j <= targets@.len(),
                self@.inv(words@, ranges@, current as int),
                advances(old(self)@, self@),
                scanned(words@, current as int),
                instruction_at(words@, current as int) == Some(last),
                is_plan(words@, last, targets@),
                forall|i: int| 0 <= i < j ==> self@.block_at[(#[trigger] targets@[i]) as int].is_some(),
            decreases targets@.len() - j,
        {
            let ghost step = self@;
            match self.ensure_block(words, ranges, Ghost(current as int), targets[j]) {
                Ok(true) => {},
                Ok(false) => {
                    proof {
                        let to = targets@[j as int] as int;
                        assert(follows(words@, last, to));
                        assert(is_branch_target(words@, last, to));
                        assert(!can_start_block(words@, to));
                    }
                    return Err(BuildError::BranchTarget { offset: current });
                },
                Err(error) => {
                    return Err(error);
                },
            }
            proof {
                lemma_advances_twice(old(self)@, step, self@);
                assert forall|i: int| 0 <= i < j + 1 implies self@.block_at[(
                #[trigger] targets@[i]) as int].is_some() by {
                    if i < j {
                        assert(step.block_at[targets@[i] as int].is_some());
                    }
                }
            }
            j += 1;
        }
        match resume {
            Some(offset) => {
                let ghost step = self@;
                proof {
                    lemma_branch_leads(words@, current as int, offset as int);
                }
                match self.ensure_block(words, ranges, Ghost(current as int), offset) {
                    Ok(found) => {
                        proof {
                            lemma_advances_twice(old(self)@, step, self@);
                            assert forall|i: int| 0 <= i < targets@.len() implies self@.block_at[(
                            #[trigger] targets@[i]) as int].is_some() by {
                                assert(step.block_at[targets@[i] as int].is_some());
                            }
                            if found {
                                let view = self@;
                                let i = view.block_at[offset as int].unwrap() as int;
                                assert(view.graph.is_run(words@, i));
                                assert(instruction_at(
                                    words@,
                                    view.graph.blocks[i].instructions[0]@.offset,
                                ) == Some(view.graph.blocks[i].instructions[0]@));
                            }
                        }
                    },
                    Err(error) => {
                        return Err(error);
                    },
                }
            },
            None => {},
        }
        Ok(())
    }

    /// Scans the block `block`, which holds one instruction, to its end.
    fn scan(&mut self, words: &[u16], ranges: &[(usize, usize)], block: usize) -> (result: Result<
        (),
        BuildError,
    >)
        requires
            old(self)@.inv(words@, ranges@, -1),
            block < old(self)@.graph.blocks.len(),
            !old(self)@.closed[block as int],
        ensures
            match result {
                Ok(()) => {
                    &&& final(self)@.inv(words@, ranges@, -1)
                    &&& advances(old(self)@, final(self)@)
                    &&& final(self)@.closed[block as int]
                },
                Err(error) => is_defect(words@, error),
            },
    {
        let ghost before = self@;
        proof {
            assert(before.graph.is_run(words@, block as int));
            assert(before.graph.blocks[block as int].instructions.len() == 1);
        }
        let first = self.graph.block(block).instructions()[0].offset();
        proof {
            assert(before.owner[before.graph.blocks[block as int].instructions[0]@.offset] == Some(
                block,
            ));
            assert(before.progress_sound(words@, first as int));
            assert(before.inv(words@, ranges@, first as int));
        }
        let now = match self.extend(words, ranges, block, first) {
            Ok(now) => now,
            Err(error) => {
                return Err(error);
            },
        };
        let ghost extended = self@;
        let (targets, resume) = match self.plan(words, ranges, block, now) {
            Ok(plan) => plan,
            Err(error) => {
                return Err(error);
            },
        };
        match self.prepare(words, ranges, now, &targets, resume) {
            Ok(()) => {},
            Err(error) => {
                return Err(error);
            },
        }
        let ghost prepared = self@;
        self.finish(words, ranges, now, &targets);
        proof {
            lemma_advances_twice(before, extended, prepared);
            lemma_advances_twice(before, prepared, self@);
        }
        Ok(())
    }
}

/// Builds the graph of the method with the instructions `raw_bytecode`.
///
/// The blocks are found by a scan from offset 0: a block ends with the first
/// `goto`, `if`, switch, `return` or `throw`, or where the next instruction
/// starts another block. An edge leads to the target of a `goto`, to the
/// target of an `if` and to the instruction after it, and to each target of a
/// switch; a block that runs on into another has an edge to it. Behind a
/// `return` or a `throw` a block starts without an edge, if a word other than
/// zero follows that is no first word of a data table. A block whose start is
/// the start of one of `exception_ranges` is marked as an exception entry.
///
/// The blocks of the graph stand in the order of their starts, the entry
/// block first. The answer is an error exactly if the method has a defect,
/// and then the error names one.
pub fn build(raw_bytecode: &[u16], exception_ranges: &[(usize, usize)]) -> (result: Result<
    MethodGraph,
    BuildError,
>)
    ensures
        match result {
            Ok(graph) => {
                &&& graph@.models(raw_bytecode@, exception_ranges@)
                &&& graph@.is_sorted()
                &&& graph@.blocks[graph@.entry].start_offset == 0
                &&& graph@.blocks[graph@.entry].predecessors.len() == 0
                &&& forall|error: BuildError| !is_defect(raw_bytecode@, error)
            },
            Err(error) => is_defect(raw_bytecode@, error),
        },
{
    let mut builder = match Builder::start(raw_bytecode, exception_ranges) {
        Ok(builder) => builder,
        Err(error) => {
            return Err(error);
        },
    };
    let length = raw_bytecode.len();
    let mut cursor: usize = 0;
    while cursor < builder.graph.len()
        invariant
            builder@.inv(raw_bytecode@, exception_ranges@, -1),
            cursor <= builder@.graph.blocks.len(),
            length == raw_bytecode@.len(),
            forall|i: int| 0 <= i < cursor ==> #[trigger] builder@.closed[i],
        decreases length - cursor,
    {
        let ghost before = builder@;
        if !builder.closed[cursor] {
            match builder.scan(raw_bytecode, exception_ranges, cursor) {
                Ok(()) => {},
                Err(error) => {
                    return Err(error);
                },
            }
        }
        proof {
            assert forall|i: int| 0 <= i < cursor + 1 implies #[trigger] builder@.closed[i] by {
                if i < cursor {
                    assert(before.closed[i]);
                }
            }
        }
        cursor += 1;
    }
    proof {
        lemma_built(builder@, raw_bytecode@, exception_ranges@);
        assert forall|error: BuildError| !is_defect(raw_bytecode@, error) by {
            lemma_no_defect(builder@.graph, raw_bytecode@, exception_ranges@, error);
        }
    }
    let ghost found = builder@.graph;
    let (graph, Ghost(rank), Ghost(order)) = builder.graph.sorted();
    let count = graph.len();
    proof {
        lemma_models_ranked(found, graph@, rank, order, raw_bytecode@, exception_ranges@);
    }
    Ok(graph)
}

/// When every block has been scanned to its end, the builder holds the graph
/// of the method.
proof fn lemma_built(view: BuilderView, words: Seq<u16>, ranges: Seq<(usize, usize)>)
    requires
        view.inv(words, ranges, -1),
        forall|i: int| 0 <= i < view.graph.blocks.len() ==> #[trigger] view.closed[i],
    ensures
        view.graph.models(words, ranges),
{
    let graph = view.graph;
    assert forall|i: int, j: int|
        0 <= i < graph.blocks.len() && 0 <= j < graph.blocks.len() && (
        #[trigger] graph.blocks[i]).start_offset == (#[trigger] graph.blocks[j]).start_offset implies i
        == j by {
        assert(view.block_at[graph.blocks[i].start_offset] == Some(i as usize));
        assert(view.block_at[graph.blocks[j].start_offset] == Some(j as usize));
    }
    assert forall|i: int, k: int, j: int, l: int, offset: int| #[trigger]
        graph.position(i, offset, k) && #[trigger] graph.position(j, offset, l) implies i == j && k
        == l by {
        assert(view.owner[graph.blocks[i].instructions[k]@.offset] == Some(i as usize));
        assert(view.owner[graph.blocks[j].instructions[l]@.offset] == Some(j as usize));
        assert(graph.is_run(words, i));
        let run = graph.blocks[i].instructions;
        if k < l {
            assert(run[k]@.offset < run[l]@.offset);
        } else if l < k {
            assert(run[l]@.offset < run[k]@.offset);
        }
    }
    assert forall|i: int| 0 <= i < graph.blocks.len() implies #[trigger] graph.is_sealed(words, i) by {
        assert(view.closed[i]);
    }
}

/// Builds the graph of a method that has no exception ranges.
pub fn get_blocks(raw_bytecode: &[u16]) -> (result: Result<MethodGraph, BuildError>)
    ensures
        match result {
            Ok(graph) => {
                &&& graph@.models(raw_bytecode@, Seq::empty())
                &&& graph@.is_sorted()
                &&& forall|error: BuildError| !is_defect(raw_bytecode@, error)
            },
            Err(error) => is_defect(raw_bytecode@, error),
        },
{
    let ranges: Vec<(usize, usize)> = Vec::new();
    let result = build(raw_bytecode, ranges.as_slice());
    assert(ranges@ =~= Seq::empty());
    result
}

} // verus!
