//! What it means for a graph to be the graph of a method: every block is a run
//! of the method's instructions, every edge is one the last instruction of a
//! block asks for, and the blocks are the ones the scan of the method finds.

use vstd::prelude::*;

use crate::error::BuildError;
use crate::flow::{
    can_start_block, instruction_at, is_branch_target, is_defect, is_leader, is_scan_path, leads,
    path_step, resumes_at, runs_into, scan_step, scanned, switch_table_ok,
};
use crate::block::with_ranks;
use crate::graph::{ranked_block, GraphView};
use crate::instruction::{lemma_goto_target, spec_decode, Instruction, InstructionView};
use crate::opcode::{Opcode, TerminatorKind};
use crate::words::{high_byte, low_byte, sign_extend_8};

verus! {

/// A block that ends in `last` has an edge to the block that starts at `to`:
/// `last` passes control there, or it ends no block by itself and the next
/// instruction starts one.
pub open spec fn follows(words: Seq<u16>, last: InstructionView, to: int) -> bool {
    ||| is_branch_target(words, last, to)
    ||| last.opcode.spec_terminator() == TerminatorKind::NoTerminator && to == last.end()
        && instruction_at(words, to).is_some()
}

/// One of `ranges` starts at `offset`.
pub open spec fn starts_range(ranges: Seq<(usize, usize)>, offset: int) -> bool {
    exists|r: int| 0 <= r < ranges.len() && (#[trigger] ranges[r]).0 == offset
}

/// The instruction of `run` at place `k` ends no block, and the next one
/// follows it directly.
pub open spec fn linked(run: Seq<Instruction>, k: int) -> bool {
    &&& run[k]@.opcode.spec_terminator() == TerminatorKind::NoTerminator
    &&& run[k + 1]@.offset == run[k]@.end()
}

impl GraphView {
    /// A block starts at `offset`.
    pub open spec fn starts_at(self, offset: int) -> bool {
        exists|s: int| 0 <= s < self.blocks.len() && (#[trigger] self.blocks[s]).start_offset == offset
    }

    /// Block `from` has an edge to a block that starts at `offset`.
    pub open spec fn edge_to_start(self, from: int, offset: int) -> bool {
        exists|s: int| #[trigger] self.has_edge(from, s) && self.blocks[s].start_offset == offset
    }

    /// Some block holds the instruction at `offset`.
    pub open spec fn holds(self, offset: int) -> bool {
        exists|i: int, k: int| #[trigger] self.position(i, offset, k)
    }

    /// Block `i` holds a run of instructions of the method: it is not empty,
    /// it starts where its first instruction lies, each instruction is the one
    /// the words hold at its offset, each but the last is followed directly by
    /// the next, and none but the last ends a block.
    pub open spec fn is_run(self, words: Seq<u16>, i: int) -> bool {
        let run = self.blocks[i].instructions;
        &&& run.len() > 0
        &&& run[0]@.offset == self.blocks[i].start_offset
        &&& forall|k: int|
            0 <= k < run.len() ==> instruction_at(words, (#[trigger] run[k])@.offset) == Some(
                run[k]@,
            )
        &&& forall|k: int| 0 <= k < run.len() - 1 ==> #[trigger] linked(run, k)
        &&& forall|k: int, l: int|
            0 <= k < l < run.len() ==> (#[trigger] run[k])@.offset < (#[trigger] run[l])@.offset
    }

    /// Block `i` has the edges its last instruction asks for, and no others;
    /// and where its last instruction lets a block start behind it, one does.
    pub open spec fn is_sealed(self, words: Seq<u16>, i: int) -> bool {
        let last = self.blocks[i].instructions.last()@;
        let kind = last.opcode.spec_terminator();
        &&& forall|s: usize| #[trigger]
            self.blocks[i].successors.contains(s) ==> follows(
                words,
                last,
                self.blocks[s as int].start_offset,
            )
        &&& forall|to: int| #[trigger] follows(words, last, to) ==> self.edge_to_start(i, to)
        &&& kind == TerminatorKind::Switch ==> switch_table_ok(words, last)
        &&& kind == TerminatorKind::NoTerminator && last.end() < words.len() ==> spec_decode(
            words,
            last.end(),
        ).is_ok()
        &&& resumes_at(words, last, last.end()) ==> spec_decode(words, last.end()).is_ok() && (
        instruction_at(words, last.end()).is_some() ==> self.starts_at(last.end()))
    }

    /// The graph is the graph of the method with the words `words` and the
    /// exception ranges `ranges`.
    pub open spec fn models(self, words: Seq<u16>, ranges: Seq<(usize, usize)>) -> bool {
        &&& self.wf()
        &&& self.entry == 0
        &&& self.blocks[0].start_offset == 0
        &&& self.blocks[0].predecessors.len() == 0
        &&& forall|i: int| 0 <= i < self.blocks.len() ==> #[trigger] self.is_run(words, i)
        &&& forall|i: int| 0 <= i < self.blocks.len() ==> #[trigger] self.is_sealed(words, i)
        &&& forall|i: int|
            0 <= i < self.blocks.len() ==> is_leader(
                words,
                (#[trigger] self.blocks[i]).start_offset,
            )
        &&& forall|i: int, k: int|
            0 <= i < self.blocks.len() && 0 <= k < self.blocks[i].instructions.len() ==> scanned(
                words,
                (#[trigger] self.blocks[i].instructions[k])@.offset,
            )
        &&& forall|i: int|
            0 <= i < self.blocks.len() ==> (#[trigger] self.blocks[i]).is_exception_entry
                == starts_range(ranges, self.blocks[i].start_offset)
        &&& self.distinct_starts()
        &&& forall|i: int, k: int, j: int, l: int, offset: int|
            #[trigger] self.position(i, offset, k) && #[trigger] self.position(j, offset, l) ==> i
                == j && k == l
    }
}

/// In the graph of a method, the instruction at a scanned offset is the last
/// of its block if it ends a block.
proof fn lemma_terminator_is_last(graph: GraphView, words: Seq<u16>, i: int, k: int)
    requires
        0 <= i < graph.blocks.len(),
        graph.is_run(words, i),
        0 <= k < graph.blocks[i].instructions.len(),
        graph.blocks[i].instructions[k]@.opcode.spec_terminator() != TerminatorKind::NoTerminator,
    ensures
        k == graph.blocks[i].instructions.len() - 1,
        graph.blocks[i].instructions[k] == graph.blocks[i].instructions.last(),
{
    if k < graph.blocks[i].instructions.len() - 1 {
        assert(linked(graph.blocks[i].instructions, k));
    }
}

/// Whatever a scan path of the method ends at lies inside the buffer and is
/// no undecodable word; and where it is an instruction, the graph holds it.
proof fn lemma_path_covered(
    graph: GraphView,
    words: Seq<u16>,
    ranges: Seq<(usize, usize)>,
    path: Seq<int>,
)
    requires
        graph.models(words, ranges),
        is_scan_path(words, path),
    ensures
        0 <= path.last() < words.len(),
        spec_decode(words, path.last()).is_ok(),
        instruction_at(words, path.last()).is_some() ==> graph.holds(path.last()),
    decreases path.len(),
{
    let to = path.last();
    if path.len() == 1 {
        assert(graph.is_run(words, 0));
        assert(graph.position(0, 0, 0));
    } else {
        let prefix = path.drop_last();
        assert forall|i: int| 0 <= i < prefix.len() - 1 implies #[trigger] path_step(
            words,
            prefix,
            i,
        ) by {
            assert(path_step(words, path, i));
            assert(prefix[i] == path[i]);
            assert(prefix[i + 1] == path[i + 1]);
        }
        assert(is_scan_path(words, prefix));
        lemma_path_covered(graph, words, ranges, prefix);
        let from = prefix.last();
        assert(from == path[path.len() - 2]);
        assert(path_step(words, path, path.len() - 2));
        assert(scan_step(words, from, to));
        let instruction = instruction_at(words, from).unwrap();
        let (i, k) = choose|i: int, k: int| #[trigger] graph.position(i, from, k);
        assert(graph.is_run(words, i));
        assert(graph.is_sealed(words, i));
        let run = graph.blocks[i].instructions;
        assert(run[k]@ == instruction);
        if k < run.len() - 1 {
            assert(linked(run, k));
            assert(graph.position(i, to, k + 1));
            assert(instruction_at(words, run[k + 1]@.offset) == Some(run[k + 1]@));
        } else {
            assert(run[k] == run.last());
            lemma_successor_is_held(graph, words, ranges, i, to);
        }
    }
}

/// Where the last instruction of a block of the graph of a method lets the
/// scan go on, there is no undecodable word; and where an instruction lies
/// there, it is the first of a block.
proof fn lemma_successor_is_held(
    graph: GraphView,
    words: Seq<u16>,
    ranges: Seq<(usize, usize)>,
    i: int,
    to: int,
)
    requires
        graph.models(words, ranges),
        0 <= i < graph.blocks.len(),
        scan_step(words, graph.blocks[i].instructions.last()@.offset, to),
    ensures
        0 <= to < words.len(),
        spec_decode(words, to).is_ok(),
        instruction_at(words, to).is_some() ==> graph.starts_at(to) && graph.holds(to),
        is_branch_target(words, graph.blocks[i].instructions.last()@, to) ==> can_start_block(
            words,
            to,
        ),
{
    assert(graph.is_run(words, i));
    assert(graph.is_sealed(words, i));
    let run = graph.blocks[i].instructions;
    let last = run.last()@;
    assert(instruction_at(words, last.offset) == Some(last));
    if graph.starts_at(to) {
        lemma_start_is_held(graph, words, ranges, to);
    }
    if is_branch_target(words, last, to) {
        assert(follows(words, last, to));
        assert(graph.edge_to_start(i, to));
        let s = choose|s: int| #[trigger] graph.has_edge(i, s) && graph.blocks[s].start_offset == to;
        assert(graph.starts_at(to));
        lemma_start_is_held(graph, words, ranges, to);
        assert(graph.blocks[i].successors.contains(s as usize));
        assert(graph.has_back_edge(i, s));
        assert(graph.blocks[s].predecessors.contains(i as usize));
        assert(s != 0);
        assert(graph.blocks[0].start_offset != graph.blocks[s].start_offset);
    } else if resumes_at(words, last, to) {
    } else {
        if instruction_at(words, to).is_some() {
            assert(follows(words, last, to));
            assert(graph.edge_to_start(i, to));
            let s = choose|s: int| #[trigger]
                graph.has_edge(i, s) && graph.blocks[s].start_offset == to;
                assert(graph.starts_at(to));
            lemma_start_is_held(graph, words, ranges, to);
        }
    }
}

/// The first instruction of a block of the graph of a method lies at the
/// block's start.
proof fn lemma_start_is_held(
    graph: GraphView,
    words: Seq<u16>,
    ranges: Seq<(usize, usize)>,
    to: int,
)
    requires
        graph.models(words, ranges),
        graph.starts_at(to),
    ensures
        graph.holds(to),
        instruction_at(words, to).is_some(),
        0 <= to < words.len(),
{
    let s = choose|s: int| 0 <= s < graph.blocks.len() && (#[trigger] graph.blocks[s]).start_offset == to;
    assert(graph.is_run(words, s));
    assert(graph.position(s, to, 0));
    assert(instruction_at(words, graph.blocks[s].instructions[0]@.offset) == Some(
        graph.blocks[s].instructions[0]@,
    ));
}

/// The graph of a method holds every instruction the scan of the method
/// reads, and the scan reads nothing outside the buffer and no word that
/// cannot be decoded.
pub proof fn lemma_scan_covered(
    graph: GraphView,
    words: Seq<u16>,
    ranges: Seq<(usize, usize)>,
    offset: int,
)
    requires
        graph.models(words, ranges),
        scanned(words, offset),
    ensures
        0 <= offset < words.len(),
        spec_decode(words, offset).is_ok(),
        instruction_at(words, offset).is_some() ==> graph.holds(offset),
{
    let path = choose|path: Seq<int>| is_scan_path(words, path) && #[trigger] path.last() == offset;
    lemma_path_covered(graph, words, ranges, path);
}

/// In the graph of a method a block starts where two instructions run on
/// into one.
proof fn lemma_merge_starts_block(
    graph: GraphView,
    words: Seq<u16>,
    ranges: Seq<(usize, usize)>,
    one: int,
    other: int,
    offset: int,
)
    requires
        graph.models(words, ranges),
        one != other,
        runs_into(words, one, offset),
        runs_into(words, other, offset),
        instruction_at(words, offset).is_some(),
    ensures
        graph.starts_at(offset),
{
    lemma_scan_covered(graph, words, ranges, one);
    lemma_scan_covered(graph, words, ranges, other);
    let (i, k) = choose|i: int, k: int| #[trigger] graph.position(i, one, k);
    let (j, l) = choose|j: int, l: int| #[trigger] graph.position(j, other, l);
    assert(graph.is_run(words, i));
    assert(graph.is_run(words, j));
    let first = graph.blocks[i].instructions;
    let second = graph.blocks[j].instructions;
    assert(instruction_at(words, first[k]@.offset) == Some(first[k]@));
    assert(instruction_at(words, second[l]@.offset) == Some(second[l]@));
    if k < first.len() - 1 && l < second.len() - 1 {
        assert(linked(first, k));
        assert(linked(second, l));
        assert(graph.position(i, offset, k + 1));
        assert(graph.position(j, offset, l + 1));
        assert(i == j && k + 1 == l + 1);
    } else if k == first.len() - 1 {
        assert(first[k] == first.last());
        assert(scan_step(words, one, offset));
        lemma_successor_is_held(graph, words, ranges, i, offset);
    } else {
        assert(second[l] == second.last());
        assert(scan_step(words, other, offset));
        lemma_successor_is_held(graph, words, ranges, j, offset);
    }
}

/// In the graph of a method a block starts wherever one must and an
/// instruction lies.
pub proof fn lemma_leader_starts_block(
    graph: GraphView,
    words: Seq<u16>,
    ranges: Seq<(usize, usize)>,
    offset: int,
)
    requires
        graph.models(words, ranges),
        is_leader(words, offset),
        instruction_at(words, offset).is_some(),
    ensures
        graph.starts_at(offset),
{
    if offset == 0 {
        assert(graph.blocks[0].start_offset == 0);
    } else if !(exists|from: int| #[trigger] leads(words, from, offset)) {
        let (one, other) = choose|one: int, other: int|
            one != other && #[trigger] runs_into(words, one, offset) && #[trigger] runs_into(
                words,
                other,
                offset,
            );
        lemma_merge_starts_block(graph, words, ranges, one, other, offset);
    } else {
        let from = choose|from: int| #[trigger] leads(words, from, offset);
        lemma_scan_covered(graph, words, ranges, from);
        let (i, k) = choose|i: int, k: int| #[trigger] graph.position(i, from, k);
        assert(graph.is_run(words, i));
        let run = graph.blocks[i].instructions;
        assert(instruction_at(words, run[k]@.offset) == Some(run[k]@));
        lemma_terminator_is_last(graph, words, i, k);
        assert(scan_step(words, from, offset));
        lemma_successor_is_held(graph, words, ranges, i, offset);
    }
}

/// In the graph of a method, a block that ends in a one-word `goto` has one
/// successor, and it starts at the offset of the `goto` plus the byte beside
/// its opcode, read as a signed number.
pub proof fn lemma_goto_edge(
    graph: GraphView,
    words: Seq<u16>,
    ranges: Seq<(usize, usize)>,
    i: int,
)
    requires
        graph.models(words, ranges),
        0 <= i < graph.blocks.len(),
        graph.blocks[i].instructions.last()@.opcode == Opcode::Goto,
    ensures
        ({
            let at = graph.blocks[i].instructions.last()@.offset;
            let target = at + sign_extend_8(high_byte(words[at]));
            &&& graph.edge_to_start(i, target)
            &&& forall|s: usize| #[trigger]
                graph.blocks[i].successors.contains(s) ==> graph.blocks[s as int].start_offset
                    == target
        }),
{
    assert(graph.is_run(words, i));
    assert(graph.is_sealed(words, i));
    let last = graph.blocks[i].instructions.last()@;
    assert(instruction_at(words, last.offset) == Some(last));
    assert(low_byte(words[last.offset]) == 0x28) by {
        reveal(spec_decode);
    }
    lemma_goto_target(words, last.offset);
    let target = last.offset + sign_extend_8(high_byte(words[last.offset]));
    assert(follows(words, last, target));
}

/// A method that has a graph has no defect.
pub proof fn lemma_no_defect(
    graph: GraphView,
    words: Seq<u16>,
    ranges: Seq<(usize, usize)>,
    error: BuildError,
)
    requires
        graph.models(words, ranges),
    ensures
        !is_defect(words, error),
{
    assert(graph.is_run(words, 0));
    assert(instruction_at(words, graph.blocks[0].instructions[0]@.offset) == Some(
        graph.blocks[0].instructions[0]@,
    ));
    match error {
        BuildError::NoEntry => {},
        BuildError::Decode(failure) => {
            if scanned(words, failure.offset as int) {
                lemma_scan_covered(graph, words, ranges, failure.offset as int);
            }
        },
        BuildError::SwitchPayload { offset } => {
            if is_defect(words, error) {
                lemma_scan_covered(graph, words, ranges, offset as int);
                let (i, k) = choose|i: int, k: int| #[trigger] graph.position(i, offset as int, k);
                assert(graph.is_run(words, i));
                let run = graph.blocks[i].instructions;
                assert(instruction_at(words, run[k]@.offset) == Some(run[k]@));
                lemma_terminator_is_last(graph, words, i, k);
                assert(graph.is_sealed(words, i));
            }
        },
        BuildError::BranchTarget { offset } => {
            if is_defect(words, error) {
                lemma_scan_covered(graph, words, ranges, offset as int);
                let instruction = instruction_at(words, offset as int).unwrap();
                let to = choose|to: int| #[trigger]
                    is_branch_target(words, instruction, to) && !can_start_block(words, to);
                let (i, k) = choose|i: int, k: int| #[trigger] graph.position(i, offset as int, k);
                assert(graph.is_run(words, i));
                let run = graph.blocks[i].instructions;
                assert(instruction_at(words, run[k]@.offset) == Some(run[k]@));
                lemma_terminator_is_last(graph, words, i, k);
                assert(scan_step(words, offset as int, to));
                lemma_successor_is_held(graph, words, ranges, i, to);
            }
        },
    }
}

/// In a graph whose blocks have been put in another order, the edges are the
/// edges of the graph it was, between the same blocks.
proof fn lemma_ranked_edges(
    before: GraphView,
    after: GraphView,
    rank: Seq<usize>,
    order: Seq<usize>,
    from: int,
    to: int,
)
    requires
        before.wf(),
        before.is_ranked(after, rank, order),
        0 <= from < after.blocks.len(),
        0 <= to < after.blocks.len(),
    ensures
        after.has_edge(from, to) <==> before.has_edge(order[from] as int, order[to] as int),
        after.has_back_edge(from, to) <==> before.has_back_edge(
            order[from] as int,
            order[to] as int,
        ),
{
    let successors = before.blocks[order[from] as int].successors;
    let ranked = with_ranks(successors, rank);
    assert(after.blocks[from] == ranked_block(before.blocks[order[from] as int], rank));
    assert(after.blocks[to] == ranked_block(before.blocks[order[to] as int], rank));
    if ranked.contains(to as usize) {
        let k = choose|k: int| 0 <= k < ranked.len() && ranked[k] == to as usize;
        assert(successors.contains(successors[k]));
        assert(before.has_back_edge(order[from] as int, successors[k] as int));
        assert(order[rank[successors[k] as int] as int] == successors[k]);
    }
    if successors.contains(order[to]) {
        let k = choose|k: int| 0 <= k < successors.len() && successors[k] == order[to];
        assert(ranked[k] == to as usize);
    }
    let predecessors = before.blocks[order[to] as int].predecessors;
    let ranked_back = with_ranks(predecessors, rank);
    if ranked_back.contains(from as usize) {
        let k = choose|k: int| 0 <= k < ranked_back.len() && ranked_back[k] == from as usize;
        assert(predecessors.contains(predecessors[k]));
        assert(before.has_edge(predecessors[k] as int, order[to] as int));
        assert(order[rank[predecessors[k] as int] as int] == predecessors[k]);
    }
    if predecessors.contains(order[from]) {
        let k = choose|k: int| 0 <= k < predecessors.len() && predecessors[k] == order[from];
        assert(ranked_back[k] == from as usize);
    }
}

/// A graph whose blocks have been put in another order lists every edge at
/// both of its ends if the graph it was does.
proof fn lemma_ranked_wf(
    before: GraphView,
    after: GraphView,
    rank: Seq<usize>,
    order: Seq<usize>,
)
    requires
        before.wf(),
        before.is_ranked(after, rank, order),
        after.blocks.len() <= usize::MAX,
    ensures
        after.wf(),
{
    assert forall|j: int| 0 <= j < after.blocks.len() implies (#[trigger] after.blocks[j]).wf() by {
        let was = before.blocks[order[j] as int];
        assert(was.wf());
        assert(after.blocks[j] == ranked_block(was, rank));
        let successors = with_ranks(was.successors, rank);
        assert forall|a: int, b: int|
            0 <= a < successors.len() && 0 <= b < successors.len() && a != b implies successors[a]
            != successors[b] by {
            assert(was.successors.contains(was.successors[a]));
            assert(was.successors.contains(was.successors[b]));
            assert(before.has_back_edge(order[j] as int, was.successors[a] as int));
            assert(before.has_back_edge(order[j] as int, was.successors[b] as int));
            assert(order[rank[was.successors[a] as int] as int] == was.successors[a]);
            assert(order[rank[was.successors[b] as int] as int] == was.successors[b]);
        }
        let predecessors = with_ranks(was.predecessors, rank);
        assert forall|a: int, b: int|
            0 <= a < predecessors.len() && 0 <= b < predecessors.len() && a
                != b implies predecessors[a] != predecessors[b] by {
            assert(was.predecessors.contains(was.predecessors[a]));
            assert(was.predecessors.contains(was.predecessors[b]));
            assert(before.has_edge(was.predecessors[a] as int, order[j] as int));
            assert(before.has_edge(was.predecessors[b] as int, order[j] as int));
            assert(order[rank[was.predecessors[a] as int] as int] == was.predecessors[a]);
            assert(order[rank[was.predecessors[b] as int] as int] == was.predecessors[b]);
        }
    }
    assert forall|i: int, s: usize|
        0 <= i < after.blocks.len() && #[trigger] after.blocks[i].successors.contains(
            s,
        ) implies after.has_back_edge(i, s as int) by {
        let was = before.blocks[order[i] as int];
        assert(after.blocks[i] == ranked_block(was, rank));
        let ranked = with_ranks(was.successors, rank);
        let k = choose|k: int| 0 <= k < ranked.len() && ranked[k] == s;
        assert(was.successors.contains(was.successors[k]));
        assert(before.has_back_edge(order[i] as int, was.successors[k] as int));
        assert(order[rank[was.successors[k] as int] as int] == was.successors[k]);
        lemma_ranked_edges(before, after, rank, order, i, s as int);
    }
    assert forall|i: int, p: usize|
        0 <= i < after.blocks.len() && #[trigger] after.blocks[i].predecessors.contains(
            p,
        ) implies after.has_edge(p as int, i) by {
        let was = before.blocks[order[i] as int];
        assert(after.blocks[i] == ranked_block(was, rank));
        let ranked = with_ranks(was.predecessors, rank);
        let k = choose|k: int| 0 <= k < ranked.len() && ranked[k] == p;
        assert(was.predecessors.contains(was.predecessors[k]));
        assert(before.has_edge(was.predecessors[k] as int, order[i] as int));
        assert(order[rank[was.predecessors[k] as int] as int] == was.predecessors[k]);
        lemma_ranked_edges(before, after, rank, order, p as int, i);
    }
}

/// A block of a graph whose blocks have been put in another order has the
/// edges its last instruction asks for if it had them.
proof fn lemma_ranked_sealed(
    before: GraphView,
    after: GraphView,
    rank: Seq<usize>,
    order: Seq<usize>,
    words: Seq<u16>,
    j: int,
)
    requires
        before.wf(),
        before.is_ranked(after, rank, order),
        0 <= j < after.blocks.len(),
        before.is_sealed(words, order[j] as int),
    ensures
        after.is_sealed(words, j),
{
    let i = order[j] as int;
    let was = before.blocks[i];
    assert(after.blocks[j] == ranked_block(was, rank));
    let last = was.instructions.last()@;
    assert forall|s: usize| #[trigger] after.blocks[j].successors.contains(s) implies follows(
        words,
        last,
        after.blocks[s as int].start_offset,
    ) by {
        let ranked = with_ranks(was.successors, rank);
        let k = choose|k: int| 0 <= k < ranked.len() && ranked[k] == s;
        let old_s = was.successors[k];
        assert(was.successors.contains(old_s));
        assert(before.has_back_edge(i, old_s as int));
        assert(order[rank[old_s as int] as int] == old_s);
        assert(after.blocks[s as int] == ranked_block(before.blocks[order[s as int] as int], rank));
    }
    assert forall|to: int| #[trigger] follows(words, last, to) implies after.edge_to_start(j, to) by {
        assert(before.edge_to_start(i, to));
        let s = choose|s: int| #[trigger] before.has_edge(i, s) && before.blocks[s].start_offset == to;
        let new_s = rank[s] as int;
        assert(order[new_s] == s);
        lemma_ranked_edges(before, after, rank, order, j, new_s);
        assert(after.blocks[new_s] == ranked_block(before.blocks[order[new_s] as int], rank));
        assert(after.has_edge(j, new_s));
    }
    if before.starts_at(last.end()) {
        let s = choose|s: int|
            0 <= s < before.blocks.len() && (#[trigger] before.blocks[s]).start_offset == last.end();
        let new_s = rank[s] as int;
        assert(order[new_s] == s);
        assert(after.blocks[new_s] == ranked_block(before.blocks[order[new_s] as int], rank));
        assert(after.blocks[new_s].start_offset == last.end());
        assert(after.starts_at(last.end()));
    }
}

/// The graph of a method is still the graph of the method when its blocks
/// are put in the order of their starts.
pub proof fn lemma_models_ranked(
    before: GraphView,
    after: GraphView,
    rank: Seq<usize>,
    order: Seq<usize>,
    words: Seq<u16>,
    ranges: Seq<(usize, usize)>,
)
    requires
        before.models(words, ranges),
        before.is_ranked(after, rank, order),
        after.is_sorted(),
        after.blocks.len() <= usize::MAX,
    ensures
        after.models(words, ranges),
{
    lemma_ranked_wf(before, after, rank, order);
    let first = rank[0] as int;
    assert(order[first] == 0);
    assert(after.blocks[first] == ranked_block(before.blocks[order[first] as int], rank));
    assert(after.blocks[0] == ranked_block(before.blocks[order[0] as int], rank));
    assert(before.blocks[order[0] as int].wf());
    if first > 0 {
        assert(after.blocks[0].start_offset < after.blocks[first].start_offset);
    }
    assert(after.entry == 0);
    assert(after.blocks[0].predecessors.len() == 0);
    assert forall|j: int| 0 <= j < after.blocks.len() implies #[trigger] after.is_run(words, j) by {
        assert(before.is_run(words, order[j] as int));
        assert(after.blocks[j] == ranked_block(before.blocks[order[j] as int], rank));
    }
    assert forall|j: int| 0 <= j < after.blocks.len() implies #[trigger] after.is_sealed(
        words,
        j,
    ) by {
        assert(before.is_sealed(words, order[j] as int));
        lemma_ranked_sealed(before, after, rank, order, words, j);
    }
    assert forall|j: int| 0 <= j < after.blocks.len() implies is_leader(
        words,
        (#[trigger] after.blocks[j]).start_offset,
    ) by {
        assert(after.blocks[j] == ranked_block(before.blocks[order[j] as int], rank));
        assert(is_leader(words, before.blocks[order[j] as int].start_offset));
    }
    assert forall|j: int, k: int|
        0 <= j < after.blocks.len() && 0 <= k < after.blocks[j].instructions.len() implies scanned(
        words,
        (#[trigger] after.blocks[j].instructions[k])@.offset,
    ) by {
        assert(after.blocks[j] == ranked_block(before.blocks[order[j] as int], rank));
        assert(scanned(words, before.blocks[order[j] as int].instructions[k]@.offset));
    }
    assert forall|j: int| 0 <= j < after.blocks.len() implies (
    #[trigger] after.blocks[j]).is_exception_entry == starts_range(
        ranges,
        after.blocks[j].start_offset,
    ) by {
        assert(after.blocks[j] == ranked_block(before.blocks[order[j] as int], rank));
        assert(before.blocks[order[j] as int].is_exception_entry == starts_range(
            ranges,
            before.blocks[order[j] as int].start_offset,
        ));
    }
    assert(after.distinct_starts()) by {
        assert forall|i: int, j: int|
            0 <= i < after.blocks.len() && 0 <= j < after.blocks.len() && (
            #[trigger] after.blocks[i]).start_offset == (#[trigger] after.blocks[j]).start_offset
            implies i == j by {
            if i < j {
                assert(after.blocks[i].start_offset < after.blocks[j].start_offset);
            } else if j < i {
                assert(after.blocks[j].start_offset < after.blocks[i].start_offset);
            }
        }
    }
    assert forall|i: int, k: int, j: int, l: int, offset: int| #[trigger]
        after.position(i, offset, k) && #[trigger] after.position(j, offset, l) implies i == j && k
        == l by {
        assert(after.blocks[i] == ranked_block(before.blocks[order[i] as int], rank));
        assert(after.blocks[j] == ranked_block(before.blocks[order[j] as int], rank));
        assert(before.position(order[i] as int, offset, k));
        assert(before.position(order[j] as int, offset, l));
        assert(rank[order[i] as int] == i);
        assert(rank[order[j] as int] == j);
    }
}

} // verus!
