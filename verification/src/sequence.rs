//! The opcodes of methods as one flat sequence of bytes, with the bounds of
//! each method in it; and the graphs of the methods of whole classes.

use vstd::prelude::*;

use crate::builder::get_blocks;
use crate::dex_source::{code_of_classes, word_views, words_of_classes};
use crate::error::BuildError;
use crate::flow::is_defect;
use crate::graph::MethodGraph;
use crate::instruction::{spec_decode, Instruction};
use crate::opcode::Opcode;

verus! {

/// Every instruction occupies at least one word.
pub proof fn lemma_length_positive(opcode: Opcode)
    ensures
        1 <= opcode.spec_length() <= 5,
{
}

/// The opcode bytes of the instructions from `offset` on, up to the end of the
/// buffer or the first data table; `None` where a word cannot be decoded.
pub open spec fn spec_op_seq(words: Seq<u16>, offset: int) -> Option<Seq<u8>>
    decreases
            if offset < words.len() {
                words.len() - offset
            } else {
                0
            },
    via lemma_op_seq_ends
{
    if offset < 0 || offset >= words.len() {
        Some(Seq::empty())
    } else {
        match spec_decode(words, offset) {
            Err(_) => None,
            Ok(None) => Some(Seq::empty()),
            Ok(Some((instruction, _))) => match spec_op_seq(
                words,
                offset + instruction.opcode.spec_length(),
            ) {
                Some(rest) => Some(seq![instruction.opcode.spec_byte()] + rest),
                None => None,
            },
        }
    }
}

#[via_fn]
proof fn lemma_op_seq_ends(words: Seq<u16>, offset: int) {
    if 0 <= offset < words.len() {
        match spec_decode(words, offset) {
            Ok(Some((instruction, _))) => {
                lemma_length_positive(instruction.opcode);
            },
            _ => {},
        }
    }
}

/// The opcode bytes of a method, instruction by instruction, up to the end of
/// its words or the first data table. `None` where a word cannot be decoded.
pub fn method_op_seq(raw_bytecode: &[u16]) -> (opcodes: Option<Vec<u8>>)
    ensures
        match opcodes {
            Some(bytes) => spec_op_seq(raw_bytecode@, 0) == Some(bytes@),
            None => spec_op_seq(raw_bytecode@, 0).is_none(),
        },
{
    let mut bytes: Vec<u8> = Vec::new();
    let mut offset: usize = 0;
    let mut going = true;
    assert(Seq::<u8>::empty() + Seq::<u8>::empty() =~= Seq::<u8>::empty());
    while going && offset < raw_bytecode.len()
        invariant
            offset <= raw_bytecode@.len(),
            spec_op_seq(raw_bytecode@, 0) == match spec_op_seq(
                raw_bytecode@,
                if going { offset as int } else { raw_bytecode@.len() as int },
            ) {
                Some(rest) => Some(bytes@ + rest),
                None => None,
            },
        decreases (raw_bytecode@.len() - offset) + if going { 1int } else { 0int },
    {
        match Instruction::try_from_raw_bytecode(raw_bytecode, offset) {
            Ok(Some((instruction, length))) => {
                let ghost before = bytes@;
                bytes.push(instruction.opcode().byte());
                offset += length;
                proof {
                    let rest = spec_op_seq(raw_bytecode@, offset as int);
                    if rest.is_some() {
                        assert(bytes@ + rest.unwrap() =~= before + (seq![
                            instruction@.opcode.spec_byte(),
                        ] + rest.unwrap()));
                    }
                }
            },
            Ok(None) => {
                proof {
                    assert(bytes@ + Seq::<u8>::empty() =~= bytes@);
                }
                going = false;
            },
            Err(_) => {
                return None;
            },
        }
    }
    proof {
        assert(bytes@ + Seq::<u8>::empty() =~= bytes@);
    }
    Some(bytes)
}

/// Appends the opcodes of one method to the flat sequence and records the
/// method's bounds in it: `start`, and the position of its last opcode.
pub fn extend(
    op_seq: &mut Vec<u8>,
    current_method_seq: Vec<u8>,
    m_bounds: &mut Vec<(usize, usize)>,
    pos: &mut usize,
    start: usize,
)
    requires
        1 <= *old(pos) + current_method_seq@.len() <= usize::MAX,
    ensures
        *final(pos) == *old(pos) + current_method_seq@.len(),
        final(m_bounds)@ == old(m_bounds)@.push((start, (*final(pos) - 1) as usize)),
        final(op_seq)@ == old(op_seq)@ + current_method_seq@,
{
    let mut current_method_seq = current_method_seq;
    *pos += current_method_seq.len();
    m_bounds.push((start, *pos - 1));
    op_seq.append(&mut current_method_seq);
}

/// What has been gathered of a run of methods.
pub struct Gathered {
    /// The opcodes of the methods taken so far.
    pub op_seq: Seq<u8>,
    /// For each method taken, the positions of its first and its last opcode.
    pub bounds: Seq<(usize, usize)>,
    /// The position of the next opcode, counted over all files.
    pub pos: int,
}

/// What has been gathered after the method with the words `words`. The method
/// is taken if all of it can be decoded, if it fits under `cap` (0 for no
/// cap), and if its bounds can be told: it is not an empty method at
/// position 0, and its last position is a `usize`.
pub open spec fn spec_add_method(before: Gathered, words: Seq<u16>, cap: int) -> Gathered {
    match spec_op_seq(words, 0) {
        Some(opcodes) => if (cap == 0 || before.op_seq.len() + opcodes.len() < cap) && 1
            <= before.pos + opcodes.len() <= usize::MAX {
            Gathered {
                op_seq: before.op_seq + opcodes,
                bounds: before.bounds.push(
                    (before.pos as usize, (before.pos + opcodes.len() - 1) as usize),
                ),
                pos: before.pos + opcodes.len(),
            }
        } else {
            before
        },
        None => before,
    }
}

/// What has been gathered after all of `methods`.
pub open spec fn spec_add_methods(before: Gathered, methods: Seq<Seq<u16>>, cap: int) -> Gathered
    decreases methods.len(),
{
    if methods.len() == 0 {
        before
    } else {
        spec_add_method(spec_add_methods(before, methods.drop_last(), cap), methods.last(), cap)
    }
}

/// Gathers the opcodes of `methods`, one buffer of words for each method,
/// counting positions from `pos` on.
pub fn op_seq_of_methods(methods: &Vec<Vec<u16>>, pos: &mut usize, sequence_cap: usize) -> (gathered:
    (Vec<u8>, Vec<(usize, usize)>))
    ensures
        (Gathered { op_seq: gathered.0@, bounds: gathered.1@, pos: *final(pos) as int })
            == spec_add_methods(
            Gathered { op_seq: Seq::empty(), bounds: Seq::empty(), pos: *old(pos) as int },
            word_views(methods@),
            sequence_cap as int,
        ),
{
    let mut op_seq: Vec<u8> = Vec::new();
    let mut m_bounds: Vec<(usize, usize)> = Vec::new();
    let ghost first = Gathered { op_seq: Seq::empty(), bounds: Seq::empty(), pos: *old(pos) as int };
    let ghost all = word_views(methods@);
    let mut i: usize = 0;
    assert(all.take(0) =~= Seq::empty());
    while i < methods.len()
        invariant
            i <= methods@.len(),
            all == word_views(methods@),
            (Gathered { op_seq: op_seq@, bounds: m_bounds@, pos: *pos as int }) == spec_add_methods(
                first,
                all.take(i as int),
                sequence_cap as int,
            ),
        decreases methods@.len() - i,
    {
        proof {
            assert(all.take(i + 1).drop_last() =~= all.take(i as int));
            assert(all.take(i + 1).last() == methods@[i as int]@);
        }
        match method_op_seq(methods[i].as_slice()) {
            Some(opcodes) => {
                let count = opcodes.len();
                let fits = sequence_cap == 0 || (count < sequence_cap && op_seq.len()
                    < sequence_cap - count);
                let told = count <= usize::MAX - *pos && (*pos > 0 || count > 0);
                if fits && told {
                    let start = *pos;
                    extend(&mut op_seq, opcodes, &mut m_bounds, pos, start);
                }
            },
            None => {},
        }
        i += 1;
    }
    assert(all.take(i as int) =~= all);
    (op_seq, m_bounds)
}

/// Gathers the opcodes of the methods with code of `classes`, counting
/// positions from `pos` on.
pub fn get_op_seq(classes: &[dex::class::Class], pos: &mut usize, sequence_cap: usize) -> (gathered:
    (Vec<u8>, Vec<(usize, usize)>))
    ensures
        (Gathered { op_seq: gathered.0@, bounds: gathered.1@, pos: *final(pos) as int })
            == spec_add_methods(
            Gathered { op_seq: Seq::empty(), bounds: Seq::empty(), pos: *old(pos) as int },
            words_of_classes(classes@),
            sequence_cap as int,
        ),
{
    let methods = code_of_classes(classes);
    op_seq_of_methods(&methods, pos, sequence_cap)
}

/// What has been gathered after the files whose classes are `dexes`: each
/// file's methods are gathered by themselves, under the cap, and the positions
/// count on from file to file.
pub open spec fn spec_parse_dexes(dexes: Seq<Vec<dex::class::Class>>, cap: int) -> Gathered
    decreases dexes.len(),
{
    if dexes.len() == 0 {
        Gathered { op_seq: Seq::empty(), bounds: Seq::empty(), pos: 0 }
    } else {
        let before = spec_parse_dexes(dexes.drop_last(), cap);
        let file = spec_add_methods(
            Gathered { op_seq: Seq::empty(), bounds: Seq::empty(), pos: before.pos },
            words_of_classes(dexes.last()@),
            cap,
        );
        Gathered {
            op_seq: before.op_seq + file.op_seq,
            bounds: before.bounds + file.bounds,
            pos: file.pos,
        }
    }
}

/// Gathers the opcodes of the methods of several files, given the classes of
/// each, into one sequence with the bounds of every method in it.
pub fn parse_dexes(dexes: &Vec<Vec<dex::class::Class>>, sequence_cap: usize) -> (gathered: (
    Vec<u8>,
    Vec<(usize, usize)>,
))
    ensures
        gathered.0@ == spec_parse_dexes(dexes@, sequence_cap as int).op_seq,
        gathered.1@ == spec_parse_dexes(dexes@, sequence_cap as int).bounds,
{
    let mut op_seq: Vec<u8> = Vec::new();
    let mut method_bounds: Vec<(usize, usize)> = Vec::new();
    let mut pos: usize = 0;
    let mut i: usize = 0;
    assert(dexes@.take(0) =~= Seq::empty());
    while i < dexes.len()
        invariant
            i <= dexes@.len(),
            (Gathered { op_seq: op_seq@, bounds: method_bounds@, pos: pos as int })
                == spec_parse_dexes(dexes@.take(i as int), sequence_cap as int),
        decreases dexes@.len() - i,
    {
        proof {
            assert(dexes@.take(i + 1).drop_last() =~= dexes@.take(i as int));
            assert(dexes@.take(i + 1).last() == dexes@[i as int]);
        }
        let (mut curr_op_seq, mut curr_method_bounds) = get_op_seq(
            dexes[i].as_slice(),
            &mut pos,
            sequence_cap,
        );
        op_seq.append(&mut curr_op_seq);
        method_bounds.append(&mut curr_method_bounds);
        i += 1;
    }
    assert(dexes@.take(i as int) =~= dexes@);
    (op_seq, method_bounds)
}

/// Whether a method has a graph.
pub open spec fn has_graph(words: Seq<u16>) -> bool {
    forall|error: BuildError| !is_defect(words, error)
}

/// Those of `methods` that have a graph, in their order.
pub open spec fn with_graph(methods: Seq<Seq<u16>>) -> Seq<Seq<u16>>
    decreases methods.len(),
{
    if methods.len() == 0 {
        Seq::empty()
    } else {
        with_graph(methods.drop_last()) + if has_graph(methods.last()) {
            seq![methods.last()]
        } else {
            Seq::empty()
        }
    }
}

/// `graphs` are the graphs of `methods`, one for one.
pub open spec fn are_graphs_of(graphs: Seq<MethodGraph>, methods: Seq<Seq<u16>>) -> bool {
    &&& graphs.len() == methods.len()
    &&& forall|i: int|
        0 <= i < graphs.len() ==> (#[trigger] graphs[i])@.models(methods[i], Seq::empty())
            && graphs[i]@.is_sorted()
}

/// Builds the graph of each of `methods`, leaving out the methods that have none.
pub fn graphs_of_methods(methods: &Vec<Vec<u16>>) -> (graphs: Vec<MethodGraph>)
    ensures
        are_graphs_of(graphs@, with_graph(word_views(methods@))),
{
    let mut graphs: Vec<MethodGraph> = Vec::new();
    let ghost all = word_views(methods@);
    let mut i: usize = 0;
    assert(all.take(0) =~= Seq::empty());
    while i < methods.len()
        invariant
            i <= methods@.len(),
            all == word_views(methods@),
            are_graphs_of(graphs@, with_graph(all.take(i as int))),
        decreases methods@.len() - i,
    {
        proof {
            assert(all.take(i + 1).drop_last() =~= all.take(i as int));
            assert(all.take(i + 1).last() == methods@[i as int]@);
        }
        let ghost before = graphs@;
        match get_blocks(methods[i].as_slice()) {
            Ok(graph) => {
                graphs.push(graph);
                proof {
                    let wanted = with_graph(all.take(i + 1));
                    assert forall|j: int| 0 <= j < graphs@.len() implies (#[trigger] graphs@[j])@.models(
                        wanted[j],
                        Seq::empty(),
                    ) && graphs@[j]@.is_sorted() by {
                        if j < before.len() {
                            assert(graphs@[j] == before[j]);
                        }
                    }
                }
            },
            Err(error) => {},
        }
        i += 1;
    }
    assert(all.take(i as int) =~= all);
    graphs
}

/// Builds the graphs of the methods with code of `classes`, leaving out the
/// methods that have none.
pub fn into_blocks(classes: &[dex::class::Class]) -> (graphs: Vec<MethodGraph>)
    ensures
        are_graphs_of(graphs@, with_graph(words_of_classes(classes@))),
{
    let methods = code_of_classes(classes);
    graphs_of_methods(&methods)
}

} // verus!
