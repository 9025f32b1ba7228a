use dex_cfg::block::BasicBlock;
use dex_cfg::builder::{build, get_blocks, is_range_start};
use dex_cfg::error::{BuildError, InstructionParsingError};
use dex_cfg::graph::MethodGraph;
use dex_cfg::instruction::Instruction;
use dex_cfg::opcode::Opcode;
use dex_cfg::switch::read_switch_table;

fn block_starts(graph: &MethodGraph) -> Vec<Opcode> {
    graph.blocks().iter().map(|block| block.instructions().first().unwrap().opcode()).collect()
}

fn assert_block_starts(opcodes: &[Opcode], blocks: &[BasicBlock]) {
    for (opcode, block) in opcodes.iter().zip(blocks.iter()) {
        assert_eq!(*opcode, block.instructions().first().unwrap().opcode());
    }
}

fn start_offsets(graph: &MethodGraph) -> Vec<usize> {
    graph.blocks().iter().map(|block| block.start_offset()).collect()
}

fn block_at(graph: &MethodGraph, offset: usize) -> &BasicBlock {
    graph
        .blocks()
        .iter()
        .find(|block| block.start_offset() == offset)
        .expect("no block starts there")
}

fn sorted(mut offsets: Vec<usize>) -> Vec<usize> {
    offsets.sort();
    offsets
}

fn successor_offsets(graph: &MethodGraph, offset: usize) -> Vec<usize> {
    sorted(
        block_at(graph, offset)
            .successors()
            .iter()
            .map(|&index| graph.block(index).start_offset())
            .collect(),
    )
}

fn predecessor_offsets(graph: &MethodGraph, offset: usize) -> Vec<usize> {
    sorted(
        block_at(graph, offset)
            .predecessors()
            .iter()
            .map(|&index| graph.block(index).start_offset())
            .collect(),
    )
}

fn assert_edges_paired(graph: &MethodGraph) {
    for (index, block) in graph.blocks().iter().enumerate() {
        for &successor in block.successors() {
            assert!(graph.block(successor).predecessors().contains(&index));
        }
        for &predecessor in block.predecessors() {
            assert!(graph.block(predecessor).successors().contains(&index));
        }
    }
}

fn decode(words: &[u16], offset: usize) -> Instruction {
    Instruction::try_from_raw_bytecode(words, offset).unwrap().unwrap().0
}

const ON_START: [u16; 23] = [
    4207, 743, 2, 96, 57, 275, 33, 4148, 15, 26, 21033, 8305, 855, 2, 266, 312, 7, 8532, 22998,
    8302, 714, 1, 14,
];

const GET_REQUEST_TIME: [u16; 71] = [
    16468, 2726, 4206, 3408, 0, 12, 57, 4, 18, 17, 4206, 3424, 0, 268, 312, 11, 4206, 3424, 0, 12,
    4206, 3167, 0, 12, 17, 290, 5100, 4206, 3425, 0, 12, 8304, 23643, 1, 4206, 23653, 1, 12, 4206,
    23682, 0, 12, 17, 13, 290, 2002, 546, 643, 4208, 1799, 2, 794, 37138, 8302, 1810, 50, 4206,
    1847, 0, 780, 8302, 1810, 50, 4206, 1818, 2, 524, 12400, 7759, 33, 295,
];

const HASH_CODE: [u16; 28] = [
    8276, 11170, 4206, 1757, 0, 10, 218, 7936, 8532, 11172, 313, 4, 274, 1320, 4206, 1757, 1, 266,
    4272, 218, 7936, 8533, 11171, 312, 3, 4370, 4272, 15,
];

// packed-switch v0 at 0 with the table at 6: key 10 leads to 3, key 11 to 4.
const PACKED: [u16; 14] =
    [0x002b, 6, 0, 0x0012, 0x000e, 0x0000, 0x0100, 2, 10, 0, 3, 0, 4, 0];

// sparse-switch v0 at 1 with the table at 6: key 5 leads to 4, key -1 to 5.
const SPARSE: [u16; 16] = [
    0x0000, 0x002c, 5, 0, 0x000e, 0x000e, 0x0200, 2, 5, 0, 0xffff, 0xffff, 3, 0, 4, 0,
];

#[test]
fn graph_test_get_blocks0() {
    // Lorg/fdroid/fdroid/views/main/MainActivity;onStart
    let blocks = get_blocks(&ON_START).unwrap();
    assert_eq!(4, blocks.len());
    assert_block_starts(
        &[Opcode::InvokeSuper, Opcode::ConstString, Opcode::IgetObject, Opcode::ReturnVoid],
        blocks.blocks(),
    );
}

#[test]
fn mod_test_get_blocks0() {
    let blocks = build(&ON_START, &[]).unwrap();
    assert_eq!(4, blocks.len());
    assert_eq!(
        block_starts(&blocks),
        vec![Opcode::InvokeSuper, Opcode::ConstString, Opcode::IgetObject, Opcode::ReturnVoid]
    );
    assert_eq!(start_offsets(&blocks), vec![0, 9, 17, 22]);
}

#[test]
fn graph_test_get_blocks1() {
    // Lorg/bouncycastle/dvcs/DVCSRequestInfo;getRequestTime
    let blocks = get_blocks(&GET_REQUEST_TIME).unwrap();
    assert_block_starts(
        &[
            Opcode::IgetObject,
            Opcode::Const4,
            Opcode::InvokeVirtual,
            Opcode::InvokeVirtual,
            Opcode::NewInstance,
            Opcode::MoveException,
        ],
        blocks.blocks(),
    );
}

#[test]
fn mod_test_get_blocks1() {
    let blocks = build(&GET_REQUEST_TIME, &[]).unwrap();
    assert_eq!(6, blocks.len());
    assert_eq!(
        block_starts(&blocks),
        vec![
            Opcode::IgetObject,
            Opcode::Const4,
            Opcode::InvokeVirtual,
            Opcode::InvokeVirtual,
            Opcode::NewInstance,
            Opcode::MoveException,
        ]
    );
    assert_eq!(start_offsets(&blocks), vec![0, 8, 10, 16, 25, 43]);
    // The handler behind the last return is entered by no edge.
    assert_eq!(predecessor_offsets(&blocks, 43), vec![]);
    assert_eq!(successor_offsets(&blocks, 43), vec![]);
    assert_eq!(block_at(&blocks, 43).instructions().last().unwrap().opcode(), Opcode::Throw);
}

#[test]
fn graph_test_get_blocks2() {
    // Lorg/fdroid/download/Mirror;hashCode
    let blocks = get_blocks(&HASH_CODE).unwrap();
    assert_block_starts(
        &[
            Opcode::IgetObject,
            Opcode::Const4,
            Opcode::InvokeVirtual,
            Opcode::AddInt2Addr,
            Opcode::Const4,
            Opcode::AddInt2Addr,
        ],
        blocks.blocks(),
    );
}

#[test]
fn mod_test_get_blocks2() {
    let blocks = build(&HASH_CODE, &[]).unwrap();
    assert_eq!(6, blocks.len());
    let mut starts = block_starts(&blocks);
    starts.sort_by_key(|opcode| opcode.byte());
    assert_eq!(
        starts,
        vec![
            Opcode::Const4,
            Opcode::Const4,
            Opcode::IgetObject,
            Opcode::InvokeVirtual,
            Opcode::AddInt2Addr,
            Opcode::AddInt2Addr,
        ]
    );
    assert_eq!(start_offsets(&blocks), vec![0, 12, 14, 18, 25, 26]);
}

#[test]
fn blocks_stand_in_the_order_of_their_starts() {
    for words in [&ON_START[..], &GET_REQUEST_TIME[..], &HASH_CODE[..], &PACKED[..], &SPARSE[..]] {
        let graph = get_blocks(words).unwrap();
        let starts = start_offsets(&graph);
        assert!(starts.windows(2).all(|pair| pair[0] < pair[1]));
        assert_eq!(graph.blocks_by_offset(), (0..graph.len()).collect::<Vec<usize>>());
    }
    // The block at 18 was found last, by a split, and stands fourth.
    let graph = get_blocks(&HASH_CODE).unwrap();
    assert_eq!(graph.block(3).start_offset(), 18);
    assert_eq!(graph.block(1).successors(), &vec![3]);
    assert_eq!(graph.block(3).predecessors().len(), 2);
}

#[test]
fn edges_follow_the_last_instruction() {
    let graph = get_blocks(&HASH_CODE).unwrap();
    assert_eq!(successor_offsets(&graph, 0), vec![12, 14]);
    assert_eq!(successor_offsets(&graph, 12), vec![18]);
    assert_eq!(successor_offsets(&graph, 14), vec![18]);
    assert_eq!(successor_offsets(&graph, 18), vec![25, 26]);
    assert_eq!(successor_offsets(&graph, 25), vec![26]);
    assert_eq!(successor_offsets(&graph, 26), vec![]);
    assert_eq!(predecessor_offsets(&graph, 18), vec![12, 14]);
    assert_eq!(predecessor_offsets(&graph, 26), vec![18, 25]);
    assert_edges_paired(&graph);
}

#[test]
fn blocks_hold_consecutive_instructions() {
    for words in [&ON_START[..], &GET_REQUEST_TIME[..], &HASH_CODE[..]] {
        let graph = get_blocks(words).unwrap();
        for block in graph.blocks() {
            let instructions = block.instructions();
            assert!(!instructions.is_empty());
            assert_eq!(instructions[0].offset(), block.start_offset());
            for pair in instructions.windows(2) {
                assert_eq!(pair[0].end(), pair[1].offset());
            }
        }
        assert_edges_paired(&graph);
    }
}

#[test]
fn entry_has_no_predecessors() {
    for words in [&ON_START[..], &GET_REQUEST_TIME[..], &HASH_CODE[..], &PACKED[..], &SPARSE[..]] {
        let graph = get_blocks(words).unwrap();
        let entry = graph.block(graph.entry());
        assert_eq!(graph.entry(), 0);
        assert_eq!(entry.start_offset(), 0);
        assert!(entry.predecessors().is_empty());
    }
}

#[test]
fn goto_leads_to_offset_plus_signed_byte() {
    // goto +3 at 0, unreachable words, return-void at 3.
    let graph = get_blocks(&[0x0328, 0x003e, 0x003e, 0x000e]).unwrap();
    assert_eq!(start_offsets(&graph), vec![0, 3]);
    assert_eq!(successor_offsets(&graph, 0), vec![3]);
    // nop, nop, goto -1 at 2.
    let graph = get_blocks(&[0x0000, 0x0000, 0xff28]).unwrap();
    assert_eq!(start_offsets(&graph), vec![0, 1]);
    assert_eq!(successor_offsets(&graph, 0), vec![1]);
    assert_eq!(successor_offsets(&graph, 1), vec![1]);
    assert_eq!(predecessor_offsets(&graph, 1), vec![0, 1]);
}

#[test]
fn jump_into_a_built_block_splits_it() {
    let graph = get_blocks(&HASH_CODE).unwrap();
    // The block at 14 was scanned up to the `if` at 23 before the `goto` at 13
    // asked for a block at 18.
    let head = block_at(&graph, 14);
    let tail = block_at(&graph, 18);
    assert_eq!(head.instructions().len(), 2);
    assert_eq!(tail.instructions().len(), 4);
    assert_eq!(head.instructions().last().unwrap().end(), 18);
    assert_eq!(tail.instructions().last().unwrap().opcode(), Opcode::IfEqz);
}

#[test]
fn split_hands_the_successors_to_the_tail() {
    let mut graph = get_blocks(&ON_START).unwrap();
    let order = graph.blocks_by_offset();
    let (first, second, third, last) = (order[0], order[1], order[2], order[3]);
    assert_eq!(sorted(graph.block(second).successors().clone()), sorted(vec![third, last]));
    let before: Vec<Vec<usize>> =
        graph.blocks().iter().map(|block| block.successors().clone()).collect();
    let old_predecessors = graph.block(second).predecessors().clone();

    // The block at 9 holds instructions at 9, 11, 14 and 15.
    let tail = graph.split(second, 14, true);

    assert_eq!(tail, 4);
    assert_eq!(graph.len(), 5);
    assert_eq!(graph.block(second).successors(), &vec![tail]);
    assert_eq!(graph.block(second).predecessors(), &old_predecessors);
    assert_eq!(graph.block(second).start_offset(), 9);
    assert_eq!(graph.block(second).instructions().len(), 2);
    assert_eq!(graph.block(tail).start_offset(), 14);
    assert!(graph.block(tail).is_exception_entry());
    assert_eq!(graph.block(tail).instructions().len(), 2);
    assert_eq!(graph.block(tail).instructions()[0].offset(), 14);
    assert_eq!(graph.block(tail).successors(), &before[second]);
    assert_eq!(graph.block(tail).predecessors(), &vec![second]);
    // Every other block points where it pointed.
    for index in [first, third, last] {
        assert_eq!(graph.block(index).successors(), &before[index]);
    }
    assert!(graph.block(first).successors().contains(&second));
    // The old successors name the tail in place of the head.
    assert!(graph.block(third).predecessors().contains(&tail));
    assert!(!graph.block(third).predecessors().contains(&second));
    assert!(graph.block(last).predecessors().contains(&tail));
    assert!(!graph.block(last).predecessors().contains(&second));
    assert_edges_paired(&graph);
}

#[test]
fn split_of_a_loop_moves_the_back_edge() {
    let words = [0x0000u16, 0x0000, 0x0000, 0x000e];
    let mut graph = MethodGraph::new(false);
    for offset in 0..3 {
        graph.push_instruction(0, decode(&words, offset));
    }
    graph.add_edge(0, 0);
    let tail = graph.split(0, 1, false);
    assert_eq!(graph.block(0).successors(), &vec![tail]);
    assert_eq!(graph.block(0).predecessors(), &vec![tail]);
    assert_eq!(graph.block(tail).successors(), &vec![0]);
    assert_eq!(graph.block(tail).predecessors(), &vec![0]);
    assert_eq!(graph.block(0).instructions().len(), 1);
    assert_eq!(graph.block(tail).instructions().len(), 2);
    assert_edges_paired(&graph);
}

#[test]
fn graph_can_be_put_together_by_hand() {
    let words = [0x0012u16, 0x000e];
    let mut graph = MethodGraph::new(true);
    assert_eq!(graph.len(), 1);
    assert!(graph.block(0).is_exception_entry());
    let second = graph.add_block(1, false);
    assert_eq!(second, 1);
    graph.push_instruction(0, decode(&words, 0));
    graph.push_instruction(1, decode(&words, 1));
    graph.add_edge(0, 1);
    graph.add_edge(0, 1);
    assert_eq!(graph.block(0).successors(), &vec![1]);
    assert_eq!(graph.block(1).predecessors(), &vec![0]);
    assert!(graph.block(0).has_succ(1));
    assert!(!graph.block(1).has_succ(0));
    assert_eq!(graph.blocks_by_offset(), vec![0, 1]);
}

#[test]
fn blocks_are_listed_by_ascending_start() {
    let mut graph = MethodGraph::new(false);
    graph.add_block(30, false);
    graph.add_block(10, false);
    graph.add_block(20, false);
    assert_eq!(graph.blocks_by_offset(), vec![0, 2, 3, 1]);
}

#[test]
fn block_keeps_each_edge_once() {
    let mut block = BasicBlock::new(7, false);
    assert_eq!(block.start_offset(), 7);
    block.add_succ(3);
    block.add_succ(4);
    block.add_succ(3);
    block.add_prev(1);
    block.add_prev(1);
    assert_eq!(block.successors(), &vec![3, 4]);
    assert_eq!(block.predecessors(), &vec![1]);
    block.add_prev(2);
    block.rename_prev(1, 9);
    assert_eq!(block.predecessors(), &vec![9, 2]);
    block.push(decode(&[0x000e], 0));
    assert_eq!(block.instructions().len(), 1);
    let rest = block.split_off(0, 0, true, 5, 6);
    assert_eq!(block.instructions().len(), 0);
    assert_eq!(block.successors(), &vec![6]);
    assert_eq!(rest.instructions().len(), 1);
    assert_eq!(rest.successors(), &vec![3, 4]);
    assert_eq!(rest.predecessors(), &vec![5]);
    assert!(rest.is_exception_entry());
}

#[test]
fn block_starts_behind_a_return_if_a_word_follows() {
    // return-void, return-void: the second is entered by no edge.
    let graph = get_blocks(&[0x000e, 0x000e]).unwrap();
    assert_eq!(start_offsets(&graph), vec![0, 1]);
    assert_eq!(successor_offsets(&graph, 0), vec![]);
    assert_eq!(predecessor_offsets(&graph, 1), vec![]);
    // A zero word behind the return starts nothing.
    let graph = get_blocks(&[0x000e, 0x0000, 0x000e]).unwrap();
    assert_eq!(start_offsets(&graph), vec![0]);
    // Nor does a data table.
    let graph = get_blocks(&[0x000e, 0x0300, 1, 0]).unwrap();
    assert_eq!(start_offsets(&graph), vec![0]);
    // Behind a throw as behind a return.
    let graph = get_blocks(&[0x0027, 0x000d, 0x000e]).unwrap();
    assert_eq!(start_offsets(&graph), vec![0, 1]);
}

#[test]
fn block_without_terminator_ends_with_the_buffer() {
    let graph = get_blocks(&[0x0012, 0x0000]).unwrap();
    assert_eq!(graph.len(), 1);
    assert_eq!(graph.block(0).instructions().len(), 2);
    assert!(graph.block(0).successors().is_empty());
    // or with a data table
    let graph = get_blocks(&[0x0012, 0x0100, 0, 0, 0]).unwrap();
    assert_eq!(graph.len(), 1);
    assert_eq!(graph.block(0).instructions().len(), 1);
}

#[test]
fn words_no_path_reaches_are_not_decoded() {
    let graph = get_blocks(&[0x0228, 0x003e, 0x000e]).unwrap();
    assert_eq!(start_offsets(&graph), vec![0, 2]);
}

#[test]
fn packed_switch_has_an_edge_for_each_target() {
    let graph = get_blocks(&PACKED).unwrap();
    assert_eq!(start_offsets(&graph), vec![0, 3, 4]);
    assert_eq!(successor_offsets(&graph, 0), vec![3, 4]);
    assert_eq!(successor_offsets(&graph, 3), vec![4]);
    assert_eq!(successor_offsets(&graph, 4), vec![]);
    assert_edges_paired(&graph);
}

#[test]
fn sparse_switch_has_an_edge_for_each_target() {
    let graph = get_blocks(&SPARSE).unwrap();
    assert_eq!(start_offsets(&graph), vec![0, 4, 5]);
    assert_eq!(successor_offsets(&graph, 0), vec![4, 5]);
    assert_eq!(graph.block(0).instructions().len(), 2);
    assert_eq!(predecessor_offsets(&graph, 5), vec![0]);
}

#[test]
fn switch_table_gives_keys_and_targets() {
    let table = read_switch_table(&PACKED, &decode(&PACKED, 0)).unwrap();
    assert_eq!(table, vec![(10, 3), (11, 4)]);
    let table = read_switch_table(&SPARSE, &decode(&SPARSE, 1)).unwrap();
    assert_eq!(table, vec![(5, 4), (-1, 5)]);
    let empty = [0x002bu16, 3, 0, 0x0100, 0, 0, 0];
    assert_eq!(read_switch_table(&empty, &decode(&empty, 0)).unwrap(), vec![]);
}

#[test]
fn malformed_switch_table_is_an_error() {
    let expected = BuildError::SwitchPayload { offset: 0 };
    // the tag of the other kind
    let mut words = PACKED;
    words[6] = 0x0200;
    assert_eq!(get_blocks(&words).unwrap_err(), expected);
    assert_eq!(read_switch_table(&words, &decode(&words, 0)).unwrap_err(), expected);
    // more entries than the buffer holds
    let mut words = PACKED;
    words[7] = 3;
    assert_eq!(get_blocks(&words).unwrap_err(), expected);
    // a table past the buffer
    let mut words = PACKED;
    words[1] = 14;
    assert_eq!(get_blocks(&words).unwrap_err(), expected);
    // a table before the method
    let mut words = PACKED;
    words[1] = 0xffff;
    words[2] = 0xffff;
    assert_eq!(get_blocks(&words).unwrap_err(), expected);
    // a table cut off behind its tag
    assert_eq!(
        get_blocks(&[0x002b, 3, 0, 0x0100]).unwrap_err(),
        BuildError::SwitchPayload { offset: 0 }
    );
    let mut words = SPARSE;
    words[7] = 3;
    assert_eq!(get_blocks(&words).unwrap_err(), BuildError::SwitchPayload { offset: 1 });
}

#[test]
fn switch_target_outside_the_method_is_an_error() {
    let mut words = PACKED;
    words[12] = 14;
    assert_eq!(get_blocks(&words).unwrap_err(), BuildError::BranchTarget { offset: 0 });
    assert_eq!(
        read_switch_table(&words, &decode(&words, 0)).unwrap_err(),
        BuildError::BranchTarget { offset: 0 }
    );
    let mut words = PACKED;
    words[12] = 0;
    assert_eq!(get_blocks(&words).unwrap_err(), BuildError::BranchTarget { offset: 0 });
}

#[test]
fn branch_with_no_place_to_go_is_an_error() {
    // goto +0 leads to the entry
    assert_eq!(get_blocks(&[0x0028]).unwrap_err(), BuildError::BranchTarget { offset: 0 });
    assert_eq!(
        get_blocks(&[0x0000, 0xff28]).unwrap_err(),
        BuildError::BranchTarget { offset: 1 }
    );
    // goto +5 leads past the buffer
    assert_eq!(get_blocks(&[0x0528]).unwrap_err(), BuildError::BranchTarget { offset: 0 });
    // goto -3 leads before the method
    assert_eq!(
        get_blocks(&[0x0000, 0xfd28]).unwrap_err(),
        BuildError::BranchTarget { offset: 1 }
    );
    // goto +1 leads to a data table
    assert_eq!(
        get_blocks(&[0x0128, 0x0100, 0, 0]).unwrap_err(),
        BuildError::BranchTarget { offset: 0 }
    );
    // an `if` at the end of the buffer has nothing to fall through to
    assert_eq!(
        get_blocks(&[0x0000, 0x0000, 0x0038, 0xffff]).unwrap_err(),
        BuildError::BranchTarget { offset: 2 }
    );
}

#[test]
fn undecodable_word_on_a_path_is_an_error() {
    assert_eq!(
        get_blocks(&[0x0000, 0x003e]).unwrap_err(),
        BuildError::Decode(InstructionParsingError { byte: 0x3e, offset: 1 })
    );
    assert_eq!(
        get_blocks(&[0x00e3]).unwrap_err(),
        BuildError::Decode(InstructionParsingError { byte: 0xe3, offset: 0 })
    );
    // at the target of a branch
    assert_eq!(
        get_blocks(&[0x0228, 0x0000, 0x0073]).unwrap_err(),
        BuildError::Decode(InstructionParsingError { byte: 0x73, offset: 2 })
    );
    // behind a return
    assert_eq!(
        get_blocks(&[0x000e, 0x0079]).unwrap_err(),
        BuildError::Decode(InstructionParsingError { byte: 0x79, offset: 1 })
    );
    // an instruction cut off by the end of the buffer
    assert_eq!(
        get_blocks(&[0x0000, 0x0013]).unwrap_err(),
        BuildError::Decode(InstructionParsingError { byte: 0x13, offset: 1 })
    );
}

#[test]
fn method_without_a_first_instruction_is_an_error() {
    assert_eq!(get_blocks(&[]).unwrap_err(), BuildError::NoEntry);
    assert_eq!(get_blocks(&[0x0100, 0, 0, 0]).unwrap_err(), BuildError::NoEntry);
    assert_eq!(build(&[], &[(0, 1)]).unwrap_err(), BuildError::NoEntry);
}

#[test]
fn exception_ranges_mark_the_blocks_that_start_them() {
    let graph = build(&HASH_CODE, &[(14, 18), (25, 26), (3, 5)]).unwrap();
    let marked: Vec<usize> = graph
        .blocks_by_offset()
        .iter()
        .map(|&index| graph.block(index))
        .filter(|block| block.is_exception_entry())
        .map(|block| block.start_offset())
        .collect();
    assert_eq!(marked, vec![14, 25]);
    // the ranges add no block and no edge
    assert_eq!(start_offsets(&graph), vec![0, 12, 14, 18, 25, 26]);
    assert_eq!(successor_offsets(&graph, 0), vec![12, 14]);
    let graph = build(&HASH_CODE, &[(0, 28)]).unwrap();
    assert!(graph.block(graph.entry()).is_exception_entry());
    let graph = get_blocks(&HASH_CODE).unwrap();
    assert!(graph.blocks().iter().all(|block| !block.is_exception_entry()));
    assert!(is_range_start(&[(1, 2), (5, 9)], 5));
    assert!(!is_range_start(&[(1, 2), (5, 9)], 9));
}

#[test]
fn run_may_step_over_a_branch_target() {
    // 0: if-eqz v0, +3 -> 3; fallthrough 2
    // 2: const/16 v0, #0x000e (two words, the second reads as return-void)
    // 3: return-void, also the second word of the const/16
    let graph = get_blocks(&[0x0038, 3, 0x0013, 0x000e]).unwrap();
    assert_eq!(start_offsets(&graph), vec![0, 2, 3]);
    assert_eq!(successor_offsets(&graph, 0), vec![2, 3]);
    assert_eq!(successor_offsets(&graph, 2), vec![]);
}

#[test]
fn overlapping_runs_meet_in_a_block_of_their_own() {
    // 0: if-eqz v0, +3 -> 3; fallthrough 2
    // 2: const/16, whose second word reads as const/4 at 3
    // 4: return-void, which both runs reach
    let graph = get_blocks(&[0x0038, 3, 0x0013, 0x0012, 0x000e]).unwrap();
    assert_eq!(start_offsets(&graph), vec![0, 2, 3, 4]);
    assert_eq!(successor_offsets(&graph, 2), vec![4]);
    assert_eq!(successor_offsets(&graph, 3), vec![4]);
    assert_eq!(predecessor_offsets(&graph, 4), vec![2, 3]);
    assert_edges_paired(&graph);
}
