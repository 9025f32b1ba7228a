use dex_cfg::block::BasicBlock;
use dex_cfg::builder::{build, get_blocks};
use dex_cfg::features::{features, BlockFeatures, Ratio};
use dex_cfg::instruction::Instruction;
use dex_cfg::opcode::{Category, TerminatorKind};

const CATEGORIES: [Category; 7] = [
    Category::Move,
    Category::Constant,
    Category::Access,
    Category::Invoke,
    Category::Arithmetic,
    Category::Comparison,
    Category::Monitor,
];

const HASH_CODE: [u16; 28] = [
    8276, 11170, 4206, 1757, 0, 10, 218, 7936, 8532, 11172, 313, 4, 274, 1320, 4206, 1757, 1, 266,
    4272, 218, 7936, 8533, 11171, 312, 3, 4370, 4272, 15,
];

fn block_of(words: &[u16]) -> BasicBlock {
    let mut block = BasicBlock::new(0, false);
    let mut offset = 0;
    while offset < words.len() {
        let (instruction, length) =
            Instruction::try_from_raw_bytecode(words, offset).unwrap().unwrap();
        block.push(instruction);
        offset += length;
    }
    block
}

fn summary_at(words: &[u16], start: usize) -> BlockFeatures {
    let graph = get_blocks(words).unwrap();
    let block = graph.blocks().iter().find(|block| block.start_offset() == start).unwrap();
    features(block)
}

#[test]
fn empty_block_has_zero_shares() {
    let summary = features(&BasicBlock::new(0, false));
    assert_eq!(summary.instruction_count, 0);
    assert_eq!(summary.terminator_kind, TerminatorKind::NoTerminator);
    assert!(!summary.is_exception_entry);
    for category in CATEGORIES {
        assert_eq!(summary.count(category), 0);
        assert_eq!(summary.category_ratio(category), Ratio { numerator: 0, denominator: 0 });
    }
    assert_eq!(summary.recognized(), 0);
}

#[test]
fn entry_block_of_hash_code() {
    // iget-object, invoke-virtual, move-result, mul-int/lit8, iget-object, if-nez
    let summary = summary_at(&HASH_CODE, 0);
    assert_eq!(
        summary,
        BlockFeatures {
            instruction_count: 6,
            moves: 1,
            constants: 0,
            accesses: 2,
            invocations: 1,
            arithmetic: 1,
            comparisons: 0,
            monitors: 0,
            terminator_kind: TerminatorKind::ConditionalBranch,
            is_exception_entry: false,
        }
    );
    assert_eq!(summary.category_ratio(Category::Access), Ratio { numerator: 2, denominator: 6 });
    assert_eq!(summary.category_ratio(Category::Monitor), Ratio { numerator: 0, denominator: 6 });
    assert_eq!(summary.recognized(), 5);
}

#[test]
fn terminator_is_read_from_the_last_instruction() {
    assert_eq!(summary_at(&HASH_CODE, 12).terminator_kind, TerminatorKind::Goto);
    assert_eq!(summary_at(&HASH_CODE, 14).terminator_kind, TerminatorKind::NoTerminator);
    assert_eq!(summary_at(&HASH_CODE, 18).terminator_kind, TerminatorKind::ConditionalBranch);
    assert_eq!(summary_at(&HASH_CODE, 26).terminator_kind, TerminatorKind::Return);
    assert_eq!(features(&block_of(&[0x0027])).terminator_kind, TerminatorKind::Throw);
    assert_eq!(
        features(&block_of(&[0x002b, 0, 0])).terminator_kind,
        TerminatorKind::Switch
    );
    // a return in the middle does not count
    assert_eq!(
        features(&block_of(&[0x000e, 0x0012])).terminator_kind,
        TerminatorKind::NoTerminator
    );
}

#[test]
fn every_class_is_counted() {
    // move, const/4, aget, sput, invoke-static, neg-int, add-int, cmp-long,
    // monitor-enter, monitor-exit, nop, check-cast, return-void
    let words = [
        0x1001u16, 0x1012, 0x0044, 0x0201, 0x0067, 3, 0x0071, 4, 0, 0x107b, 0x0090, 0x0201,
        0x0031, 0x0201, 0x001d, 0x001e, 0x0000, 0x001f, 9, 0x000e,
    ];
    let summary = features(&block_of(&words));
    assert_eq!(summary.instruction_count, 13);
    assert_eq!(summary.moves, 1);
    assert_eq!(summary.constants, 1);
    assert_eq!(summary.accesses, 2);
    assert_eq!(summary.invocations, 1);
    assert_eq!(summary.arithmetic, 2);
    assert_eq!(summary.comparisons, 1);
    assert_eq!(summary.monitors, 2);
    assert_eq!(summary.recognized(), 10);
    assert_eq!(summary.terminator_kind, TerminatorKind::Return);
}

#[test]
fn shares_add_up_to_at_most_one() {
    let graph = get_blocks(&HASH_CODE).unwrap();
    for block in graph.blocks() {
        let summary = features(block);
        let mut sum = 0;
        for category in CATEGORIES {
            let ratio = summary.category_ratio(category);
            assert_eq!(ratio.denominator, block.instructions().len());
            sum += ratio.numerator;
        }
        let recognized = block
            .instructions()
            .iter()
            .filter(|instruction| instruction.opcode().category().is_some())
            .count();
        assert_eq!(sum, recognized);
        assert!(sum <= summary.instruction_count);
        assert_eq!(summary.recognized(), recognized);
    }
}

#[test]
fn unrecognized_block_has_zero_shares() {
    let summary = features(&block_of(&[0x0000, 0x0000, 0x000e]));
    assert_eq!(summary.instruction_count, 3);
    assert_eq!(summary.recognized(), 0);
    for category in CATEGORIES {
        assert_eq!(summary.category_ratio(category), Ratio { numerator: 0, denominator: 3 });
    }
}

#[test]
fn exception_entry_is_copied() {
    let graph = build(&HASH_CODE, &[(14, 18)]).unwrap();
    for block in graph.blocks() {
        assert_eq!(features(block).is_exception_entry, block.start_offset() == 14);
    }
    assert!(features(&BasicBlock::new(3, true)).is_exception_entry);
}

#[test]
fn shares_are_counted_in_parts() {
    assert_eq!(Ratio { numerator: 2, denominator: 6 }.scaled(100), 33);
    assert_eq!(Ratio { numerator: 2, denominator: 6 }.scaled(1000), 333);
    assert_eq!(Ratio { numerator: 6, denominator: 6 }.scaled(100), 100);
    assert_eq!(Ratio { numerator: 0, denominator: 6 }.scaled(100), 0);
    assert_eq!(Ratio { numerator: 0, denominator: 0 }.scaled(100), 0);
    assert_eq!(
        Ratio { numerator: usize::MAX, denominator: usize::MAX }.scaled(usize::MAX),
        usize::MAX
    );
    let summary = summary_at(&HASH_CODE, 0);
    assert_eq!(summary.category_ratio(Category::Access).scaled(100), 33);
    assert_eq!(summary.category_ratio(Category::Move).scaled(100), 16);
}
