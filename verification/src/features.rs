//! The summary of a basic block: how many instructions it holds, how many of
//! them fall into each class of opcodes, how it ends, and whether an exception
//! handler starts with it.

use vstd::prelude::*;

use crate::block::BasicBlock;
use crate::instruction::Instruction;
use crate::opcode::{Category, TerminatorKind};

verus! {

/// A share of the instructions of a block, as a fraction. The share of an
/// empty block has the denominator 0 and counts as zero.
#[derive(Clone, Copy, Debug, PartialEq, Eq, Structural, Hash)]
pub struct Ratio {
    pub numerator: usize,
    pub denominator: usize,
}

impl Ratio {
    /// The share counted in parts of `scale`, rounded down: in hundredths for
    /// a `scale` of 100. The share of an empty block is zero.
    pub open spec fn spec_scaled(self, scale: usize) -> int {
        if self.denominator == 0 {
            0
        } else {
            (self.numerator * scale) / (self.denominator as int)
        }
    }

    /// The share counted in parts of `scale`, rounded down.
    pub fn scaled(self, scale: usize) -> (parts: usize)
        requires
            self.numerator <= self.denominator,
        ensures
            parts == self.spec_scaled(scale),
            parts <= scale,
    {
        if self.denominator == 0 {
            0
        } else {
            proof {
                assert(self.numerator * scale <= 0xffff_ffff_ffff_ffff * 0xffff_ffff_ffff_ffff)
                    by (nonlinear_arith)
                    requires
                        self.numerator <= 0xffff_ffff_ffff_ffff,
                        scale <= 0xffff_ffff_ffff_ffff,
                ;
            }
            let product: u128 = (self.numerator as u128) * (scale as u128);
            let parts: u128 = product / (self.denominator as u128);
            proof {
                assert(self.numerator * scale <= self.denominator * scale) by (nonlinear_arith)
                    requires
                        self.numerator <= self.denominator,
                ;
                assert((self.numerator * scale) / (self.denominator as int) <= scale) by (nonlinear_arith)
                    requires
                        self.numerator * scale <= self.denominator * scale,
                        self.denominator > 0,
                ;
            }
            parts as usize
        }
    }
}

/// The summary of one block.
#[derive(Clone, Copy, Debug, PartialEq, Eq, Structural, Hash)]
pub struct BlockFeatures {
    pub instruction_count: usize,
    pub moves: usize,
    pub constants: usize,
    pub accesses: usize,
    pub invocations: usize,
    pub arithmetic: usize,
    pub comparisons: usize,
    pub monitors: usize,
    pub terminator_kind: TerminatorKind,
    pub is_exception_entry: bool,
}

/// The number of instructions of the class `category` among `instructions`.
pub open spec fn count_category(instructions: Seq<Instruction>, category: Category) -> nat
    decreases instructions.len(),
{
    if instructions.len() == 0 {
        0
    } else {
        count_category(instructions.drop_last(), category) + if instructions.last()@.opcode.spec_category()
            == Some(category) {
            1nat
        } else {
            0nat
        }
    }
}

/// The number of instructions among `instructions` that fall into some class.
pub open spec fn count_recognized(instructions: Seq<Instruction>) -> nat
    decreases instructions.len(),
{
    if instructions.len() == 0 {
        0
    } else {
        count_recognized(instructions.drop_last()) + if instructions.last()@.opcode.spec_category().is_some() {
            1nat
        } else {
            0nat
        }
    }
}

/// The sum of the counts of all classes.
pub open spec fn count_all_categories(instructions: Seq<Instruction>) -> nat {
    count_category(instructions, Category::Move) + count_category(instructions, Category::Constant)
        + count_category(instructions, Category::Access) + count_category(
        instructions,
        Category::Invoke,
    ) + count_category(instructions, Category::Arithmetic) + count_category(
        instructions,
        Category::Comparison,
    ) + count_category(instructions, Category::Monitor)
}

/// How a run of instructions ends: by its last instruction, if it has one.
pub open spec fn spec_terminator_kind(instructions: Seq<Instruction>) -> TerminatorKind {
    if instructions.len() == 0 {
        TerminatorKind::NoTerminator
    } else {
        instructions.last()@.opcode.spec_terminator()
    }
}

/// The counts of the classes add up to the number of instructions that fall
/// into a class, which is at most the number of all instructions: the shares
/// of the classes add up to at most one.
pub proof fn lemma_ratio_bound(instructions: Seq<Instruction>)
    ensures
        count_all_categories(instructions) == count_recognized(instructions),
        count_recognized(instructions) <= instructions.len(),
    decreases instructions.len(),
{
    if instructions.len() > 0 {
        lemma_ratio_bound(instructions.drop_last());
    }
}

impl BlockFeatures {
    /// The number of instructions counted in the class `category`.
    pub open spec fn spec_count(self, category: Category) -> usize {
        match category {
            Category::Move => self.moves,
            Category::Constant => self.constants,
            Category::Access => self.accesses,
            Category::Invoke => self.invocations,
            Category::Arithmetic => self.arithmetic,
            Category::Comparison => self.comparisons,
            Category::Monitor => self.monitors,
        }
    }

    /// The summary is the one of a block with the instructions `instructions`.
    pub open spec fn summarizes(self, instructions: Seq<Instruction>) -> bool {
        &&& self.instruction_count == instructions.len()
        &&& forall|category: Category| #[trigger]
            self.spec_count(category) == count_category(instructions, category)
        &&& self.terminator_kind == spec_terminator_kind(instructions)
    }

    #[verifier::when_used_as_spec(spec_count)]
    pub fn count(self, category: Category) -> (count: usize)
        ensures
            count == self.spec_count(category),
    {
        match category {
            Category::Move => self.moves,
            Category::Constant => self.constants,
            Category::Access => self.accesses,
            Category::Invoke => self.invocations,
            Category::Arithmetic => self.arithmetic,
            Category::Comparison => self.comparisons,
            Category::Monitor => self.monitors,
        }
    }

    /// The share of the class `category` among the instructions of the block.
    pub fn category_ratio(self, category: Category) -> (ratio: Ratio)
        ensures
            ratio.numerator == self.spec_count(category),
            ratio.denominator == self.instruction_count,
            ratio == (Ratio {
                numerator: self.spec_count(category),
                denominator: self.instruction_count,
            }),
    {
        Ratio { numerator: self.count(category), denominator: self.instruction_count }
    }

    /// The number of instructions that fall into some class.
    pub fn recognized(self) -> (count: usize)
        requires
            self.moves + self.constants + self.accesses + self.invocations + self.arithmetic
                + self.comparisons + self.monitors <= self.instruction_count,
        ensures
            count == self.moves + self.constants + self.accesses + self.invocations
                + self.arithmetic + self.comparisons + self.monitors,
    {
        self.moves + self.constants + self.accesses + self.invocations + self.arithmetic
            + self.comparisons + self.monitors
    }
}

/// Summarizes a block.
pub fn features(block: &BasicBlock) -> (summary: BlockFeatures)
    ensures
        summary.summarizes(block@.instructions),
        summary.is_exception_entry == block@.is_exception_entry,
        summary.moves + summary.constants + summary.accesses + summary.invocations
            + summary.arithmetic + summary.comparisons + summary.monitors == count_recognized(
            block@.instructions,
        ),
        count_recognized(block@.instructions) <= summary.instruction_count,
{
    let instructions = block.instructions();
    let mut summary = BlockFeatures {
        instruction_count: instructions.len(),
        moves: 0,
        constants: 0,
        accesses: 0,
        invocations: 0,
        arithmetic: 0,
        comparisons: 0,
        monitors: 0,
        terminator_kind: TerminatorKind::NoTerminator,
        is_exception_entry: block.is_exception_entry(),
    };
    let mut i: usize = 0;
    while i < instructions.len()
        invariant
            i <= instructions@.len(),
            summary.instruction_count == instructions@.len(),
            summary.is_exception_entry == block@.is_exception_entry,
            summary.moves == count_category(instructions@.take(i as int), Category::Move),
            summary.constants == count_category(instructions@.take(i as int), Category::Constant),
            summary.accesses == count_category(instructions@.take(i as int), Category::Access),
            summary.invocations == count_category(instructions@.take(i as int), Category::Invoke),
            summary.arithmetic == count_category(
                instructions@.take(i as int),
                Category::Arithmetic,
            ),
            summary.comparisons == count_category(
                instructions@.take(i as int),
                Category::Comparison,
            ),
            summary.monitors == count_category(instructions@.take(i as int), Category::Monitor),
            summary.terminator_kind == spec_terminator_kind(instructions@.take(i as int)),
        decreases instructions@.len() - i,
    {
        let opcode = instructions[i].opcode();
        proof {
            let longer = instructions@.take(i + 1);
            assert(longer.drop_last() =~= instructions@.take(i as int));
            assert(longer.last() == instructions@[i as int]);
            lemma_ratio_bound(longer);
            lemma_ratio_bound(instructions@.take(i as int));
        }
        match opcode.category() {
            Some(Category::Move) => {
                summary.moves += 1;
            },
            Some(Category::Constant) => {
                summary.constants += 1;
            },
            Some(Category::Access) => {
                summary.accesses += 1;
            },
            Some(Category::Invoke) => {
                summary.invocations += 1;
            },
            Some(Category::Arithmetic) => {
                summary.arithmetic += 1;
            },
            Some(Category::Comparison) => {
                summary.comparisons += 1;
            },
            Some(Category::Monitor) => {
                summary.monitors += 1;
            },
            None => {},
        }
        summary.terminator_kind = opcode.terminator();
        i += 1;
    }
    proof {
        assert(instructions@.take(i as int) =~= instructions@);
        lemma_ratio_bound(instructions@);
        assert forall|category: Category| #[trigger]
            summary.spec_count(category) == count_category(instructions@, category) by {
            match category {
                Category::Move => {},
                Category::Constant => {},
                Category::Access => {},
                Category::Invoke => {},
                Category::Arithmetic => {},
                Category::Comparison => {},
                Category::Monitor => {},
            }
        }
    }
    summary
}

} // verus!
