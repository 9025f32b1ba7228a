//! Where control can go in a method, stated over the words alone: which
//! offsets a scan from the entry visits, which of them must start a block, and
//! what makes a method unfit for a graph.

use vstd::prelude::*;

use crate::error::BuildError;
use crate::instruction::{spec_decode, InstructionView};
use crate::opcode::{Opcode, TerminatorKind};
use crate::words::{sign_extend_32, spec_concat_words};

verus! {

/// The instruction at `offset`, if there is one.
pub open spec fn instruction_at(words: Seq<u16>, offset: int) -> Option<InstructionView> {
    if 0 <= offset < words.len() {
        match spec_decode(words, offset) {
            Ok(Some((instruction, _))) => Some(instruction),
            _ => None,
        }
    } else {
        None
    }
}

/// The first word of the table a switch instruction must point at.
pub open spec fn switch_tag(opcode: Opcode) -> u16 {
    if opcode == Opcode::PackedSwitch {
        0x0100
    } else {
        0x0200
    }
}

/// The number of entries of the table at `table`: its second word.
pub open spec fn switch_size(words: Seq<u16>, table: int) -> int {
    words[table + 1] as int
}

/// Where the targets of the table at `table` begin. A packed table holds its
/// first key before them, a sparse table one key for each entry.
pub open spec fn switch_targets_at(opcode: Opcode, words: Seq<u16>, table: int) -> int {
    if opcode == Opcode::PackedSwitch {
        table + 4
    } else {
        table + 2 + 2 * switch_size(words, table)
    }
}

/// The switch instruction `switch` points at a table of its own kind that
/// lies wholly inside the buffer.
pub open spec fn switch_table_ok(words: Seq<u16>, switch: InstructionView) -> bool {
    let table = switch.target();
    &&& 0 <= table
    &&& table + 2 <= words.len()
    &&& words[table] == switch_tag(switch.opcode)
    &&& switch_targets_at(switch.opcode, words, table) + 2 * switch_size(words, table)
        <= words.len()
}

/// Two words of the buffer read as one signed number, the first word low.
pub open spec fn signed_pair(words: Seq<u16>, at: int) -> int {
    sign_extend_32(spec_concat_words(words[at], words[at + 1]))
}

/// The key of entry `index` of the table of `switch`: in a packed table the
/// first key plus the index, in a sparse table the key stored for the entry.
pub open spec fn switch_key(words: Seq<u16>, switch: InstructionView, index: int) -> int {
    let table = switch.target();
    if switch.opcode == Opcode::PackedSwitch {
        signed_pair(words, table + 2) + index
    } else {
        signed_pair(words, table + 2 + 2 * index)
    }
}

/// The offset entry `index` of the table of `switch` leads to. The table
/// stores it relative to the switch instruction.
pub open spec fn switch_target(words: Seq<u16>, switch: InstructionView, index: int) -> int {
    let table = switch.target();
    switch.offset + signed_pair(
        words,
        switch_targets_at(switch.opcode, words, table) + 2 * index,
    )
}

/// `to` is an offset the instruction passes control to by an edge: the target
/// of a `goto`, the target of an `if` or the offset after it, a target of a
/// switch with a well-formed table.
pub open spec fn is_branch_target(words: Seq<u16>, instruction: InstructionView, to: int) -> bool {
    match instruction.opcode.spec_terminator() {
        TerminatorKind::Goto => to == instruction.target(),
        TerminatorKind::ConditionalBranch => to == instruction.target() || to
            == instruction.end(),
        TerminatorKind::Switch => switch_table_ok(words, instruction) && exists|index: int|
            0 <= index < switch_size(words, instruction.target()) && to == #[trigger] switch_target(
                words,
                instruction,
                index,
            ),
        _ => false,
    }
}

/// A block can start at `to` although no edge leads there: `to` follows a
/// `return` or a `throw`, inside the buffer, and the word there is not zero.
pub open spec fn resumes_at(words: Seq<u16>, instruction: InstructionView, to: int) -> bool {
    &&& instruction.opcode.spec_terminator() == TerminatorKind::Return
        || instruction.opcode.spec_terminator() == TerminatorKind::Throw
    &&& to == instruction.end()
    &&& to < words.len()
    &&& words[to] != 0
}

/// A scan that has read the instruction at `from` goes on to read at `to`.
pub open spec fn scan_step(words: Seq<u16>, from: int, to: int) -> bool {
    match instruction_at(words, from) {
        Some(instruction) => {
            ||| instruction.opcode.spec_terminator() == TerminatorKind::NoTerminator && to
                == instruction.end() && to < words.len()
            ||| resumes_at(words, instruction, to)
            ||| is_branch_target(words, instruction, to)
        },
        None => false,
    }
}

/// From its place `i` to the next, `path` makes a step of the scan.
pub open spec fn path_step(words: Seq<u16>, path: Seq<int>, i: int) -> bool {
    scan_step(words, path[i], path[i + 1])
}

/// `path` starts at the entry and goes on by steps of the scan.
pub open spec fn is_scan_path(words: Seq<u16>, path: Seq<int>) -> bool {
    &&& path.len() > 0
    &&& path[0] == 0
    &&& forall|i: int| 0 <= i < path.len() - 1 ==> #[trigger] path_step(words, path, i)
}

/// The scan of the method reads at `offset`.
pub open spec fn scanned(words: Seq<u16>, offset: int) -> bool {
    exists|path: Seq<int>| is_scan_path(words, path) && #[trigger] path.last() == offset
}

/// A block must start at `offset`: it is the entry, or a scanned instruction
/// that ends its block leads there, or two scanned instructions both run on
/// into it.
pub open spec fn is_leader(words: Seq<u16>, offset: int) -> bool {
    ||| offset == 0
    ||| exists|from: int| #[trigger] leads(words, from, offset)
    ||| exists|one: int, other: int|
        one != other && #[trigger] runs_into(words, one, offset) && #[trigger] runs_into(
            words,
            other,
            offset,
        )
}

/// The scanned instruction at `from` ends no block, and `to` follows it directly.
pub open spec fn runs_into(words: Seq<u16>, from: int, to: int) -> bool {
    &&& scanned(words, from)
    &&& instruction_at(words, from) matches Some(instruction)
        && instruction.opcode.spec_terminator() == TerminatorKind::NoTerminator
        && instruction.end() == to
}

/// The scanned instruction at `from` ends its block and passes control to `to`,
/// or lets a block start there.
pub open spec fn leads(words: Seq<u16>, from: int, to: int) -> bool {
    &&& scanned(words, from)
    &&& instruction_at(words, from) matches Some(instruction) && (is_branch_target(
        words,
        instruction,
        to,
    ) || resumes_at(words, instruction, to))
}

/// What makes a method unfit for a graph, and the error that says so.
pub open spec fn is_defect(words: Seq<u16>, error: BuildError) -> bool {
    match error {
        BuildError::NoEntry => words.len() == 0 || spec_decode(words, 0) matches Ok(None),
        BuildError::Decode(failure) => {
            &&& scanned(words, failure.offset as int)
            &&& failure.offset < words.len()
            &&& spec_decode(words, failure.offset as int) matches Err(found) && found == failure
        },
        BuildError::SwitchPayload { offset } => {
            &&& scanned(words, offset as int)
            &&& instruction_at(words, offset as int) matches Some(instruction)
                && instruction.opcode.spec_terminator() == TerminatorKind::Switch
                && !switch_table_ok(words, instruction)
        },
        BuildError::BranchTarget { offset } => {
            &&& scanned(words, offset as int)
            &&& instruction_at(words, offset as int) matches Some(instruction) && exists|to: int|
                #[trigger] is_branch_target(words, instruction, to) && !can_start_block(words, to)
        },
    }
}

/// An edge can lead to `offset`: it lies inside the buffer, is not the entry,
/// and is not the first word of a data table.
pub open spec fn can_start_block(words: Seq<u16>, offset: int) -> bool {
    &&& 0 < offset < words.len()
    &&& !(spec_decode(words, offset) matches Ok(None))
}

/// The scan reads at the entry.
pub proof fn lemma_scanned_entry(words: Seq<u16>)
    ensures
        scanned(words, 0),
{
    let path = seq![0int];
    assert(is_scan_path(words, path));
    assert(path.last() == 0);
}

/// The scan reads wherever a step from a scanned offset leads.
pub proof fn lemma_scanned_step(words: Seq<u16>, from: int, to: int)
    requires
        scanned(words, from),
        scan_step(words, from, to),
    ensures
        scanned(words, to),
{
    let path = choose|path: Seq<int>| is_scan_path(words, path) && #[trigger] path.last() == from;
    let longer = path.push(to);
    assert forall|i: int| 0 <= i < longer.len() - 1 implies #[trigger] path_step(
        words,
        longer,
        i,
    ) by {
        if i < path.len() - 1 {
            assert(path_step(words, path, i));
            assert(longer[i] == path[i]);
            assert(longer[i + 1] == path[i + 1]);
        } else {
            assert(longer[i] == path.last());
        }
    }
    assert(is_scan_path(words, longer));
    assert(longer.last() == to);
}

} // verus!
