//! The tables of the switch instructions, which lie among the instructions of
//! a method: a tag, the number of entries, the keys, and for each key the
//! distance from the switch instruction to the code for it.

use vstd::prelude::*;

use crate::error::BuildError;
use crate::flow::{
    signed_pair, switch_key, switch_size, switch_table_ok, switch_target, switch_targets_at,
};
use crate::instruction::Instruction;
use crate::opcode::Opcode;
use crate::words::{concat_words, signed_long};

verus! {

/// Reads two words as one signed number, the first word low.
fn read_signed_pair(words: &[u16], at: usize) -> (value: i32)
    requires
        at + 1 < words@.len(),
    ensures
        value == signed_pair(words@, at as int),
{
    signed_long(concat_words(words[at], words[at + 1]))
}

/// Reads the table of the switch instruction `switch`: for each entry its key
/// and the offset it leads to, counted from the start of the method.
///
/// The table must have the tag of the instruction's kind and lie inside the
/// buffer, or the answer is `SwitchPayload`; and every entry must lead to an
/// offset inside the buffer other than 0, or the answer is `BranchTarget`.
pub fn read_switch_table(words: &[u16], switch: &Instruction) -> (result: Result<
    Vec<(i64, usize)>,
    BuildError,
>)
    ensures
        match result {
            Ok(table) => {
                &&& switch_table_ok(words@, switch@)
                &&& table@.len() == switch_size(words@, switch@.target())
                &&& forall|i: int|
                    0 <= i < table@.len() ==> {
                        &&& (#[trigger] table@[i]).0 == switch_key(words@, switch@, i)
                        &&& table@[i].1 == switch_target(words@, switch@, i)
                        &&& 0 < table@[i].1 < words@.len()
                    }
            },
            Err(BuildError::SwitchPayload { offset }) => offset == switch@.offset
                && !switch_table_ok(words@, switch@),
            Err(BuildError::BranchTarget { offset }) => {
                &&& offset == switch@.offset
                &&& switch_table_ok(words@, switch@)
                &&& exists|i: int|
                    0 <= i < switch_size(words@, switch@.target()) && !(0 < #[trigger] switch_target(
                        words@,
                        switch@,
                        i,
                    ) < words@.len())
            },
            Err(_) => false,
        },
{
    let offset = switch.offset();
    let length = words.len();
    let place: i128 = switch.target();
    if place < 0 || place >= length as i128 {
        return Err(BuildError::SwitchPayload { offset });
    }
    let table: usize = place as usize;
    if length - table < 2 {
        return Err(BuildError::SwitchPayload { offset });
    }
    let packed = switch.opcode() == Opcode::PackedSwitch;
    let tag: u16 = if packed { 0x0100 } else { 0x0200 };
    if words[table] != tag {
        return Err(BuildError::SwitchPayload { offset });
    }
    let size: usize = words[table + 1] as usize;
    let header: usize = if packed { 4 } else { 2 + 2 * size };
    if length - table < header + 2 * size {
        return Err(BuildError::SwitchPayload { offset });
    }
    let base: usize = table + header;
    assert(base == switch_targets_at(switch@.opcode, words@, table as int));
    let mut entries: Vec<(i64, usize)> = Vec::new();
    let mut i: usize = 0;
    while i < size
        invariant
            i <= size,
            size == switch_size(words@, table as int),
            size <= 0xffff,
            table == switch@.target(),
            packed == (switch@.opcode == Opcode::PackedSwitch),
            header == if packed { 4int } else { 2 + 2 * size },
            base == table + header,
            base + 2 * size <= length,
            length == words@.len(),
            offset == switch@.offset,
            switch_table_ok(words@, switch@),
            entries@.len() == i,
            forall|j: int|
                0 <= j < i ==> {
                    &&& (#[trigger] entries@[j]).0 == switch_key(words@, switch@, j)
                    &&& entries@[j].1 == switch_target(words@, switch@, j)
                    &&& 0 < entries@[j].1 < words@.len()
                },
        decreases size - i,
    {
        let distance: i32 = read_signed_pair(words, base + 2 * i);
        let target: i128 = offset as i128 + distance as i128;
        assert(target == switch_target(words@, switch@, i as int));
        if target <= 0 || target >= length as i128 {
            return Err(BuildError::BranchTarget { offset });
        }
        let key: i64 = if packed {
            read_signed_pair(words, table + 2) as i64 + i as i64
        } else {
            read_signed_pair(words, table + 2 + 2 * i) as i64
        };
        entries.push((key, target as usize));
        i += 1;
    }
    Ok(entries)
}

} // verus!
