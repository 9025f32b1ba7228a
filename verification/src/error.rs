//! The ways in which decoding an instruction or building a graph can fail.

use vstd::prelude::*;
use vstd::string::StringExecFns;

verus! {

/// No instruction can be read at `offset`: `byte`, the opcode byte found there,
/// is reserved, or the instruction it names runs past the end of the buffer.
#[derive(Clone, Copy, Debug, PartialEq, Eq, Structural, Hash)]
pub struct InstructionParsingError {
    pub byte: u8,
    pub offset: usize,
}

/// Why a method has no graph.
#[derive(Clone, Copy, Debug, PartialEq, Eq, Structural, Hash)]
pub enum BuildError {
    /// The method is empty, or a data table lies where its first instruction should.
    NoEntry,
    /// An offset that control reaches holds no instruction.
    Decode(InstructionParsingError),
    /// The switch instruction at `offset` points at no well-formed table.
    SwitchPayload { offset: usize },
    /// The instruction at `offset` continues at an offset where no block can
    /// start: before or past the buffer, at the method's entry, or at the
    /// first word of a data table.
    BranchTarget { offset: usize },
}

impl InstructionParsingError {
    pub fn byte(&self) -> (byte: u8)
        ensures
            byte == self.byte,
    {
        self.byte
    }

    pub fn offset(&self) -> (offset: usize)
        ensures
            offset == self.offset,
    {
        self.offset
    }
}

/// The decimal digit for a number below ten.
pub open spec fn spec_digit(value: nat) -> Seq<char> {
    if value == 0 {
        "0"@
    } else if value == 1 {
        "1"@
    } else if value == 2 {
        "2"@
    } else if value == 3 {
        "3"@
    } else if value == 4 {
        "4"@
    } else if value == 5 {
        "5"@
    } else if value == 6 {
        "6"@
    } else if value == 7 {
        "7"@
    } else if value == 8 {
        "8"@
    } else {
        "9"@
    }
}

/// A number in decimal digits, without leading zeros.
pub open spec fn spec_decimal(value: nat) -> Seq<char>
    decreases value,
{
    if value < 10 {
        spec_digit(value)
    } else {
        spec_decimal(value / 10) + spec_digit(value % 10)
    }
}

fn digit(value: usize) -> (text: &'static str)
    requires
        value < 10,
    ensures
        text@ == spec_digit(value as nat),
{
    if value == 0 {
        "0"
    } else if value == 1 {
        "1"
    } else if value == 2 {
        "2"
    } else if value == 3 {
        "3"
    } else if value == 4 {
        "4"
    } else if value == 5 {
        "5"
    } else if value == 6 {
        "6"
    } else if value == 7 {
        "7"
    } else if value == 8 {
        "8"
    } else {
        "9"
    }
}

/// Writes a number in decimal digits.
pub fn decimal(value: usize) -> (text: String)
    ensures
        text@ == spec_decimal(value as nat),
{
    let mut text = String::from_str(digit(value % 10));
    let mut rest = value / 10;
    while rest > 0
        invariant
            spec_decimal(value as nat) == if rest == 0 {
                text@
            } else {
                spec_decimal(rest as nat) + text@
            },
        decreases rest,
    {
        let ghost before = text@;
        text = String::from_str(digit(rest % 10)).concat(text.as_str());
        proof {
            if rest >= 10 {
                assert(spec_decimal(rest as nat) + before =~= spec_decimal((rest / 10) as nat) + (
                spec_digit((rest % 10) as nat) + before));
            }
        }
        rest = rest / 10;
    }
    text
}

impl InstructionParsingError {
    /// What the error says, in words.
    pub open spec fn spec_message(self) -> Seq<char> {
        "Invalid instruction at offset "@ + spec_decimal(self.offset as nat) + ": "@
            + spec_decimal(self.byte as nat)
    }

    /// Says in words where no instruction could be read, and which opcode byte lies there.
    pub fn message(&self) -> (text: String)
        ensures
            text@ == self.spec_message(),
    {
        let mut text = String::from_str("Invalid instruction at offset ");
        text.append(decimal(self.offset).as_str());
        text.append(": ");
        text.append(decimal(self.byte as usize).as_str());
        text
    }
}

impl BuildError {
    /// What the error says, in words.
    pub open spec fn spec_message(self) -> Seq<char> {
        match self {
            BuildError::NoEntry => "No instruction at offset 0"@,
            BuildError::Decode(failure) => "Error parsing instruction at offset: "@ + spec_decimal(
                failure.offset as nat,
            ),
            BuildError::SwitchPayload { offset } => "Malformed switch table for offset: "@
                + spec_decimal(offset as nat),
            BuildError::BranchTarget { offset } => "No destination for offset: "@ + spec_decimal(
                offset as nat,
            ),
        }
    }

    /// Says in words why the method has no graph.
    pub fn message(&self) -> (text: String)
        ensures
            text@ == self.spec_message(),
    {
        match self {
            BuildError::NoEntry => String::from_str("No instruction at offset 0"),
            BuildError::Decode(failure) => {
                let mut text = String::from_str("Error parsing instruction at offset: ");
                text.append(decimal(failure.offset).as_str());
                text
            },
            BuildError::SwitchPayload { offset } => {
                let mut text = String::from_str("Malformed switch table for offset: ");
                text.append(decimal(*offset).as_str());
                text
            },
            BuildError::BranchTarget { offset } => {
                let mut text = String::from_str("No destination for offset: ");
                text.append(decimal(*offset).as_str());
                text
            },
        }
    }
}

} // verus!
