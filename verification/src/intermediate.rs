//! The operands an instruction can carry, and the arithmetic an opcode stands for.

use vstd::prelude::*;

use crate::words::{high_nibble, low_nibble};

verus! {

/// An index into the constant pool, in its short or its long encoding.
#[derive(Clone, Copy, Debug, PartialEq, Eq, Structural, Hash)]
pub enum ConstantPoolIndex {
    U16(u16),
    U32(u32),
}

/// A literal, as wide as the instruction encodes it.
#[derive(Clone, Copy, Debug, PartialEq, Eq, Structural, Hash)]
pub enum ImmediateValue {
    Signed8(i8),
    Signed16(i16),
    Signed32(i32),
    Arbitrary32(u32),
    Signed64(i64),
    Arbitrary64(u64),
}

/// A distance in words from the start of the instruction that holds it.
#[derive(Clone, Copy, Debug, PartialEq, Eq, Structural, Hash)]
pub enum BranchOffset {
    U8(u8),
    I8(i8),
    U16(u16),
    I16(i16),
    U32(u32),
    I32(i32),
}

/// A register operand: one encoded in at most eight bits, one encoded in
/// sixteen, or two adjacent registers that hold one wide value.
#[derive(Clone, Copy, Debug, PartialEq, Eq, Structural, Hash)]
pub enum Register {
    Byte(u8),
    Word(u16),
    Pair(u8, u8),
}

/// A comparison and the registers it compares.
#[derive(Clone, Copy, Debug, PartialEq, Eq, Structural, Hash)]
pub enum Conditional {
    Eq(Register, Register),
    Ne(Register, Register),
    Lt(Register, Register),
    Ge(Register, Register),
    Gt(Register, Register),
    Le(Register, Register),
}

/// A conditional branch: the comparison and the distance to jump if it holds.
/// `Test` compares two registers. `Testz` compares one register with zero,
/// and its comparison names that register on both sides.
#[derive(Clone, Copy, Debug, PartialEq, Eq, Structural, Hash)]
pub enum If {
    Test(Conditional, BranchOffset),
    Testz(Conditional, BranchOffset),
}

/// A switch instruction: the register it tests and the distance to its table.
#[derive(Clone, Copy, Debug, PartialEq, Eq, Structural, Hash)]
pub enum Switch {
    Packed(Register, BranchOffset),
    Sparse(Register, BranchOffset),
}

/// What a read or a write of an array element or a field moves: the register
/// of the value, named by the value's type. A wide value lies in that
/// register and the next.
#[derive(Clone, Copy, Debug, PartialEq, Eq, Hash)]
pub enum Iop {
    Int(Register),
    Wide((Register, Register)),
    Object(Register),
    Boolean(Register),
    Byte(Register),
    Char(Register),
    Short(Register),
}

/// A read or a write of an array element or a field.
#[derive(Clone, Copy, Debug, PartialEq, Eq, Hash)]
pub enum IdentifiedOperation {
    Get(Iop),
    Put(Iop),
}

/// An invocation of a method: how the method is found, its index in the
/// constant pool, and the registers that hold the arguments.
#[derive(Clone, Debug, PartialEq, Eq, Hash)]
pub enum InvKind {
    Virtual(ConstantPoolIndex, Vec<Register>),
    Super(ConstantPoolIndex, Vec<Register>),
    Direct(ConstantPoolIndex, Vec<Register>),
    Static(ConstantPoolIndex, Vec<Register>),
    Interface(ConstantPoolIndex, Vec<Register>),
}

/// What an invocation is, as a value.
pub enum InvKindView {
    Virtual(ConstantPoolIndex, Seq<Register>),
    Super(ConstantPoolIndex, Seq<Register>),
    Direct(ConstantPoolIndex, Seq<Register>),
    Static(ConstantPoolIndex, Seq<Register>),
    Interface(ConstantPoolIndex, Seq<Register>),
}

impl View for InvKind {
    type V = InvKindView;

    open spec fn view(&self) -> InvKindView {
        match self {
            InvKind::Virtual(method, arguments) => InvKindView::Virtual(*method, arguments@),
            InvKind::Super(method, arguments) => InvKindView::Super(*method, arguments@),
            InvKind::Direct(method, arguments) => InvKindView::Direct(*method, arguments@),
            InvKind::Static(method, arguments) => InvKindView::Static(*method, arguments@),
            InvKind::Interface(method, arguments) => InvKindView::Interface(*method, arguments@),
        }
    }
}

/// The types of the values that the arithmetic of the instruction set works on.
#[derive(Clone, Copy, Debug, PartialEq, Eq, Structural, Hash)]
pub enum Primitive {
    Boolean,
    Byte,
    Char,
    Short,
    Int,
    Long,
    Float,
    Double,
}

/// An operation on one value.
#[derive(Clone, Copy, Debug, PartialEq, Eq, Structural, Hash)]
pub enum Unop {
    Neg(Primitive),
    Not(Primitive),
    Convert(Primitive, Primitive),
}

/// An operation on two values of one type.
#[derive(Clone, Copy, Debug, PartialEq, Eq, Structural, Hash)]
pub enum Binop {
    Add(Primitive),
    Sub(Primitive),
    Mul(Primitive),
    Div(Primitive),
    Rem(Primitive),
    And(Primitive),
    Or(Primitive),
    Xor(Primitive),
    Shl(Primitive),
    Shr(Primitive),
    Ushr(Primitive),
}

impl Conditional {
    /// The comparison number `kind` of `left` with `right`. The opcodes of
    /// the conditional branches list the comparisons in this order: equal,
    /// not equal, less, greater or equal, greater, less or equal.
    pub open spec fn spec_of(kind: u8, left: Register, right: Register) -> Conditional {
        if kind == 0 {
            Conditional::Eq(left, right)
        } else if kind == 1 {
            Conditional::Ne(left, right)
        } else if kind == 2 {
            Conditional::Lt(left, right)
        } else if kind == 3 {
            Conditional::Ge(left, right)
        } else if kind == 4 {
            Conditional::Gt(left, right)
        } else {
            Conditional::Le(left, right)
        }
    }

    /// The comparison number `kind` of `left` with `right`.
    pub fn of(kind: u8, left: Register, right: Register) -> (comparison: Conditional)
        ensures
            comparison == Self::spec_of(kind, left, right),
    {
        if kind == 0 {
            Conditional::Eq(left, right)
        } else if kind == 1 {
            Conditional::Ne(left, right)
        } else if kind == 2 {
            Conditional::Lt(left, right)
        } else if kind == 3 {
            Conditional::Ge(left, right)
        } else if kind == 4 {
            Conditional::Gt(left, right)
        } else {
            Conditional::Le(left, right)
        }
    }
}

impl Iop {
    /// The value of type number `kind` in the register `register`. The
    /// opcodes that read and write list the types in this order: int, wide,
    /// object, boolean, byte, char, short.
    pub open spec fn spec_of(kind: u8, register: u8) -> Iop {
        let value = Register::Byte(register);
        if kind == 0 {
            Iop::Int(value)
        } else if kind == 1 {
            Iop::Wide((value, Register::spec_next(register)))
        } else if kind == 2 {
            Iop::Object(value)
        } else if kind == 3 {
            Iop::Boolean(value)
        } else if kind == 4 {
            Iop::Byte(value)
        } else if kind == 5 {
            Iop::Char(value)
        } else {
            Iop::Short(value)
        }
    }

    /// The value of type number `kind` in the register `register`.
    pub fn of(kind: u8, register: u8) -> (iop: Iop)
        ensures
            iop == Self::spec_of(kind, register),
    {
        let value = Register::Byte(register);
        if kind == 0 {
            Iop::Int(value)
        } else if kind == 1 {
            Iop::Wide((value, Register::next(register)))
        } else if kind == 2 {
            Iop::Object(value)
        } else if kind == 3 {
            Iop::Boolean(value)
        } else if kind == 4 {
            Iop::Byte(value)
        } else if kind == 5 {
            Iop::Char(value)
        } else {
            Iop::Short(value)
        }
    }
}

impl Primitive {
    /// Whether a value of the type takes two registers.
    pub open spec fn spec_is_wide(self) -> bool {
        self == Primitive::Long || self == Primitive::Double
    }

    #[verifier::when_used_as_spec(spec_is_wide)]
    pub fn is_wide(self) -> (wide: bool)
        ensures
            wide == self.spec_is_wide(),
    {
        match self {
            Primitive::Long | Primitive::Double => true,
            _ => false,
        }
    }
}

impl Unop {
    /// The type of the operand.
    pub open spec fn spec_argument(self) -> Primitive {
        match self {
            Unop::Neg(primitive) => primitive,
            Unop::Not(primitive) => primitive,
            Unop::Convert(from, _) => from,
        }
    }

    /// The type of the result.
    pub open spec fn spec_result(self) -> Primitive {
        match self {
            Unop::Neg(primitive) => primitive,
            Unop::Not(primitive) => primitive,
            Unop::Convert(_, to) => to,
        }
    }

    #[verifier::when_used_as_spec(spec_argument)]
    pub fn argument(self) -> (primitive: Primitive)
        ensures
            primitive == self.spec_argument(),
    {
        match self {
            Unop::Neg(primitive) => primitive,
            Unop::Not(primitive) => primitive,
            Unop::Convert(from, _) => from,
        }
    }

    #[verifier::when_used_as_spec(spec_result)]
    pub fn result(self) -> (primitive: Primitive)
        ensures
            primitive == self.spec_result(),
    {
        match self {
            Unop::Neg(primitive) => primitive,
            Unop::Not(primitive) => primitive,
            Unop::Convert(_, to) => to,
        }
    }
}

impl BranchOffset {
    /// The signed distance, whatever its encoding.
    pub open spec fn spec_delta(self) -> int {
        match self {
            BranchOffset::U8(d) => d as int,
            BranchOffset::I8(d) => d as int,
            BranchOffset::U16(d) => d as int,
            BranchOffset::I16(d) => d as int,
            BranchOffset::U32(d) => d as int,
            BranchOffset::I32(d) => d as int,
        }
    }

    pub fn delta(self) -> (d: i64)
        ensures
            d == self.spec_delta(),
    {
        match self {
            BranchOffset::U8(d) => d as i64,
            BranchOffset::I8(d) => d as i64,
            BranchOffset::U16(d) => d as i64,
            BranchOffset::I16(d) => d as i64,
            BranchOffset::U32(d) => d as i64,
            BranchOffset::I32(d) => d as i64,
        }
    }
}

impl Register {
    /// The register after an eight-bit register: the second half of a wide
    /// value that starts there.
    pub open spec fn spec_next(register: u8) -> Register {
        if register < 255 {
            Register::Byte((register + 1) as u8)
        } else {
            Register::Word(256)
        }
    }

    /// The register after an eight-bit register.
    pub fn next(register: u8) -> (next: Register)
        ensures
            next == Self::spec_next(register),
    {
        if register < 255 {
            Register::Byte(register + 1)
        } else {
            Register::Word(256)
        }
    }

    /// Reads both nibbles of `word` as the first registers of two pairs: the
    /// low nibble names the destination, the high nibble the source.
    pub fn get_pairs(word: u8) -> (pairs: (Register, Register))
        ensures
            pairs.0 == Register::Pair(low_nibble(word), (low_nibble(word) + 1) as u8),
            pairs.1 == Register::Pair(high_nibble(word), (high_nibble(word) + 1) as u8),
    {
        let dst: u8 = word % 16;
        let src: u8 = word / 16;
        (Register::Pair(dst, dst + 1), Register::Pair(src, src + 1))
    }

    /// Reads the low nibble of `word` as the first register of a destination
    /// pair and the high nibble as a single source register.
    pub fn get_dst_pair(word: u8) -> (pairs: (Register, Register))
        ensures
            pairs.0 == Register::Pair(low_nibble(word), (low_nibble(word) + 1) as u8),
            pairs.1 == Register::Byte(high_nibble(word)),
    {
        let dst: u8 = word % 16;
        let src: u8 = word / 16;
        (Register::Pair(dst, dst + 1), Register::Byte(src))
    }

    /// Reads the low nibble of `word` as a single destination register and the
    /// high nibble as the first register of a source pair.
    pub fn get_src_pair(word: u8) -> (pairs: (Register, Register))
        ensures
            pairs.0 == Register::Byte(low_nibble(word)),
            pairs.1 == Register::Pair(high_nibble(word), (high_nibble(word) + 1) as u8),
    {
        let dst: u8 = word % 16;
        let src: u8 = word / 16;
        (Register::Byte(dst), Register::Pair(src, src + 1))
    }
}

} // verus!
