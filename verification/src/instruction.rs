//! The instruction decoder: one instruction, with its operands and its length,
//! from a buffer of words and an offset into it.

use vstd::prelude::*;

use crate::error::InstructionParsingError;
use crate::intermediate::{
    BranchOffset, Conditional, ConstantPoolIndex, IdentifiedOperation, If, ImmediateValue, InvKind,
    InvKindView, Iop, Register, Switch,
};
use crate::opcode::{Format, Opcode, TerminatorKind};
use crate::reference::Type;
use crate::words::{
    concat_quad, concat_words, high_byte, high_nibble, low_byte, low_nibble, nibble, nibble_at,
    sign_extend_16, sign_extend_32, sign_extend_4, sign_extend_8, signed_byte, signed_long,
    signed_nibble, signed_word, spec_concat_quad, spec_concat_words, split_byte, split_word,
};

verus! {

/// One operand of an instruction.
#[derive(Clone, Copy, Debug, PartialEq, Eq, Structural, Hash)]
pub enum Operand {
    Register(Register),
    Immediate(ImmediateValue),
    /// An entry of the constant pool: the table and the index into it.
    Pool(Type, ConstantPoolIndex),
    /// A distance in words, counted from the instruction's own offset.
    Branch(BranchOffset),
}

/// A decoded instruction.
#[derive(Debug, Clone, PartialEq, Eq)]
pub struct Instruction {
    opcode: Opcode,
    offset: usize,
    operands: Vec<Operand>,
}

/// What an instruction is, as a value.
pub struct InstructionView {
    pub opcode: Opcode,
    /// The index in the method's words of the instruction's first word.
    pub offset: int,
    pub operands: Seq<Operand>,
}

impl View for Instruction {
    type V = InstructionView;

    closed spec fn view(&self) -> InstructionView {
        InstructionView {
            opcode: self.opcode,
            offset: self.offset as int,
            operands: self.operands@,
        }
    }
}

impl InstructionView {
    /// The offset of the word that follows the instruction.
    pub open spec fn end(self) -> int {
        self.offset + self.opcode.spec_length()
    }

    /// The distance an instruction that ends a block by a jump carries: its last operand.
    pub open spec fn branch_offset(self) -> Option<BranchOffset> {
        if self.operands.len() > 0 {
            match self.operands.last() {
                Operand::Branch(distance) => match self.opcode.spec_terminator() {
                    TerminatorKind::Goto
                    | TerminatorKind::ConditionalBranch
                    | TerminatorKind::Switch => Some(distance),
                    _ => None,
                },
                _ => None,
            }
        } else {
            None
        }
    }

    /// The offset a jump leads to, counted from the start of the method: the
    /// instruction's own offset plus the distance it carries.
    pub open spec fn target(self) -> int {
        match self.branch_offset() {
            Some(distance) => self.offset + distance.spec_delta(),
            None => self.offset,
        }
    }
}

/// The registers among `operands`, in their order.
pub open spec fn spec_registers(operands: Seq<Operand>) -> Seq<Register>
    decreases operands.len(),
{
    if operands.len() == 0 {
        Seq::empty()
    } else {
        spec_registers(operands.drop_last()) + match operands.last() {
            Operand::Register(register) => seq![register],
            _ => Seq::empty(),
        }
    }
}

impl InstructionView {
    /// The instruction as a switch: the register it tests and the distance to
    /// its table. `None` for every other instruction.
    pub open spec fn as_switch(self) -> Option<Switch> {
        if self.operands.len() == 2 {
            match (self.opcode, self.operands[0], self.operands[1]) {
                (
                    Opcode::PackedSwitch,
                    Operand::Register(register),
                    Operand::Branch(distance),
                ) => Some(Switch::Packed(register, distance)),
                (
                    Opcode::SparseSwitch,
                    Operand::Register(register),
                    Operand::Branch(distance),
                ) => Some(Switch::Sparse(register, distance)),
                _ => None,
            }
        } else {
            None
        }
    }

    /// The instruction as a conditional branch: the comparison it makes and
    /// the distance it jumps. `None` for every other instruction.
    pub open spec fn as_if(self) -> Option<If> {
        let byte = self.opcode.spec_byte();
        if 0x32 <= byte <= 0x37 && self.operands.len() == 3 {
            match (self.operands[0], self.operands[1], self.operands[2]) {
                (
                    Operand::Register(left),
                    Operand::Register(right),
                    Operand::Branch(distance),
                ) => Some(
                    If::Test(Conditional::spec_of((byte - 0x32) as u8, left, right), distance),
                ),
                _ => None,
            }
        } else if 0x38 <= byte <= 0x3d && self.operands.len() == 2 {
            match (self.operands[0], self.operands[1]) {
                (Operand::Register(tested), Operand::Branch(distance)) => Some(
                    If::Testz(
                        Conditional::spec_of((byte - 0x38) as u8, tested, tested),
                        distance,
                    ),
                ),
                _ => None,
            }
        } else {
            None
        }
    }

    /// The instruction as a read or a write of an array element, of a field
    /// of an object or of a static field. The opcodes of each of the three
    /// run through the seven types twice, first reading, then writing.
    /// `None` for every other instruction.
    pub open spec fn as_access(self) -> Option<IdentifiedOperation> {
        let byte = self.opcode.spec_byte();
        if 0x44 <= byte <= 0x6d && self.operands.len() > 0 {
            match self.operands[0] {
                Operand::Register(Register::Byte(register)) => {
                    let place = ((byte - 0x44) % 14) as u8;
                    if place < 7 {
                        Some(IdentifiedOperation::Get(Iop::spec_of(place, register)))
                    } else {
                        Some(IdentifiedOperation::Put(Iop::spec_of((place - 7) as u8, register)))
                    }
                },
                _ => None,
            }
        } else {
            None
        }
    }

    /// The instruction as an invocation of a method by its index, with the
    /// registers it passes, whether it lists them or gives their range.
    /// `None` for every other instruction.
    pub open spec fn as_invocation(self) -> Option<InvKindView> {
        if self.operands.len() > 0 {
            match self.operands[0] {
                Operand::Pool(_, method) => {
                    let arguments = spec_registers(self.operands);
                    match self.opcode {
                        Opcode::InvokeVirtual | Opcode::InvokeVirtualRange => Some(
                            InvKindView::Virtual(method, arguments),
                        ),
                        Opcode::InvokeSuper | Opcode::InvokeSuperRange => Some(
                            InvKindView::Super(method, arguments),
                        ),
                        Opcode::InvokeDirect | Opcode::InvokeDirectRange => Some(
                            InvKindView::Direct(method, arguments),
                        ),
                        Opcode::InvokeStatic | Opcode::InvokeStaticRange => Some(
                            InvKindView::Static(method, arguments),
                        ),
                        Opcode::InvokeInterface | Opcode::InvokeInterfaceRange => Some(
                            InvKindView::Interface(method, arguments),
                        ),
                        _ => None,
                    }
                },
                _ => None,
            }
        } else {
            None
        }
    }
}

/// The first words of the data tables that lie among the instructions. Their
/// low byte is the opcode of `nop`.
pub open spec fn is_payload_marker(word: u16) -> bool {
    low_byte(word) == 0 && 1 <= high_byte(word) <= 3
}

/// A register named by a nibble: the register itself, or the pair that starts there.
pub open spec fn spec_nibble_register(nibble: u8, wide: bool) -> Register {
    if wide {
        Register::Pair(nibble, (nibble + 1) as u8)
    } else {
        Register::Byte(nibble)
    }
}

/// The registers of an instruction that packs two of them into the byte `args`.
/// Where the opcode is a unary operation, a `long` or `double` operand is a pair.
pub open spec fn spec_nibble_registers(opcode: Opcode, args: u8) -> Seq<Operand> {
    let (dst_wide, src_wide) = match opcode.spec_unop() {
        Some(unop) => (unop.spec_result().spec_is_wide(), unop.spec_argument().spec_is_wide()),
        None => (false, false),
    };
    seq![
        Operand::Register(spec_nibble_register(low_nibble(args), dst_wide)),
        Operand::Register(spec_nibble_register(high_nibble(args), src_wide)),
    ]
}

/// The constant-pool operand of an instruction with the sixteen-bit index `index`.
pub open spec fn spec_pool_short(opcode: Opcode, index: u16) -> Seq<Operand> {
    match opcode.spec_pool_kind() {
        Some(kind) => seq![Operand::Pool(kind, ConstantPoolIndex::U16(index))],
        None => seq![],
    }
}

/// The registers listed inline by an invocation. The high nibble of `args`
/// counts them, five at most; the first four lie in `word`, lowest nibble
/// first, and the fifth in the low nibble of `args`.
pub open spec fn spec_argument_list(args: u8, word: u16) -> Seq<Operand> {
    let count = if high_nibble(args) < 5 { high_nibble(args) as nat } else { 5 };
    Seq::new(
        count,
        |i: int|
            Operand::Register(
                Register::Byte(
                    if i == 4 {
                        low_nibble(args)
                    } else {
                        nibble_at(word, i)
                    },
                ),
            ),
    )
}

/// The run of `count` registers that starts at `first`. Register numbers have
/// sixteen bits and wrap around.
pub open spec fn spec_argument_range(count: u8, first: u16) -> Seq<Operand> {
    Seq::new(
        count as nat,
        |i: int| Operand::Register(Register::Word(((first + i) % 0x1_0000) as u16)),
    )
}

/// The operands of the instruction with opcode `opcode` whose first word is
/// `words[offset]`, in the order in which the format lists them. An index into
/// the constant pool comes before the registers that an invocation passes.
pub open spec fn spec_operands(opcode: Opcode, words: Seq<u16>, offset: int) -> Seq<Operand>
    recommends
        0 <= offset,
        offset + opcode.spec_length() <= words.len(),
{
    let args = high_byte(words[offset]);
    let a = low_nibble(args);
    let b = high_nibble(args);
    let w1 = words[offset + 1];
    let w2 = words[offset + 2];
    let w3 = words[offset + 3];
    let w4 = words[offset + 4];
    let register = Operand::Register(Register::Byte(args));
    match opcode.spec_format() {
        Format::F10x => seq![],
        Format::F12x => spec_nibble_registers(opcode, args),
        Format::F11n => seq![
            Operand::Register(Register::Byte(a)),
            Operand::Immediate(ImmediateValue::Signed8(sign_extend_4(b) as i8)),
        ],
        Format::F11x => seq![register],
        Format::F10t => seq![Operand::Branch(BranchOffset::I8(sign_extend_8(args) as i8))],
        Format::F20t => seq![Operand::Branch(BranchOffset::I16(sign_extend_16(w1) as i16))],
        Format::F22x => seq![register, Operand::Register(Register::Word(w1))],
        Format::F21t => seq![register, Operand::Branch(BranchOffset::I16(sign_extend_16(w1) as i16))],
        Format::F21s | Format::F21h => seq![
            register,
            Operand::Immediate(ImmediateValue::Signed16(sign_extend_16(w1) as i16)),
        ],
        Format::F21c => seq![register] + spec_pool_short(opcode, w1),
        Format::F23x => seq![
            register,
            Operand::Register(Register::Byte(low_byte(w1))),
            Operand::Register(Register::Byte(high_byte(w1))),
        ],
        Format::F22b => seq![
            register,
            Operand::Register(Register::Byte(low_byte(w1))),
            Operand::Immediate(ImmediateValue::Signed8(sign_extend_8(high_byte(w1)) as i8)),
        ],
        Format::F22t => seq![
            Operand::Register(Register::Byte(a)),
            Operand::Register(Register::Byte(b)),
            Operand::Branch(BranchOffset::I16(sign_extend_16(w1) as i16)),
        ],
        Format::F22s => seq![
            Operand::Register(Register::Byte(a)),
            Operand::Register(Register::Byte(b)),
            Operand::Immediate(ImmediateValue::Signed16(sign_extend_16(w1) as i16)),
        ],
        Format::F22c => seq![
            Operand::Register(Register::Byte(a)),
            Operand::Register(Register::Byte(b)),
        ] + spec_pool_short(opcode, w1),
        Format::F30t => seq![
            Operand::Branch(BranchOffset::I32(sign_extend_32(spec_concat_words(w1, w2)) as i32)),
        ],
        Format::F32x => seq![
            Operand::Register(Register::Word(w1)),
            Operand::Register(Register::Word(w2)),
        ],
        Format::F31i => seq![
            register,
            Operand::Immediate(
                if opcode == Opcode::Const {
                    ImmediateValue::Arbitrary32(spec_concat_words(w1, w2))
                } else {
                    ImmediateValue::Signed32(sign_extend_32(spec_concat_words(w1, w2)) as i32)
                },
            ),
        ],
        Format::F31t => seq![
            register,
            Operand::Branch(BranchOffset::I32(sign_extend_32(spec_concat_words(w1, w2)) as i32)),
        ],
        Format::F31c => seq![
            register,
            Operand::Pool(Type::String, ConstantPoolIndex::U32(spec_concat_words(w1, w2))),
        ],
        Format::F35c => spec_pool_short(opcode, w1) + spec_argument_list(args, w2),
        Format::F3rc => spec_pool_short(opcode, w1) + spec_argument_range(args, w2),
        Format::F45cc => spec_pool_short(opcode, w1) + spec_argument_list(args, w2) + seq![
            Operand::Pool(Type::Prototype, ConstantPoolIndex::U16(w3)),
        ],
        Format::F4rcc => spec_pool_short(opcode, w1) + spec_argument_range(args, w2) + seq![
            Operand::Pool(Type::Prototype, ConstantPoolIndex::U16(w3)),
        ],
        Format::F51l => seq![
            register,
            Operand::Immediate(ImmediateValue::Arbitrary64(spec_concat_quad(w1, w2, w3, w4))),
        ],
    }
}

/// What lies at `offset`: an instruction with the number of words it
/// occupies, the start of a data table (`Ok(None)`), or nothing that can be read.
#[verifier::opaque]
pub open spec fn spec_decode(words: Seq<u16>, offset: int) -> Result<
    Option<(InstructionView, nat)>,
    InstructionParsingError,
>
    recommends
        0 <= offset < words.len(),
{
    let byte = low_byte(words[offset]);
    let failure = Err(InstructionParsingError { byte, offset: offset as usize });
    match Opcode::spec_from_u8(byte) {
        None => failure,
        Some(opcode) => if is_payload_marker(words[offset]) {
            Ok(None)
        } else if offset + opcode.spec_length() > words.len() {
            failure
        } else {
            Ok(
                Some(
                    (
                        InstructionView {
                            opcode,
                            offset,
                            operands: spec_operands(opcode, words, offset),
                        },
                        opcode.spec_length(),
                    ),
                ),
            )
        },
    }
}

/// The value of a decoder's answer.
pub open spec fn decoded_view(
    result: Result<Option<(Instruction, usize)>, InstructionParsingError>,
) -> Result<Option<(InstructionView, nat)>, InstructionParsingError> {
    match result {
        Ok(Some((instruction, length))) => Ok(Some((instruction@, length as nat))),
        Ok(None) => Ok(None),
        Err(error) => Err(error),
    }
}

fn nibble_register(nibble: u8, wide: bool) -> (register: Register)
    requires
        nibble < 16,
    ensures
        register == spec_nibble_register(nibble, wide),
{
    if wide {
        Register::Pair(nibble, nibble + 1)
    } else {
        Register::Byte(nibble)
    }
}

fn push_nibble_registers(operands: &mut Vec<Operand>, opcode: Opcode, args: u8)
    ensures
        final(operands)@ == old(operands)@ + spec_nibble_registers(opcode, args),
{
    let (dst, src) = match opcode.unop() {
        Some(unop) => {
            let dst_wide = unop.result().is_wide();
            let src_wide = unop.argument().is_wide();
            if dst_wide && src_wide {
                Register::get_pairs(args)
            } else if dst_wide {
                Register::get_dst_pair(args)
            } else if src_wide {
                Register::get_src_pair(args)
            } else {
                let (a, b) = split_byte(args);
                (Register::Byte(a), Register::Byte(b))
            }
        },
        None => {
            let (a, b) = split_byte(args);
            (Register::Byte(a), Register::Byte(b))
        },
    };
    operands.push(Operand::Register(dst));
    operands.push(Operand::Register(src));
    assert(final(operands)@ =~= old(operands)@ + spec_nibble_registers(opcode, args));
}

fn push_pool_short(operands: &mut Vec<Operand>, opcode: Opcode, index: u16)
    ensures
        final(operands)@ == old(operands)@ + spec_pool_short(opcode, index),
{
    match opcode.pool_kind() {
        Some(kind) => {
            operands.push(Operand::Pool(kind, ConstantPoolIndex::U16(index)));
        },
        None => {},
    }
    assert(final(operands)@ =~= old(operands)@ + spec_pool_short(opcode, index));
}

fn push_argument_list(operands: &mut Vec<Operand>, args: u8, word: u16)
    ensures
        final(operands)@ == old(operands)@ + spec_argument_list(args, word),
{
    let (fifth, announced) = split_byte(args);
    let count: u8 = if announced < 5 { announced } else { 5 };
    let mut i: u8 = 0;
    while i < count
        invariant
            i <= count <= 5,
            fifth == low_nibble(args),
            count as nat == spec_argument_list(args, word).len(),
            operands@ == old(operands)@ + spec_argument_list(args, word).take(i as int),
        decreases count - i,
    {
        let register: u8 = if i == 4 { fifth } else { nibble(word, i) };
        operands.push(Operand::Register(Register::Byte(register)));
        i += 1;
        assert(operands@ =~= old(operands)@ + spec_argument_list(args, word).take(i as int));
    }
    assert(spec_argument_list(args, word).take(count as int) =~= spec_argument_list(args, word));
}

fn push_argument_range(operands: &mut Vec<Operand>, count: u8, first: u16)
    ensures
        final(operands)@ == old(operands)@ + spec_argument_range(count, first),
{
    let mut i: u8 = 0;
    let mut register: u16 = first;
    while i < count
        invariant
            i <= count,
            register == (first + i) % 0x1_0000,
            operands@ == old(operands)@ + spec_argument_range(count, first).take(i as int),
        decreases count - i,
    {
        operands.push(Operand::Register(Register::Word(register)));
        register = if register == 0xffff { 0 } else { register + 1 };
        i += 1;
        assert(operands@ =~= old(operands)@ + spec_argument_range(count, first).take(i as int));
    }
    assert(spec_argument_range(count, first).take(count as int) =~= spec_argument_range(
        count,
        first,
    ));
}

/// Reads the operands of an instruction that lies wholly inside the buffer.
fn decode_operands(opcode: Opcode, raw_bytecode: &[u16], offset: usize) -> (operands: Vec<Operand>)
    requires
        offset + opcode.spec_length() <= raw_bytecode@.len(),
    ensures
        operands@ == spec_operands(opcode, raw_bytecode@, offset as int),
{
    let (_, args) = split_word(raw_bytecode[offset]);
    let (a, b) = split_byte(args);
    let register = Operand::Register(Register::Byte(args));
    let mut operands: Vec<Operand> = Vec::new();
    match opcode.format() {
        Format::F10x => {},
        Format::F12x => {
            push_nibble_registers(&mut operands, opcode, args);
        },
        Format::F11n => {
            operands.push(Operand::Register(Register::Byte(a)));
            operands.push(Operand::Immediate(ImmediateValue::Signed8(signed_nibble(b))));
        },
        Format::F11x => {
            operands.push(register);
        },
        Format::F10t => {
            operands.push(Operand::Branch(BranchOffset::I8(signed_byte(args))));
        },
        Format::F20t => {
            let w1: u16 = raw_bytecode[offset + 1];
            operands.push(Operand::Branch(BranchOffset::I16(signed_word(w1))));
        },
        Format::F22x => {
            let w1: u16 = raw_bytecode[offset + 1];
            operands.push(register);
            operands.push(Operand::Register(Register::Word(w1)));
        },
        Format::F21t => {
            let w1: u16 = raw_bytecode[offset + 1];
            operands.push(register);
            operands.push(Operand::Branch(BranchOffset::I16(signed_word(w1))));
        },
        Format::F21s | Format::F21h => {
            let w1: u16 = raw_bytecode[offset + 1];
            operands.push(register);
            operands.push(Operand::Immediate(ImmediateValue::Signed16(signed_word(w1))));
        },
        Format::F21c => {
            let w1: u16 = raw_bytecode[offset + 1];
            operands.push(register);
            push_pool_short(&mut operands, opcode, w1);
        },
        Format::F23x => {
            let (bb, cc) = split_word(raw_bytecode[offset + 1]);
            operands.push(register);
            operands.push(Operand::Register(Register::Byte(bb)));
            operands.push(Operand::Register(Register::Byte(cc)));
        },
        Format::F22b => {
            let (bb, cc) = split_word(raw_bytecode[offset + 1]);
            operands.push(register);
            operands.push(Operand::Register(Register::Byte(bb)));
            operands.push(Operand::Immediate(ImmediateValue::Signed8(signed_byte(cc))));
        },
        Format::F22t => {
            let w1: u16 = raw_bytecode[offset + 1];
            operands.push(Operand::Register(Register::Byte(a)));
            operands.push(Operand::Register(Register::Byte(b)));
            operands.push(Operand::Branch(BranchOffset::I16(signed_word(w1))));
        },
        Format::F22s => {
            let w1: u16 = raw_bytecode[offset + 1];
            operands.push(Operand::Register(Register::Byte(a)));
            operands.push(Operand::Register(Register::Byte(b)));
            operands.push(Operand::Immediate(ImmediateValue::Signed16(signed_word(w1))));
        },
        Format::F22c => {
            let w1: u16 = raw_bytecode[offset + 1];
            operands.push(Operand::Register(Register::Byte(a)));
            operands.push(Operand::Register(Register::Byte(b)));
            push_pool_short(&mut operands, opcode, w1);
        },
        Format::F30t => {
            let wide: u32 = concat_words(raw_bytecode[offset + 1], raw_bytecode[offset + 2]);
            operands.push(Operand::Branch(BranchOffset::I32(signed_long(wide))));
        },
        Format::F32x => {
            operands.push(Operand::Register(Register::Word(raw_bytecode[offset + 1])));
            operands.push(Operand::Register(Register::Word(raw_bytecode[offset + 2])));
        },
        Format::F31i => {
            let wide: u32 = concat_words(raw_bytecode[offset + 1], raw_bytecode[offset + 2]);
            operands.push(register);
            if opcode == Opcode::Const {
                operands.push(Operand::Immediate(ImmediateValue::Arbitrary32(wide)));
            } else {
                operands.push(Operand::Immediate(ImmediateValue::Signed32(signed_long(wide))));
            }
        },
        Format::F31t => {
            let wide: u32 = concat_words(raw_bytecode[offset + 1], raw_bytecode[offset + 2]);
            operands.push(register);
            operands.push(Operand::Branch(BranchOffset::I32(signed_long(wide))));
        },
        Format::F31c => {
            let wide: u32 = concat_words(raw_bytecode[offset + 1], raw_bytecode[offset + 2]);
            operands.push(register);
            operands.push(Operand::Pool(Type::String, ConstantPoolIndex::U32(wide)));
        },
        Format::F35c => {
            push_pool_short(&mut operands, opcode, raw_bytecode[offset + 1]);
            push_argument_list(&mut operands, args, raw_bytecode[offset + 2]);
        },
        Format::F3rc => {
            push_pool_short(&mut operands, opcode, raw_bytecode[offset + 1]);
            push_argument_range(&mut operands, args, raw_bytecode[offset + 2]);
        },
        Format::F45cc => {
            push_pool_short(&mut operands, opcode, raw_bytecode[offset + 1]);
            push_argument_list(&mut operands, args, raw_bytecode[offset + 2]);
            operands.push(
                Operand::Pool(Type::Prototype, ConstantPoolIndex::U16(raw_bytecode[offset + 3])),
            );
        },
        Format::F4rcc => {
            push_pool_short(&mut operands, opcode, raw_bytecode[offset + 1]);
            push_argument_range(&mut operands, args, raw_bytecode[offset + 2]);
            operands.push(
                Operand::Pool(Type::Prototype, ConstantPoolIndex::U16(raw_bytecode[offset + 3])),
            );
        },
        Format::F51l => {
            let wide: u64 = concat_quad(
                raw_bytecode[offset + 1],
                raw_bytecode[offset + 2],
                raw_bytecode[offset + 3],
                raw_bytecode[offset + 4],
            );
            operands.push(register);
            operands.push(Operand::Immediate(ImmediateValue::Arbitrary64(wide)));
        },
    }
    assert(operands@ =~= spec_operands(opcode, raw_bytecode@, offset as int));
    operands
}

impl Instruction {
    /// Decodes what lies at `offset`.
    ///
    /// The answer is the instruction there together with the number of words it
    /// occupies, `Ok(None)` where a data table starts, and an error where the
    /// opcode byte is reserved or the instruction would run past the buffer.
    /// A decoded instruction lies inside the buffer and is at least one word long.
    pub fn try_from_raw_bytecode(raw_bytecode: &[u16], offset: usize) -> (result: Result<
        Option<(Instruction, usize)>,
        InstructionParsingError,
    >)
        requires
            offset < raw_bytecode@.len(),
        ensures
            decoded_view(result) == spec_decode(raw_bytecode@, offset as int),
            result matches Ok(Some((instruction, length))) ==> {
                &&& 1 <= length <= 5
                &&& offset + length <= raw_bytecode@.len()
                &&& instruction@.offset == offset
                &&& length == instruction@.opcode.spec_length()
            },
            result matches Err(error) ==> error.offset == offset && error.byte == low_byte(
                raw_bytecode@[offset as int],
            ),
            result matches Ok(None) <==> is_payload_marker(raw_bytecode@[offset as int]),
    {
        reveal(spec_decode);
        let word: u16 = raw_bytecode[offset];
        let (byte, args) = split_word(word);
        let opcode = match Opcode::from_u8(byte) {
            Some(opcode) => opcode,
            None => {
                return Err(InstructionParsingError { byte, offset });
            },
        };
        if byte == 0 && 1 <= args && args <= 3 {
            return Ok(None);
        }
        let length: usize = opcode.length();
        if length > raw_bytecode.len() - offset {
            return Err(InstructionParsingError { byte, offset });
        }
        let operands = decode_operands(opcode, raw_bytecode, offset);
        Ok(Some((Instruction { opcode, offset, operands }, length)))
    }

    pub fn opcode(&self) -> (opcode: Opcode)
        ensures
            opcode == self@.opcode,
    {
        self.opcode
    }

    pub fn offset(&self) -> (offset: usize)
        ensures
            offset == self@.offset,
    {
        self.offset
    }

    /// The offset of the word that follows the instruction.
    pub fn end(&self) -> (end: usize)
        requires
            self@.end() <= usize::MAX,
        ensures
            end == self@.end(),
    {
        self.offset + self.opcode.length()
    }

    /// The distance a `goto`, an `if` or a switch carries.
    pub fn branch_offset(&self) -> (distance: Option<BranchOffset>)
        ensures
            distance == self@.branch_offset(),
    {
        let count = self.operands.len();
        if count == 0 {
            return None;
        }
        match self.operands[count - 1] {
            Operand::Branch(distance) => match self.opcode.terminator() {
                TerminatorKind::Goto
                | TerminatorKind::ConditionalBranch
                | TerminatorKind::Switch => Some(distance),
                _ => None,
            },
            _ => None,
        }
    }

    /// The instruction's own offset plus the distance it carries, if it carries one.
    pub fn target(&self) -> (target: i128)
        ensures
            target == self@.target(),
    {
        match self.branch_offset() {
            Some(distance) => self.offset as i128 + distance.delta() as i128,
            None => self.offset as i128,
        }
    }

    /// The offset that a `goto`, an `if` or a switch leads to, counted from the
    /// start of the method; `None` for every other instruction, and where the
    /// sum is negative or too large for an offset.
    pub fn branch_target(&self) -> (target: Option<usize>)
        ensures
            target == match self@.branch_offset() {
                Some(_) => if 0 <= self@.target() <= usize::MAX {
                    Some(self@.target() as usize)
                } else {
                    None
                },
                None => None,
            },
    {
        match self.branch_offset() {
            Some(distance) => {
                let sum: i128 = self.offset as i128 + distance.delta() as i128;
                if 0 <= sum && sum <= usize::MAX as i128 {
                    Some(sum as usize)
                } else {
                    None
                }
            },
            None => None,
        }
    }

    /// The registers among the operands, in their order.
    pub fn registers(&self) -> (registers: Vec<Register>)
        ensures
            registers@ == spec_registers(self@.operands),
    {
        let mut registers: Vec<Register> = Vec::new();
        let mut i: usize = 0;
        assert(self.operands@.take(0) =~= Seq::empty());
        while i < self.operands.len()
            invariant
                i <= self.operands@.len(),
                registers@ == spec_registers(self.operands@.take(i as int)),
            decreases self.operands@.len() - i,
        {
            proof {
                assert(self.operands@.take(i + 1).drop_last() =~= self.operands@.take(i as int));
                assert(self.operands@.take(i + 1).last() == self.operands@[i as int]);
            }
            match self.operands[i] {
                Operand::Register(register) => {
                    registers.push(register);
                },
                _ => {},
            }
            i += 1;
        }
        assert(self.operands@.take(i as int) =~= self.operands@);
        registers
    }

    /// The instruction as a switch.
    pub fn as_switch(&self) -> (switch: Option<Switch>)
        ensures
            switch == self@.as_switch(),
    {
        if self.operands.len() != 2 {
            return None;
        }
        match (self.opcode, self.operands[0], self.operands[1]) {
            (Opcode::PackedSwitch, Operand::Register(register), Operand::Branch(distance)) => Some(
                Switch::Packed(register, distance),
            ),
            (Opcode::SparseSwitch, Operand::Register(register), Operand::Branch(distance)) => Some(
                Switch::Sparse(register, distance),
            ),
            _ => None,
        }
    }

    /// The instruction as a conditional branch.
    pub fn as_if(&self) -> (branch: Option<If>)
        ensures
            branch == self@.as_if(),
    {
        let byte = self.opcode.byte();
        if 0x32 <= byte && byte <= 0x37 && self.operands.len() == 3 {
            match (self.operands[0], self.operands[1], self.operands[2]) {
                (
                    Operand::Register(left),
                    Operand::Register(right),
                    Operand::Branch(distance),
                ) => Some(If::Test(Conditional::of(byte - 0x32, left, right), distance)),
                _ => None,
            }
        } else if 0x38 <= byte && byte <= 0x3d && self.operands.len() == 2 {
            match (self.operands[0], self.operands[1]) {
                (Operand::Register(tested), Operand::Branch(distance)) => Some(
                    If::Testz(Conditional::of(byte - 0x38, tested, tested), distance),
                ),
                _ => None,
            }
        } else {
            None
        }
    }

    /// The instruction as a read or a write of an array element or a field.
    pub fn as_access(&self) -> (access: Option<IdentifiedOperation>)
        ensures
            access == self@.as_access(),
    {
        let byte = self.opcode.byte();
        if byte < 0x44 || byte > 0x6d || self.operands.len() == 0 {
            return None;
        }
        match self.operands[0] {
            Operand::Register(Register::Byte(register)) => {
                let place: u8 = (byte - 0x44) % 14;
                if place < 7 {
                    Some(IdentifiedOperation::Get(Iop::of(place, register)))
                } else {
                    Some(IdentifiedOperation::Put(Iop::of(place - 7, register)))
                }
            },
            _ => None,
        }
    }

    /// The instruction as an invocation of a method by its index.
    pub fn as_invocation(&self) -> (invocation: Option<InvKind>)
        ensures
            match invocation {
                Some(invocation) => self@.as_invocation() == Some(invocation@),
                None => self@.as_invocation().is_none(),
            },
    {
        if self.operands.len() == 0 {
            return None;
        }
        let method = match self.operands[0] {
            Operand::Pool(_, method) => method,
            _ => {
                return None;
            },
        };
        match self.opcode {
            Opcode::InvokeVirtual | Opcode::InvokeVirtualRange => Some(
                InvKind::Virtual(method, self.registers()),
            ),
            Opcode::InvokeSuper | Opcode::InvokeSuperRange => Some(
                InvKind::Super(method, self.registers()),
            ),
            Opcode::InvokeDirect | Opcode::InvokeDirectRange => Some(
                InvKind::Direct(method, self.registers()),
            ),
            Opcode::InvokeStatic | Opcode::InvokeStaticRange => Some(
                InvKind::Static(method, self.registers()),
            ),
            Opcode::InvokeInterface | Opcode::InvokeInterfaceRange => Some(
                InvKind::Interface(method, self.registers()),
            ),
            _ => None,
        }
    }

    pub fn operands(&self) -> (operands: &Vec<Operand>)
        ensures
            operands@ == self@.operands,
    {
        &self.operands
    }
}

/// A one-word `goto` at `offset` leads to `offset` plus its offset byte, read
/// as a signed number.
pub proof fn lemma_goto_target(words: Seq<u16>, offset: int)
    requires
        0 <= offset < words.len(),
        low_byte(words[offset]) == 0x28,
    ensures
        spec_decode(words, offset) matches Ok(Some((instruction, length))) && {
            &&& length == 1
            &&& instruction.opcode == Opcode::Goto
            &&& instruction.branch_offset().is_some()
            &&& instruction.target() == offset + sign_extend_8(high_byte(words[offset]))
        },
{
    reveal(spec_decode);
}

/// Where a data table starts there is no instruction, and no error either;
/// and nowhere else is there neither.
pub proof fn lemma_payload_sentinel(words: Seq<u16>, offset: int)
    requires
        0 <= offset < words.len(),
    ensures
        spec_decode(words, offset) matches Ok(None) <==> is_payload_marker(words[offset]),
{
    reveal(spec_decode);
}

/// A decoded instruction lies inside the buffer and is at least one word long.
pub proof fn lemma_decoded_length(words: Seq<u16>, offset: int)
    requires
        0 <= offset < words.len(),
    ensures
        spec_decode(words, offset) matches Ok(Some((instruction, length))) ==> {
            &&& 1 <= length <= 5
            &&& offset + length <= words.len()
            &&& instruction.offset == offset
            &&& instruction.end() == offset + length
        },
{
    reveal(spec_decode);
}

} // verus!
