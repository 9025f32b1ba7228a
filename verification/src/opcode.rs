//! The opcode catalog: every one-byte opcode of the Dalvik instruction set, the
//! instruction format it is encoded in, and the classes the other modules sort
//! opcodes into. Nothing else in the crate repeats these tables.

use vstd::prelude::*;

use crate::intermediate::{Binop, Primitive, Unop};
use crate::reference::Type;

verus! {

/// The identity of an instruction, one variant per defined mnemonic.
#[derive(Clone, Copy, Debug, PartialEq, Eq, Structural, Hash)]
pub enum Opcode {
    /// `nop`
    Nop,
    /// `move`
    Move,
    /// `move/from16`
    MoveFrom16,
    /// `move/16`
    Move16,
    /// `move-wide`
    MoveWide,
    /// `move-wide/from16`
    MoveWideFrom16,
    /// `move-wide/16`
    MoveWide16,
    /// `move-object`
    MoveObject,
    /// `move-object/from16`
    MoveObjectFrom16,
    /// `move-object/16`
    MoveObject16,
    /// `move-result`
    MoveResult,
    /// `move-result-wide`
    MoveResultWide,
    /// `move-result-object`
    MoveResultObject,
    /// `move-exception`
    MoveException,
    /// `return-void`
    ReturnVoid,
    /// `return`
    Return,
    /// `return-wide`
    ReturnWide,
    /// `return-object`
    ReturnObject,
    /// `const/4`
    Const4,
    /// `const/16`
    Const16,
    /// `const`
    Const,
    /// `const/high16`
    ConstHigh16,
    /// `const-wide/16`
    ConstWide16,
    /// `const-wide/32`
    ConstWide32,
    /// `const-wide`
    ConstWide,
    /// `const-wide/high16`
    ConstWideHigh16,
    /// `const-string`
    ConstString,
    /// `const-string/jumbo`
    ConstStringJumbo,
    /// `const-class`
    ConstClass,
    /// `monitor-enter`
    MonitorEnter,
    /// `monitor-exit`
    MonitorExit,
    /// `check-cast`
    CheckCast,
    /// `instance-of`
    InstanceOf,
    /// `array-length`
    ArrayLength,
    /// `new-instance`
    NewInstance,
    /// `new-array`
    NewArray,
    /// `filled-new-array`
    FilledNewArray,
    /// `filled-new-array/range`
    FilledNewArrayRange,
    /// `fill-array-data`
    FillArrayData,
    /// `throw`
    Throw,
    /// `goto`
    Goto,
    /// `goto/16`
    Goto16,
    /// `goto/32`
    Goto32,
    /// `packed-switch`
    PackedSwitch,
    /// `sparse-switch`
    SparseSwitch,
    /// `cmpl-float`
    CmplFloat,
    /// `cmpg-float`
    CmpgFloat,
    /// `cmpl-double`
    CmplDouble,
    /// `cmpg-double`
    CmpgDouble,
    /// `cmp-long`
    CmpLong,
    /// `if-eq`
    IfEq,
    /// `if-ne`
    IfNe,
    /// `if-lt`
    IfLt,
    /// `if-ge`
    IfGe,
    /// `if-gt`
    IfGt,
    /// `if-le`
    IfLe,
    /// `if-eqz`
    IfEqz,
    /// `if-nez`
    IfNez,
    /// `if-ltz`
    IfLtz,
    /// `if-gez`
    IfGez,
    /// `if-gtz`
    IfGtz,
    /// `if-lez`
    IfLez,
    /// `aget`
    Aget,
    /// `aget-wide`
    AgetWide,
    /// `aget-object`
    AgetObject,
    /// `aget-boolean`
    AgetBoolean,
    /// `aget-byte`
    AgetByte,
    /// `aget-char`
    AgetChar,
    /// `aget-short`
    AgetShort,
    /// `aput`
    Aput,
    /// `aput-wide`
    AputWide,
    /// `aput-object`
    AputObject,
    /// `aput-boolean`
    AputBoolean,
    /// `aput-byte`
    AputByte,
    /// `aput-char`
    AputChar,
    /// `aput-short`
    AputShort,
    /// `iget`
    Iget,
    /// `iget-wide`
    IgetWide,
    /// `iget-object`
    IgetObject,
    /// `iget-boolean`
    IgetBoolean,
    /// `iget-byte`
    IgetByte,
    /// `iget-char`
    IgetChar,
    /// `iget-short`
    IgetShort,
    /// `iput`
    Iput,
    /// `iput-wide`
    IputWide,
    /// `iput-object`
    IputObject,
    /// `iput-boolean`
    IputBoolean,
    /// `iput-byte`
    IputByte,
    /// `iput-char`
    IputChar,
    /// `iput-short`
    IputShort,
    /// `sget`
    Sget,
    /// `sget-wide`
    SgetWide,
    /// `sget-object`
    SgetObject,
    /// `sget-boolean`
    SgetBoolean,
    /// `sget-byte`
    SgetByte,
    /// `sget-char`
    SgetChar,
    /// `sget-short`
    SgetShort,
    /// `sput`
    Sput,
    /// `sput-wide`
    SputWide,
    /// `sput-object`
    SputObject,
    /// `sput-boolean`
    SputBoolean,
    /// `sput-byte`
    SputByte,
    /// `sput-char`
    SputChar,
    /// `sput-short`
    SputShort,
    /// `invoke-virtual`
    InvokeVirtual,
    /// `invoke-super`
    InvokeSuper,
    /// `invoke-direct`
    InvokeDirect,
    /// `invoke-static`
    InvokeStatic,
    /// `invoke-interface`
    InvokeInterface,
    /// `invoke-virtual/range`
    InvokeVirtualRange,
    /// `invoke-super/range`
    InvokeSuperRange,
    /// `invoke-direct/range`
    InvokeDirectRange,
    /// `invoke-static/range`
    InvokeStaticRange,
    /// `invoke-interface/range`
    InvokeInterfaceRange,
    /// `neg-int`
    NegInt,
    /// `not-int`
    NotInt,
    /// `neg-long`
    NegLong,
    /// `not-long`
    NotLong,
    /// `neg-float`
    NegFloat,
    /// `neg-double`
    NegDouble,
    /// `int-to-long`
    IntToLong,
    /// `int-to-float`
    IntToFloat,
    /// `int-to-double`
    IntToDouble,
    /// `long-to-int`
    LongToInt,
    /// `long-to-float`
    LongToFloat,
    /// `long-to-double`
    LongToDouble,
    /// `float-to-int`
    FloatToInt,
    /// `float-to-long`
    FloatToLong,
    /// `float-to-double`
    FloatToDouble,
    /// `double-to-int`
    DoubleToInt,
    /// `double-to-long`
    DoubleToLong,
    /// `double-to-float`
    DoubleToFloat,
    /// `int-to-byte`
    IntToByte,
    /// `int-to-char`
    IntToChar,
    /// `int-to-short`
    IntToShort,
    /// `add-int`
    AddInt,
    /// `sub-int`
    SubInt,
    /// `mul-int`
    MulInt,
    /// `div-int`
    DivInt,
    /// `rem-int`
    RemInt,
    /// `and-int`
    AndInt,
    /// `or-int`
    OrInt,
    /// `xor-int`
    XorInt,
    /// `shl-int`
    ShlInt,
    /// `shr-int`
    ShrInt,
    /// `ushr-int`
    UshrInt,
    /// `add-long`
    AddLong,
    /// `sub-long`
    SubLong,
    /// `mul-long`
    MulLong,
    /// `div-long`
    DivLong,
    /// `rem-long`
    RemLong,
    /// `and-long`
    AndLong,
    /// `or-long`
    OrLong,
    /// `xor-long`
    XorLong,
    /// `shl-long`
    ShlLong,
    /// `shr-long`
    ShrLong,
    /// `ushr-long`
    UshrLong,
    /// `add-float`
    AddFloat,
    /// `sub-float`
    SubFloat,
    /// `mul-float`
    MulFloat,
    /// `div-float`
    DivFloat,
    /// `rem-float`
    RemFloat,
    /// `add-double`
    AddDouble,
    /// `sub-double`
    SubDouble,
    /// `mul-double`
    MulDouble,
    /// `div-double`
    DivDouble,
    /// `rem-double`
    RemDouble,
    /// `add-int/2addr`
    AddInt2Addr,
    /// `sub-int/2addr`
    SubInt2Addr,
    /// `mul-int/2addr`
    MulInt2Addr,
    /// `div-int/2addr`
    DivInt2Addr,
    /// `rem-int/2addr`
    RemInt2Addr,
    /// `and-int/2addr`
    AndInt2Addr,
    /// `or-int/2addr`
    OrInt2Addr,
    /// `xor-int/2addr`
    XorInt2Addr,
    /// `shl-int/2addr`
    ShlInt2Addr,
    /// `shr-int/2addr`
    ShrInt2Addr,
    /// `ushr-int/2addr`
    UshrInt2Addr,
    /// `add-long/2addr`
    AddLong2Addr,
    /// `sub-long/2addr`
    SubLong2Addr,
    /// `mul-long/2addr`
    MulLong2Addr,
    /// `div-long/2addr`
    DivLong2Addr,
    /// `rem-long/2addr`
    RemLong2Addr,
    /// `and-long/2addr`
    AndLong2Addr,
    /// `or-long/2addr`
    OrLong2Addr,
    /// `xor-long/2addr`
    XorLong2Addr,
    /// `shl-long/2addr`
    ShlLong2Addr,
    /// `shr-long/2addr`
    ShrLong2Addr,
    /// `ushr-long/2addr`
    UshrLong2Addr,
    /// `add-float/2addr`
    AddFloat2Addr,
    /// `sub-float/2addr`
    SubFloat2Addr,
    /// `mul-float/2addr`
    MulFloat2Addr,
    /// `div-float/2addr`
    DivFloat2Addr,
    /// `rem-float/2addr`
    RemFloat2Addr,
    /// `add-double/2addr`
    AddDouble2Addr,
    /// `sub-double/2addr`
    SubDouble2Addr,
    /// `mul-double/2addr`
    MulDouble2Addr,
    /// `div-double/2addr`
    DivDouble2Addr,
    /// `rem-double/2addr`
    RemDouble2Addr,
    /// `add-int/lit16`
    AddIntLit16,
    /// `rsub-int`
    RsubInt,
    /// `mul-int/lit16`
    MulIntLit16,
    /// `div-int/lit16`
    DivIntLit16,
    /// `rem-int/lit16`
    RemIntLit16,
    /// `and-int/lit16`
    AndIntLit16,
    /// `or-int/lit16`
    OrIntLit16,
    /// `xor-int/lit16`
    XorIntLit16,
    /// `add-int/lit8`
    AddIntLit8,
    /// `rsub-int/lit8`
    RsubIntLit8,
    /// `mul-int/lit8`
    MulIntLit8,
    /// `div-int/lit8`
    DivIntLit8,
    /// `rem-int/lit8`
    RemIntLit8,
    /// `and-int/lit8`
    AndIntLit8,
    /// `or-int/lit8`
    OrIntLit8,
    /// `xor-int/lit8`
    XorIntLit8,
    /// `shl-int/lit8`
    ShlIntLit8,
    /// `shr-int/lit8`
    ShrIntLit8,
    /// `ushr-int/lit8`
    UshrIntLit8,
    /// `invoke-polymorphic`
    InvokePolymorphic,
    /// `invoke-polymorphic/range`
    InvokePolymorphicRange,
    /// `invoke-custom`
    InvokeCustom,
    /// `invoke-custom/range`
    InvokeCustomRange,
    /// `const-method-handle`
    ConstMethodHandle,
    /// `const-method-type`
    ConstMethodType,
}

/// The layout of an instruction in the word stream, named as the Dalvik
/// documentation names it: the first digit is the length in words, the second
/// the number of registers, the letter the kind of the extra operand.
#[derive(Clone, Copy, Debug, PartialEq, Eq, Structural, Hash)]
pub enum Format {
    /// `op`
    F10x,
    /// `B|A|op`: two four-bit registers
    F12x,
    /// `B|A|op`: a four-bit register and a signed four-bit literal
    F11n,
    /// `AA|op`: one eight-bit register
    F11x,
    /// `AA|op`: a signed eight-bit branch offset
    F10t,
    /// `op AAAA`: a signed sixteen-bit branch offset
    F20t,
    /// `AA|op BBBB`: an eight-bit and a sixteen-bit register
    F22x,
    /// `AA|op BBBB`: a register and a signed sixteen-bit branch offset
    F21t,
    /// `AA|op BBBB`: a register and a signed sixteen-bit literal
    F21s,
    /// `AA|op BBBB`: a register and the high sixteen bits of a literal
    F21h,
    /// `AA|op BBBB`: a register and a sixteen-bit constant-pool index
    F21c,
    /// `AA|op CC|BB`: three eight-bit registers
    F23x,
    /// `AA|op CC|BB`: two registers and a signed eight-bit literal
    F22b,
    /// `B|A|op CCCC`: two four-bit registers and a signed sixteen-bit branch offset
    F22t,
    /// `B|A|op CCCC`: two four-bit registers and a signed sixteen-bit literal
    F22s,
    /// `B|A|op CCCC`: two four-bit registers and a sixteen-bit constant-pool index
    F22c,
    /// `op AAAAlo AAAAhi`: a signed thirty-two-bit branch offset
    F30t,
    /// `op AAAA BBBB`: two sixteen-bit registers
    F32x,
    /// `AA|op BBBBlo BBBBhi`: a register and a thirty-two-bit literal
    F31i,
    /// `AA|op BBBBlo BBBBhi`: a register and a signed thirty-two-bit branch offset
    F31t,
    /// `AA|op BBBBlo BBBBhi`: a register and a thirty-two-bit constant-pool index
    F31c,
    /// `A|G|op BBBB F|E|D|C`: a constant-pool index and up to five four-bit registers
    F35c,
    /// `AA|op BBBB CCCC`: a constant-pool index and a run of `AA` registers from `CCCC`
    F3rc,
    /// `A|G|op BBBB F|E|D|C HHHH`: as `F35c`, followed by a prototype index
    F45cc,
    /// `AA|op BBBB CCCC HHHH`: as `F3rc`, followed by a prototype index
    F4rcc,
    /// `AA|op BBBBlo BBBB BBBB BBBBhi`: a register and a sixty-four-bit literal
    F51l,
}

/// How an instruction ends a basic block, if it does.
#[derive(Clone, Copy, Debug, PartialEq, Eq, Structural, Hash)]
pub enum TerminatorKind {
    NoTerminator,
    Goto,
    Return,
    Throw,
    ConditionalBranch,
    Switch,
}

/// The classes the feature summary counts. An opcode belongs to at most one.
#[derive(Clone, Copy, Debug, PartialEq, Eq, Structural, Hash)]
pub enum Category {
    Move,
    Constant,
    Access,
    Invoke,
    Arithmetic,
    Comparison,
    Monitor,
}

/// The byte values that name no instruction.
pub open spec fn is_reserved(byte: u8) -> bool {
    ||| 0x3e <= byte <= 0x43
    ||| byte == 0x73
    ||| 0x79 <= byte <= 0x7a
    ||| 0xe3 <= byte <= 0xf9
}

impl Format {
    /// The number of sixteen-bit words an instruction of this format occupies.
    pub open spec fn spec_length(self) -> nat {
        match self {
            Format::F10x | Format::F12x | Format::F11n | Format::F11x | Format::F10t => 1,
            Format::F20t | Format::F22x | Format::F21t | Format::F21s | Format::F21h
            | Format::F21c | Format::F23x | Format::F22b | Format::F22t | Format::F22s
            | Format::F22c => 2,
            Format::F30t | Format::F32x | Format::F31i | Format::F31t | Format::F31c
            | Format::F35c | Format::F3rc => 3,
            Format::F45cc | Format::F4rcc => 4,
            Format::F51l => 5,
        }
    }

    pub fn length(self) -> (words: usize)
        ensures
            words == self.spec_length(),
            1 <= words <= 5,
    {
        match self {
            Format::F10x | Format::F12x | Format::F11n | Format::F11x | Format::F10t => 1,
            Format::F20t | Format::F22x | Format::F21t | Format::F21s | Format::F21h
            | Format::F21c | Format::F23x | Format::F22b | Format::F22t | Format::F22s
            | Format::F22c => 2,
            Format::F30t | Format::F32x | Format::F31i | Format::F31t | Format::F31c
            | Format::F35c | Format::F3rc => 3,
            Format::F45cc | Format::F4rcc => 4,
            Format::F51l => 5,
        }
    }
}

impl Opcode {
    /// The byte that encodes this opcode.
    pub open spec fn spec_byte(self) -> u8 {
        match self {
            Opcode::Nop => 0x00,
            Opcode::Move => 0x01,
            Opcode::MoveFrom16 => 0x02,
            Opcode::Move16 => 0x03,
            Opcode::MoveWide => 0x04,
            Opcode::MoveWideFrom16 => 0x05,
            Opcode::MoveWide16 => 0x06,
            Opcode::MoveObject => 0x07,
            Opcode::MoveObjectFrom16 => 0x08,
            Opcode::MoveObject16 => 0x09,
            Opcode::MoveResult => 0x0a,
            Opcode::MoveResultWide => 0x0b,
            Opcode::MoveResultObject => 0x0c,
            Opcode::MoveException => 0x0d,
            Opcode::ReturnVoid => 0x0e,
            Opcode::Return => 0x0f,
            Opcode::ReturnWide => 0x10,
            Opcode::ReturnObject => 0x11,
            Opcode::Const4 => 0x12,
            Opcode::Const16 => 0x13,
            Opcode::Const => 0x14,
            Opcode::ConstHigh16 => 0x15,
            Opcode::ConstWide16 => 0x16,
            Opcode::ConstWide32 => 0x17,
            Opcode::ConstWide => 0x18,
            Opcode::ConstWideHigh16 => 0x19,
            Opcode::ConstString => 0x1a,
            Opcode::ConstStringJumbo => 0x1b,
            Opcode::ConstClass => 0x1c,
            Opcode::MonitorEnter => 0x1d,
            Opcode::MonitorExit => 0x1e,
            Opcode::CheckCast => 0x1f,
            Opcode::InstanceOf => 0x20,
            Opcode::ArrayLength => 0x21,
            Opcode::NewInstance => 0x22,
            Opcode::NewArray => 0x23,
            Opcode::FilledNewArray => 0x24,
            Opcode::FilledNewArrayRange => 0x25,
            Opcode::FillArrayData => 0x26,
            Opcode::Throw => 0x27,
            Opcode::Goto => 0x28,
            Opcode::Goto16 => 0x29,
            Opcode::Goto32 => 0x2a,
            Opcode::PackedSwitch => 0x2b,
            Opcode::SparseSwitch => 0x2c,
            Opcode::CmplFloat => 0x2d,
            Opcode::CmpgFloat => 0x2e,
            Opcode::CmplDouble => 0x2f,
            Opcode::CmpgDouble => 0x30,
            Opcode::CmpLong => 0x31,
            Opcode::IfEq => 0x32,
            Opcode::IfNe => 0x33,
            Opcode::IfLt => 0x34,
            Opcode::IfGe => 0x35,
            Opcode::IfGt => 0x36,
            Opcode::IfLe => 0x37,
            Opcode::IfEqz => 0x38,
            Opcode::IfNez => 0x39,
            Opcode::IfLtz => 0x3a,
            Opcode::IfGez => 0x3b,
            Opcode::IfGtz => 0x3c,
            Opcode::IfLez => 0x3d,
            Opcode::Aget => 0x44,
            Opcode::AgetWide => 0x45,
            Opcode::AgetObject => 0x46,
            Opcode::AgetBoolean => 0x47,
            Opcode::AgetByte => 0x48,
            Opcode::AgetChar => 0x49,
            Opcode::AgetShort => 0x4a,
            Opcode::Aput => 0x4b,
            Opcode::AputWide => 0x4c,
            Opcode::AputObject => 0x4d,
            Opcode::AputBoolean => 0x4e,
            Opcode::AputByte => 0x4f,
            Opcode::AputChar => 0x50,
            Opcode::AputShort => 0x51,
            Opcode::Iget => 0x52,
            Opcode::IgetWide => 0x53,
            Opcode::IgetObject => 0x54,
            Opcode::IgetBoolean => 0x55,
            Opcode::IgetByte => 0x56,
            Opcode::IgetChar => 0x57,
            Opcode::IgetShort => 0x58,
            Opcode::Iput => 0x59,
            Opcode::IputWide => 0x5a,
            Opcode::IputObject => 0x5b,
            Opcode::IputBoolean => 0x5c,
            Opcode::IputByte => 0x5d,
            Opcode::IputChar => 0x5e,
            Opcode::IputShort => 0x5f,
            Opcode::Sget => 0x60,
            Opcode::SgetWide => 0x61,
            Opcode::SgetObject => 0x62,
            Opcode::SgetBoolean => 0x63,
            Opcode::SgetByte => 0x64,
            Opcode::SgetChar => 0x65,
            Opcode::SgetShort => 0x66,
            Opcode::Sput => 0x67,
            Opcode::SputWide => 0x68,
            Opcode::SputObject => 0x69,
            Opcode::SputBoolean => 0x6a,
            Opcode::SputByte => 0x6b,
            Opcode::SputChar => 0x6c,
            Opcode::SputShort => 0x6d,
            Opcode::InvokeVirtual => 0x6e,
            Opcode::InvokeSuper => 0x6f,
            Opcode::InvokeDirect => 0x70,
            Opcode::InvokeStatic => 0x71,
            Opcode::InvokeInterface => 0x72,
            Opcode::InvokeVirtualRange => 0x74,
            Opcode::InvokeSuperRange => 0x75,
            Opcode::InvokeDirectRange => 0x76,
            Opcode::InvokeStaticRange => 0x77,
            Opcode::InvokeInterfaceRange => 0x78,
            Opcode::NegInt => 0x7b,
            Opcode::NotInt => 0x7c,
            Opcode::NegLong => 0x7d,
            Opcode::NotLong => 0x7e,
            Opcode::NegFloat => 0x7f,
            Opcode::NegDouble => 0x80,
            Opcode::IntToLong => 0x81,
            Opcode::IntToFloat => 0x82,
            Opcode::IntToDouble => 0x83,
            Opcode::LongToInt => 0x84,
            Opcode::LongToFloat => 0x85,
            Opcode::LongToDouble => 0x86,
            Opcode::FloatToInt => 0x87,
            Opcode::FloatToLong => 0x88,
            Opcode::FloatToDouble => 0x89,
            Opcode::DoubleToInt => 0x8a,
            Opcode::DoubleToLong => 0x8b,
            Opcode::DoubleToFloat => 0x8c,
            Opcode::IntToByte => 0x8d,
            Opcode::IntToChar => 0x8e,
            Opcode::IntToShort => 0x8f,
            Opcode::AddInt => 0x90,
            Opcode::SubInt => 0x91,
            Opcode::MulInt => 0x92,
            Opcode::DivInt => 0x93,
            Opcode::RemInt => 0x94,
            Opcode::AndInt => 0x95,
            Opcode::OrInt => 0x96,
            Opcode::XorInt => 0x97,
            Opcode::ShlInt => 0x98,
            Opcode::ShrInt => 0x99,
            Opcode::UshrInt => 0x9a,
            Opcode::AddLong => 0x9b,
            Opcode::SubLong => 0x9c,
            Opcode::MulLong => 0x9d,
            Opcode::DivLong => 0x9e,
            Opcode::RemLong => 0x9f,
            Opcode::AndLong => 0xa0,
            Opcode::OrLong => 0xa1,
            Opcode::XorLong => 0xa2,
            Opcode::ShlLong => 0xa3,
            Opcode::ShrLong => 0xa4,
            Opcode::UshrLong => 0xa5,
            Opcode::AddFloat => 0xa6,
            Opcode::SubFloat => 0xa7,
            Opcode::MulFloat => 0xa8,
            Opcode::DivFloat => 0xa9,
            Opcode::RemFloat => 0xaa,
            Opcode::AddDouble => 0xab,
            Opcode::SubDouble => 0xac,
            Opcode::MulDouble => 0xad,
            Opcode::DivDouble => 0xae,
            Opcode::RemDouble => 0xaf,
            Opcode::AddInt2Addr => 0xb0,
            Opcode::SubInt2Addr => 0xb1,
            Opcode::MulInt2Addr => 0xb2,
            Opcode::DivInt2Addr => 0xb3,
            Opcode::RemInt2Addr => 0xb4,
            Opcode::AndInt2Addr => 0xb5,
            Opcode::OrInt2Addr => 0xb6,
            Opcode::XorInt2Addr => 0xb7,
            Opcode::ShlInt2Addr => 0xb8,
            Opcode::ShrInt2Addr => 0xb9,
            Opcode::UshrInt2Addr => 0xba,
            Opcode::AddLong2Addr => 0xbb,
            Opcode::SubLong2Addr => 0xbc,
            Opcode::MulLong2Addr => 0xbd,
            Opcode::DivLong2Addr => 0xbe,
            Opcode::RemLong2Addr => 0xbf,
            Opcode::AndLong2Addr => 0xc0,
            Opcode::OrLong2Addr => 0xc1,
            Opcode::XorLong2Addr => 0xc2,
            Opcode::ShlLong2Addr => 0xc3,
            Opcode::ShrLong2Addr => 0xc4,
            Opcode::UshrLong2Addr => 0xc5,
            Opcode::AddFloat2Addr => 0xc6,
            Opcode::SubFloat2Addr => 0xc7,
            Opcode::MulFloat2Addr => 0xc8,
            Opcode::DivFloat2Addr => 0xc9,
            Opcode::RemFloat2Addr => 0xca,
            Opcode::AddDouble2Addr => 0xcb,
            Opcode::SubDouble2Addr => 0xcc,
            Opcode::MulDouble2Addr => 0xcd,
            Opcode::DivDouble2Addr => 0xce,
            Opcode::RemDouble2Addr => 0xcf,
            Opcode::AddIntLit16 => 0xd0,
            Opcode::RsubInt => 0xd1,
            Opcode::MulIntLit16 => 0xd2,
            Opcode::DivIntLit16 => 0xd3,
            Opcode::RemIntLit16 => 0xd4,
            Opcode::AndIntLit16 => 0xd5,
            Opcode::OrIntLit16 => 0xd6,
            Opcode::XorIntLit16 => 0xd7,
            Opcode::AddIntLit8 => 0xd8,
            Opcode::RsubIntLit8 => 0xd9,
            Opcode::MulIntLit8 => 0xda,
            Opcode::DivIntLit8 => 0xdb,
            Opcode::RemIntLit8 => 0xdc,
            Opcode::AndIntLit8 => 0xdd,
            Opcode::OrIntLit8 => 0xde,
            Opcode::XorIntLit8 => 0xdf,
            Opcode::ShlIntLit8 => 0xe0,
            Opcode::ShrIntLit8 => 0xe1,
            Opcode::UshrIntLit8 => 0xe2,
            Opcode::InvokePolymorphic => 0xfa,
            Opcode::InvokePolymorphicRange => 0xfb,
            Opcode::InvokeCustom => 0xfc,
            Opcode::InvokeCustomRange => 0xfd,
            Opcode::ConstMethodHandle => 0xfe,
            Opcode::ConstMethodType => 0xff,
        }
    }

    /// The opcode a byte encodes, `None` for a reserved byte.
    pub open spec fn spec_from_u8(byte: u8) -> Option<Opcode> {
        match byte {
            0x00 => Some(Opcode::Nop),
            0x01 => Some(Opcode::Move),
            0x02 => Some(Opcode::MoveFrom16),
            0x03 => Some(Opcode::Move16),
            0x04 => Some(Opcode::MoveWide),
            0x05 => Some(Opcode::MoveWideFrom16),
            0x06 => Some(Opcode::MoveWide16),
            0x07 => Some(Opcode::MoveObject),
            0x08 => Some(Opcode::MoveObjectFrom16),
            0x09 => Some(Opcode::MoveObject16),
            0x0a => Some(Opcode::MoveResult),
            0x0b => Some(Opcode::MoveResultWide),
            0x0c => Some(Opcode::MoveResultObject),
            0x0d => Some(Opcode::MoveException),
            0x0e => Some(Opcode::ReturnVoid),
            0x0f => Some(Opcode::Return),
            0x10 => Some(Opcode::ReturnWide),
            0x11 => Some(Opcode::ReturnObject),
            0x12 => Some(Opcode::Const4),
            0x13 => Some(Opcode::Const16),
            0x14 => Some(Opcode::Const),
            0x15 => Some(Opcode::ConstHigh16),
            0x16 => Some(Opcode::ConstWide16),
            0x17 => Some(Opcode::ConstWide32),
            0x18 => Some(Opcode::ConstWide),
            0x19 => Some(Opcode::ConstWideHigh16),
            0x1a => Some(Opcode::ConstString),
            0x1b => Some(Opcode::ConstStringJumbo),
            0x1c => Some(Opcode::ConstClass),
            0x1d => Some(Opcode::MonitorEnter),
            0x1e => Some(Opcode::MonitorExit),
            0x1f => Some(Opcode::CheckCast),
            0x20 => Some(Opcode::InstanceOf),
            0x21 => Some(Opcode::ArrayLength),
            0x22 => Some(Opcode::NewInstance),
            0x23 => Some(Opcode::NewArray),
            0x24 => Some(Opcode::FilledNewArray),
            0x25 => Some(Opcode::FilledNewArrayRange),
            0x26 => Some(Opcode::FillArrayData),
            0x27 => Some(Opcode::Throw),
            0x28 => Some(Opcode::Goto),
            0x29 => Some(Opcode::Goto16),
            0x2a => Some(Opcode::Goto32),
            0x2b => Some(Opcode::PackedSwitch),
            0x2c => Some(Opcode::SparseSwitch),
            0x2d => Some(Opcode::CmplFloat),
            0x2e => Some(Opcode::CmpgFloat),
            0x2f => Some(Opcode::CmplDouble),
            0x30 => Some(Opcode::CmpgDouble),
            0x31 => Some(Opcode::CmpLong),
            0x32 => Some(Opcode::IfEq),
            0x33 => Some(Opcode::IfNe),
            0x34 => Some(Opcode::IfLt),
            0x35 => Some(Opcode::IfGe),
            0x36 => Some(Opcode::IfGt),
            0x37 => Some(Opcode::IfLe),
            0x38 => Some(Opcode::IfEqz),
            0x39 => Some(Opcode::IfNez),
            0x3a => Some(Opcode::IfLtz),
            0x3b => Some(Opcode::IfGez),
            0x3c => Some(Opcode::IfGtz),
            0x3d => Some(Opcode::IfLez),
            0x44 => Some(Opcode::Aget),
            0x45 => Some(Opcode::AgetWide),
            0x46 => Some(Opcode::AgetObject),
            0x47 => Some(Opcode::AgetBoolean),
            0x48 => Some(Opcode::AgetByte),
            0x49 => Some(Opcode::AgetChar),
            0x4a => Some(Opcode::AgetShort),
            0x4b => Some(Opcode::Aput),
            0x4c => Some(Opcode::AputWide),
            0x4d => Some(Opcode::AputObject),
            0x4e => Some(Opcode::AputBoolean),
            0x4f => Some(Opcode::AputByte),
            0x50 => Some(Opcode::AputChar),
            0x51 => Some(Opcode::AputShort),
            0x52 => Some(Opcode::Iget),
            0x53 => Some(Opcode::IgetWide),
            0x54 => Some(Opcode::IgetObject),
            0x55 => Some(Opcode::IgetBoolean),
            0x56 => Some(Opcode::IgetByte),
            0x57 => Some(Opcode::IgetChar),
            0x58 => Some(Opcode::IgetShort),
            0x59 => Some(Opcode::Iput),
            0x5a => Some(Opcode::IputWide),
            0x5b => Some(Opcode::IputObject),
            0x5c => Some(Opcode::IputBoolean),
            0x5d => Some(Opcode::IputByte),
            0x5e => Some(Opcode::IputChar),
            0x5f => Some(Opcode::IputShort),
            0x60 => Some(Opcode::Sget),
            0x61 => Some(Opcode::SgetWide),
            0x62 => Some(Opcode::SgetObject),
            0x63 => Some(Opcode::SgetBoolean),
            0x64 => Some(Opcode::SgetByte),
            0x65 => Some(Opcode::SgetChar),
            0x66 => Some(Opcode::SgetShort),
            0x67 => Some(Opcode::Sput),
            0x68 => Some(Opcode::SputWide),
            0x69 => Some(Opcode::SputObject),
            0x6a => Some(Opcode::SputBoolean),
            0x6b => Some(Opcode::SputByte),
            0x6c => Some(Opcode::SputChar),
            0x6d => Some(Opcode::SputShort),
            0x6e => Some(Opcode::InvokeVirtual),
            0x6f => Some(Opcode::InvokeSuper),
            0x70 => Some(Opcode::InvokeDirect),
            0x71 => Some(Opcode::InvokeStatic),
            0x72 => Some(Opcode::InvokeInterface),
            0x74 => Some(Opcode::InvokeVirtualRange),
            0x75 => Some(Opcode::InvokeSuperRange),
            0x76 => Some(Opcode::InvokeDirectRange),
            0x77 => Some(Opcode::InvokeStaticRange),
            0x78 => Some(Opcode::InvokeInterfaceRange),
            0x7b => Some(Opcode::NegInt),
            0x7c => Some(Opcode::NotInt),
            0x7d => Some(Opcode::NegLong),
            0x7e => Some(Opcode::NotLong),
            0x7f => Some(Opcode::NegFloat),
            0x80 => Some(Opcode::NegDouble),
            0x81 => Some(Opcode::IntToLong),
            0x82 => Some(Opcode::IntToFloat),
            0x83 => Some(Opcode::IntToDouble),
            0x84 => Some(Opcode::LongToInt),
            0x85 => Some(Opcode::LongToFloat),
            0x86 => Some(Opcode::LongToDouble),
            0x87 => Some(Opcode::FloatToInt),
            0x88 => Some(Opcode::FloatToLong),
            0x89 => Some(Opcode::FloatToDouble),
            0x8a => Some(Opcode::DoubleToInt),
            0x8b => Some(Opcode::DoubleToLong),
            0x8c => Some(Opcode::DoubleToFloat),
            0x8d => Some(Opcode::IntToByte),
            0x8e => Some(Opcode::IntToChar),
            0x8f => Some(Opcode::IntToShort),
            0x90 => Some(Opcode::AddInt),
            0x91 => Some(Opcode::SubInt),
            0x92 => Some(Opcode::MulInt),
            0x93 => Some(Opcode::DivInt),
            0x94 => Some(Opcode::RemInt),
            0x95 => Some(Opcode::AndInt),
            0x96 => Some(Opcode::OrInt),
            0x97 => Some(Opcode::XorInt),
            0x98 => Some(Opcode::ShlInt),
            0x99 => Some(Opcode::ShrInt),
            0x9a => Some(Opcode::UshrInt),
            0x9b => Some(Opcode::AddLong),
            0x9c => Some(Opcode::SubLong),
            0x9d => Some(Opcode::MulLong),
            0x9e => Some(Opcode::DivLong),
            0x9f => Some(Opcode::RemLong),
            0xa0 => Some(Opcode::AndLong),
            0xa1 => Some(Opcode::OrLong),
            0xa2 => Some(Opcode::XorLong),
            0xa3 => Some(Opcode::ShlLong),
            0xa4 => Some(Opcode::ShrLong),
            0xa5 => Some(Opcode::UshrLong),
            0xa6 => Some(Opcode::AddFloat),
            0xa7 => Some(Opcode::SubFloat),
            0xa8 => Some(Opcode::MulFloat),
            0xa9 => Some(Opcode::DivFloat),
            0xaa => Some(Opcode::RemFloat),
            0xab => Some(Opcode::AddDouble),
            0xac => Some(Opcode::SubDouble),
            0xad => Some(Opcode::MulDouble),
            0xae => Some(Opcode::DivDouble),
            0xaf => Some(Opcode::RemDouble),
            0xb0 => Some(Opcode::AddInt2Addr),
            0xb1 => Some(Opcode::SubInt2Addr),
            0xb2 => Some(Opcode::MulInt2Addr),
            0xb3 => Some(Opcode::DivInt2Addr),
            0xb4 => Some(Opcode::RemInt2Addr),
            0xb5 => Some(Opcode::AndInt2Addr),
            0xb6 => Some(Opcode::OrInt2Addr),
            0xb7 => Some(Opcode::XorInt2Addr),
            0xb8 => Some(Opcode::ShlInt2Addr),
            0xb9 => Some(Opcode::ShrInt2Addr),
            0xba => Some(Opcode::UshrInt2Addr),
            0xbb => Some(Opcode::AddLong2Addr),
            0xbc => Some(Opcode::SubLong2Addr),
            0xbd => Some(Opcode::MulLong2Addr),
            0xbe => Some(Opcode::DivLong2Addr),
            0xbf => Some(Opcode::RemLong2Addr),
            0xc0 => Some(Opcode::AndLong2Addr),
            0xc1 => Some(Opcode::OrLong2Addr),
            0xc2 => Some(Opcode::XorLong2Addr),
            0xc3 => Some(Opcode::ShlLong2Addr),
            0xc4 => Some(Opcode::ShrLong2Addr),
            0xc5 => Some(Opcode::UshrLong2Addr),
            0xc6 => Some(Opcode::AddFloat2Addr),
            0xc7 => Some(Opcode::SubFloat2Addr),
            0xc8 => Some(Opcode::MulFloat2Addr),
            0xc9 => Some(Opcode::DivFloat2Addr),
            0xca => Some(Opcode::RemFloat2Addr),
            0xcb => Some(Opcode::AddDouble2Addr),
            0xcc => Some(Opcode::SubDouble2Addr),
            0xcd => Some(Opcode::MulDouble2Addr),
            0xce => Some(Opcode::DivDouble2Addr),
            0xcf => Some(Opcode::RemDouble2Addr),
            0xd0 => Some(Opcode::AddIntLit16),
            0xd1 => Some(Opcode::RsubInt),
            0xd2 => Some(Opcode::MulIntLit16),
            0xd3 => Some(Opcode::DivIntLit16),
            0xd4 => Some(Opcode::RemIntLit16),
            0xd5 => Some(Opcode::AndIntLit16),
            0xd6 => Some(Opcode::OrIntLit16),
            0xd7 => Some(Opcode::XorIntLit16),
            0xd8 => Some(Opcode::AddIntLit8),
            0xd9 => Some(Opcode::RsubIntLit8),
            0xda => Some(Opcode::MulIntLit8),
            0xdb => Some(Opcode::DivIntLit8),
            0xdc => Some(Opcode::RemIntLit8),
            0xdd => Some(Opcode::AndIntLit8),
            0xde => Some(Opcode::OrIntLit8),
            0xdf => Some(Opcode::XorIntLit8),
            0xe0 => Some(Opcode::ShlIntLit8),
            0xe1 => Some(Opcode::ShrIntLit8),
            0xe2 => Some(Opcode::UshrIntLit8),
            0xfa => Some(Opcode::InvokePolymorphic),
            0xfb => Some(Opcode::InvokePolymorphicRange),
            0xfc => Some(Opcode::InvokeCustom),
            0xfd => Some(Opcode::InvokeCustomRange),
            0xfe => Some(Opcode::ConstMethodHandle),
            0xff => Some(Opcode::ConstMethodType),
            _ => None,
        }
    }

    #[verifier::when_used_as_spec(spec_byte)]
    pub fn byte(self) -> (byte: u8)
        ensures
            byte == self.spec_byte(),
            !is_reserved(byte),
    {
        match self {
            Opcode::Nop => 0x00,
            Opcode::Move => 0x01,
            Opcode::MoveFrom16 => 0x02,
            Opcode::Move16 => 0x03,
            Opcode::MoveWide => 0x04,
            Opcode::MoveWideFrom16 => 0x05,
            Opcode::MoveWide16 => 0x06,
            Opcode::MoveObject => 0x07,
            Opcode::MoveObjectFrom16 => 0x08,
            Opcode::MoveObject16 => 0x09,
            Opcode::MoveResult => 0x0a,
            Opcode::MoveResultWide => 0x0b,
            Opcode::MoveResultObject => 0x0c,
            Opcode::MoveException => 0x0d,
            Opcode::ReturnVoid => 0x0e,
            Opcode::Return => 0x0f,
            Opcode::ReturnWide => 0x10,
            Opcode::ReturnObject => 0x11,
            Opcode::Const4 => 0x12,
            Opcode::Const16 => 0x13,
            Opcode::Const => 0x14,
            Opcode::ConstHigh16 => 0x15,
            Opcode::ConstWide16 => 0x16,
            Opcode::ConstWide32 => 0x17,
            Opcode::ConstWide => 0x18,
            Opcode::ConstWideHigh16 => 0x19,
            Opcode::ConstString => 0x1a,
            Opcode::ConstStringJumbo => 0x1b,
            Opcode::ConstClass => 0x1c,
            Opcode::MonitorEnter => 0x1d,
            Opcode::MonitorExit => 0x1e,
            Opcode::CheckCast => 0x1f,
            Opcode::InstanceOf => 0x20,
            Opcode::ArrayLength => 0x21,
            Opcode::NewInstance => 0x22,
            Opcode::NewArray => 0x23,
            Opcode::FilledNewArray => 0x24,
            Opcode::FilledNewArrayRange => 0x25,
            Opcode::FillArrayData => 0x26,
            Opcode::Throw => 0x27,
            Opcode::Goto => 0x28,
            Opcode::Goto16 => 0x29,
            Opcode::Goto32 => 0x2a,
            Opcode::PackedSwitch => 0x2b,
            Opcode::SparseSwitch => 0x2c,
            Opcode::CmplFloat => 0x2d,
            Opcode::CmpgFloat => 0x2e,
            Opcode::CmplDouble => 0x2f,
            Opcode::CmpgDouble => 0x30,
            Opcode::CmpLong => 0x31,
            Opcode::IfEq => 0x32,
            Opcode::IfNe => 0x33,
            Opcode::IfLt => 0x34,
            Opcode::IfGe => 0x35,
            Opcode::IfGt => 0x36,
            Opcode::IfLe => 0x37,
            Opcode::IfEqz => 0x38,
            Opcode::IfNez => 0x39,
            Opcode::IfLtz => 0x3a,
            Opcode::IfGez => 0x3b,
            Opcode::IfGtz => 0x3c,
            Opcode::IfLez => 0x3d,
            Opcode::Aget => 0x44,
            Opcode::AgetWide => 0x45,
            Opcode::AgetObject => 0x46,
            Opcode::AgetBoolean => 0x47,
            Opcode::AgetByte => 0x48,
            Opcode::AgetChar => 0x49,
            Opcode::AgetShort => 0x4a,
            Opcode::Aput => 0x4b,
            Opcode::AputWide => 0x4c,
            Opcode::AputObject => 0x4d,
            Opcode::AputBoolean => 0x4e,
            Opcode::AputByte => 0x4f,
            Opcode::AputChar => 0x50,
            Opcode::AputShort => 0x51,
            Opcode::Iget => 0x52,
            Opcode::IgetWide => 0x53,
            Opcode::IgetObject => 0x54,
            Opcode::IgetBoolean => 0x55,
            Opcode::IgetByte => 0x56,
            Opcode::IgetChar => 0x57,
            Opcode::IgetShort => 0x58,
            Opcode::Iput => 0x59,
            Opcode::IputWide => 0x5a,
            Opcode::IputObject => 0x5b,
            Opcode::IputBoolean => 0x5c,
            Opcode::IputByte => 0x5d,
            Opcode::IputChar => 0x5e,
            Opcode::IputShort => 0x5f,
            Opcode::Sget => 0x60,
            Opcode::SgetWide => 0x61,
            Opcode::SgetObject => 0x62,
            Opcode::SgetBoolean => 0x63,
            Opcode::SgetByte => 0x64,
            Opcode::SgetChar => 0x65,
            Opcode::SgetShort => 0x66,
            Opcode::Sput => 0x67,
            Opcode::SputWide => 0x68,
            Opcode::SputObject => 0x69,
            Opcode::SputBoolean => 0x6a,
            Opcode::SputByte => 0x6b,
            Opcode::SputChar => 0x6c,
            Opcode::SputShort => 0x6d,
            Opcode::InvokeVirtual => 0x6e,
            Opcode::InvokeSuper => 0x6f,
            Opcode::InvokeDirect => 0x70,
            Opcode::InvokeStatic => 0x71,
            Opcode::InvokeInterface => 0x72,
            Opcode::InvokeVirtualRange => 0x74,
            Opcode::InvokeSuperRange => 0x75,
            Opcode::InvokeDirectRange => 0x76,
            Opcode::InvokeStaticRange => 0x77,
            Opcode::InvokeInterfaceRange => 0x78,
            Opcode::NegInt => 0x7b,
            Opcode::NotInt => 0x7c,
            Opcode::NegLong => 0x7d,
            Opcode::NotLong => 0x7e,
            Opcode::NegFloat => 0x7f,
            Opcode::NegDouble => 0x80,
            Opcode::IntToLong => 0x81,
            Opcode::IntToFloat => 0x82,
            Opcode::IntToDouble => 0x83,
            Opcode::LongToInt => 0x84,
            Opcode::LongToFloat => 0x85,
            Opcode::LongToDouble => 0x86,
            Opcode::FloatToInt => 0x87,
            Opcode::FloatToLong => 0x88,
            Opcode::FloatToDouble => 0x89,
            Opcode::DoubleToInt => 0x8a,
            Opcode::DoubleToLong => 0x8b,
            Opcode::DoubleToFloat => 0x8c,
            Opcode::IntToByte => 0x8d,
            Opcode::IntToChar => 0x8e,
            Opcode::IntToShort => 0x8f,
            Opcode::AddInt => 0x90,
            Opcode::SubInt => 0x91,
            Opcode::MulInt => 0x92,
            Opcode::DivInt => 0x93,
            Opcode::RemInt => 0x94,
            Opcode::AndInt => 0x95,
            Opcode::OrInt => 0x96,
            Opcode::XorInt => 0x97,
            Opcode::ShlInt => 0x98,
            Opcode::ShrInt => 0x99,
            Opcode::UshrInt => 0x9a,
            Opcode::AddLong => 0x9b,
            Opcode::SubLong => 0x9c,
            Opcode::MulLong => 0x9d,
            Opcode::DivLong => 0x9e,
            Opcode::RemLong => 0x9f,
            Opcode::AndLong => 0xa0,
            Opcode::OrLong => 0xa1,
            Opcode::XorLong => 0xa2,
            Opcode::ShlLong => 0xa3,
            Opcode::ShrLong => 0xa4,
            Opcode::UshrLong => 0xa5,
            Opcode::AddFloat => 0xa6,
            Opcode::SubFloat => 0xa7,
            Opcode::MulFloat => 0xa8,
            Opcode::DivFloat => 0xa9,
            Opcode::RemFloat => 0xaa,
            Opcode::AddDouble => 0xab,
            Opcode::SubDouble => 0xac,
            Opcode::MulDouble => 0xad,
            Opcode::DivDouble => 0xae,
            Opcode::RemDouble => 0xaf,
            Opcode::AddInt2Addr => 0xb0,
            Opcode::SubInt2Addr => 0xb1,
            Opcode::MulInt2Addr => 0xb2,
            Opcode::DivInt2Addr => 0xb3,
            Opcode::RemInt2Addr => 0xb4,
            Opcode::AndInt2Addr => 0xb5,
            Opcode::OrInt2Addr => 0xb6,
            Opcode::XorInt2Addr => 0xb7,
            Opcode::ShlInt2Addr => 0xb8,
            Opcode::ShrInt2Addr => 0xb9,
            Opcode::UshrInt2Addr => 0xba,
            Opcode::AddLong2Addr => 0xbb,
            Opcode::SubLong2Addr => 0xbc,
            Opcode::MulLong2Addr => 0xbd,
            Opcode::DivLong2Addr => 0xbe,
            Opcode::RemLong2Addr => 0xbf,
            Opcode::AndLong2Addr => 0xc0,
            Opcode::OrLong2Addr => 0xc1,
            Opcode::XorLong2Addr => 0xc2,
            Opcode::ShlLong2Addr => 0xc3,
            Opcode::ShrLong2Addr => 0xc4,
            Opcode::UshrLong2Addr => 0xc5,
            Opcode::AddFloat2Addr => 0xc6,
            Opcode::SubFloat2Addr => 0xc7,
            Opcode::MulFloat2Addr => 0xc8,
            Opcode::DivFloat2Addr => 0xc9,
            Opcode::RemFloat2Addr => 0xca,
            Opcode::AddDouble2Addr => 0xcb,
            Opcode::SubDouble2Addr => 0xcc,
            Opcode::MulDouble2Addr => 0xcd,
            Opcode::DivDouble2Addr => 0xce,
            Opcode::RemDouble2Addr => 0xcf,
            Opcode::AddIntLit16 => 0xd0,
            Opcode::RsubInt => 0xd1,
            Opcode::MulIntLit16 => 0xd2,
            Opcode::DivIntLit16 => 0xd3,
            Opcode::RemIntLit16 => 0xd4,
            Opcode::AndIntLit16 => 0xd5,
            Opcode::OrIntLit16 => 0xd6,
            Opcode::XorIntLit16 => 0xd7,
            Opcode::AddIntLit8 => 0xd8,
            Opcode::RsubIntLit8 => 0xd9,
            Opcode::MulIntLit8 => 0xda,
            Opcode::DivIntLit8 => 0xdb,
            Opcode::RemIntLit8 => 0xdc,
            Opcode::AndIntLit8 => 0xdd,
            Opcode::OrIntLit8 => 0xde,
            Opcode::XorIntLit8 => 0xdf,
            Opcode::ShlIntLit8 => 0xe0,
            Opcode::ShrIntLit8 => 0xe1,
            Opcode::UshrIntLit8 => 0xe2,
            Opcode::InvokePolymorphic => 0xfa,
            Opcode::InvokePolymorphicRange => 0xfb,
            Opcode::InvokeCustom => 0xfc,
            Opcode::InvokeCustomRange => 0xfd,
            Opcode::ConstMethodHandle => 0xfe,
            Opcode::ConstMethodType => 0xff,
        }
    }

    /// Looks a byte up in the catalog.
    pub fn from_u8(byte: u8) -> (opcode: Option<Opcode>)
        ensures
            opcode == Self::spec_from_u8(byte),
            opcode.is_none() <==> is_reserved(byte),
            opcode matches Some(op) ==> op.spec_byte() == byte,
    {
        match byte {
            0x00 => Some(Opcode::Nop),
            0x01 => Some(Opcode::Move),
            0x02 => Some(Opcode::MoveFrom16),
            0x03 => Some(Opcode::Move16),
            0x04 => Some(Opcode::MoveWide),
            0x05 => Some(Opcode::MoveWideFrom16),
            0x06 => Some(Opcode::MoveWide16),
            0x07 => Some(Opcode::MoveObject),
            0x08 => Some(Opcode::MoveObjectFrom16),
            0x09 => Some(Opcode::MoveObject16),
            0x0a => Some(Opcode::MoveResult),
            0x0b => Some(Opcode::MoveResultWide),
            0x0c => Some(Opcode::MoveResultObject),
            0x0d => Some(Opcode::MoveException),
            0x0e => Some(Opcode::ReturnVoid),
            0x0f => Some(Opcode::Return),
            0x10 => Some(Opcode::ReturnWide),
            0x11 => Some(Opcode::ReturnObject),
            0x12 => Some(Opcode::Const4),
            0x13 => Some(Opcode::Const16),
            0x14 => Some(Opcode::Const),
            0x15 => Some(Opcode::ConstHigh16),
            0x16 => Some(Opcode::ConstWide16),
            0x17 => Some(Opcode::ConstWide32),
            0x18 => Some(Opcode::ConstWide),
            0x19 => Some(Opcode::ConstWideHigh16),
            0x1a => Some(Opcode::ConstString),
            0x1b => Some(Opcode::ConstStringJumbo),
            0x1c => Some(Opcode::ConstClass),
            0x1d => Some(Opcode::MonitorEnter),
            0x1e => Some(Opcode::MonitorExit),
            0x1f => Some(Opcode::CheckCast),
            0x20 => Some(Opcode::InstanceOf),
            0x21 => Some(Opcode::ArrayLength),
            0x22 => Some(Opcode::NewInstance),
            0x23 => Some(Opcode::NewArray),
            0x24 => Some(Opcode::FilledNewArray),
            0x25 => Some(Opcode::FilledNewArrayRange),
            0x26 => Some(Opcode::FillArrayData),
            0x27 => Some(Opcode::Throw),
            0x28 => Some(Opcode::Goto),
            0x29 => Some(Opcode::Goto16),
            0x2a => Some(Opcode::Goto32),
            0x2b => Some(Opcode::PackedSwitch),
            0x2c => Some(Opcode::SparseSwitch),
            0x2d => Some(Opcode::CmplFloat),
            0x2e => Some(Opcode::CmpgFloat),
            0x2f => Some(Opcode::CmplDouble),
            0x30 => Some(Opcode::CmpgDouble),
            0x31 => Some(Opcode::CmpLong),
            0x32 => Some(Opcode::IfEq),
            0x33 => Some(Opcode::IfNe),
            0x34 => Some(Opcode::IfLt),
            0x35 => Some(Opcode::IfGe),
            0x36 => Some(Opcode::IfGt),
            0x37 => Some(Opcode::IfLe),
            0x38 => Some(Opcode::IfEqz),
            0x39 => Some(Opcode::IfNez),
            0x3a => Some(Opcode::IfLtz),
            0x3b => Some(Opcode::IfGez),
            0x3c => Some(Opcode::IfGtz),
            0x3d => Some(Opcode::IfLez),
            0x44 => Some(Opcode::Aget),
            0x45 => Some(Opcode::AgetWide),
            0x46 => Some(Opcode::AgetObject),
            0x47 => Some(Opcode::AgetBoolean),
            0x48 => Some(Opcode::AgetByte),
            0x49 => Some(Opcode::AgetChar),
            0x4a => Some(Opcode::AgetShort),
            0x4b => Some(Opcode::Aput),
            0x4c => Some(Opcode::AputWide),
            0x4d => Some(Opcode::AputObject),
            0x4e => Some(Opcode::AputBoolean),
            0x4f => Some(Opcode::AputByte),
            0x50 => Some(Opcode::AputChar),
            0x51 => Some(Opcode::AputShort),
            0x52 => Some(Opcode::Iget),
            0x53 => Some(Opcode::IgetWide),
            0x54 => Some(Opcode::IgetObject),
            0x55 => Some(Opcode::IgetBoolean),
            0x56 => Some(Opcode::IgetByte),
            0x57 => Some(Opcode::IgetChar),
            0x58 => Some(Opcode::IgetShort),
            0x59 => Some(Opcode::Iput),
            0x5a => Some(Opcode::IputWide),
            0x5b => Some(Opcode::IputObject),
            0x5c => Some(Opcode::IputBoolean),
            0x5d => Some(Opcode::IputByte),
            0x5e => Some(Opcode::IputChar),
            0x5f => Some(Opcode::IputShort),
            0x60 => Some(Opcode::Sget),
            0x61 => Some(Opcode::SgetWide),
            0x62 => Some(Opcode::SgetObject),
            0x63 => Some(Opcode::SgetBoolean),
            0x64 => Some(Opcode::SgetByte),
            0x65 => Some(Opcode::SgetChar),
            0x66 => Some(Opcode::SgetShort),
            0x67 => Some(Opcode::Sput),
            0x68 => Some(Opcode::SputWide),
            0x69 => Some(Opcode::SputObject),
            0x6a => Some(Opcode::SputBoolean),
            0x6b => Some(Opcode::SputByte),
            0x6c => Some(Opcode::SputChar),
            0x6d => Some(Opcode::SputShort),
            0x6e => Some(Opcode::InvokeVirtual),
            0x6f => Some(Opcode::InvokeSuper),
            0x70 => Some(Opcode::InvokeDirect),
            0x71 => Some(Opcode::InvokeStatic),
            0x72 => Some(Opcode::InvokeInterface),
            0x74 => Some(Opcode::InvokeVirtualRange),
            0x75 => Some(Opcode::InvokeSuperRange),
            0x76 => Some(Opcode::InvokeDirectRange),
            0x77 => Some(Opcode::InvokeStaticRange),
            0x78 => Some(Opcode::InvokeInterfaceRange),
            0x7b => Some(Opcode::NegInt),
            0x7c => Some(Opcode::NotInt),
            0x7d => Some(Opcode::NegLong),
            0x7e => Some(Opcode::NotLong),
            0x7f => Some(Opcode::NegFloat),
            0x80 => Some(Opcode::NegDouble),
            0x81 => Some(Opcode::IntToLong),
            0x82 => Some(Opcode::IntToFloat),
            0x83 => Some(Opcode::IntToDouble),
            0x84 => Some(Opcode::LongToInt),
            0x85 => Some(Opcode::LongToFloat),
            0x86 => Some(Opcode::LongToDouble),
            0x87 => Some(Opcode::FloatToInt),
            0x88 => Some(Opcode::FloatToLong),
            0x89 => Some(Opcode::FloatToDouble),
            0x8a => Some(Opcode::DoubleToInt),
            0x8b => Some(Opcode::DoubleToLong),
            0x8c => Some(Opcode::DoubleToFloat),
            0x8d => Some(Opcode::IntToByte),
            0x8e => Some(Opcode::IntToChar),
            0x8f => Some(Opcode::IntToShort),
            0x90 => Some(Opcode::AddInt),
            0x91 => Some(Opcode::SubInt),
            0x92 => Some(Opcode::MulInt),
            0x93 => Some(Opcode::DivInt),
            0x94 => Some(Opcode::RemInt),
            0x95 => Some(Opcode::AndInt),
            0x96 => Some(Opcode::OrInt),
            0x97 => Some(Opcode::XorInt),
            0x98 => Some(Opcode::ShlInt),
            0x99 => Some(Opcode::ShrInt),
            0x9a => Some(Opcode::UshrInt),
            0x9b => Some(Opcode::AddLong),
            0x9c => Some(Opcode::SubLong),
            0x9d => Some(Opcode::MulLong),
            0x9e => Some(Opcode::DivLong),
            0x9f => Some(Opcode::RemLong),
            0xa0 => Some(Opcode::AndLong),
            0xa1 => Some(Opcode::OrLong),
            0xa2 => Some(Opcode::XorLong),
            0xa3 => Some(Opcode::ShlLong),
            0xa4 => Some(Opcode::ShrLong),
            0xa5 => Some(Opcode::UshrLong),
            0xa6 => Some(Opcode::AddFloat),
            0xa7 => Some(Opcode::SubFloat),
            0xa8 => Some(Opcode::MulFloat),
            0xa9 => Some(Opcode::DivFloat),
            0xaa => Some(Opcode::RemFloat),
            0xab => Some(Opcode::AddDouble),
            0xac => Some(Opcode::SubDouble),
            0xad => Some(Opcode::MulDouble),
            0xae => Some(Opcode::DivDouble),
            0xaf => Some(Opcode::RemDouble),
            0xb0 => Some(Opcode::AddInt2Addr),
            0xb1 => Some(Opcode::SubInt2Addr),
            0xb2 => Some(Opcode::MulInt2Addr),
            0xb3 => Some(Opcode::DivInt2Addr),
            0xb4 => Some(Opcode::RemInt2Addr),
            0xb5 => Some(Opcode::AndInt2Addr),
            0xb6 => Some(Opcode::OrInt2Addr),
            0xb7 => Some(Opcode::XorInt2Addr),
            0xb8 => Some(Opcode::ShlInt2Addr),
            0xb9 => Some(Opcode::ShrInt2Addr),
            0xba => Some(Opcode::UshrInt2Addr),
            0xbb => Some(Opcode::AddLong2Addr),
            0xbc => Some(Opcode::SubLong2Addr),
            0xbd => Some(Opcode::MulLong2Addr),
            0xbe => Some(Opcode::DivLong2Addr),
            0xbf => Some(Opcode::RemLong2Addr),
            0xc0 => Some(Opcode::AndLong2Addr),
            0xc1 => Some(Opcode::OrLong2Addr),
            0xc2 => Some(Opcode::XorLong2Addr),
            0xc3 => Some(Opcode::ShlLong2Addr),
            0xc4 => Some(Opcode::ShrLong2Addr),
            0xc5 => Some(Opcode::UshrLong2Addr),
            0xc6 => Some(Opcode::AddFloat2Addr),
            0xc7 => Some(Opcode::SubFloat2Addr),
            0xc8 => Some(Opcode::MulFloat2Addr),
            0xc9 => Some(Opcode::DivFloat2Addr),
            0xca => Some(Opcode::RemFloat2Addr),
            0xcb => Some(Opcode::AddDouble2Addr),
            0xcc => Some(Opcode::SubDouble2Addr),
            0xcd => Some(Opcode::MulDouble2Addr),
            0xce => Some(Opcode::DivDouble2Addr),
            0xcf => Some(Opcode::RemDouble2Addr),
            0xd0 => Some(Opcode::AddIntLit16),
            0xd1 => Some(Opcode::RsubInt),
            0xd2 => Some(Opcode::MulIntLit16),
            0xd3 => Some(Opcode::DivIntLit16),
            0xd4 => Some(Opcode::RemIntLit16),
            0xd5 => Some(Opcode::AndIntLit16),
            0xd6 => Some(Opcode::OrIntLit16),
            0xd7 => Some(Opcode::XorIntLit16),
            0xd8 => Some(Opcode::AddIntLit8),
            0xd9 => Some(Opcode::RsubIntLit8),
            0xda => Some(Opcode::MulIntLit8),
            0xdb => Some(Opcode::DivIntLit8),
            0xdc => Some(Opcode::RemIntLit8),
            0xdd => Some(Opcode::AndIntLit8),
            0xde => Some(Opcode::OrIntLit8),
            0xdf => Some(Opcode::XorIntLit8),
            0xe0 => Some(Opcode::ShlIntLit8),
            0xe1 => Some(Opcode::ShrIntLit8),
            0xe2 => Some(Opcode::UshrIntLit8),
            0xfa => Some(Opcode::InvokePolymorphic),
            0xfb => Some(Opcode::InvokePolymorphicRange),
            0xfc => Some(Opcode::InvokeCustom),
            0xfd => Some(Opcode::InvokeCustomRange),
            0xfe => Some(Opcode::ConstMethodHandle),
            0xff => Some(Opcode::ConstMethodType),
            _ => None,
        }
    }
}

impl Opcode {
    /// The format each opcode is encoded in.
    pub open spec fn spec_format(self) -> Format {
        match self {
            Opcode::Nop | Opcode::ReturnVoid => Format::F10x,
            Opcode::Move | Opcode::MoveWide | Opcode::MoveObject | Opcode::ArrayLength
            | Opcode::NegInt | Opcode::NotInt | Opcode::NegLong | Opcode::NotLong
            | Opcode::NegFloat | Opcode::NegDouble | Opcode::IntToLong | Opcode::IntToFloat
            | Opcode::IntToDouble | Opcode::LongToInt | Opcode::LongToFloat
            | Opcode::LongToDouble | Opcode::FloatToInt | Opcode::FloatToLong
            | Opcode::FloatToDouble | Opcode::DoubleToInt | Opcode::DoubleToLong
            | Opcode::DoubleToFloat | Opcode::IntToByte | Opcode::IntToChar | Opcode::IntToShort
            | Opcode::AddInt2Addr | Opcode::SubInt2Addr | Opcode::MulInt2Addr
            | Opcode::DivInt2Addr | Opcode::RemInt2Addr | Opcode::AndInt2Addr
            | Opcode::OrInt2Addr | Opcode::XorInt2Addr | Opcode::ShlInt2Addr
            | Opcode::ShrInt2Addr | Opcode::UshrInt2Addr | Opcode::AddLong2Addr
            | Opcode::SubLong2Addr | Opcode::MulLong2Addr | Opcode::DivLong2Addr
            | Opcode::RemLong2Addr | Opcode::AndLong2Addr | Opcode::OrLong2Addr
            | Opcode::XorLong2Addr | Opcode::ShlLong2Addr | Opcode::ShrLong2Addr
            | Opcode::UshrLong2Addr | Opcode::AddFloat2Addr | Opcode::SubFloat2Addr
            | Opcode::MulFloat2Addr | Opcode::DivFloat2Addr | Opcode::RemFloat2Addr
            | Opcode::AddDouble2Addr | Opcode::SubDouble2Addr | Opcode::MulDouble2Addr
            | Opcode::DivDouble2Addr | Opcode::RemDouble2Addr => Format::F12x,
            Opcode::MoveFrom16 | Opcode::MoveWideFrom16 | Opcode::MoveObjectFrom16 => Format::F22x,
            Opcode::Move16 | Opcode::MoveWide16 | Opcode::MoveObject16 => Format::F32x,
            Opcode::MoveResult | Opcode::MoveResultWide | Opcode::MoveResultObject
            | Opcode::MoveException | Opcode::Return | Opcode::ReturnWide | Opcode::ReturnObject
            | Opcode::MonitorEnter | Opcode::MonitorExit | Opcode::Throw => Format::F11x,
            Opcode::Const4 => Format::F11n,
            Opcode::Const16 | Opcode::ConstWide16 => Format::F21s,
            Opcode::Const | Opcode::ConstWide32 => Format::F31i,
            Opcode::ConstHigh16 | Opcode::ConstWideHigh16 => Format::F21h,
            Opcode::ConstWide => Format::F51l,
            Opcode::ConstString | Opcode::ConstClass | Opcode::CheckCast | Opcode::NewInstance
            | Opcode::Sget | Opcode::SgetWide | Opcode::SgetObject | Opcode::SgetBoolean
            | Opcode::SgetByte | Opcode::SgetChar | Opcode::SgetShort | Opcode::Sput
            | Opcode::SputWide | Opcode::SputObject | Opcode::SputBoolean | Opcode::SputByte
            | Opcode::SputChar | Opcode::SputShort | Opcode::ConstMethodHandle
            | Opcode::ConstMethodType => Format::F21c,
            Opcode::ConstStringJumbo => Format::F31c,
            Opcode::InstanceOf | Opcode::NewArray | Opcode::Iget | Opcode::IgetWide
            | Opcode::IgetObject | Opcode::IgetBoolean | Opcode::IgetByte | Opcode::IgetChar
            | Opcode::IgetShort | Opcode::Iput | Opcode::IputWide | Opcode::IputObject
            | Opcode::IputBoolean | Opcode::IputByte | Opcode::IputChar | Opcode::IputShort => Format::F22c,
            Opcode::FilledNewArray | Opcode::InvokeVirtual | Opcode::InvokeSuper
            | Opcode::InvokeDirect | Opcode::InvokeStatic | Opcode::InvokeInterface
            | Opcode::InvokeCustom => Format::F35c,
            Opcode::FilledNewArrayRange | Opcode::InvokeVirtualRange | Opcode::InvokeSuperRange
            | Opcode::InvokeDirectRange | Opcode::InvokeStaticRange
            | Opcode::InvokeInterfaceRange | Opcode::InvokeCustomRange => Format::F3rc,
            Opcode::FillArrayData | Opcode::PackedSwitch | Opcode::SparseSwitch => Format::F31t,
            Opcode::Goto => Format::F10t,
            Opcode::Goto16 => Format::F20t,
            Opcode::Goto32 => Format::F30t,
            Opcode::CmplFloat | Opcode::CmpgFloat | Opcode::CmplDouble | Opcode::CmpgDouble
            | Opcode::CmpLong | Opcode::Aget | Opcode::AgetWide | Opcode::AgetObject
            | Opcode::AgetBoolean | Opcode::AgetByte | Opcode::AgetChar | Opcode::AgetShort
            | Opcode::Aput | Opcode::AputWide | Opcode::AputObject | Opcode::AputBoolean
            | Opcode::AputByte | Opcode::AputChar | Opcode::AputShort | Opcode::AddInt
            | Opcode::SubInt | Opcode::MulInt | Opcode::DivInt | Opcode::RemInt | Opcode::AndInt
            | Opcode::OrInt | Opcode::XorInt | Opcode::ShlInt | Opcode::ShrInt | Opcode::UshrInt
            | Opcode::AddLong | Opcode::SubLong | Opcode::MulLong | Opcode::DivLong
            | Opcode::RemLong | Opcode::AndLong | Opcode::OrLong | Opcode::XorLong
            | Opcode::ShlLong | Opcode::ShrLong | Opcode::UshrLong | Opcode::AddFloat
            | Opcode::SubFloat | Opcode::MulFloat | Opcode::DivFloat | Opcode::RemFloat
            | Opcode::AddDouble | Opcode::SubDouble | Opcode::MulDouble | Opcode::DivDouble
            | Opcode::RemDouble => Format::F23x,
            Opcode::IfEq | Opcode::IfNe | Opcode::IfLt | Opcode::IfGe | Opcode::IfGt
            | Opcode::IfLe => Format::F22t,
            Opcode::IfEqz | Opcode::IfNez | Opcode::IfLtz | Opcode::IfGez | Opcode::IfGtz
            | Opcode::IfLez => Format::F21t,
            Opcode::AddIntLit16 | Opcode::RsubInt | Opcode::MulIntLit16 | Opcode::DivIntLit16
            | Opcode::RemIntLit16 | Opcode::AndIntLit16 | Opcode::OrIntLit16
            | Opcode::XorIntLit16 => Format::F22s,
            Opcode::AddIntLit8 | Opcode::RsubIntLit8 | Opcode::MulIntLit8 | Opcode::DivIntLit8
            | Opcode::RemIntLit8 | Opcode::AndIntLit8 | Opcode::OrIntLit8 | Opcode::XorIntLit8
            | Opcode::ShlIntLit8 | Opcode::ShrIntLit8 | Opcode::UshrIntLit8 => Format::F22b,
            Opcode::InvokePolymorphic => Format::F45cc,
            Opcode::InvokePolymorphicRange => Format::F4rcc,
        }
    }

    /// How each opcode ends a basic block.
    pub open spec fn spec_terminator(self) -> TerminatorKind {
        match self {
            Opcode::Goto | Opcode::Goto16 | Opcode::Goto32 => TerminatorKind::Goto,
            Opcode::ReturnVoid | Opcode::Return | Opcode::ReturnWide | Opcode::ReturnObject => TerminatorKind::Return,
            Opcode::Throw => TerminatorKind::Throw,
            Opcode::IfEq | Opcode::IfNe | Opcode::IfLt | Opcode::IfGe | Opcode::IfGt
            | Opcode::IfLe | Opcode::IfEqz | Opcode::IfNez | Opcode::IfLtz | Opcode::IfGez
            | Opcode::IfGtz | Opcode::IfLez => TerminatorKind::ConditionalBranch,
            Opcode::PackedSwitch | Opcode::SparseSwitch => TerminatorKind::Switch,
            _ => TerminatorKind::NoTerminator,
        }
    }

    /// The class the feature summary counts each opcode in.
    pub open spec fn spec_category(self) -> Option<Category> {
        match self {
            Opcode::Move | Opcode::MoveFrom16 | Opcode::Move16 | Opcode::MoveWide
            | Opcode::MoveWideFrom16 | Opcode::MoveWide16 | Opcode::MoveObject
            | Opcode::MoveObjectFrom16 | Opcode::MoveObject16 | Opcode::MoveResult
            | Opcode::MoveResultWide | Opcode::MoveResultObject | Opcode::MoveException => Some(Category::Move),
            Opcode::Const4 | Opcode::Const16 | Opcode::Const | Opcode::ConstHigh16
            | Opcode::ConstWide16 | Opcode::ConstWide32 | Opcode::ConstWide
            | Opcode::ConstWideHigh16 | Opcode::ConstString | Opcode::ConstStringJumbo
            | Opcode::ConstClass | Opcode::ConstMethodHandle | Opcode::ConstMethodType => Some(Category::Constant),
            Opcode::Aget | Opcode::AgetWide | Opcode::AgetObject | Opcode::AgetBoolean
            | Opcode::AgetByte | Opcode::AgetChar | Opcode::AgetShort | Opcode::Aput
            | Opcode::AputWide | Opcode::AputObject | Opcode::AputBoolean | Opcode::AputByte
            | Opcode::AputChar | Opcode::AputShort | Opcode::Iget | Opcode::IgetWide
            | Opcode::IgetObject | Opcode::IgetBoolean | Opcode::IgetByte | Opcode::IgetChar
            | Opcode::IgetShort | Opcode::Iput | Opcode::IputWide | Opcode::IputObject
            | Opcode::IputBoolean | Opcode::IputByte | Opcode::IputChar | Opcode::IputShort
            | Opcode::Sget | Opcode::SgetWide | Opcode::SgetObject | Opcode::SgetBoolean
            | Opcode::SgetByte | Opcode::SgetChar | Opcode::SgetShort | Opcode::Sput
            | Opcode::SputWide | Opcode::SputObject | Opcode::SputBoolean | Opcode::SputByte
            | Opcode::SputChar | Opcode::SputShort => Some(Category::Access),
            Opcode::InvokeVirtual | Opcode::InvokeSuper | Opcode::InvokeDirect
            | Opcode::InvokeStatic | Opcode::InvokeInterface | Opcode::InvokeVirtualRange
            | Opcode::InvokeSuperRange | Opcode::InvokeDirectRange | Opcode::InvokeStaticRange
            | Opcode::InvokeInterfaceRange | Opcode::InvokePolymorphic
            | Opcode::InvokePolymorphicRange | Opcode::InvokeCustom | Opcode::InvokeCustomRange => Some(Category::Invoke),
            Opcode::NegInt | Opcode::NotInt | Opcode::NegLong | Opcode::NotLong
            | Opcode::NegFloat | Opcode::NegDouble | Opcode::IntToLong | Opcode::IntToFloat
            | Opcode::IntToDouble | Opcode::LongToInt | Opcode::LongToFloat
            | Opcode::LongToDouble | Opcode::FloatToInt | Opcode::FloatToLong
            | Opcode::FloatToDouble | Opcode::DoubleToInt | Opcode::DoubleToLong
            | Opcode::DoubleToFloat | Opcode::IntToByte | Opcode::IntToChar | Opcode::IntToShort
            | Opcode::AddInt | Opcode::SubInt | Opcode::MulInt | Opcode::DivInt | Opcode::RemInt
            | Opcode::AndInt | Opcode::OrInt | Opcode::XorInt | Opcode::ShlInt | Opcode::ShrInt
            | Opcode::UshrInt | Opcode::AddLong | Opcode::SubLong | Opcode::MulLong
            | Opcode::DivLong | Opcode::RemLong | Opcode::AndLong | Opcode::OrLong
            | Opcode::XorLong | Opcode::ShlLong | Opcode::ShrLong | Opcode::UshrLong
            | Opcode::AddFloat | Opcode::SubFloat | Opcode::MulFloat | Opcode::DivFloat
            | Opcode::RemFloat | Opcode::AddDouble | Opcode::SubDouble | Opcode::MulDouble
            | Opcode::DivDouble | Opcode::RemDouble | Opcode::AddInt2Addr | Opcode::SubInt2Addr
            | Opcode::MulInt2Addr | Opcode::DivInt2Addr | Opcode::RemInt2Addr
            | Opcode::AndInt2Addr | Opcode::OrInt2Addr | Opcode::XorInt2Addr
            | Opcode::ShlInt2Addr | Opcode::ShrInt2Addr | Opcode::UshrInt2Addr
            | Opcode::AddLong2Addr | Opcode::SubLong2Addr | Opcode::MulLong2Addr
            | Opcode::DivLong2Addr | Opcode::RemLong2Addr | Opcode::AndLong2Addr
            | Opcode::OrLong2Addr | Opcode::XorLong2Addr | Opcode::ShlLong2Addr
            | Opcode::ShrLong2Addr | Opcode::UshrLong2Addr | Opcode::AddFloat2Addr
            | Opcode::SubFloat2Addr | Opcode::MulFloat2Addr | Opcode::DivFloat2Addr
            | Opcode::RemFloat2Addr | Opcode::AddDouble2Addr | Opcode::SubDouble2Addr
            | Opcode::MulDouble2Addr | Opcode::DivDouble2Addr | Opcode::RemDouble2Addr
            | Opcode::AddIntLit16 | Opcode::RsubInt | Opcode::MulIntLit16 | Opcode::DivIntLit16
            | Opcode::RemIntLit16 | Opcode::AndIntLit16 | Opcode::OrIntLit16
            | Opcode::XorIntLit16 | Opcode::AddIntLit8 | Opcode::RsubIntLit8
            | Opcode::MulIntLit8 | Opcode::DivIntLit8 | Opcode::RemIntLit8 | Opcode::AndIntLit8
            | Opcode::OrIntLit8 | Opcode::XorIntLit8 | Opcode::ShlIntLit8 | Opcode::ShrIntLit8
            | Opcode::UshrIntLit8 => Some(Category::Arithmetic),
            Opcode::CmplFloat | Opcode::CmpgFloat | Opcode::CmplDouble | Opcode::CmpgDouble
            | Opcode::CmpLong => Some(Category::Comparison),
            Opcode::MonitorEnter | Opcode::MonitorExit => Some(Category::Monitor),
            _ => None,
        }
    }

    /// The table of the constant pool that the opcode's index operand points into.
    pub open spec fn spec_pool_kind(self) -> Option<Type> {
        match self {
            Opcode::ConstString | Opcode::ConstStringJumbo => Some(Type::String),
            Opcode::ConstClass | Opcode::CheckCast | Opcode::InstanceOf | Opcode::NewInstance
            | Opcode::NewArray | Opcode::FilledNewArray | Opcode::FilledNewArrayRange => Some(Type::Type),
            Opcode::Iget | Opcode::IgetWide | Opcode::IgetObject | Opcode::IgetBoolean
            | Opcode::IgetByte | Opcode::IgetChar | Opcode::IgetShort | Opcode::Iput
            | Opcode::IputWide | Opcode::IputObject | Opcode::IputBoolean | Opcode::IputByte
            | Opcode::IputChar | Opcode::IputShort | Opcode::Sget | Opcode::SgetWide
            | Opcode::SgetObject | Opcode::SgetBoolean | Opcode::SgetByte | Opcode::SgetChar
            | Opcode::SgetShort | Opcode::Sput | Opcode::SputWide | Opcode::SputObject
            | Opcode::SputBoolean | Opcode::SputByte | Opcode::SputChar | Opcode::SputShort => Some(Type::Field),
            Opcode::InvokeVirtual | Opcode::InvokeSuper | Opcode::InvokeDirect
            | Opcode::InvokeStatic | Opcode::InvokeInterface | Opcode::InvokeVirtualRange
            | Opcode::InvokeSuperRange | Opcode::InvokeDirectRange | Opcode::InvokeStaticRange
            | Opcode::InvokeInterfaceRange | Opcode::InvokePolymorphic
            | Opcode::InvokePolymorphicRange => Some(Type::Method),
            Opcode::ConstMethodHandle => Some(Type::MethodHandle),
            Opcode::ConstMethodType => Some(Type::Prototype),
            Opcode::InvokeCustom | Opcode::InvokeCustomRange => Some(Type::CallSite),
            _ => None,
        }
    }

    /// The unary operation an opcode performs.
    pub open spec fn spec_unop(self) -> Option<Unop> {
        match self {
            Opcode::NegInt => Some(Unop::Neg(Primitive::Int)),
            Opcode::NotInt => Some(Unop::Not(Primitive::Int)),
            Opcode::NegLong => Some(Unop::Neg(Primitive::Long)),
            Opcode::NotLong => Some(Unop::Not(Primitive::Long)),
            Opcode::NegFloat => Some(Unop::Neg(Primitive::Float)),
            Opcode::NegDouble => Some(Unop::Neg(Primitive::Double)),
            Opcode::IntToLong => Some(Unop::Convert(Primitive::Int, Primitive::Long)),
            Opcode::IntToFloat => Some(Unop::Convert(Primitive::Int, Primitive::Float)),
            Opcode::IntToDouble => Some(Unop::Convert(Primitive::Int, Primitive::Double)),
            Opcode::LongToInt => Some(Unop::Convert(Primitive::Long, Primitive::Int)),
            Opcode::LongToFloat => Some(Unop::Convert(Primitive::Long, Primitive::Float)),
            Opcode::LongToDouble => Some(Unop::Convert(Primitive::Long, Primitive::Double)),
            Opcode::FloatToInt => Some(Unop::Convert(Primitive::Float, Primitive::Int)),
            Opcode::FloatToLong => Some(Unop::Convert(Primitive::Float, Primitive::Long)),
            Opcode::FloatToDouble => Some(Unop::Convert(Primitive::Float, Primitive::Double)),
            Opcode::DoubleToInt => Some(Unop::Convert(Primitive::Double, Primitive::Int)),
            Opcode::DoubleToLong => Some(Unop::Convert(Primitive::Double, Primitive::Long)),
            Opcode::DoubleToFloat => Some(Unop::Convert(Primitive::Double, Primitive::Float)),
            Opcode::IntToByte => Some(Unop::Convert(Primitive::Int, Primitive::Byte)),
            Opcode::IntToChar => Some(Unop::Convert(Primitive::Int, Primitive::Char)),
            Opcode::IntToShort => Some(Unop::Convert(Primitive::Int, Primitive::Short)),
            _ => None,
        }
    }

    /// The binary operation an opcode performs, whatever the form of its operands.
    pub open spec fn spec_binop(self) -> Option<Binop> {
        match self {
            Opcode::AddInt | Opcode::AddInt2Addr | Opcode::AddIntLit16 | Opcode::AddIntLit8 => Some(Binop::Add(Primitive::Int)),
            Opcode::SubInt | Opcode::SubInt2Addr | Opcode::RsubInt | Opcode::RsubIntLit8 => Some(Binop::Sub(Primitive::Int)),
            Opcode::MulInt | Opcode::MulInt2Addr | Opcode::MulIntLit16 | Opcode::MulIntLit8 => Some(Binop::Mul(Primitive::Int)),
            Opcode::DivInt | Opcode::DivInt2Addr | Opcode::DivIntLit16 | Opcode::DivIntLit8 => Some(Binop::Div(Primitive::Int)),
            Opcode::RemInt | Opcode::RemInt2Addr | Opcode::RemIntLit16 | Opcode::RemIntLit8 => Some(Binop::Rem(Primitive::Int)),
            Opcode::AndInt | Opcode::AndInt2Addr | Opcode::AndIntLit16 | Opcode::AndIntLit8 => Some(Binop::And(Primitive::Int)),
            Opcode::OrInt | Opcode::OrInt2Addr | Opcode::OrIntLit16 | Opcode::OrIntLit8 => Some(Binop::Or(Primitive::Int)),
            Opcode::XorInt | Opcode::XorInt2Addr | Opcode::XorIntLit16 | Opcode::XorIntLit8 => Some(Binop::Xor(Primitive::Int)),
            Opcode::ShlInt | Opcode::ShlInt2Addr | Opcode::ShlIntLit8 => Some(Binop::Shl(Primitive::Int)),
            Opcode::ShrInt | Opcode::ShrInt2Addr | Opcode::ShrIntLit8 => Some(Binop::Shr(Primitive::Int)),
            Opcode::UshrInt | Opcode::UshrInt2Addr | Opcode::UshrIntLit8 => Some(Binop::Ushr(Primitive::Int)),
            Opcode::AddLong | Opcode::AddLong2Addr => Some(Binop::Add(Primitive::Long)),
            Opcode::SubLong | Opcode::SubLong2Addr => Some(Binop::Sub(Primitive::Long)),
            Opcode::MulLong | Opcode::MulLong2Addr => Some(Binop::Mul(Primitive::Long)),
            Opcode::DivLong | Opcode::DivLong2Addr => Some(Binop::Div(Primitive::Long)),
            Opcode::RemLong | Opcode::RemLong2Addr => Some(Binop::Rem(Primitive::Long)),
            Opcode::AndLong | Opcode::AndLong2Addr => Some(Binop::And(Primitive::Long)),
            Opcode::OrLong | Opcode::OrLong2Addr => Some(Binop::Or(Primitive::Long)),
            Opcode::XorLong | Opcode::XorLong2Addr => Some(Binop::Xor(Primitive::Long)),
            Opcode::ShlLong | Opcode::ShlLong2Addr => Some(Binop::Shl(Primitive::Long)),
            Opcode::ShrLong | Opcode::ShrLong2Addr => Some(Binop::Shr(Primitive::Long)),
            Opcode::UshrLong | Opcode::UshrLong2Addr => Some(Binop::Ushr(Primitive::Long)),
            Opcode::AddFloat | Opcode::AddFloat2Addr => Some(Binop::Add(Primitive::Float)),
            Opcode::SubFloat | Opcode::SubFloat2Addr => Some(Binop::Sub(Primitive::Float)),
            Opcode::MulFloat | Opcode::MulFloat2Addr => Some(Binop::Mul(Primitive::Float)),
            Opcode::DivFloat | Opcode::DivFloat2Addr => Some(Binop::Div(Primitive::Float)),
            Opcode::RemFloat | Opcode::RemFloat2Addr => Some(Binop::Rem(Primitive::Float)),
            Opcode::AddDouble | Opcode::AddDouble2Addr => Some(Binop::Add(Primitive::Double)),
            Opcode::SubDouble | Opcode::SubDouble2Addr => Some(Binop::Sub(Primitive::Double)),
            Opcode::MulDouble | Opcode::MulDouble2Addr => Some(Binop::Mul(Primitive::Double)),
            Opcode::DivDouble | Opcode::DivDouble2Addr => Some(Binop::Div(Primitive::Double)),
            Opcode::RemDouble | Opcode::RemDouble2Addr => Some(Binop::Rem(Primitive::Double)),
            _ => None,
        }
    }

    /// The number of words an instruction with this opcode occupies.
    pub open spec fn spec_length(self) -> nat {
        self.spec_format().spec_length()
    }

    #[verifier::when_used_as_spec(spec_format)]
    pub fn format(self) -> (format: Format)
        ensures
            format == self.spec_format(),
    {
        let b: u8 = self.byte();
        if b == 0x00 || b == 0x0e {
            Format::F10x
        } else if b == 0x01 || b == 0x04 || b == 0x07 || b == 0x21 || (0x7b <= b && b <= 0x8f)
            || (0xb0 <= b && b <= 0xcf) {
            Format::F12x
        } else if b == 0x02 || b == 0x05 || b == 0x08 {
            Format::F22x
        } else if b == 0x03 || b == 0x06 || b == 0x09 {
            Format::F32x
        } else if (0x0a <= b && b <= 0x0d) || (0x0f <= b && b <= 0x11) || (0x1d <= b && b <= 0x1e)
            || b == 0x27 {
            Format::F11x
        } else if b == 0x12 {
            Format::F11n
        } else if b == 0x13 || b == 0x16 {
            Format::F21s
        } else if b == 0x14 || b == 0x17 {
            Format::F31i
        } else if b == 0x15 || b == 0x19 {
            Format::F21h
        } else if b == 0x18 {
            Format::F51l
        } else if b == 0x1a || b == 0x1c || b == 0x1f || b == 0x22 || (0x60 <= b && b <= 0x6d)
            || (0xfe <= b && b <= 0xff) {
            Format::F21c
        } else if b == 0x1b {
            Format::F31c
        } else if b == 0x20 || b == 0x23 || (0x52 <= b && b <= 0x5f) {
            Format::F22c
        } else if b == 0x24 || (0x6e <= b && b <= 0x72) || b == 0xfc {
            Format::F35c
        } else if b == 0x25 || (0x74 <= b && b <= 0x78) || b == 0xfd {
            Format::F3rc
        } else if b == 0x26 || (0x2b <= b && b <= 0x2c) {
            Format::F31t
        } else if b == 0x28 {
            Format::F10t
        } else if b == 0x29 {
            Format::F20t
        } else if b == 0x2a {
            Format::F30t
        } else if (0x2d <= b && b <= 0x31) || (0x44 <= b && b <= 0x51) || (0x90 <= b && b <= 0xaf) {
            Format::F23x
        } else if (0x32 <= b && b <= 0x37) {
            Format::F22t
        } else if (0x38 <= b && b <= 0x3d) {
            Format::F21t
        } else if (0xd0 <= b && b <= 0xd7) {
            Format::F22s
        } else if (0xd8 <= b && b <= 0xe2) {
            Format::F22b
        } else if b == 0xfa {
            Format::F45cc
        } else {
            Format::F4rcc
        }
    }

    pub fn length(self) -> (words: usize)
        ensures
            words == self.spec_length(),
            1 <= words <= 5,
    {
        self.format().length()
    }

    #[verifier::when_used_as_spec(spec_terminator)]
    pub fn terminator(self) -> (kind: TerminatorKind)
        ensures
            kind == self.spec_terminator(),
    {
        let b: u8 = self.byte();
        if (0x28 <= b && b <= 0x2a) {
            TerminatorKind::Goto
        } else if (0x0e <= b && b <= 0x11) {
            TerminatorKind::Return
        } else if b == 0x27 {
            TerminatorKind::Throw
        } else if (0x32 <= b && b <= 0x3d) {
            TerminatorKind::ConditionalBranch
        } else if (0x2b <= b && b <= 0x2c) {
            TerminatorKind::Switch
        } else {
            TerminatorKind::NoTerminator
        }
    }

    #[verifier::when_used_as_spec(spec_category)]
    pub fn category(self) -> (category: Option<Category>)
        ensures
            category == self.spec_category(),
    {
        let b: u8 = self.byte();
        if (0x01 <= b && b <= 0x0d) {
            Some(Category::Move)
        } else if (0x12 <= b && b <= 0x1c) || (0xfe <= b && b <= 0xff) {
            Some(Category::Constant)
        } else if (0x44 <= b && b <= 0x6d) {
            Some(Category::Access)
        } else if (0x6e <= b && b <= 0x72) || (0x74 <= b && b <= 0x78) || (0xfa <= b && b <= 0xfd) {
            Some(Category::Invoke)
        } else if (0x7b <= b && b <= 0xe2) {
            Some(Category::Arithmetic)
        } else if (0x2d <= b && b <= 0x31) {
            Some(Category::Comparison)
        } else if (0x1d <= b && b <= 0x1e) {
            Some(Category::Monitor)
        } else {
            None
        }
    }

    #[verifier::when_used_as_spec(spec_pool_kind)]
    pub fn pool_kind(self) -> (kind: Option<Type>)
        ensures
            kind == self.spec_pool_kind(),
    {
        let b: u8 = self.byte();
        if (0x1a <= b && b <= 0x1b) {
            Some(Type::String)
        } else if b == 0x1c || (0x1f <= b && b <= 0x20) || (0x22 <= b && b <= 0x25) {
            Some(Type::Type)
        } else if (0x52 <= b && b <= 0x6d) {
            Some(Type::Field)
        } else if (0x6e <= b && b <= 0x72) || (0x74 <= b && b <= 0x78) || (0xfa <= b && b <= 0xfb) {
            Some(Type::Method)
        } else if b == 0xfe {
            Some(Type::MethodHandle)
        } else if b == 0xff {
            Some(Type::Prototype)
        } else if (0xfc <= b && b <= 0xfd) {
            Some(Type::CallSite)
        } else {
            None
        }
    }

    #[verifier::when_used_as_spec(spec_unop)]
    pub fn unop(self) -> (unop: Option<Unop>)
        ensures
            unop == self.spec_unop(),
    {
        match self {
            Opcode::NegInt => Some(Unop::Neg(Primitive::Int)),
            Opcode::NotInt => Some(Unop::Not(Primitive::Int)),
            Opcode::NegLong => Some(Unop::Neg(Primitive::Long)),
            Opcode::NotLong => Some(Unop::Not(Primitive::Long)),
            Opcode::NegFloat => Some(Unop::Neg(Primitive::Float)),
            Opcode::NegDouble => Some(Unop::Neg(Primitive::Double)),
            Opcode::IntToLong => Some(Unop::Convert(Primitive::Int, Primitive::Long)),
            Opcode::IntToFloat => Some(Unop::Convert(Primitive::Int, Primitive::Float)),
            Opcode::IntToDouble => Some(Unop::Convert(Primitive::Int, Primitive::Double)),
            Opcode::LongToInt => Some(Unop::Convert(Primitive::Long, Primitive::Int)),
            Opcode::LongToFloat => Some(Unop::Convert(Primitive::Long, Primitive::Float)),
            Opcode::LongToDouble => Some(Unop::Convert(Primitive::Long, Primitive::Double)),
            Opcode::FloatToInt => Some(Unop::Convert(Primitive::Float, Primitive::Int)),
            Opcode::FloatToLong => Some(Unop::Convert(Primitive::Float, Primitive::Long)),
            Opcode::FloatToDouble => Some(Unop::Convert(Primitive::Float, Primitive::Double)),
            Opcode::DoubleToInt => Some(Unop::Convert(Primitive::Double, Primitive::Int)),
            Opcode::DoubleToLong => Some(Unop::Convert(Primitive::Double, Primitive::Long)),
            Opcode::DoubleToFloat => Some(Unop::Convert(Primitive::Double, Primitive::Float)),
            Opcode::IntToByte => Some(Unop::Convert(Primitive::Int, Primitive::Byte)),
            Opcode::IntToChar => Some(Unop::Convert(Primitive::Int, Primitive::Char)),
            Opcode::IntToShort => Some(Unop::Convert(Primitive::Int, Primitive::Short)),
            _ => None,
        }
    }

    #[verifier::when_used_as_spec(spec_binop)]
    pub fn binop(self) -> (binop: Option<Binop>)
        ensures
            binop == self.spec_binop(),
    {
        let b: u8 = self.byte();
        if 0x90 <= b && b <= 0xaf {
            binop_at(b - 0x90)
        } else if 0xb0 <= b && b <= 0xcf {
            binop_at(b - 0xb0)
        } else if 0xd0 <= b && b <= 0xd7 {
            binop_at(b - 0xd0)
        } else if 0xd8 <= b && b <= 0xe2 {
            binop_at(b - 0xd8)
        } else {
            None
        }
    }
}

/// The operation at a position of the run of binary opcodes: eleven on `int`,
/// eleven on `long`, five on `float`, five on `double`.
pub open spec fn spec_binop_at(index: u8) -> Option<Binop> {
    if index < 11 {
        Some(spec_binop_of(index, Primitive::Int))
    } else if index < 22 {
        Some(spec_binop_of((index - 11) as u8, Primitive::Long))
    } else if index < 27 {
        Some(spec_binop_of((index - 22) as u8, Primitive::Float))
    } else if index < 32 {
        Some(spec_binop_of((index - 27) as u8, Primitive::Double))
    } else {
        None
    }
}

/// The operations in the order in which the opcodes list them.
pub open spec fn spec_binop_of(index: u8, primitive: Primitive) -> Binop {
    match index {
        0 => Binop::Add(primitive),
        1 => Binop::Sub(primitive),
        2 => Binop::Mul(primitive),
        3 => Binop::Div(primitive),
        4 => Binop::Rem(primitive),
        5 => Binop::And(primitive),
        6 => Binop::Or(primitive),
        7 => Binop::Xor(primitive),
        8 => Binop::Shl(primitive),
        9 => Binop::Shr(primitive),
        _ => Binop::Ushr(primitive),
    }
}

fn binop_of(index: u8, primitive: Primitive) -> (binop: Binop)
    ensures
        binop == spec_binop_of(index, primitive),
{
    match index {
        0 => Binop::Add(primitive),
        1 => Binop::Sub(primitive),
        2 => Binop::Mul(primitive),
        3 => Binop::Div(primitive),
        4 => Binop::Rem(primitive),
        5 => Binop::And(primitive),
        6 => Binop::Or(primitive),
        7 => Binop::Xor(primitive),
        8 => Binop::Shl(primitive),
        9 => Binop::Shr(primitive),
        _ => Binop::Ushr(primitive),
    }
}

fn binop_at(index: u8) -> (binop: Option<Binop>)
    ensures
        binop == spec_binop_at(index),
{
    if index < 11 {
        Some(binop_of(index, Primitive::Int))
    } else if index < 22 {
        Some(binop_of(index - 11, Primitive::Long))
    } else if index < 27 {
        Some(binop_of(index - 22, Primitive::Float))
    } else if index < 32 {
        Some(binop_of(index - 27, Primitive::Double))
    } else {
        None
    }
}

/// Every opcode is found again under its own byte.
pub proof fn lemma_byte_round_trip(opcode: Opcode)
    ensures
        Opcode::spec_from_u8(opcode.spec_byte()) == Some(opcode),
        !is_reserved(opcode.spec_byte()),
{
}

/// A byte names an opcode exactly when it is not reserved, and the opcode it
/// names is encoded by that byte.
pub proof fn lemma_lookup_total(byte: u8)
    ensures
        Opcode::spec_from_u8(byte).is_none() <==> is_reserved(byte),
        Opcode::spec_from_u8(byte) matches Some(opcode) ==> opcode.spec_byte() == byte,
{
}

} // verus!
