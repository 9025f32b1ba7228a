use dex_cfg::error::InstructionParsingError;
use dex_cfg::instruction::{Instruction, Operand};
use dex_cfg::intermediate::{
    Binop, BranchOffset, Conditional, ConstantPoolIndex, IdentifiedOperation, If, ImmediateValue,
    InvKind, Iop, Primitive, Register, Switch, Unop,
};
use dex_cfg::opcode::{Category, Format, Opcode, TerminatorKind};
use dex_cfg::reference::Type;
use dex_cfg::words::{
    concat_quad, concat_words, nibble, signed_byte, signed_long, signed_nibble, signed_word,
    split_byte, split_word,
};

fn decode(words: &[u16], offset: usize) -> (Instruction, usize) {
    Instruction::try_from_raw_bytecode(words, offset)
        .unwrap()
        .expect("Failed to parse instruction")
}

fn operands(words: &[u16]) -> Vec<Operand> {
    decode(words, 0).0.operands().clone()
}

fn byte(register: u8) -> Operand {
    Operand::Register(Register::Byte(register))
}

fn word(register: u16) -> Operand {
    Operand::Register(Register::Word(register))
}

#[test]
fn instruction_test_try_from_raw_bytecode0() {
    let raw_bytecode = [8303, 921, 33];
    let (instruction, length) = Instruction::try_from_raw_bytecode(&raw_bytecode, 0)
        .unwrap()
        .expect("Failed to parse instruction");
    assert!(length == 3);
    assert_eq!(instruction.opcode(), Opcode::InvokeSuper);
    assert_eq!(instruction.offset(), 0);
    assert_eq!(instruction.branch_target(), None);
}

#[test]
fn instruction_test_try_from_raw_bytecode1() {
    let raw_bytecode = [45874, 102];
    let (instruction, length) = Instruction::try_from_raw_bytecode(&raw_bytecode, 0)
        .unwrap()
        .expect("Failed to parse instruction");
    assert_eq!(length, 2);
    assert_eq!(instruction.opcode(), Opcode::IfEq);
    assert_eq!(instruction.offset(), 0);
    assert_eq!(instruction.branch_target(), Some(102));
}

#[test]
fn instruction_test_try_from_raw_bytecode2() {
    let raw_bytecode = [290, 648];
    let (instruction, length) = Instruction::try_from_raw_bytecode(&raw_bytecode, 0)
        .unwrap()
        .expect("Failed to parse instruction");
    assert_eq!(length, 2);
    assert_eq!(instruction.opcode(), Opcode::NewInstance);
    assert_eq!(instruction.offset(), 0);
    assert_eq!(instruction.branch_target(), None);
}

#[test]
fn invoke_lists_pool_index_then_registers() {
    assert_eq!(
        operands(&[8303, 921, 33]),
        vec![Operand::Pool(Type::Method, ConstantPoolIndex::U16(921)), byte(1), byte(2)]
    );
}

#[test]
fn invoke_takes_fifth_register_from_the_opcode_word() {
    // invoke-virtual {v1, v2, v3, v4, v9}: count 5, fifth register 9 beside the opcode.
    let words = [0x596e, 7, 0x4321];
    assert_eq!(
        operands(&words),
        vec![
            Operand::Pool(Type::Method, ConstantPoolIndex::U16(7)),
            byte(1),
            byte(2),
            byte(3),
            byte(4),
            byte(9),
        ]
    );
}

#[test]
fn invoke_with_one_argument_ignores_the_fifth_nibble() {
    let words = [0x1f6e, 7, 0x0003];
    assert_eq!(
        operands(&words),
        vec![Operand::Pool(Type::Method, ConstantPoolIndex::U16(7)), byte(3)]
    );
}

#[test]
fn invoke_without_arguments_has_only_the_pool_index() {
    assert_eq!(
        operands(&[0x0071, 12, 0xffff]),
        vec![Operand::Pool(Type::Method, ConstantPoolIndex::U16(12))]
    );
}

#[test]
fn invoke_counts_no_more_than_five_registers() {
    let words = [0xf26e, 7, 0x8765];
    assert_eq!(
        operands(&words),
        vec![
            Operand::Pool(Type::Method, ConstantPoolIndex::U16(7)),
            byte(5),
            byte(6),
            byte(7),
            byte(8),
            byte(2),
        ]
    );
}

#[test]
fn invoke_range_lists_consecutive_registers() {
    let words = [0x0374, 21, 100];
    assert_eq!(
        operands(&words),
        vec![
            Operand::Pool(Type::Method, ConstantPoolIndex::U16(21)),
            word(100),
            word(101),
            word(102),
        ]
    );
}

#[test]
fn invoke_range_wraps_register_numbers() {
    let words = [0x0274, 21, 0xffff];
    assert_eq!(
        operands(&words),
        vec![Operand::Pool(Type::Method, ConstantPoolIndex::U16(21)), word(0xffff), word(0)]
    );
}

#[test]
fn invoke_polymorphic_ends_with_the_prototype() {
    let words = [0x20fa, 5, 0x0021, 9];
    let (instruction, length) = decode(&words, 0);
    assert_eq!(length, 4);
    assert_eq!(instruction.opcode(), Opcode::InvokePolymorphic);
    assert_eq!(
        instruction.operands().clone(),
        vec![
            Operand::Pool(Type::Method, ConstantPoolIndex::U16(5)),
            byte(1),
            byte(2),
            Operand::Pool(Type::Prototype, ConstantPoolIndex::U16(9)),
        ]
    );
    let words = [0x02fb, 5, 40, 9];
    assert_eq!(
        operands(&words),
        vec![
            Operand::Pool(Type::Method, ConstantPoolIndex::U16(5)),
            word(40),
            word(41),
            Operand::Pool(Type::Prototype, ConstantPoolIndex::U16(9)),
        ]
    );
}

#[test]
fn invoke_custom_refers_to_a_call_site() {
    assert_eq!(
        operands(&[0x10fc, 3, 0x0004]),
        vec![Operand::Pool(Type::CallSite, ConstantPoolIndex::U16(3)), byte(4)]
    );
    assert_eq!(
        operands(&[0x01fd, 3, 8]),
        vec![Operand::Pool(Type::CallSite, ConstantPoolIndex::U16(3)), word(8)]
    );
}

#[test]
fn filled_new_array_refers_to_a_type() {
    assert_eq!(
        operands(&[0x2024, 11, 0x0010]),
        vec![Operand::Pool(Type::Type, ConstantPoolIndex::U16(11)), byte(0), byte(1)]
    );
}

#[test]
fn nop_and_return_void_have_no_operands() {
    assert_eq!(operands(&[0x0000]), vec![]);
    assert_eq!(operands(&[0x000e]), vec![]);
    assert_eq!(decode(&[0x0400], 0).0.opcode(), Opcode::Nop);
}

#[test]
fn move_splits_one_byte_into_two_registers() {
    assert_eq!(operands(&[0xa301]), vec![byte(3), byte(10)]);
    assert_eq!(operands(&[0x2102, 0x1234]), vec![byte(0x21), word(0x1234)]);
    assert_eq!(operands(&[0x0003, 300, 400]), vec![word(300), word(400)]);
}

#[test]
fn unary_operations_on_wide_values_take_pairs() {
    let pair = |first: u8| Operand::Register(Register::Pair(first, first + 1));
    // neg-int, neg-long, int-to-long, long-to-int
    assert_eq!(operands(&[0x527b]), vec![byte(2), byte(5)]);
    assert_eq!(operands(&[0x527d]), vec![pair(2), pair(5)]);
    assert_eq!(operands(&[0x5281]), vec![pair(2), byte(5)]);
    assert_eq!(operands(&[0x5284]), vec![byte(2), pair(5)]);
    assert_eq!(operands(&[0xff8b]), vec![pair(15), pair(15)]);
}

#[test]
fn register_pairs_follow_the_nibbles() {
    assert_eq!(
        Register::get_pairs(0x52),
        (Register::Pair(2, 3), Register::Pair(5, 6))
    );
    assert_eq!(
        Register::get_dst_pair(0x52),
        (Register::Pair(2, 3), Register::Byte(5))
    );
    assert_eq!(
        Register::get_src_pair(0x52),
        (Register::Byte(2), Register::Pair(5, 6))
    );
    assert_eq!(
        Register::get_pairs(0xff),
        (Register::Pair(15, 16), Register::Pair(15, 16))
    );
}

#[test]
fn const_4_sign_extends_its_nibble() {
    assert_eq!(
        operands(&[0x7312]),
        vec![byte(3), Operand::Immediate(ImmediateValue::Signed8(7))]
    );
    assert_eq!(
        operands(&[0xf312]),
        vec![byte(3), Operand::Immediate(ImmediateValue::Signed8(-1))]
    );
    assert_eq!(
        operands(&[0x8012]),
        vec![byte(0), Operand::Immediate(ImmediateValue::Signed8(-8))]
    );
}

#[test]
fn sixteen_bit_literals_are_signed() {
    assert_eq!(
        operands(&[0x0113, 33]),
        vec![byte(1), Operand::Immediate(ImmediateValue::Signed16(33))]
    );
    assert_eq!(
        operands(&[0x0116, 0xfffe]),
        vec![byte(1), Operand::Immediate(ImmediateValue::Signed16(-2))]
    );
    assert_eq!(
        operands(&[0x0115, 0x8000]),
        vec![byte(1), Operand::Immediate(ImmediateValue::Signed16(-32768))]
    );
    assert_eq!(
        operands(&[0x21d0, 0xff9c]),
        vec![byte(1), byte(2), Operand::Immediate(ImmediateValue::Signed16(-100))]
    );
}

#[test]
fn wide_literals_join_words_low_first() {
    assert_eq!(
        operands(&[0x0514, 0x5678, 0x1234]),
        vec![byte(5), Operand::Immediate(ImmediateValue::Arbitrary32(0x1234_5678))]
    );
    assert_eq!(
        operands(&[0x0517, 0xffff, 0xffff]),
        vec![byte(5), Operand::Immediate(ImmediateValue::Signed32(-1))]
    );
    let words = [0x0518, 0x0004, 0x0003, 0x0002, 0x0001];
    let (instruction, length) = decode(&words, 0);
    assert_eq!(length, 5);
    assert_eq!(
        instruction.operands().clone(),
        vec![byte(5), Operand::Immediate(ImmediateValue::Arbitrary64(0x0001_0002_0003_0004))]
    );
}

#[test]
fn literal_8_is_the_high_byte() {
    assert_eq!(
        operands(&[218, 7936]),
        vec![byte(0), byte(0), Operand::Immediate(ImmediateValue::Signed8(31))]
    );
    assert_eq!(
        operands(&[0x01d8, 0x8002]),
        vec![byte(1), byte(2), Operand::Immediate(ImmediateValue::Signed8(-128))]
    );
}

#[test]
fn pool_references_carry_their_kind() {
    let pool = |kind: Type, index: u16| Operand::Pool(kind, ConstantPoolIndex::U16(index));
    assert_eq!(operands(&[26, 21033]), vec![byte(0), pool(Type::String, 21033)]);
    assert_eq!(operands(&[0x011c, 4]), vec![byte(1), pool(Type::Type, 4)]);
    assert_eq!(operands(&[0x011f, 4]), vec![byte(1), pool(Type::Type, 4)]);
    assert_eq!(operands(&[290, 648]), vec![byte(1), pool(Type::Type, 648)]);
    assert_eq!(operands(&[96, 57]), vec![byte(0), pool(Type::Field, 57)]);
    assert_eq!(operands(&[8532, 22998]), vec![byte(1), byte(2), pool(Type::Field, 22998)]);
    assert_eq!(operands(&[0x2120, 6]), vec![byte(1), byte(2), pool(Type::Type, 6)]);
    assert_eq!(operands(&[0x2123, 6]), vec![byte(1), byte(2), pool(Type::Type, 6)]);
    assert_eq!(operands(&[0x03fe, 8]), vec![byte(3), pool(Type::MethodHandle, 8)]);
    assert_eq!(operands(&[0x03ff, 8]), vec![byte(3), pool(Type::Prototype, 8)]);
    assert_eq!(
        operands(&[0x021b, 0x0001, 0x0002]),
        vec![byte(2), Operand::Pool(Type::String, ConstantPoolIndex::U32(0x0002_0001))]
    );
}

#[test]
fn three_register_operations_split_the_second_word() {
    assert_eq!(operands(&[0x0190, 0x0302]), vec![byte(1), byte(2), byte(3)]);
    assert_eq!(operands(&[0x0144, 0x0302]), vec![byte(1), byte(2), byte(3)]);
    assert_eq!(operands(&[0x012d, 0xff00]), vec![byte(1), byte(0), byte(255)]);
}

#[test]
fn branch_offsets_are_signed() {
    assert_eq!(operands(&[1320]), vec![Operand::Branch(BranchOffset::I8(5))]);
    assert_eq!(operands(&[0xfe28]), vec![Operand::Branch(BranchOffset::I8(-2))]);
    assert_eq!(operands(&[0x0029, 0xfff0]), vec![Operand::Branch(BranchOffset::I16(-16))]);
    assert_eq!(
        operands(&[0x002a, 0xfffe, 0xffff]),
        vec![Operand::Branch(BranchOffset::I32(-2))]
    );
    assert_eq!(
        operands(&[313, 4]),
        vec![byte(1), Operand::Branch(BranchOffset::I16(4))]
    );
    assert_eq!(
        operands(&[4148, 15]),
        vec![byte(0), byte(1), Operand::Branch(BranchOffset::I16(15))]
    );
    assert_eq!(
        operands(&[0x022b, 0x0010, 0x0000]),
        vec![byte(2), Operand::Branch(BranchOffset::I32(16))]
    );
    assert_eq!(
        operands(&[0x0226, 0x0010, 0x0000]),
        vec![byte(2), Operand::Branch(BranchOffset::I32(16))]
    );
}

#[test]
fn goto_resolves_to_offset_plus_signed_byte() {
    let words = [0, 0, 0, 0x0528, 0, 0xfd28];
    let (forward, length) = decode(&words, 3);
    assert_eq!(length, 1);
    assert_eq!(forward.opcode(), Opcode::Goto);
    assert_eq!(forward.branch_target(), Some(8));
    let (backward, _) = decode(&words, 5);
    assert_eq!(backward.branch_target(), Some(2));
    assert_eq!(backward.target(), 2);
}

#[test]
fn branch_target_below_zero_is_none() {
    let (instruction, _) = decode(&[0xfd28], 0);
    assert_eq!(instruction.branch_target(), None);
    assert_eq!(instruction.target(), -3);
    assert_eq!(instruction.branch_offset(), Some(BranchOffset::I8(-3)));
}

#[test]
fn fill_array_data_is_no_branch() {
    let (instruction, length) = decode(&[0x0226, 0x0010, 0x0000], 0);
    assert_eq!(length, 3);
    assert_eq!(instruction.branch_offset(), None);
    assert_eq!(instruction.branch_target(), None);
    assert_eq!(instruction.target(), 0);
}

#[test]
fn switch_points_at_its_table() {
    let (instruction, _) = decode(&[0, 0x012c, 7, 0], 1);
    assert_eq!(instruction.opcode(), Opcode::SparseSwitch);
    assert_eq!(instruction.branch_target(), Some(8));
}

#[test]
fn decoded_length_stays_inside_the_buffer() {
    let words = [
        4207, 743, 2, 96, 57, 275, 33, 4148, 15, 26, 21033, 8305, 855, 2, 266, 312, 7, 8532,
        22998, 8302, 714, 1, 14,
    ];
    let mut offset = 0;
    let mut count = 0;
    while offset < words.len() {
        let (instruction, length) = decode(&words, offset);
        assert!(length >= 1);
        assert!(offset + length <= words.len());
        assert_eq!(instruction.offset(), offset);
        assert_eq!(instruction.end(), offset + length);
        assert_eq!(instruction.opcode().length(), length);
        offset += length;
        count += 1;
    }
    assert_eq!(offset, words.len());
    assert_eq!(count, 11);
}

#[test]
fn payload_markers_are_no_instructions() {
    for marker in [0x0100u16, 0x0200, 0x0300] {
        assert!(matches!(Instruction::try_from_raw_bytecode(&[marker], 0), Ok(None)));
        assert!(matches!(Instruction::try_from_raw_bytecode(&[14, marker, 0, 0], 1), Ok(None)));
    }
    assert!(matches!(Instruction::try_from_raw_bytecode(&[0x0000], 0), Ok(Some(_))));
    assert!(matches!(Instruction::try_from_raw_bytecode(&[0x0400], 0), Ok(Some(_))));
}

#[test]
fn reserved_bytes_are_errors() {
    for reserved in [0x3eu16, 0x43, 0x73, 0x79, 0x7a, 0xe3, 0xf9] {
        let word = 0x1200 | reserved;
        let error = Instruction::try_from_raw_bytecode(&[0, word, 0, 0, 0, 0], 1).unwrap_err();
        assert_eq!(error, InstructionParsingError { byte: reserved as u8, offset: 1 });
        assert_eq!(error.byte(), reserved as u8);
        assert_eq!(error.offset(), 1);
    }
}

#[test]
fn truncated_instructions_are_errors() {
    let error = Instruction::try_from_raw_bytecode(&[8303, 921], 0).unwrap_err();
    assert_eq!(error, InstructionParsingError { byte: 0x6f, offset: 0 });
    let error = Instruction::try_from_raw_bytecode(&[0, 0x0018, 1, 2, 3], 1).unwrap_err();
    assert_eq!(error, InstructionParsingError { byte: 0x18, offset: 1 });
    assert!(Instruction::try_from_raw_bytecode(&[0, 0x0018, 1, 2, 3, 4], 1).is_ok());
    let error = Instruction::try_from_raw_bytecode(&[0x00fa, 1, 2], 0).unwrap_err();
    assert_eq!(error, InstructionParsingError { byte: 0xfa, offset: 0 });
}

#[test]
fn every_byte_is_an_opcode_or_reserved() {
    let mut defined = 0;
    for value in 0..=255u8 {
        let reserved = (0x3e..=0x43).contains(&value)
            || value == 0x73
            || (0x79..=0x7a).contains(&value)
            || (0xe3..=0xf9).contains(&value);
        match Opcode::from_u8(value) {
            Some(opcode) => {
                assert!(!reserved);
                assert_eq!(opcode.byte(), value);
                assert_eq!(opcode.length(), opcode.format().length());
                defined += 1;
            }
            None => assert!(reserved),
        }
    }
    assert_eq!(defined, 224);
}

#[test]
fn catalog_knows_formats_and_lengths() {
    assert_eq!(Opcode::Nop.format(), Format::F10x);
    assert_eq!(Opcode::Move.format(), Format::F12x);
    assert_eq!(Opcode::Const4.format(), Format::F11n);
    assert_eq!(Opcode::Goto.format(), Format::F10t);
    assert_eq!(Opcode::Goto16.format(), Format::F20t);
    assert_eq!(Opcode::Goto32.format(), Format::F30t);
    assert_eq!(Opcode::IfEq.format(), Format::F22t);
    assert_eq!(Opcode::IfEqz.format(), Format::F21t);
    assert_eq!(Opcode::PackedSwitch.format(), Format::F31t);
    assert_eq!(Opcode::InvokeSuper.format(), Format::F35c);
    assert_eq!(Opcode::InvokeSuperRange.format(), Format::F3rc);
    assert_eq!(Opcode::InvokePolymorphic.format(), Format::F45cc);
    assert_eq!(Opcode::InvokePolymorphicRange.format(), Format::F4rcc);
    assert_eq!(Opcode::ConstWide.format(), Format::F51l);
    assert_eq!(Opcode::ConstWide.length(), 5);
    assert_eq!(Opcode::InvokePolymorphic.length(), 4);
    assert_eq!(Opcode::ConstStringJumbo.length(), 3);
    assert_eq!(Opcode::AddIntLit8.length(), 2);
    assert_eq!(Opcode::AddInt2Addr.length(), 1);
    assert_eq!(Format::F22b.length(), 2);
}

#[test]
fn catalog_knows_terminators() {
    assert_eq!(Opcode::Goto.terminator(), TerminatorKind::Goto);
    assert_eq!(Opcode::Goto32.terminator(), TerminatorKind::Goto);
    assert_eq!(Opcode::IfLez.terminator(), TerminatorKind::ConditionalBranch);
    assert_eq!(Opcode::IfEq.terminator(), TerminatorKind::ConditionalBranch);
    assert_eq!(Opcode::PackedSwitch.terminator(), TerminatorKind::Switch);
    assert_eq!(Opcode::SparseSwitch.terminator(), TerminatorKind::Switch);
    assert_eq!(Opcode::ReturnVoid.terminator(), TerminatorKind::Return);
    assert_eq!(Opcode::ReturnObject.terminator(), TerminatorKind::Return);
    assert_eq!(Opcode::Throw.terminator(), TerminatorKind::Throw);
    assert_eq!(Opcode::FillArrayData.terminator(), TerminatorKind::NoTerminator);
    assert_eq!(Opcode::CmpLong.terminator(), TerminatorKind::NoTerminator);
}

#[test]
fn catalog_knows_categories() {
    assert_eq!(Opcode::Move.category(), Some(Category::Move));
    assert_eq!(Opcode::MoveException.category(), Some(Category::Move));
    assert_eq!(Opcode::Const4.category(), Some(Category::Constant));
    assert_eq!(Opcode::ConstClass.category(), Some(Category::Constant));
    assert_eq!(Opcode::ConstMethodType.category(), Some(Category::Constant));
    assert_eq!(Opcode::Aget.category(), Some(Category::Access));
    assert_eq!(Opcode::SputShort.category(), Some(Category::Access));
    assert_eq!(Opcode::InvokeVirtual.category(), Some(Category::Invoke));
    assert_eq!(Opcode::InvokeCustomRange.category(), Some(Category::Invoke));
    assert_eq!(Opcode::NegInt.category(), Some(Category::Arithmetic));
    assert_eq!(Opcode::UshrIntLit8.category(), Some(Category::Arithmetic));
    assert_eq!(Opcode::CmplFloat.category(), Some(Category::Comparison));
    assert_eq!(Opcode::CmpLong.category(), Some(Category::Comparison));
    assert_eq!(Opcode::MonitorEnter.category(), Some(Category::Monitor));
    assert_eq!(Opcode::MonitorExit.category(), Some(Category::Monitor));
    assert_eq!(Opcode::Nop.category(), None);
    assert_eq!(Opcode::ReturnVoid.category(), None);
    assert_eq!(Opcode::IfEq.category(), None);
    assert_eq!(Opcode::CheckCast.category(), None);
    assert_eq!(Opcode::NewInstance.category(), None);
    assert_eq!(Opcode::Throw.category(), None);
}

#[test]
fn catalog_knows_operations() {
    assert_eq!(Opcode::NegInt.unop(), Some(Unop::Neg(Primitive::Int)));
    assert_eq!(Opcode::NotLong.unop(), Some(Unop::Not(Primitive::Long)));
    assert_eq!(Opcode::NegDouble.unop(), Some(Unop::Neg(Primitive::Double)));
    assert_eq!(Opcode::IntToShort.unop(), Some(Unop::Convert(Primitive::Int, Primitive::Short)));
    assert_eq!(
        Opcode::DoubleToFloat.unop(),
        Some(Unop::Convert(Primitive::Double, Primitive::Float))
    );
    assert_eq!(Opcode::AddInt.unop(), None);
    assert_eq!(Opcode::AddInt.binop(), Some(Binop::Add(Primitive::Int)));
    assert_eq!(Opcode::UshrInt.binop(), Some(Binop::Ushr(Primitive::Int)));
    assert_eq!(Opcode::AddLong.binop(), Some(Binop::Add(Primitive::Long)));
    assert_eq!(Opcode::UshrLong.binop(), Some(Binop::Ushr(Primitive::Long)));
    assert_eq!(Opcode::AddFloat.binop(), Some(Binop::Add(Primitive::Float)));
    assert_eq!(Opcode::RemFloat.binop(), Some(Binop::Rem(Primitive::Float)));
    assert_eq!(Opcode::AddDouble.binop(), Some(Binop::Add(Primitive::Double)));
    assert_eq!(Opcode::RemDouble.binop(), Some(Binop::Rem(Primitive::Double)));
    assert_eq!(Opcode::XorLong2Addr.binop(), Some(Binop::Xor(Primitive::Long)));
    assert_eq!(Opcode::RemDouble2Addr.binop(), Some(Binop::Rem(Primitive::Double)));
    assert_eq!(Opcode::RsubInt.binop(), Some(Binop::Sub(Primitive::Int)));
    assert_eq!(Opcode::XorIntLit16.binop(), Some(Binop::Xor(Primitive::Int)));
    assert_eq!(Opcode::RsubIntLit8.binop(), Some(Binop::Sub(Primitive::Int)));
    assert_eq!(Opcode::UshrIntLit8.binop(), Some(Binop::Ushr(Primitive::Int)));
    assert_eq!(Opcode::NegInt.binop(), None);
    assert_eq!(Opcode::InvokeCustom.binop(), None);
    assert!(Primitive::Long.is_wide());
    assert!(Primitive::Double.is_wide());
    assert!(!Primitive::Int.is_wide());
    assert_eq!(Unop::Convert(Primitive::Int, Primitive::Long).argument(), Primitive::Int);
    assert_eq!(Unop::Convert(Primitive::Int, Primitive::Long).result(), Primitive::Long);
}

#[test]
fn catalog_knows_pool_kinds() {
    assert_eq!(Opcode::ConstString.pool_kind(), Some(Type::String));
    assert_eq!(Opcode::ConstStringJumbo.pool_kind(), Some(Type::String));
    assert_eq!(Opcode::InstanceOf.pool_kind(), Some(Type::Type));
    assert_eq!(Opcode::FilledNewArrayRange.pool_kind(), Some(Type::Type));
    assert_eq!(Opcode::IgetObject.pool_kind(), Some(Type::Field));
    assert_eq!(Opcode::Sput.pool_kind(), Some(Type::Field));
    assert_eq!(Opcode::InvokeInterfaceRange.pool_kind(), Some(Type::Method));
    assert_eq!(Opcode::InvokePolymorphic.pool_kind(), Some(Type::Method));
    assert_eq!(Opcode::InvokeCustom.pool_kind(), Some(Type::CallSite));
    assert_eq!(Opcode::ConstMethodHandle.pool_kind(), Some(Type::MethodHandle));
    assert_eq!(Opcode::ConstMethodType.pool_kind(), Some(Type::Prototype));
    assert_eq!(Opcode::Aget.pool_kind(), None);
    assert_eq!(Opcode::Const.pool_kind(), None);
}

#[test]
fn words_split_and_join() {
    assert_eq!(split_word(0x106f), (0x6f, 0x10));
    assert_eq!(split_byte(0xa3), (3, 10));
    assert_eq!(nibble(0x4321, 0), 1);
    assert_eq!(nibble(0x4321, 1), 2);
    assert_eq!(nibble(0x4321, 2), 3);
    assert_eq!(nibble(0x4321, 3), 4);
    assert_eq!(signed_nibble(7), 7);
    assert_eq!(signed_nibble(8), -8);
    assert_eq!(signed_nibble(15), -1);
    assert_eq!(signed_byte(0x7f), 127);
    assert_eq!(signed_byte(0x80), -128);
    assert_eq!(signed_word(0x7fff), 32767);
    assert_eq!(signed_word(0x8000), -32768);
    assert_eq!(signed_long(0x7fff_ffff), i32::MAX);
    assert_eq!(signed_long(0x8000_0000), i32::MIN);
    assert_eq!(concat_words(0x5678, 0x1234), 0x1234_5678);
    assert_eq!(concat_words(0xffff, 0xffff), u32::MAX);
    assert_eq!(concat_quad(4, 3, 2, 1), 0x0001_0002_0003_0004);
    assert_eq!(concat_quad(0xffff, 0xffff, 0xffff, 0xffff), u64::MAX);
}

#[test]
fn branch_offsets_have_a_distance() {
    assert_eq!(BranchOffset::I8(-3).delta(), -3);
    assert_eq!(BranchOffset::U8(200).delta(), 200);
    assert_eq!(BranchOffset::I16(-300).delta(), -300);
    assert_eq!(BranchOffset::U16(60000).delta(), 60000);
    assert_eq!(BranchOffset::I32(i32::MIN).delta(), i64::from(i32::MIN));
    assert_eq!(BranchOffset::U32(u32::MAX).delta(), i64::from(u32::MAX));
}

#[test]
fn switch_is_read_as_register_and_distance() {
    let (packed, _) = decode(&[0x022b, 0x0010, 0x0000], 0);
    assert_eq!(
        packed.as_switch(),
        Some(Switch::Packed(Register::Byte(2), BranchOffset::I32(16)))
    );
    let (sparse, _) = decode(&[0xff2c, 0xfffe, 0xffff], 0);
    assert_eq!(
        sparse.as_switch(),
        Some(Switch::Sparse(Register::Byte(255), BranchOffset::I32(-2)))
    );
    // fill-array-data has the same layout and is no switch
    assert_eq!(decode(&[0x0226, 0x0010, 0x0000], 0).0.as_switch(), None);
    assert_eq!(decode(&[0x0028], 0).0.as_switch(), None);
}

#[test]
fn accesses_are_read_by_kind_and_type() {
    let value = Register::Byte(1);
    let access = |words: &[u16]| decode(words, 0).0.as_access();
    // aget family: 0x44..0x4a, aput family: 0x4b..0x51
    assert_eq!(access(&[0x0144, 0x0302]), Some(IdentifiedOperation::Get(Iop::Int(value))));
    assert_eq!(
        access(&[0x0145, 0x0302]),
        Some(IdentifiedOperation::Get(Iop::Wide((value, Register::Byte(2)))))
    );
    assert_eq!(access(&[0x0146, 0x0302]), Some(IdentifiedOperation::Get(Iop::Object(value))));
    assert_eq!(access(&[0x0147, 0x0302]), Some(IdentifiedOperation::Get(Iop::Boolean(value))));
    assert_eq!(access(&[0x0148, 0x0302]), Some(IdentifiedOperation::Get(Iop::Byte(value))));
    assert_eq!(access(&[0x0149, 0x0302]), Some(IdentifiedOperation::Get(Iop::Char(value))));
    assert_eq!(access(&[0x014a, 0x0302]), Some(IdentifiedOperation::Get(Iop::Short(value))));
    assert_eq!(access(&[0x014b, 0x0302]), Some(IdentifiedOperation::Put(Iop::Int(value))));
    assert_eq!(access(&[0x0151, 0x0302]), Some(IdentifiedOperation::Put(Iop::Short(value))));
    // iget-object v1, v2, field: the value register is the low nibble
    assert_eq!(access(&[8532, 22998]), Some(IdentifiedOperation::Get(Iop::Object(value))));
    assert_eq!(
        access(&[0x215a, 7]),
        Some(IdentifiedOperation::Put(Iop::Wide((value, Register::Byte(2)))))
    );
    // sget v0, field and sput-short
    assert_eq!(access(&[96, 57]), Some(IdentifiedOperation::Get(Iop::Int(Register::Byte(0)))));
    assert_eq!(access(&[0x016d, 57]), Some(IdentifiedOperation::Put(Iop::Short(value))));
    // a wide value in the last eight-bit register runs on into the next
    assert_eq!(
        access(&[0xff61, 57]),
        Some(IdentifiedOperation::Get(Iop::Wide((Register::Byte(255), Register::Word(256)))))
    );
    assert_eq!(access(&[0x016e, 0, 0]), None);
    assert_eq!(access(&[0x0131, 0x0302]), None);
    assert_eq!(access(&[0x0012]), None);
}

#[test]
fn invocations_are_read_by_kind() {
    let method = ConstantPoolIndex::U16(921);
    let arguments = vec![Register::Byte(1), Register::Byte(2)];
    let invocation = |words: &[u16]| decode(words, 0).0.as_invocation();
    assert_eq!(invocation(&[0x206e, 921, 33]), Some(InvKind::Virtual(method, arguments.clone())));
    assert_eq!(invocation(&[8303, 921, 33]), Some(InvKind::Super(method, arguments.clone())));
    assert_eq!(invocation(&[0x2070, 921, 33]), Some(InvKind::Direct(method, arguments.clone())));
    assert_eq!(invocation(&[0x2071, 921, 33]), Some(InvKind::Static(method, arguments.clone())));
    assert_eq!(
        invocation(&[0x2072, 921, 33]),
        Some(InvKind::Interface(method, arguments.clone()))
    );
    assert_eq!(
        invocation(&[0x0277, 921, 300]),
        Some(InvKind::Static(method, vec![Register::Word(300), Register::Word(301)]))
    );
    assert_eq!(invocation(&[0x0074, 921, 300]), Some(InvKind::Virtual(method, vec![])));
    // other calls and other instructions are none of these
    assert_eq!(invocation(&[0x20fa, 5, 0x0021, 9]), None);
    assert_eq!(invocation(&[0x10fc, 3, 0x0004]), None);
    assert_eq!(invocation(&[0x2024, 11, 0x0010]), None);
    assert_eq!(invocation(&[0x000e]), None);
    assert_eq!(
        decode(&[0x0190, 0x0302], 0).0.registers(),
        vec![Register::Byte(1), Register::Byte(2), Register::Byte(3)]
    );
    assert_eq!(Register::next(4), Register::Byte(5));
    assert_eq!(Register::next(255), Register::Word(256));
}

#[test]
fn conditional_branches_are_read_by_comparison() {
    let (left, right) = (Register::Byte(2), Register::Byte(11));
    let distance = BranchOffset::I16(-4);
    let branch = |words: &[u16]| decode(words, 0).0.as_if();
    assert_eq!(branch(&[0xb232, 0xfffc]), Some(If::Test(Conditional::Eq(left, right), distance)));
    assert_eq!(branch(&[0xb233, 0xfffc]), Some(If::Test(Conditional::Ne(left, right), distance)));
    assert_eq!(branch(&[0xb234, 0xfffc]), Some(If::Test(Conditional::Lt(left, right), distance)));
    assert_eq!(branch(&[0xb235, 0xfffc]), Some(If::Test(Conditional::Ge(left, right), distance)));
    assert_eq!(branch(&[0xb236, 0xfffc]), Some(If::Test(Conditional::Gt(left, right), distance)));
    assert_eq!(branch(&[0xb237, 0xfffc]), Some(If::Test(Conditional::Le(left, right), distance)));
    // A test against zero has one register, of eight bits.
    let tested = Register::Byte(0xb2);
    assert_eq!(
        branch(&[0xb238, 0xfffc]),
        Some(If::Testz(Conditional::Eq(tested, tested), distance))
    );
    assert_eq!(
        branch(&[0xb239, 0xfffc]),
        Some(If::Testz(Conditional::Ne(tested, tested), distance))
    );
    assert_eq!(
        branch(&[0xb23d, 0xfffc]),
        Some(If::Testz(Conditional::Le(tested, tested), distance))
    );
    assert_eq!(branch(&[0x0028]), None);
    assert_eq!(branch(&[0x012d, 0x0302]), None);
}
