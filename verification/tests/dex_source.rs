use dex::class::Class;
use dex::DexReader;
use dex_cfg::dex_source::code_of_classes;
use dex_cfg::sequence::{get_op_seq, into_blocks, parse_dexes};

const HASH_CODE: [u16; 28] = [
    8276, 11170, 4206, 1757, 0, 10, 218, 7936, 8532, 11172, 313, 4, 274, 1320, 4206, 1757, 1, 266,
    4272, 218, 7936, 8533, 11171, 312, 3, 4370, 4272, 15,
];

const TWO_RETURNS: [u16; 2] = [0x000e, 0x000e];

fn put_u16(bytes: &mut Vec<u8>, value: u16) {
    bytes.extend_from_slice(&value.to_le_bytes());
}

fn put_u32(bytes: &mut Vec<u8>, value: u32) {
    bytes.extend_from_slice(&value.to_le_bytes());
}

fn put_uleb128(bytes: &mut Vec<u8>, mut value: u32) {
    loop {
        let low = (value & 0x7f) as u8;
        value >>= 7;
        if value == 0 {
            bytes.push(low);
            return;
        }
        bytes.push(low | 0x80);
    }
}

fn set_u32(bytes: &mut [u8], at: usize, value: u32) {
    bytes[at..at + 4].copy_from_slice(&value.to_le_bytes());
}

fn align(bytes: &mut Vec<u8>) {
    while bytes.len() % 4 != 0 {
        bytes.push(0);
    }
}

fn adler32(bytes: &[u8]) -> u32 {
    let (mut a, mut b) = (1u32, 0u32);
    for &byte in bytes {
        a = (a + u32::from(byte)) % 65521;
        b = (b + a) % 65521;
    }
    (b << 16) | a
}

fn put_code(bytes: &mut Vec<u8>, words: &[u16]) -> u32 {
    align(bytes);
    let at = bytes.len() as u32;
    put_u16(bytes, 4); // registers
    put_u16(bytes, 1); // incoming arguments
    put_u16(bytes, 2); // outgoing arguments
    put_u16(bytes, 0); // tries
    put_u32(bytes, 0); // debug info
    put_u32(bytes, words.len() as u32);
    for &word in words {
        put_u16(bytes, word);
    }
    at
}

/// A dex file with the class `LFoo;`: the direct methods `bar` and `baz`
/// with the given code, and the abstract method `foo`.
fn dex_file(bar: &[u16], baz: &[u16]) -> Vec<u8> {
    let strings: [&str; 5] = ["LFoo;", "V", "bar", "baz", "foo"];
    let mut bytes = vec![0u8; 0x70];
    bytes[..8].copy_from_slice(&[b'd', b'e', b'x', b'\n', b'0', b'3', b'5', 0]);

    let string_ids = bytes.len();
    bytes.resize(string_ids + 4 * strings.len(), 0);
    let type_ids = bytes.len();
    put_u32(&mut bytes, 0); // LFoo;
    put_u32(&mut bytes, 1); // V
    let proto_ids = bytes.len();
    put_u32(&mut bytes, 1); // shorty V
    put_u32(&mut bytes, 1); // returns V
    put_u32(&mut bytes, 0); // no parameters
    let method_ids = bytes.len();
    for name in [2u32, 3, 4] {
        put_u16(&mut bytes, 0); // class LFoo;
        put_u16(&mut bytes, 0); // prototype
        put_u32(&mut bytes, name);
    }
    let class_defs = bytes.len();
    bytes.resize(class_defs + 32, 0);

    let data = bytes.len();
    let bar_code = put_code(&mut bytes, bar);
    let baz_code = put_code(&mut bytes, baz);
    for (id, string) in strings.iter().enumerate() {
        let at = bytes.len() as u32;
        set_u32(&mut bytes, string_ids + 4 * id, at);
        put_uleb128(&mut bytes, string.len() as u32);
        bytes.extend_from_slice(string.as_bytes());
        bytes.push(0);
    }
    let class_data = bytes.len() as u32;
    put_uleb128(&mut bytes, 0); // static fields
    put_uleb128(&mut bytes, 0); // instance fields
    put_uleb128(&mut bytes, 2); // direct methods
    put_uleb128(&mut bytes, 1); // virtual methods
    put_uleb128(&mut bytes, 0); // bar
    put_uleb128(&mut bytes, 0x9); // public static
    put_uleb128(&mut bytes, bar_code);
    put_uleb128(&mut bytes, 1); // baz
    put_uleb128(&mut bytes, 0x9);
    put_uleb128(&mut bytes, baz_code);
    put_uleb128(&mut bytes, 2); // foo
    put_uleb128(&mut bytes, 0x401); // public abstract
    put_uleb128(&mut bytes, 0); // no code
    align(&mut bytes);
    let map = bytes.len() as u32;
    put_u32(&mut bytes, 0); // an empty map

    set_u32(&mut bytes, class_defs, 0); // LFoo;
    set_u32(&mut bytes, class_defs + 4, 1); // public
    set_u32(&mut bytes, class_defs + 8, 0xffff_ffff); // no superclass
    set_u32(&mut bytes, class_defs + 16, 0xffff_ffff); // no source file
    set_u32(&mut bytes, class_defs + 24, class_data);

    let size = bytes.len() as u32;
    set_u32(&mut bytes, 32, size);
    set_u32(&mut bytes, 36, 0x70);
    set_u32(&mut bytes, 40, 0x1234_5678);
    set_u32(&mut bytes, 52, map);
    set_u32(&mut bytes, 56, strings.len() as u32);
    set_u32(&mut bytes, 60, string_ids as u32);
    set_u32(&mut bytes, 64, 2);
    set_u32(&mut bytes, 68, type_ids as u32);
    set_u32(&mut bytes, 72, 1);
    set_u32(&mut bytes, 76, proto_ids as u32);
    set_u32(&mut bytes, 88, 3);
    set_u32(&mut bytes, 92, method_ids as u32);
    set_u32(&mut bytes, 96, 1);
    set_u32(&mut bytes, 100, class_defs as u32);
    set_u32(&mut bytes, 104, size - data as u32);
    set_u32(&mut bytes, 108, data as u32);
    let checksum = adler32(&bytes[12..]);
    set_u32(&mut bytes, 8, checksum);
    bytes
}

fn classes_of(bar: &[u16], baz: &[u16]) -> Vec<Class> {
    let dex = DexReader::from_vec(dex_file(bar, baz)).expect("the file is well-formed");
    dex.classes().map(|class| class.expect("the class is well-formed")).collect()
}

#[test]
fn words_of_the_methods_with_code() {
    let classes = classes_of(&HASH_CODE, &TWO_RETURNS);
    assert_eq!(classes.len(), 1);
    assert_eq!(classes[0].methods().count(), 3);
    assert_eq!(code_of_classes(&classes), vec![HASH_CODE.to_vec(), TWO_RETURNS.to_vec()]);
    assert_eq!(code_of_classes(&[]), Vec::<Vec<u16>>::new());
}

#[test]
fn opcodes_of_the_methods_of_a_file() {
    let classes = classes_of(&HASH_CODE, &TWO_RETURNS);
    let mut pos = 100;
    let (op_seq, bounds) = get_op_seq(&classes, &mut pos, 0);
    assert_eq!(
        op_seq,
        vec![
            0x54, 0x6e, 0x0a, 0xda, 0x54, 0x39, 0x12, 0x28, 0x6e, 0x0a, 0xb0, 0xda, 0x55, 0x38,
            0x12, 0xb0, 0x0f, 0x0e, 0x0e
        ]
    );
    assert_eq!(bounds, vec![(100, 116), (117, 118)]);
    assert_eq!(pos, 119);
}

#[test]
fn opcodes_of_several_files() {
    let files = vec![
        classes_of(&TWO_RETURNS, &[0x0012, 0x000e]),
        classes_of(&[0x003e], &[0x000e]),
        classes_of(&[0x0000, 0x0000, 0x000e], &TWO_RETURNS),
    ];
    let (op_seq, bounds) = parse_dexes(&files, 0);
    assert_eq!(op_seq, vec![0x0e, 0x0e, 0x12, 0x0e, 0x0e, 0x00, 0x00, 0x0e, 0x0e, 0x0e]);
    assert_eq!(bounds, vec![(0, 1), (2, 3), (4, 4), (5, 7), (8, 9)]);
    // The cap holds for each file by itself, the positions count on.
    let (op_seq, bounds) = parse_dexes(&files, 4);
    assert_eq!(op_seq, vec![0x0e, 0x0e, 0x0e, 0x00, 0x00, 0x0e]);
    assert_eq!(bounds, vec![(0, 1), (2, 2), (3, 5)]);
    assert_eq!(parse_dexes(&vec![], 0), (vec![], vec![]));
}

#[test]
fn graphs_of_the_methods_of_a_file() {
    let classes = classes_of(&HASH_CODE, &TWO_RETURNS);
    let graphs = into_blocks(&classes);
    assert_eq!(graphs.len(), 2);
    assert_eq!(graphs[0].len(), 6);
    assert_eq!(graphs[1].len(), 2);
    // A method without a graph is left out.
    let classes = classes_of(&[0x0028], &TWO_RETURNS);
    let graphs = into_blocks(&classes);
    assert_eq!(graphs.len(), 1);
    assert_eq!(graphs[0].len(), 2);
}
