use dex_cfg::sequence::{extend, graphs_of_methods, method_op_seq, op_seq_of_methods};

const HASH_CODE: [u16; 28] = [
    8276, 11170, 4206, 1757, 0, 10, 218, 7936, 8532, 11172, 313, 4, 274, 1320, 4206, 1757, 1, 266,
    4272, 218, 7936, 8533, 11171, 312, 3, 4370, 4272, 15,
];

#[test]
fn opcodes_of_a_method() {
    assert_eq!(
        method_op_seq(&HASH_CODE),
        Some(vec![
            0x54, 0x6e, 0x0a, 0xda, 0x54, 0x39, 0x12, 0x28, 0x6e, 0x0a, 0xb0, 0xda, 0x55, 0x38,
            0x12, 0xb0, 0x0f
        ])
    );
    assert_eq!(method_op_seq(&[]), Some(vec![]));
}

#[test]
fn opcodes_stop_at_a_data_table() {
    assert_eq!(method_op_seq(&[0x0012, 0x000e, 0x0100, 0x003e]), Some(vec![0x12, 0x0e]));
    assert_eq!(method_op_seq(&[0x0300, 0x0012]), Some(vec![]));
}

#[test]
fn opcodes_of_an_undecodable_method() {
    assert_eq!(method_op_seq(&[0x0012, 0x003e, 0x000e]), None);
    assert_eq!(method_op_seq(&[0x0012, 0x0013]), None);
    // the scan is linear: it reads what no path reaches
    assert_eq!(method_op_seq(&[0x0228, 0x003e, 0x000e]), None);
}

#[test]
fn extend_records_the_bounds() {
    let mut op_seq = vec![1, 2];
    let mut bounds = vec![(0, 1)];
    let mut pos = 2;
    extend(&mut op_seq, vec![7, 8, 9], &mut bounds, &mut pos, 2);
    assert_eq!(op_seq, vec![1, 2, 7, 8, 9]);
    assert_eq!(bounds, vec![(0, 1), (2, 4)]);
    assert_eq!(pos, 5);
    extend(&mut op_seq, vec![], &mut bounds, &mut pos, 5);
    assert_eq!(op_seq, vec![1, 2, 7, 8, 9]);
    assert_eq!(bounds, vec![(0, 1), (2, 4), (5, 4)]);
    assert_eq!(pos, 5);
}

#[test]
fn methods_are_gathered_in_order() {
    let methods = vec![vec![0x0012, 0x000e], vec![0x000e], vec![0x0000, 0x0000, 0x000e]];
    let mut pos = 10;
    let (op_seq, bounds) = op_seq_of_methods(&methods, &mut pos, 0);
    assert_eq!(op_seq, vec![0x12, 0x0e, 0x0e, 0x00, 0x00, 0x0e]);
    assert_eq!(bounds, vec![(10, 11), (12, 12), (13, 15)]);
    assert_eq!(pos, 16);
}

#[test]
fn undecodable_methods_are_left_out() {
    let methods = vec![vec![0x0012, 0x000e], vec![0x003e], vec![0x000e]];
    let mut pos = 0;
    let (op_seq, bounds) = op_seq_of_methods(&methods, &mut pos, 0);
    assert_eq!(op_seq, vec![0x12, 0x0e, 0x0e]);
    assert_eq!(bounds, vec![(0, 1), (2, 2)]);
    assert_eq!(pos, 3);
}

#[test]
fn cap_leaves_out_what_does_not_fit() {
    let methods = vec![vec![0x0012, 0x000e], vec![0x0000, 0x0000, 0x000e], vec![0x000e]];
    // Under a cap of 4 the second method, which would make five, is left
    // out, and the third, which makes three, is taken.
    let mut pos = 0;
    let (op_seq, bounds) = op_seq_of_methods(&methods, &mut pos, 4);
    assert_eq!(op_seq, vec![0x12, 0x0e, 0x0e]);
    assert_eq!(bounds, vec![(0, 1), (2, 2)]);
    assert_eq!(pos, 3);
    // The sum must stay below the cap.
    let mut pos = 0;
    let (op_seq, _) = op_seq_of_methods(&methods, &mut pos, 3);
    assert_eq!(op_seq, vec![0x12, 0x0e]);
    let mut pos = 0;
    let (op_seq, _) = op_seq_of_methods(&methods, &mut pos, 2);
    assert_eq!(op_seq, vec![0x0e]);
    assert_eq!(pos, 1);
}

#[test]
fn empty_method_at_position_zero_is_left_out() {
    let methods = vec![vec![], vec![0x000e], vec![]];
    let mut pos = 0;
    let (op_seq, bounds) = op_seq_of_methods(&methods, &mut pos, 0);
    assert_eq!(op_seq, vec![0x0e]);
    assert_eq!(bounds, vec![(0, 0), (1, 0)]);
    assert_eq!(pos, 1);
}

#[test]
fn graphs_are_built_for_the_methods_that_have_one() {
    let methods = vec![HASH_CODE.to_vec(), vec![0x003e], vec![], vec![0x000e, 0x000e]];
    let graphs = graphs_of_methods(&methods);
    assert_eq!(graphs.len(), 2);
    assert_eq!(graphs[0].len(), 6);
    assert_eq!(graphs[1].len(), 2);
    assert!(graphs_of_methods(&vec![]).is_empty());
}
