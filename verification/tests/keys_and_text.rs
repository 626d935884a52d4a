use standard_udt_contracts::ascii::{decimal_byte, hex_encode};
use standard_udt_contracts::byte32::{byte32_le, byte32_lt, increment_byte32, is_max32, is_zero32, key_before};
use standard_udt_contracts::domain::{covers_full_domain, range_lt, sort_ranges};

#[test]
fn key_order_and_successor() {
    let mut a = [0u8; 32];
    a[31] = 1;
    let mut b = [0u8; 32];
    b[0] = 1;
    assert!(byte32_lt(&a, &b) && !byte32_lt(&b, &a) && !byte32_lt(&a, &a));
    assert!(byte32_le(&a, &a) && key_before(&a, &b));
    let mut carry = [0u8; 32];
    carry[30] = 0x12;
    carry[31] = 0xff;
    let mut expected = [0u8; 32];
    expected[30] = 0x13;
    assert_eq!(increment_byte32(&carry), Some(expected));
    assert_eq!(increment_byte32(&[0xffu8; 32]), None);
    assert!(is_zero32(&[0u8; 32]) && is_max32(&[0xffu8; 32]) && !is_max32(&expected));
}

#[test]
fn ranges_sorted_and_covering() {
    let mut low_end = [0xffu8; 32];
    low_end[0] = 0x0f;
    let mut high_start = [0u8; 32];
    high_start[0] = 0x10;
    let ranges = vec![(high_start, [0xffu8; 32]), ([0u8; 32], low_end)];
    let sorted = sort_ranges(ranges);
    assert_eq!(sorted, vec![([0u8; 32], low_end), (high_start, [0xffu8; 32])]);
    assert!(covers_full_domain(&sorted));
    assert!(!covers_full_domain(&sorted[..1]));
    assert!(!covers_full_domain(&[]));
    assert!(range_lt(&sorted[0], &sorted[1]));
    assert!(covers_full_domain(&[([0u8; 32], [0xffu8; 32]), (high_start, [0xffu8; 32])]));
}

#[test]
fn covering_ranges_hold_sample_keys() {
    let mut low_end = [0xffu8; 32];
    low_end[0] = 0x0f;
    let mut high_start = [0u8; 32];
    high_start[0] = 0x10;
    let ranges = [([0u8; 32], low_end), (high_start, [0xffu8; 32])];
    assert!(covers_full_domain(&ranges));
    let mut samples = vec![[0u8; 32], [0xffu8; 32], low_end, high_start, [0x0fu8; 32], [0x10u8; 32]];
    let mut odd = [0x37u8; 32];
    odd[31] = 0;
    samples.push(odd);
    for key in samples {
        assert!(ranges.iter().any(|(start, end)| *start <= key && key <= *end));
    }
}

#[test]
fn spawn_argument_text() {
    assert_eq!(decimal_byte(7), b"7".to_vec());
    assert_eq!(decimal_byte(42), b"42".to_vec());
    assert_eq!(hex_encode(&[0x00, 0xab, 0x3f]), b"00ab3f".to_vec());
    assert_eq!(hex_encode(&[]), Vec::<u8>::new());
}

#[test]
fn table_offsets_for_any_field_count() {
    let empty_table = [8u8, 0, 0, 0, 4, 0, 0, 0];
    assert_eq!(standard_udt_contracts::xudt::meta::table_offsets(&empty_table, 0), Ok(vec![8]));
    assert!(standard_udt_contracts::xudt::meta::table_offsets(&[4u8, 0, 0, 0], 0).is_err());
    assert!(standard_udt_contracts::xudt::meta::table_offsets(&empty_table, usize::MAX).is_err());
    assert_eq!(standard_udt_contracts::sudt_meta::meta_cell::table_offsets(&[4u8, 0, 0, 0], 0), Ok(vec![4]));
    assert!(standard_udt_contracts::sudt_meta::meta_cell::table_offsets(&empty_table, 0).is_err());
    assert!(standard_udt_contracts::enhanced_sudt::meta::table_offsets(&empty_table, usize::MAX / 2).is_err());
    let one = [12u8, 0, 0, 0, 8, 0, 0, 0, 1, 2, 3, 4];
    assert_eq!(standard_udt_contracts::enhanced_sudt_meta::meta_cell::table_offsets(&one, 1), Ok(vec![8, 12]));
    assert_eq!(standard_udt_contracts::xudt_meta::parser::table_offsets(&one, 0, true), Ok(vec![8, 12]));
    assert!(standard_udt_contracts::xudt_meta::parser::table_offsets(&one, 0, false).is_err());
    assert!(standard_udt_contracts::enhanced_xudt_meta::meta_cell::table_offsets(&empty_table, 0, true).is_err());
    assert!(standard_udt_contracts::enhanced_xudt_meta::meta_cell::table_offsets(&one, usize::MAX, true).is_err());
}
