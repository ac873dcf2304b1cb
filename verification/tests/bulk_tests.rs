use lebe::bulk::{swap_four_byte_groups_chunked, swap_four_byte_groups_scalar};
use lebe::io::bytes::slice_as_bytes;
use lebe::prelude::Endian;

fn sample_bytes(len: usize) -> Vec<u8> {
    let mut out: Vec<u8> = Vec::new();
    for i in 0..len {
        out.push((i.wrapping_mul(37).wrapping_add(11)) as u8);
    }
    out
}

#[test]
fn chunked_and_scalar_paths_agree_on_boundary_lengths() {
    // group counts straddling the eight-group chunk width
    for groups in [0usize, 1, 7, 8, 9, 31, 32, 33] {
        let mut scalar = sample_bytes(groups * 4);
        let mut chunked = scalar.clone();
        swap_four_byte_groups_scalar(&mut scalar);
        swap_four_byte_groups_chunked(&mut chunked);
        assert_eq!(scalar, chunked);
    }
}

#[test]
fn swap_reverses_each_group() {
    let mut bytes: Vec<u8> = vec![1, 2, 3, 4, 5, 6, 7, 8];
    swap_four_byte_groups_chunked(&mut bytes);
    assert_eq!(bytes, vec![4, 3, 2, 1, 8, 7, 6, 5]);

    let mut again: Vec<u8> = vec![1, 2, 3, 4, 5, 6, 7, 8];
    swap_four_byte_groups_scalar(&mut again);
    assert_eq!(again, vec![4, 3, 2, 1, 8, 7, 6, 5]);
}

#[test]
fn swap_twice_restores_bytes() {
    let original = sample_bytes(36);
    let mut bytes = original.clone();
    swap_four_byte_groups_chunked(&mut bytes);
    swap_four_byte_groups_scalar(&mut bytes);
    assert_eq!(bytes, original);
}

#[test]
fn bulk_swap_matches_element_wise_swap() {
    let mut values: Vec<u32> = vec![0x11223344, 0x55667788, 0x99aabbcc, 0xddeeff00, 0x01020304];
    let mut bytes = slice_as_bytes(&values);
    swap_four_byte_groups_chunked(&mut bytes);
    Endian::swap_bytes(&mut values);
    assert_eq!(bytes, slice_as_bytes(&values));
}

#[test]
fn empty_input_is_a_no_op() {
    let mut bytes: Vec<u8> = Vec::new();
    swap_four_byte_groups_chunked(&mut bytes);
    assert!(bytes.is_empty());
    swap_four_byte_groups_scalar(&mut bytes);
    assert!(bytes.is_empty());
}
