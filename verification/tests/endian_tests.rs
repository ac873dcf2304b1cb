use lebe::prelude::Endian;

#[test]
fn swap_bytes_u16() {
    let mut x: u16 = 0x1234;
    Endian::swap_bytes(&mut x);
    assert_eq!(x, 0x3412);
}

#[test]
fn swap_bytes_u32() {
    let mut x: u32 = 0x12345678;
    Endian::swap_bytes(&mut x);
    assert_eq!(x, 0x78563412);
}

#[test]
fn swap_bytes_u64() {
    let mut x: u64 = 0x0102030405060708;
    Endian::swap_bytes(&mut x);
    assert_eq!(x, 0x0807060504030201);
}

#[test]
fn swap_bytes_u128() {
    let mut x: u128 = 0x000102030405060708090a0b0c0d0e0f;
    Endian::swap_bytes(&mut x);
    assert_eq!(x, 0x0f0e0d0c0b0a09080706050403020100);
}

#[test]
fn swap_bytes_signed() {
    let mut x: i16 = -2;
    Endian::swap_bytes(&mut x);
    assert_eq!(x as u16, 0xfeff);

    let mut y: i32 = -2;
    Endian::swap_bytes(&mut y);
    assert_eq!(y as u32, 0xfeffffff);

    let mut z: i64 = 3;
    Endian::swap_bytes(&mut z);
    assert_eq!(z as u64, 0x0300000000000000);

    let mut w: i128 = 3;
    Endian::swap_bytes(&mut w);
    assert_eq!(w as u128, 0x03000000000000000000000000000000);
}

#[test]
fn swap_bytes_u8_is_identity() {
    let mut x: u8 = 0xab;
    Endian::swap_bytes(&mut x);
    assert_eq!(x, 0xab);

    let mut y: i8 = -5;
    Endian::swap_bytes(&mut y);
    assert_eq!(y, -5);
}

#[test]
fn swap_twice_restores_scalars() {
    let mut a: u16 = 0xbeef;
    Endian::swap_bytes(&mut a);
    Endian::swap_bytes(&mut a);
    assert_eq!(a, 0xbeef);

    let mut b: u32 = 0xdeadbeef;
    Endian::swap_bytes(&mut b);
    Endian::swap_bytes(&mut b);
    assert_eq!(b, 0xdeadbeef);

    let mut c: u64 = 0x0123456789abcdef;
    Endian::swap_bytes(&mut c);
    Endian::swap_bytes(&mut c);
    assert_eq!(c, 0x0123456789abcdef);

    let mut d: u128 = 0x0123456789abcdef0123456789abcdef;
    Endian::swap_bytes(&mut d);
    Endian::swap_bytes(&mut d);
    assert_eq!(d, 0x0123456789abcdef0123456789abcdef);

    let mut e: i32 = -123456789;
    Endian::swap_bytes(&mut e);
    Endian::swap_bytes(&mut e);
    assert_eq!(e, -123456789);
}

#[test]
fn swap_bytes_vec_is_element_wise() {
    let mut values: Vec<u16> = vec![0x1122, 0x3344, 0x5566];
    Endian::swap_bytes(&mut values);
    assert_eq!(values, vec![0x2211, 0x4433, 0x6655]);
}

#[test]
fn swap_twice_restores_vec() {
    let original: Vec<u32> = vec![1, 0x12345678, u32::MAX, 0];
    let mut values = original.clone();
    Endian::swap_bytes(&mut values);
    Endian::swap_bytes(&mut values);
    assert_eq!(values, original);
}

#[test]
fn swap_bytes_empty_vec() {
    let mut values: Vec<u64> = vec![];
    Endian::swap_bytes(&mut values);
    assert!(values.is_empty());
}

#[test]
fn convert_current_to_little_endian_is_identity() {
    let mut x: u32 = 0x12345678;
    x.convert_current_to_little_endian();
    assert_eq!(x, 0x12345678);

    let mut y: u32 = 0x12345678;
    y.convert_little_endian_to_current();
    assert_eq!(y, 0x12345678);
}

#[test]
fn convert_current_to_big_endian_is_one_swap() {
    let mut x: u32 = 0x12345678;
    x.convert_current_to_big_endian();
    assert_eq!(x, 0x78563412);

    let mut y: u32 = 0x12345678;
    y.convert_big_endian_to_current();
    assert_eq!(y, 0x78563412);
}

#[test]
fn value_returning_adapters() {
    let x: u16 = 0x0102;
    assert_eq!(x.from_current_into_little_endian(), 0x0102);
    assert_eq!(x.from_current_into_big_endian(), 0x0201);
    assert_eq!(x.from_little_endian_into_current(), 0x0102);
    assert_eq!(x.from_big_endian_into_current(), 0x0201);
}
