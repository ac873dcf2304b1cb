use lebe::io::bytes::{read_slice, read_value, slice_as_bytes, value_as_bytes, write_slice, write_value};
use lebe::io::{ByteReader, StreamError};
use lebe::prelude::{Endian, ReadEndian, WriteEndian};

#[test]
fn write_u32_big_endian_concrete() {
    let mut sink: Vec<u8> = Vec::new();
    sink.write_as_big_endian(&0x12345678u32).unwrap();
    assert_eq!(sink, vec![0x12, 0x34, 0x56, 0x78]);
}

#[test]
fn write_u32_little_endian_concrete() {
    let mut sink: Vec<u8> = Vec::new();
    sink.write_as_little_endian(&0x12345678u32).unwrap();
    assert_eq!(sink, vec![0x78, 0x56, 0x34, 0x12]);
}

#[test]
fn write_u16_sequence_big_endian_concrete() {
    let values: Vec<u16> = vec![1, 256, 65535];
    let mut sink: Vec<u8> = Vec::new();
    sink.write_as_big_endian(&values).unwrap();
    assert_eq!(sink, vec![0x00, 0x01, 0x01, 0x00, 0xff, 0xff]);
}

#[test]
fn write_sequence_little_endian_matches_raw_bytes() {
    let values: Vec<u32> = vec![0x11223344, 0xa5a5a5a5, 7];
    let mut sink: Vec<u8> = Vec::new();
    sink.write_as_little_endian(&values).unwrap();
    assert_eq!(sink, slice_as_bytes(&values));
}

#[test]
fn round_trip_unsigned_scalars() {
    let mut sink: Vec<u8> = Vec::new();
    sink.write_as_little_endian(&0x5au8).unwrap();
    sink.write_as_big_endian(&0xa5u8).unwrap();
    sink.write_as_little_endian(&0x1234u16).unwrap();
    sink.write_as_big_endian(&0x1234u16).unwrap();
    sink.write_as_little_endian(&0x12345678u32).unwrap();
    sink.write_as_big_endian(&0x12345678u32).unwrap();
    sink.write_as_little_endian(&0x0102030405060708u64).unwrap();
    sink.write_as_big_endian(&0x0102030405060708u64).unwrap();
    sink.write_as_little_endian(&0x0102030405060708090a0b0c0d0e0f10u128).unwrap();
    sink.write_as_big_endian(&0x0102030405060708090a0b0c0d0e0f10u128).unwrap();

    let mut reader = ByteReader::new(sink);
    let a: u8 = reader.read_from_little_endian().unwrap();
    assert_eq!(a, 0x5a);
    let b: u8 = reader.read_from_big_endian().unwrap();
    assert_eq!(b, 0xa5);
    let c: u16 = reader.read_from_little_endian().unwrap();
    assert_eq!(c, 0x1234);
    let d: u16 = reader.read_from_big_endian().unwrap();
    assert_eq!(d, 0x1234);
    let e: u32 = reader.read_from_little_endian().unwrap();
    assert_eq!(e, 0x12345678);
    let f: u32 = reader.read_from_big_endian().unwrap();
    assert_eq!(f, 0x12345678);
    let g: u64 = reader.read_from_little_endian().unwrap();
    assert_eq!(g, 0x0102030405060708);
    let h: u64 = reader.read_from_big_endian().unwrap();
    assert_eq!(h, 0x0102030405060708);
    let i: u128 = reader.read_from_little_endian().unwrap();
    assert_eq!(i, 0x0102030405060708090a0b0c0d0e0f10);
    let j: u128 = reader.read_from_big_endian().unwrap();
    assert_eq!(j, 0x0102030405060708090a0b0c0d0e0f10);
    assert_eq!(reader.remaining_len(), 0);
}

#[test]
fn round_trip_signed_scalars() {
    let mut sink: Vec<u8> = Vec::new();
    sink.write_as_little_endian(&-5i8).unwrap();
    sink.write_as_big_endian(&-30000i16).unwrap();
    sink.write_as_little_endian(&-123456789i32).unwrap();
    sink.write_as_big_endian(&-1234567890123i64).unwrap();
    sink.write_as_little_endian(&-123456789012345678901234567890i128).unwrap();

    let mut reader = ByteReader::new(sink);
    let a: i8 = reader.read_from_little_endian().unwrap();
    assert_eq!(a, -5);
    let b: i16 = reader.read_from_big_endian().unwrap();
    assert_eq!(b, -30000);
    let c: i32 = reader.read_from_little_endian().unwrap();
    assert_eq!(c, -123456789);
    let d: i64 = reader.read_from_big_endian().unwrap();
    assert_eq!(d, -1234567890123);
    let e: i128 = reader.read_from_little_endian().unwrap();
    assert_eq!(e, -123456789012345678901234567890);
}

#[test]
fn round_trip_sequences() {
    let original: Vec<u16> = vec![1, 256, 65535, 0x1234];

    let mut sink_le: Vec<u8> = Vec::new();
    sink_le.write_as_little_endian(&original).unwrap();
    let mut back_le: Vec<u16> = vec![0; 4];
    let mut reader_le = ByteReader::new(sink_le);
    reader_le.read_from_little_endian_into(&mut back_le).unwrap();
    assert_eq!(back_le, original);

    let mut sink_be: Vec<u8> = Vec::new();
    sink_be.write_as_big_endian(&original).unwrap();
    let mut back_be: Vec<u16> = vec![0; 4];
    let mut reader_be = ByteReader::new(sink_be);
    reader_be.read_from_big_endian_into(&mut back_be).unwrap();
    assert_eq!(back_be, original);
}

#[test]
fn read_into_scalar_both_orders() {
    let mut reader = ByteReader::new(vec![0x12, 0x34, 0x34, 0x12]);
    let mut be: u16 = 0;
    reader.read_from_big_endian_into(&mut be).unwrap();
    assert_eq!(be, 0x1234);
    let mut le: u16 = 0;
    reader.read_from_little_endian_into(&mut le).unwrap();
    assert_eq!(le, 0x1234);
}

#[test]
fn short_stream_fails_scalar() {
    let mut reader = ByteReader::new(vec![1, 2, 3]);
    let mut value: u32 = 0xdead;
    assert_eq!(reader.read_from_little_endian_into(&mut value), Err(StreamError::UnexpectedEnd));
    assert_eq!(value, 0xdead);
    assert_eq!(reader.remaining_len(), 3);

    let got: Result<u32, StreamError> = reader.read_from_big_endian();
    assert_eq!(got, Err(StreamError::UnexpectedEnd));
    assert_eq!(reader.remaining_len(), 3);
}

#[test]
fn short_stream_fails_sequence() {
    let mut reader = ByteReader::new(vec![1, 2, 3, 4, 5]);
    let mut values: Vec<u16> = vec![0; 3];
    assert_eq!(reader.read_from_big_endian_into(&mut values), Err(StreamError::UnexpectedEnd));
    assert_eq!(reader.remaining_len(), 5);
}

#[test]
fn empty_read_succeeds_on_empty_stream() {
    let mut reader = ByteReader::new(Vec::new());
    let mut values: Vec<u32> = Vec::new();
    reader.read_from_little_endian_into(&mut values).unwrap();
    assert!(values.is_empty());
    assert_eq!(reader.remaining_len(), 0);
}

#[test]
fn value_as_bytes_is_little_endian_memory_image() {
    assert_eq!(value_as_bytes(&0x12345678u32), vec![0x78, 0x56, 0x34, 0x12]);
    assert_eq!(value_as_bytes(&0x01u8), vec![0x01]);
}

#[test]
fn slice_as_bytes_concatenates_elements() {
    let values: Vec<u16> = vec![1, 256];
    assert_eq!(slice_as_bytes(&values), vec![0x01, 0x00, 0x00, 0x01]);
}

#[test]
fn raw_write_and_read_value() {
    let mut sink: Vec<u8> = Vec::new();
    write_value(&mut sink, &0xabcd1234u32);
    assert_eq!(sink, vec![0x34, 0x12, 0xcd, 0xab]);

    let mut reader = ByteReader::new(sink);
    let mut back: u32 = 0;
    read_value(&mut reader, &mut back).unwrap();
    assert_eq!(back, 0xabcd1234);
}

#[test]
fn raw_write_and_read_slice() {
    let values: Vec<u16> = vec![7, 519];
    let mut sink: Vec<u8> = Vec::new();
    write_slice(&mut sink, &values);
    assert_eq!(sink, vec![0x07, 0x00, 0x07, 0x02]);

    let mut reader = ByteReader::new(sink);
    let mut back: Vec<u16> = vec![0; 2];
    read_slice(&mut reader, &mut back).unwrap();
    assert_eq!(back, values);
}

#[test]
fn reader_consumes_in_order() {
    let mut sink: Vec<u8> = Vec::new();
    sink.write_as_big_endian(&0x0102u16).unwrap();
    sink.write_as_big_endian(&0x0304u16).unwrap();
    let mut reader = ByteReader::new(sink);
    assert_eq!(reader.remaining_len(), 4);
    let first: u16 = reader.read_from_big_endian().unwrap();
    assert_eq!(first, 0x0102);
    assert_eq!(reader.remaining_len(), 2);
    let second: u16 = reader.read_from_big_endian().unwrap();
    assert_eq!(second, 0x0304);
    assert_eq!(reader.remaining_len(), 0);
}

#[test]
fn write_does_not_touch_the_value() {
    let values: Vec<u32> = vec![0x11223344, 0x55667788];
    let copy = values.clone();
    let mut sink: Vec<u8> = Vec::new();
    sink.write_as_little_endian(&values).unwrap();
    sink.write_as_big_endian(&values).unwrap();
    assert_eq!(values, copy);
}
