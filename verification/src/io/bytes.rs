//! Viewing values and sequences as raw bytes, and moving those bytes to
//! and from a stream without any byte-order conversion.
//!
//! A safe library cannot alias a value's memory, so the view functions
//! return a fresh byte vector holding the value's bytes rather than a
//! borrowed window onto them.  Under this crate's little-endian memory
//! model, a value's raw bytes are its little-endian wire form.

use vstd::prelude::*;

verus! {

use crate::endian::{Endian, seq_le_repr};
use crate::io::{ByteReader, ReadEndian, StreamError};

/// The raw bytes of a single value, least-significant byte first.
pub fn value_as_bytes<T: Endian>(value: &T) -> (r: Vec<u8>)
    ensures
        r@ == value.le_repr(),
{
    let mut out: Vec<u8> = Vec::new();
    value.append_le_bytes(&mut out);
    proof {
        assert(out@ =~= value.le_repr());
    }
    out
}

/// The raw bytes of a sequence of values: each element's bytes in index
/// order, with no separators or padding.
pub fn slice_as_bytes<T: Endian + Copy>(values: &Vec<T>) -> (r: Vec<u8>)
    ensures
        r@ == seq_le_repr(values@),
{
    let mut out: Vec<u8> = Vec::new();
    values.append_le_bytes(&mut out);
    proof {
        assert(out@ =~= seq_le_repr(values@));
    }
    out
}

/// Write the value's raw bytes to the sink, unconverted.
pub fn write_value<T: Endian>(sink: &mut Vec<u8>, value: &T)
    ensures
        final(sink)@ == old(sink)@ + value.le_repr(),
{
    value.append_le_bytes(sink);
}

/// Write the sequence's raw bytes to the sink, unconverted.
pub fn write_slice<T: Endian + Copy>(sink: &mut Vec<u8>, values: &Vec<T>)
    ensures
        final(sink)@ == old(sink)@ + seq_le_repr(values@),
{
    values.append_le_bytes(sink);
}

/// Read exactly the value's width in raw bytes into the value; when fewer
/// bytes remain, fail and consume nothing.
pub fn read_value<T: Endian>(source: &mut ByteReader, value: &mut T) -> (r: Result<
    (),
    StreamError,
>)
    requires
        old(value).le_repr().len() <= usize::MAX,
    ensures
        old(source).remaining_bytes().len() >= old(value).le_repr().len() ==> (r is Ok && (final(value).le_repr() == old(source).remaining_bytes().take(old(value).le_repr().len() as int)
            && final(source).remaining_bytes() == old(source).remaining_bytes().skip(
            old(value).le_repr().len() as int,
        ))),
        old(source).remaining_bytes().len() < old(value).le_repr().len() ==> (r matches Err(e) && (e
            == StreamError::UnexpectedEnd && *final(source) == *old(source) && *final(value)
            == *old(value))),
{
    source.read_from_little_endian_into(value)
}

/// Read exactly the sequence's width in raw bytes into the sequence; when
/// fewer bytes remain, fail and consume nothing.
pub fn read_slice<T: Endian + Copy>(source: &mut ByteReader, values: &mut Vec<T>) -> (r: Result<
    (),
    StreamError,
>)
    requires
        seq_le_repr(old(values)@).len() <= usize::MAX,
    ensures
        old(source).remaining_bytes().len() >= seq_le_repr(old(values)@).len() ==> (r is Ok && (
        seq_le_repr(final(values)@) == old(source).remaining_bytes().take(
            seq_le_repr(old(values)@).len() as int,
        ) && final(source).remaining_bytes() == old(source).remaining_bytes().skip(
            seq_le_repr(old(values)@).len() as int,
        ))),
        old(source).remaining_bytes().len() < seq_le_repr(old(values)@).len() ==> (r matches Err(e)
            && (e == StreamError::UnexpectedEnd && *final(source) == *old(source) && *final(values)
            == *old(values))),
{
    source.read_from_little_endian_into(values)
}

} // verus!
