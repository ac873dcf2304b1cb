//! Reading and writing values in a chosen byte order.
//!
//! [`WriteEndian`] and [`ReadEndian`] are the sink and source capabilities:
//! a sink takes a value's wire bytes, a source fills a value from them.  A
//! `Vec<u8>` is the in-memory sink, and [`ByteReader`] the in-memory
//! source.  A scalar's wire form is its fixed number of bytes in the
//! requested order; a sequence's wire form is the concatenation of its
//! elements' wire forms in index order, with no framing or padding.
//!
//! The one error class is a stream failure: the source ended before it
//! could yield all requested bytes.  A failed read returns the error at
//! once; no partially filled value is treated as valid.

pub mod bytes;

use vstd::prelude::*;

verus! {

use crate::endian::Endian;

/// The one error class: the underlying byte source could not fulfil a
/// full read.  Nothing is retried and nothing is swallowed; the failure is
/// surfaced to the immediate caller.
#[derive(Clone, Copy, Debug, PartialEq, Eq, Structural)]
pub enum StreamError {
    /// The source ended before it yielded the requested number of bytes.
    UnexpectedEnd,
}

/// A sink that takes a value of type `T` in a caller-chosen byte order.
///
/// The trait itself promises nothing of an arbitrary sink; each
/// implementation states what its sink does.  The `Vec<u8>` implementation
/// below appends exactly the value's wire bytes and never fails.
pub trait WriteEndian<T: Endian> {
    /// Write the value's little-endian wire bytes to the sink.
    fn write_as_little_endian(&mut self, value: &T) -> (r: Result<(), StreamError>);

    /// Write the value's big-endian wire bytes to the sink.
    fn write_as_big_endian(&mut self, value: &T) -> (r: Result<(), StreamError>);
}

/// A source that fills a value of type `T` from bytes in a caller-chosen
/// byte order.
///
/// The trait itself promises nothing of an arbitrary source; the
/// [`ByteReader`] implementation states exactly what is read and when the
/// read fails.
pub trait ReadEndian<T: Endian> {
    /// Fill `value` from its width in little-endian bytes.
    fn read_from_little_endian_into(&mut self, value: &mut T) -> (r: Result<(), StreamError>)
        requires
            old(value).le_repr().len() <= usize::MAX,
    ;

    /// Fill `value` from its width in big-endian bytes.
    fn read_from_big_endian_into(&mut self, value: &mut T) -> (r: Result<(), StreamError>)
        requires
            old(value).le_repr().len() <= usize::MAX,
    ;

    /// Read a fresh value from little-endian bytes, starting from
    /// `T::default_value()`.
    fn read_from_little_endian(&mut self) -> (r: Result<T, StreamError>)
        requires
            T::default_repr().len() <= usize::MAX,
    {
        let mut value = T::default_value();
        match self.read_from_little_endian_into(&mut value) {
            Ok(()) => Ok(value),
            Err(e) => Err(e),
        }
    }

    /// Read a fresh value from big-endian bytes, starting from
    /// `T::default_value()`.
    fn read_from_big_endian(&mut self) -> (r: Result<T, StreamError>)
        requires
            T::default_repr().len() <= usize::MAX,
    {
        let mut value = T::default_value();
        match self.read_from_big_endian_into(&mut value) {
            Ok(()) => Ok(value),
            Err(e) => Err(e),
        }
    }
}


/// What a successful read of a fresh value from little-endian bytes
/// guarantees: the value's bytes are the first `width` bytes of the
/// source, which are consumed.
pub open spec fn fresh_read_le_ok<T: Endian>(
    r: Result<T, StreamError>,
    before: Seq<u8>,
    after: Seq<u8>,
    width: int,
) -> bool {
    r matches Ok(value) && (value.le_repr() == before.take(width) && after == before.skip(width))
}

/// What a successful read of a fresh value from big-endian bytes
/// guarantees: the value's big-endian bytes are the first `width` bytes of
/// the source, which are consumed.
pub open spec fn fresh_read_be_ok<T: Endian>(
    r: Result<T, StreamError>,
    before: Seq<u8>,
    after: Seq<u8>,
    width: int,
) -> bool {
    r matches Ok(value) && (value.be_repr() == before.take(width) && after == before.skip(width))
}

impl<T: Endian> WriteEndian<T> for Vec<u8> {
    /// Appends exactly the value's little-endian wire bytes; writing a
    /// little-endian value is a plain copy of the in-memory form, so the
    /// value itself is never touched.  An in-memory sink cannot fail.
    fn write_as_little_endian(&mut self, value: &T) -> (r: Result<(), StreamError>)
        ensures
            r is Ok,
            final(self)@ == old(self)@ + value.le_repr(),
    {
        value.append_le_bytes(self);
        Ok(())
    }

    /// Appends exactly the value's big-endian wire bytes.  An in-memory
    /// sink cannot fail.
    fn write_as_big_endian(&mut self, value: &T) -> (r: Result<(), StreamError>)
        ensures
            r is Ok,
            final(self)@ == old(self)@ + value.be_repr(),
    {
        value.append_be_bytes(self);
        Ok(())
    }
}

/// An in-memory byte source: a buffer and a cursor that moves forward as
/// bytes are handed out.
pub struct ByteReader {
    data: Vec<u8>,
    pos: usize,
}

impl ByteReader {
    /// The bytes not yet handed out.
    pub closed spec fn remaining_bytes(&self) -> Seq<u8> {
        if self.pos <= self.data@.len() {
            self.data@.skip(self.pos as int)
        } else {
            Seq::empty()
        }
    }

    /// A reader over all of `data`.
    pub fn new(data: Vec<u8>) -> (r: Self)
        ensures
            r.remaining_bytes() == data@,
    {
        let reader = ByteReader { data, pos: 0 };
        proof {
            assert(reader.remaining_bytes() =~= reader.data@);
        }
        reader
    }

    /// How many bytes are still unread.
    pub fn remaining_len(&self) -> (n: usize)
        ensures
            n == self.remaining_bytes().len(),
    {
        if self.pos <= self.data.len() {
            self.data.len() - self.pos
        } else {
            0
        }
    }

    /// Take exactly `count` bytes off the front; when fewer remain, fail
    /// and consume nothing.
    fn take_bytes(&mut self, count: usize) -> (r: Result<Vec<u8>, StreamError>)
        ensures
            old(self).remaining_bytes().len() >= count ==> (r matches Ok(taken) && (taken@ == old(self).remaining_bytes().take(count as int) && final(self).remaining_bytes() == old(self).remaining_bytes().skip(count as int))),
            old(self).remaining_bytes().len() < count ==> (r matches Err(e) && (e
                == StreamError::UnexpectedEnd && *final(self) == *old(self))),
    {
        let available = if self.pos <= self.data.len() {
            self.data.len() - self.pos
        } else {
            0
        };
        if available < count {
            return Err(StreamError::UnexpectedEnd);
        }
        let mut taken: Vec<u8> = Vec::new();
        let mut i: usize = 0;
        while i < count
            invariant
                i <= count,
                count == 0 || self.pos + count <= self.data@.len(),
                self.data@ == old(self).data@,
                self.pos == old(self).pos,
                taken@.len() == i,
                forall|j: int| 0 <= j < i ==> taken@[j] == self.data@[self.pos + j],
            decreases count - i,
        {
            proof {
                vstd::std_specs::vec::axiom_spec_len(&self.data);
                assert(self.pos + count <= self.data@.len());
            }
            taken.push(self.data[self.pos + i]);
            i += 1;
        }
        self.pos = self.pos + count;
        proof {
            assert(taken@ =~= old(self).remaining_bytes().take(count as int));
            assert(self.remaining_bytes() =~= old(self).remaining_bytes().skip(count as int));
        }
        Ok(taken)
    }
}

impl<T: Endian> ReadEndian<T> for ByteReader {
    /// Reads exactly the value's width in bytes and fills the value from
    /// them as little-endian; when fewer bytes remain, fails at once and
    /// consumes nothing.
    fn read_from_little_endian_into(&mut self, value: &mut T) -> (r: Result<(), StreamError>)
        ensures
            old(self).remaining_bytes().len() >= old(value).le_repr().len() ==> (r is Ok && (final(value).le_repr() == old(self).remaining_bytes().take(old(value).le_repr().len() as int)
                && final(self).remaining_bytes() == old(self).remaining_bytes().skip(
                old(value).le_repr().len() as int,
            ))),
            old(self).remaining_bytes().len() < old(value).le_repr().len() ==> (r matches Err(e) && (
            e == StreamError::UnexpectedEnd && *final(self) == *old(self) && *final(value) == *old(value))),
    {
        let width = value.byte_width();
        match self.take_bytes(width) {
            Ok(taken) => {
                value.assign_le_bytes(taken.as_slice());
                Ok(())
            },
            Err(e) => Err(e),
        }
    }

    /// Reads exactly the value's width in bytes and fills the value from
    /// them as big-endian: the bytes land in place and the value is then
    /// converted from big-endian to the current form.  When fewer bytes
    /// remain, fails at once and consumes nothing.
    fn read_from_big_endian_into(&mut self, value: &mut T) -> (r: Result<(), StreamError>)
        ensures
            old(self).remaining_bytes().len() >= old(value).le_repr().len() ==> (r is Ok && (final(value).be_repr() == old(self).remaining_bytes().take(old(value).le_repr().len() as int)
                && final(self).remaining_bytes() == old(self).remaining_bytes().skip(
                old(value).le_repr().len() as int,
            ))),
            old(self).remaining_bytes().len() < old(value).le_repr().len() ==> (r matches Err(e) && (
            e == StreamError::UnexpectedEnd && *final(self) == *old(self) && *final(value) == *old(value))),
    {
        let width = value.byte_width();
        match self.take_bytes(width) {
            Ok(taken) => {
                value.assign_le_bytes(taken.as_slice());
                value.convert_big_endian_to_current();
                Ok(())
            },
            Err(e) => Err(e),
        }
    }

    /// Reads a fresh scalar-width value from little-endian bytes; fails
    /// without consuming anything when fewer bytes remain.
    fn read_from_little_endian(&mut self) -> (r: Result<T, StreamError>)
        ensures
            old(self).remaining_bytes().len() >= T::default_repr().len() ==> fresh_read_le_ok::<
                T,
            >(
                r,
                old(self).remaining_bytes(),
                final(self).remaining_bytes(),
                T::default_repr().len() as int,
            ),
            old(self).remaining_bytes().len() < T::default_repr().len() ==> (r matches Err(e) && (e
                == StreamError::UnexpectedEnd && *final(self) == *old(self))),
    {
        let mut value = T::default_value();
        match self.read_from_little_endian_into(&mut value) {
            Ok(()) => Ok(value),
            Err(e) => Err(e),
        }
    }

    /// Reads a fresh scalar-width value from big-endian bytes; fails
    /// without consuming anything when fewer bytes remain.
    fn read_from_big_endian(&mut self) -> (r: Result<T, StreamError>)
        ensures
            old(self).remaining_bytes().len() >= T::default_repr().len() ==> fresh_read_be_ok::<
                T,
            >(
                r,
                old(self).remaining_bytes(),
                final(self).remaining_bytes(),
                T::default_repr().len() as int,
            ),
            old(self).remaining_bytes().len() < T::default_repr().len() ==> (r matches Err(e) && (e
                == StreamError::UnexpectedEnd && *final(self) == *old(self))),
    {
        let mut value = T::default_value();
        match self.read_from_big_endian_into(&mut value) {
            Ok(()) => Ok(value),
            Err(e) => Err(e),
        }
    }
}

} // verus!
