//! Byte-order conversion and binary serialization for fixed-width integers
//! and for contiguous sequences of them.
//!
//! A value is serialized as exactly its fixed number of bytes, either
//! least-significant byte first (little-endian) or most-significant byte
//! first (big-endian); a sequence is serialized as the concatenation of its
//! elements' bytes in index order, with no framing or padding.  The
//! [`endian::Endian`] trait supplies the in-place byte swap and the derived
//! directional conversions, [`io`] moves values to and from byte streams,
//! [`bulk`] swaps packed four-byte values thirty-two bytes at a time, and
//! [`laws`] states the crate-wide guarantees once, over the contracts of
//! the rest.

pub mod bulk;
pub mod endian;
pub mod io;
pub mod laws;
pub mod prelude;
