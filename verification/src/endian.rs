//! The [`Endian`] capability: an in-place byte swap together with the
//! directional conversions derived from it.
//!
//! Every fixed-width integer type implements [`Endian`], and so does a
//! `Vec` of any such type, whose swap works element by element: element
//! order is preserved, only the bytes inside each element are reordered.
//!
//! The byte-level model is host-independent: a value's little-endian and
//! big-endian wire forms are defined arithmetically, never by reading the
//! machine's memory.  The in-memory model the contracts reason about is the
//! little-endian one, so converting the current representation to
//! little-endian is the identity and converting it to big-endian is one
//! swap.

use vstd::prelude::*;

verus! {

use vstd::bytes::{
    lemma_auto_spec_u16_to_from_le_bytes, lemma_auto_spec_u32_to_from_le_bytes,
    lemma_auto_spec_u64_to_from_le_bytes, lemma_auto_spec_u128_to_from_le_bytes,
    spec_u16_to_le_bytes, spec_u32_to_le_bytes, spec_u64_to_le_bytes, spec_u128_to_le_bytes,
    u16_from_le_bytes, u32_from_le_bytes, u64_from_le_bytes, u128_from_le_bytes,
    u16_to_le_bytes, u32_to_le_bytes, u64_to_le_bytes, u128_to_le_bytes,
};

/// Reversing a sequence twice gives the sequence back.
pub proof fn lemma_reverse_reverse<A>(s: Seq<A>)
    ensures
        s.reverse().reverse() == s,
{
    assert(s.reverse().reverse() =~= s);
}

/// A new vector holding the bytes of `bytes` in reverse order.
fn reversed_bytes(bytes: &Vec<u8>) -> (r: Vec<u8>)
    ensures
        r@ == bytes@.reverse(),
{
    let n = bytes.len();
    let mut r: Vec<u8> = Vec::new();
    let mut i: usize = 0;
    while i < n
        invariant
            i <= n,
            n == bytes@.len(),
            r@.len() == i,
            forall|j: int| 0 <= j < i ==> r@[j] == bytes@[n - 1 - j],
        decreases n - i,
    {
        r.push(bytes[n - 1 - i]);
        i += 1;
    }
    proof {
        assert(r@ =~= bytes@.reverse());
    }
    r
}

/// A value with a fixed byte-level representation whose byte order can be
/// reversed in place.
///
/// `swap_bytes` is the one primitive; the four directional conversions and
/// the four value-returning adapters follow from it.  The contracts speak of
/// the two wire forms of a value: `le_repr`, its little-endian bytes, and
/// `be_repr`, the bytes that one swap turns `le_repr` into.  For a scalar,
/// `be_repr` is `le_repr` reversed; for a sequence the swap is element-wise,
/// so `be_repr` concatenates the reversed bytes of each element in index
/// order.
pub trait Endian: Sized {
    /// The little-endian wire bytes of the value.
    spec fn le_repr(&self) -> Seq<u8>;

    /// The big-endian wire bytes of the value: what one in-place byte swap
    /// turns the little-endian form into.
    spec fn be_repr(&self) -> Seq<u8>;

    /// The little-endian wire bytes of the value `default_value` returns.
    spec fn default_repr() -> Seq<u8>;

    /// The two wire forms always have the same length.
    proof fn lemma_repr_len(&self)
        ensures
            self.le_repr().len() == self.be_repr().len(),
    ;

    /// Reverse the byte order of the value in place: the little-endian and
    /// big-endian wire forms trade places, which makes a second swap restore
    /// the original value.
    fn swap_bytes(&mut self)
        ensures
            final(self).le_repr() == old(self).be_repr(),
            final(self).be_repr() == old(self).le_repr(),
    ;

    /// The length in bytes of the value's wire form.
    fn byte_width(&self) -> (n: usize)
        requires
            self.le_repr().len() <= usize::MAX,
        ensures
            n == self.le_repr().len(),
    ;

    /// Append the value's little-endian wire bytes to `out`.
    fn append_le_bytes(&self, out: &mut Vec<u8>)
        ensures
            final(out)@ == old(out)@ + self.le_repr(),
    ;

    /// Append the value's big-endian wire bytes to `out`.
    fn append_be_bytes(&self, out: &mut Vec<u8>)
        ensures
            final(out)@ == old(out)@ + self.be_repr(),
    ;

    /// Overwrite the value with the one whose little-endian wire bytes are
    /// `bytes`, which must be exactly as long as the value's wire form.
    fn assign_le_bytes(&mut self, bytes: &[u8])
        requires
            bytes@.len() == old(self).le_repr().len(),
        ensures
            final(self).le_repr() == bytes@,
            final(self).be_repr().len() == bytes@.len(),
    ;

    /// A fresh value to read into: zero for a scalar, empty for a sequence.
    fn default_value() -> (r: Self)
        ensures
            r.le_repr() == Self::default_repr(),
    ;

    /// Reorder from the current in-memory form to little-endian: the
    /// identity under this crate's little-endian memory model.
    fn convert_current_to_little_endian(&mut self)
        ensures
            *final(self) == *old(self),
    {
    }

    /// Reorder from the current in-memory form to big-endian: one swap
    /// under this crate's little-endian memory model.
    fn convert_current_to_big_endian(&mut self)
        ensures
            final(self).le_repr() == old(self).be_repr(),
            final(self).be_repr() == old(self).le_repr(),
    {
        self.swap_bytes();
    }

    /// Reorder from little-endian to the current in-memory form: the
    /// identity under this crate's little-endian memory model.
    fn convert_little_endian_to_current(&mut self)
        ensures
            *final(self) == *old(self),
    {
    }

    /// Reorder from big-endian to the current in-memory form: one swap
    /// under this crate's little-endian memory model.
    fn convert_big_endian_to_current(&mut self)
        ensures
            final(self).le_repr() == old(self).be_repr(),
            final(self).be_repr() == old(self).le_repr(),
    {
        self.swap_bytes();
    }

    /// Value-returning form of `convert_current_to_little_endian`.
    fn from_current_into_little_endian(self) -> (r: Self)
        ensures
            r == self,
    {
        let mut value = self;
        value.convert_current_to_little_endian();
        value
    }

    /// Value-returning form of `convert_current_to_big_endian`.
    fn from_current_into_big_endian(self) -> (r: Self)
        ensures
            r.le_repr() == self.be_repr(),
            r.be_repr() == self.le_repr(),
    {
        let mut value = self;
        value.convert_current_to_big_endian();
        value
    }

    /// Value-returning form of `convert_little_endian_to_current`.
    fn from_little_endian_into_current(self) -> (r: Self)
        ensures
            r == self,
    {
        let mut value = self;
        value.convert_little_endian_to_current();
        value
    }

    /// Value-returning form of `convert_big_endian_to_current`.
    fn from_big_endian_into_current(self) -> (r: Self)
        ensures
            r.le_repr() == self.be_repr(),
            r.be_repr() == self.le_repr(),
    {
        let mut value = self;
        value.convert_big_endian_to_current();
        value
    }
}

/// Casting an unsigned value to the signed type of the same width and back
/// is the identity.
proof fn lemma_u16_i16_cast(x: u16)
    ensures
        (x as i16) as u16 == x,
{
    assert((x as i16) as u16 == x) by (bit_vector);
}

/// Casting an unsigned value to the signed type of the same width and back
/// is the identity.
proof fn lemma_u32_i32_cast(x: u32)
    ensures
        (x as i32) as u32 == x,
{
    assert((x as i32) as u32 == x) by (bit_vector);
}

/// Casting an unsigned value to the signed type of the same width and back
/// is the identity.
proof fn lemma_u64_i64_cast(x: u64)
    ensures
        (x as i64) as u64 == x,
{
    assert((x as i64) as u64 == x) by (bit_vector);
}

/// Casting an unsigned value to the signed type of the same width and back
/// is the identity.
proof fn lemma_u128_i128_cast(x: u128)
    ensures
        (x as i128) as u128 == x,
{
    assert((x as i128) as u128 == x) by (bit_vector);
}

impl Endian for u8 {
    open spec fn le_repr(&self) -> Seq<u8> {
        seq![*self]
    }

    open spec fn be_repr(&self) -> Seq<u8> {
        seq![*self]
    }

    open spec fn default_repr() -> Seq<u8> {
        seq![0u8]
    }

    proof fn lemma_repr_len(&self) {
    }

    fn swap_bytes(&mut self) {
    }

    fn byte_width(&self) -> (n: usize) {
        1
    }

    fn append_le_bytes(&self, out: &mut Vec<u8>) {
        out.push(*self);
        proof {
            assert(out@ =~= old(out)@ + self.le_repr());
        }
    }

    fn append_be_bytes(&self, out: &mut Vec<u8>) {
        out.push(*self);
        proof {
            assert(out@ =~= old(out)@ + self.be_repr());
        }
    }

    fn assign_le_bytes(&mut self, bytes: &[u8]) {
        *self = bytes[0];
        proof {
            assert(self.le_repr() =~= bytes@);
        }
    }

    fn default_value() -> (r: Self) {
        0
    }
}

impl Endian for u16 {
    open spec fn le_repr(&self) -> Seq<u8> {
        spec_u16_to_le_bytes(*self)
    }

    open spec fn be_repr(&self) -> Seq<u8> {
        spec_u16_to_le_bytes(*self).reverse()
    }

    open spec fn default_repr() -> Seq<u8> {
        spec_u16_to_le_bytes(0u16)
    }

    proof fn lemma_repr_len(&self) {
        lemma_auto_spec_u16_to_from_le_bytes();
    }

    fn swap_bytes(&mut self) {
        proof {
            lemma_auto_spec_u16_to_from_le_bytes();
        }
        let bytes = u16_to_le_bytes(*self);
        let rev = reversed_bytes(&bytes);
        let result = u16_from_le_bytes(rev.as_slice());
        proof {
            lemma_reverse_reverse::<u8>(bytes@);
        }
        *self = result;
    }

    fn byte_width(&self) -> (n: usize) {
        proof {
            lemma_auto_spec_u16_to_from_le_bytes();
        }
        2
    }

    fn append_le_bytes(&self, out: &mut Vec<u8>) {
        let mut bytes = u16_to_le_bytes(*self);
        out.append(&mut bytes);
    }

    fn append_be_bytes(&self, out: &mut Vec<u8>) {
        let bytes = u16_to_le_bytes(*self);
        let mut rev = reversed_bytes(&bytes);
        out.append(&mut rev);
    }

    fn assign_le_bytes(&mut self, bytes: &[u8]) {
        proof {
            lemma_auto_spec_u16_to_from_le_bytes();
        }
        *self = u16_from_le_bytes(bytes);
    }

    fn default_value() -> (r: Self) {
        0
    }
}


impl Endian for i8 {
    open spec fn le_repr(&self) -> Seq<u8> {
        seq![*self as u8]
    }

    open spec fn be_repr(&self) -> Seq<u8> {
        seq![*self as u8]
    }

    open spec fn default_repr() -> Seq<u8> {
        seq![0u8]
    }

    proof fn lemma_repr_len(&self) {
    }

    fn swap_bytes(&mut self) {
    }

    fn byte_width(&self) -> (n: usize) {
        1
    }

    fn append_le_bytes(&self, out: &mut Vec<u8>) {
        out.push(*self as u8);
        proof {
            assert(out@ =~= old(out)@ + self.le_repr());
        }
    }

    fn append_be_bytes(&self, out: &mut Vec<u8>) {
        out.push(*self as u8);
        proof {
            assert(out@ =~= old(out)@ + self.be_repr());
        }
    }

    fn assign_le_bytes(&mut self, bytes: &[u8]) {
        *self = bytes[0] as i8;
        proof {
            let b0: u8 = bytes@[0];
            assert((b0 as i8) as u8 == b0) by (bit_vector);
            assert(self.le_repr() =~= bytes@);
        }
    }

    fn default_value() -> (r: Self) {
        0
    }
}

impl Endian for u32 {
    open spec fn le_repr(&self) -> Seq<u8> {
        spec_u32_to_le_bytes(*self)
    }

    open spec fn be_repr(&self) -> Seq<u8> {
        spec_u32_to_le_bytes(*self).reverse()
    }

    open spec fn default_repr() -> Seq<u8> {
        spec_u32_to_le_bytes(0u32)
    }

    proof fn lemma_repr_len(&self) {
        lemma_auto_spec_u32_to_from_le_bytes();
    }

    fn swap_bytes(&mut self) {
        proof {
            lemma_auto_spec_u32_to_from_le_bytes();
        }
        let bytes = u32_to_le_bytes(*self);
        let rev = reversed_bytes(&bytes);
        let result = u32_from_le_bytes(rev.as_slice());
        proof {
            lemma_reverse_reverse::<u8>(bytes@);
        }
        *self = result;
    }

    fn byte_width(&self) -> (n: usize) {
        proof {
            lemma_auto_spec_u32_to_from_le_bytes();
        }
        4
    }

    fn append_le_bytes(&self, out: &mut Vec<u8>) {
        let mut bytes = u32_to_le_bytes(*self);
        out.append(&mut bytes);
    }

    fn append_be_bytes(&self, out: &mut Vec<u8>) {
        let bytes = u32_to_le_bytes(*self);
        let mut rev = reversed_bytes(&bytes);
        out.append(&mut rev);
    }

    fn assign_le_bytes(&mut self, bytes: &[u8]) {
        proof {
            lemma_auto_spec_u32_to_from_le_bytes();
        }
        *self = u32_from_le_bytes(bytes);
    }

    fn default_value() -> (r: Self) {
        0
    }
}

impl Endian for u64 {
    open spec fn le_repr(&self) -> Seq<u8> {
        spec_u64_to_le_bytes(*self)
    }

    open spec fn be_repr(&self) -> Seq<u8> {
        spec_u64_to_le_bytes(*self).reverse()
    }

    open spec fn default_repr() -> Seq<u8> {
        spec_u64_to_le_bytes(0u64)
    }

    proof fn lemma_repr_len(&self) {
        lemma_auto_spec_u64_to_from_le_bytes();
    }

    fn swap_bytes(&mut self) {
        proof {
            lemma_auto_spec_u64_to_from_le_bytes();
        }
        let bytes = u64_to_le_bytes(*self);
        let rev = reversed_bytes(&bytes);
        let result = u64_from_le_bytes(rev.as_slice());
        proof {
            lemma_reverse_reverse::<u8>(bytes@);
        }
        *self = result;
    }

    fn byte_width(&self) -> (n: usize) {
        proof {
            lemma_auto_spec_u64_to_from_le_bytes();
        }
        8
    }

    fn append_le_bytes(&self, out: &mut Vec<u8>) {
        let mut bytes = u64_to_le_bytes(*self);
        out.append(&mut bytes);
    }

    fn append_be_bytes(&self, out: &mut Vec<u8>) {
        let bytes = u64_to_le_bytes(*self);
        let mut rev = reversed_bytes(&bytes);
        out.append(&mut rev);
    }

    fn assign_le_bytes(&mut self, bytes: &[u8]) {
        proof {
            lemma_auto_spec_u64_to_from_le_bytes();
        }
        *self = u64_from_le_bytes(bytes);
    }

    fn default_value() -> (r: Self) {
        0
    }
}

impl Endian for u128 {
    open spec fn le_repr(&self) -> Seq<u8> {
        spec_u128_to_le_bytes(*self)
    }

    open spec fn be_repr(&self) -> Seq<u8> {
        spec_u128_to_le_bytes(*self).reverse()
    }

    open spec fn default_repr() -> Seq<u8> {
        spec_u128_to_le_bytes(0u128)
    }

    proof fn lemma_repr_len(&self) {
        lemma_auto_spec_u128_to_from_le_bytes();
    }

    fn swap_bytes(&mut self) {
        proof {
            lemma_auto_spec_u128_to_from_le_bytes();
        }
        let bytes = u128_to_le_bytes(*self);
        let rev = reversed_bytes(&bytes);
        let result = u128_from_le_bytes(rev.as_slice());
        proof {
            lemma_reverse_reverse::<u8>(bytes@);
        }
        *self = result;
    }

    fn byte_width(&self) -> (n: usize) {
        proof {
            lemma_auto_spec_u128_to_from_le_bytes();
        }
        16
    }

    fn append_le_bytes(&self, out: &mut Vec<u8>) {
        let mut bytes = u128_to_le_bytes(*self);
        out.append(&mut bytes);
    }

    fn append_be_bytes(&self, out: &mut Vec<u8>) {
        let bytes = u128_to_le_bytes(*self);
        let mut rev = reversed_bytes(&bytes);
        out.append(&mut rev);
    }

    fn assign_le_bytes(&mut self, bytes: &[u8]) {
        proof {
            lemma_auto_spec_u128_to_from_le_bytes();
        }
        *self = u128_from_le_bytes(bytes);
    }

    fn default_value() -> (r: Self) {
        0
    }
}

impl Endian for i16 {
    open spec fn le_repr(&self) -> Seq<u8> {
        spec_u16_to_le_bytes(*self as u16)
    }

    open spec fn be_repr(&self) -> Seq<u8> {
        spec_u16_to_le_bytes(*self as u16).reverse()
    }

    open spec fn default_repr() -> Seq<u8> {
        spec_u16_to_le_bytes(0u16)
    }

    proof fn lemma_repr_len(&self) {
        lemma_auto_spec_u16_to_from_le_bytes();
    }

    fn swap_bytes(&mut self) {
        let mut unsigned_value: u16 = *self as u16;
        Endian::swap_bytes(&mut unsigned_value);
        proof {
            lemma_u16_i16_cast(unsigned_value);
        }
        *self = unsigned_value as i16;
    }

    fn byte_width(&self) -> (n: usize) {
        proof {
            lemma_auto_spec_u16_to_from_le_bytes();
        }
        2
    }

    fn append_le_bytes(&self, out: &mut Vec<u8>) {
        let mut bytes = u16_to_le_bytes(*self as u16);
        out.append(&mut bytes);
    }

    fn append_be_bytes(&self, out: &mut Vec<u8>) {
        let bytes = u16_to_le_bytes(*self as u16);
        let mut rev = reversed_bytes(&bytes);
        out.append(&mut rev);
    }

    fn assign_le_bytes(&mut self, bytes: &[u8]) {
        proof {
            lemma_auto_spec_u16_to_from_le_bytes();
        }
        let unsigned_value = u16_from_le_bytes(bytes);
        proof {
            lemma_u16_i16_cast(unsigned_value);
        }
        *self = unsigned_value as i16;
    }

    fn default_value() -> (r: Self) {
        0
    }
}

impl Endian for i32 {
    open spec fn le_repr(&self) -> Seq<u8> {
        spec_u32_to_le_bytes(*self as u32)
    }

    open spec fn be_repr(&self) -> Seq<u8> {
        spec_u32_to_le_bytes(*self as u32).reverse()
    }

    open spec fn default_repr() -> Seq<u8> {
        spec_u32_to_le_bytes(0u32)
    }

    proof fn lemma_repr_len(&self) {
        lemma_auto_spec_u32_to_from_le_bytes();
    }

    fn swap_bytes(&mut self) {
        let mut unsigned_value: u32 = *self as u32;
        Endian::swap_bytes(&mut unsigned_value);
        proof {
            lemma_u32_i32_cast(unsigned_value);
        }
        *self = unsigned_value as i32;
    }

    fn byte_width(&self) -> (n: usize) {
        proof {
            lemma_auto_spec_u32_to_from_le_bytes();
        }
        4
    }

    fn append_le_bytes(&self, out: &mut Vec<u8>) {
        let mut bytes = u32_to_le_bytes(*self as u32);
        out.append(&mut bytes);
    }

    fn append_be_bytes(&self, out: &mut Vec<u8>) {
        let bytes = u32_to_le_bytes(*self as u32);
        let mut rev = reversed_bytes(&bytes);
        out.append(&mut rev);
    }

    fn assign_le_bytes(&mut self, bytes: &[u8]) {
        proof {
            lemma_auto_spec_u32_to_from_le_bytes();
        }
        let unsigned_value = u32_from_le_bytes(bytes);
        proof {
            lemma_u32_i32_cast(unsigned_value);
        }
        *self = unsigned_value as i32;
    }

    fn default_value() -> (r: Self) {
        0
    }
}

impl Endian for i64 {
    open spec fn le_repr(&self) -> Seq<u8> {
        spec_u64_to_le_bytes(*self as u64)
    }

    open spec fn be_repr(&self) -> Seq<u8> {
        spec_u64_to_le_bytes(*self as u64).reverse()
    }

    open spec fn default_repr() -> Seq<u8> {
        spec_u64_to_le_bytes(0u64)
    }

    proof fn lemma_repr_len(&self) {
        lemma_auto_spec_u64_to_from_le_bytes();
    }

    fn swap_bytes(&mut self) {
        let mut unsigned_value: u64 = *self as u64;
        Endian::swap_bytes(&mut unsigned_value);
        proof {
            lemma_u64_i64_cast(unsigned_value);
        }
        *self = unsigned_value as i64;
    }

    fn byte_width(&self) -> (n: usize) {
        proof {
            lemma_auto_spec_u64_to_from_le_bytes();
        }
        8
    }

    fn append_le_bytes(&self, out: &mut Vec<u8>) {
        let mut bytes = u64_to_le_bytes(*self as u64);
        out.append(&mut bytes);
    }

    fn append_be_bytes(&self, out: &mut Vec<u8>) {
        let bytes = u64_to_le_bytes(*self as u64);
        let mut rev = reversed_bytes(&bytes);
        out.append(&mut rev);
    }

    fn assign_le_bytes(&mut self, bytes: &[u8]) {
        proof {
            lemma_auto_spec_u64_to_from_le_bytes();
        }
        let unsigned_value = u64_from_le_bytes(bytes);
        proof {
            lemma_u64_i64_cast(unsigned_value);
        }
        *self = unsigned_value as i64;
    }

    fn default_value() -> (r: Self) {
        0
    }
}

impl Endian for i128 {
    open spec fn le_repr(&self) -> Seq<u8> {
        spec_u128_to_le_bytes(*self as u128)
    }

    open spec fn be_repr(&self) -> Seq<u8> {
        spec_u128_to_le_bytes(*self as u128).reverse()
    }

    open spec fn default_repr() -> Seq<u8> {
        spec_u128_to_le_bytes(0u128)
    }

    proof fn lemma_repr_len(&self) {
        lemma_auto_spec_u128_to_from_le_bytes();
    }

    fn swap_bytes(&mut self) {
        let mut unsigned_value: u128 = *self as u128;
        Endian::swap_bytes(&mut unsigned_value);
        proof {
            lemma_u128_i128_cast(unsigned_value);
        }
        *self = unsigned_value as i128;
    }

    fn byte_width(&self) -> (n: usize) {
        proof {
            lemma_auto_spec_u128_to_from_le_bytes();
        }
        16
    }

    fn append_le_bytes(&self, out: &mut Vec<u8>) {
        let mut bytes = u128_to_le_bytes(*self as u128);
        out.append(&mut bytes);
    }

    fn append_be_bytes(&self, out: &mut Vec<u8>) {
        let bytes = u128_to_le_bytes(*self as u128);
        let mut rev = reversed_bytes(&bytes);
        out.append(&mut rev);
    }

    fn assign_le_bytes(&mut self, bytes: &[u8]) {
        proof {
            lemma_auto_spec_u128_to_from_le_bytes();
        }
        let unsigned_value = u128_from_le_bytes(bytes);
        proof {
            lemma_u128_i128_cast(unsigned_value);
        }
        *self = unsigned_value as i128;
    }

    fn default_value() -> (r: Self) {
        0
    }
}


/// The little-endian wire bytes of a sequence of values: each element's
/// little-endian bytes, in index order, with no separators or padding.
pub open spec fn seq_le_repr<T: Endian>(s: Seq<T>) -> Seq<u8>
    decreases s.len(),
{
    if s.len() == 0 {
        Seq::empty()
    } else {
        s[0].le_repr() + seq_le_repr(s.drop_first())
    }
}

/// The big-endian wire bytes of a sequence of values: each element's
/// big-endian bytes, in index order.  The swap is element-wise, so this is
/// not the reverse of the whole little-endian form.
pub open spec fn seq_be_repr<T: Endian>(s: Seq<T>) -> Seq<u8>
    decreases s.len(),
{
    if s.len() == 0 {
        Seq::empty()
    } else {
        s[0].be_repr() + seq_be_repr(s.drop_first())
    }
}

/// The wire bytes of a concatenation are the concatenated wire bytes.
pub proof fn lemma_seq_le_repr_concat<T: Endian>(a: Seq<T>, b: Seq<T>)
    ensures
        seq_le_repr(a + b) == seq_le_repr(a) + seq_le_repr(b),
    decreases a.len(),
{
    if a.len() == 0 {
        assert(a + b =~= b);
        assert(seq_le_repr(a) + seq_le_repr(b) =~= seq_le_repr(b));
    } else {
        assert((a + b).drop_first() =~= a.drop_first() + b);
        lemma_seq_le_repr_concat(a.drop_first(), b);
        assert(seq_le_repr(a + b) =~= seq_le_repr(a) + seq_le_repr(b));
    }
}

/// The wire bytes of a concatenation are the concatenated wire bytes.
pub proof fn lemma_seq_be_repr_concat<T: Endian>(a: Seq<T>, b: Seq<T>)
    ensures
        seq_be_repr(a + b) == seq_be_repr(a) + seq_be_repr(b),
    decreases a.len(),
{
    if a.len() == 0 {
        assert(a + b =~= b);
        assert(seq_be_repr(a) + seq_be_repr(b) =~= seq_be_repr(b));
    } else {
        assert((a + b).drop_first() =~= a.drop_first() + b);
        lemma_seq_be_repr_concat(a.drop_first(), b);
        assert(seq_be_repr(a + b) =~= seq_be_repr(a) + seq_be_repr(b));
    }
}

/// The wire bytes of a one-element sequence are that element's bytes.
pub proof fn lemma_seq_le_repr_singleton<T: Endian>(x: T)
    ensures
        seq_le_repr(seq![x]) == x.le_repr(),
{
    reveal_with_fuel(seq_le_repr, 2);
    assert(seq![x].drop_first() =~= Seq::<T>::empty());
    assert(seq_le_repr(seq![x]) =~= x.le_repr());
}

/// The wire bytes of a one-element sequence are that element's bytes.
pub proof fn lemma_seq_be_repr_singleton<T: Endian>(x: T)
    ensures
        seq_be_repr(seq![x]) == x.be_repr(),
{
    reveal_with_fuel(seq_be_repr, 2);
    assert(seq![x].drop_first() =~= Seq::<T>::empty());
    assert(seq_be_repr(seq![x]) =~= x.be_repr());
}

/// Extending a prefix by one element appends that element's wire bytes.
pub proof fn lemma_seq_le_repr_take_step<T: Endian>(s: Seq<T>, i: int)
    requires
        0 <= i < s.len(),
    ensures
        seq_le_repr(s.take(i + 1)) == seq_le_repr(s.take(i)) + s[i].le_repr(),
{
    assert(s.take(i + 1) =~= s.take(i) + seq![s[i]]);
    lemma_seq_le_repr_concat(s.take(i), seq![s[i]]);
    lemma_seq_le_repr_singleton(s[i]);
}

/// Extending a prefix by one element appends that element's wire bytes.
pub proof fn lemma_seq_be_repr_take_step<T: Endian>(s: Seq<T>, i: int)
    requires
        0 <= i < s.len(),
    ensures
        seq_be_repr(s.take(i + 1)) == seq_be_repr(s.take(i)) + s[i].be_repr(),
{
    assert(s.take(i + 1) =~= s.take(i) + seq![s[i]]);
    lemma_seq_be_repr_concat(s.take(i), seq![s[i]]);
    lemma_seq_be_repr_singleton(s[i]);
}

/// The wire bytes split at any index into the bytes of the prefix and the
/// bytes of the rest.
pub proof fn lemma_seq_le_repr_split<T: Endian>(s: Seq<T>, i: int)
    requires
        0 <= i <= s.len(),
    ensures
        seq_le_repr(s) == seq_le_repr(s.take(i)) + seq_le_repr(s.skip(i)),
{
    assert(s =~= s.take(i) + s.skip(i));
    lemma_seq_le_repr_concat(s.take(i), s.skip(i));
}

/// The two wire forms of a sequence have the same length.
pub proof fn lemma_seq_repr_len<T: Endian>(s: Seq<T>)
    ensures
        seq_le_repr(s).len() == seq_be_repr(s).len(),
    decreases s.len(),
{
    if s.len() != 0 {
        s[0].lemma_repr_len();
        lemma_seq_repr_len(s.drop_first());
    }
}

/// Two sequences whose elements' wire forms are swapped pairwise have
/// swapped wire forms as wholes.
proof fn lemma_seq_repr_pointwise_swapped<T: Endian>(a: Seq<T>, b: Seq<T>)
    requires
        a.len() == b.len(),
        forall|j: int|
            0 <= j < a.len() ==> (#[trigger] a[j]).le_repr() == b[j].be_repr() && a[j].be_repr()
                == b[j].le_repr(),
    ensures
        seq_le_repr(a) == seq_be_repr(b),
        seq_be_repr(a) == seq_le_repr(b),
    decreases a.len(),
{
    if a.len() != 0 {
        assert(a[0].le_repr() == b[0].be_repr());
        lemma_seq_repr_pointwise_swapped(a.drop_first(), b.drop_first());
    }
}

impl<T: Endian + Copy> Endian for Vec<T> {
    open spec fn le_repr(&self) -> Seq<u8> {
        seq_le_repr(self@)
    }

    open spec fn be_repr(&self) -> Seq<u8> {
        seq_be_repr(self@)
    }

    open spec fn default_repr() -> Seq<u8> {
        Seq::empty()
    }

    proof fn lemma_repr_len(&self) {
        lemma_seq_repr_len(self@);
    }

    fn swap_bytes(&mut self) {
        let count = self.len();
        let mut swapped: Vec<T> = Vec::new();
        let mut i: usize = 0;
        while i < count
            invariant
                i <= count,
                count == self@.len(),
                self@ == old(self)@,
                swapped@.len() == i,
                forall|j: int|
                    0 <= j < i ==> (#[trigger] swapped@[j]).le_repr() == old(self)@[j].be_repr()
                        && swapped@[j].be_repr() == old(self)@[j].le_repr(),
            decreases count - i,
        {
            let mut element: T = self[i];
            Endian::swap_bytes(&mut element);
            swapped.push(element);
            i += 1;
        }
        proof {
            lemma_seq_repr_pointwise_swapped(swapped@, old(self)@);
        }
        *self = swapped;
    }

    fn byte_width(&self) -> (n: usize) {
        let count = self.len();
        let mut total: usize = 0;
        let mut i: usize = 0;
        while i < count
            invariant
                i <= count,
                count == self@.len(),
                seq_le_repr(self@).len() <= usize::MAX,
                total == seq_le_repr(self@.take(i as int)).len(),
            decreases count - i,
        {
            proof {
                lemma_seq_le_repr_take_step(self@, i as int);
                lemma_seq_le_repr_split(self@, i + 1);
            }
            let element: T = self[i];
            let width = element.byte_width();
            total = total + width;
            i += 1;
        }
        proof {
            assert(self@.take(count as int) =~= self@);
        }
        total
    }

    fn append_le_bytes(&self, out: &mut Vec<u8>) {
        let count = self.len();
        let mut i: usize = 0;
        proof {
            assert(out@ =~= out@ + seq_le_repr(self@.take(0)));
        }
        while i < count
            invariant
                i <= count,
                count == self@.len(),
                out@ == old(out)@ + seq_le_repr(self@.take(i as int)),
            decreases count - i,
        {
            proof {
                lemma_seq_le_repr_take_step(self@, i as int);
            }
            let element: T = self[i];
            element.append_le_bytes(out);
            proof {
                assert(out@ =~= old(out)@ + seq_le_repr(self@.take(i + 1)));
            }
            i += 1;
        }
        proof {
            assert(self@.take(count as int) =~= self@);
        }
    }

    fn append_be_bytes(&self, out: &mut Vec<u8>) {
        let count = self.len();
        let mut i: usize = 0;
        proof {
            assert(out@ =~= out@ + seq_be_repr(self@.take(0)));
        }
        while i < count
            invariant
                i <= count,
                count == self@.len(),
                out@ == old(out)@ + seq_be_repr(self@.take(i as int)),
            decreases count - i,
        {
            proof {
                lemma_seq_be_repr_take_step(self@, i as int);
            }
            let element: T = self[i];
            element.append_be_bytes(out);
            proof {
                assert(out@ =~= old(out)@ + seq_be_repr(self@.take(i + 1)));
            }
            i += 1;
        }
        proof {
            assert(self@.take(count as int) =~= self@);
        }
    }

    fn assign_le_bytes(&mut self, bytes: &[u8]) {
        let total_len = bytes.len();
        let count = self.len();
        let mut filled: Vec<T> = Vec::new();
        let mut offset: usize = 0;
        let mut i: usize = 0;
        proof {
            assert(seq_le_repr(filled@) =~= bytes@.take(0));
        }
        while i < count
            invariant
                i <= count,
                count == self@.len(),
                self@ == old(self)@,
                total_len == bytes@.len(),
                bytes@.len() == seq_le_repr(self@).len(),
                filled@.len() == i,
                offset == seq_le_repr(self@.take(i as int)).len(),
                offset <= bytes@.len(),
                seq_le_repr(filled@) == bytes@.take(offset as int),
            decreases count - i,
        {
            proof {
                lemma_seq_le_repr_take_step(self@, i as int);
                lemma_seq_le_repr_split(self@, i + 1);
            }
            let mut element: T = self[i];
            let width = element.byte_width();
            let chunk = vstd::slice::slice_subrange(bytes, offset, offset + width);
            element.assign_le_bytes(chunk);
            let ghost prev_filled = filled@;
            filled.push(element);
            proof {
                assert(filled@ =~= prev_filled + seq![element]);
                lemma_seq_le_repr_concat(prev_filled, seq![element]);
                lemma_seq_le_repr_singleton(element);
                assert(seq_le_repr(filled@) =~= bytes@.take(offset + width));
            }
            offset = offset + width;
            i += 1;
        }
        proof {
            assert(self@.take(count as int) =~= self@);
            assert(bytes@.take(offset as int) =~= bytes@);
            lemma_seq_repr_len(filled@);
        }
        *self = filled;
    }

    fn default_value() -> (r: Self) {
        Vec::new()
    }
}

} // verus!
