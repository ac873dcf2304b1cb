//! The crate-wide guarantees, stated once over the contracts of the other
//! modules.
//!
//! A byte swap exchanges a value's two wire forms, so swapping twice
//! restores the original byte pattern; and a scalar is determined by
//! either wire form, so reading back the bytes a write produced yields the
//! value that was written.

use vstd::prelude::*;

verus! {

use vstd::bytes::{
    lemma_auto_spec_u16_to_from_le_bytes, lemma_auto_spec_u32_to_from_le_bytes,
    lemma_auto_spec_u64_to_from_le_bytes, lemma_auto_spec_u128_to_from_le_bytes,
    spec_u16_to_le_bytes, spec_u32_to_le_bytes, spec_u64_to_le_bytes, spec_u128_to_le_bytes,
};
use crate::bulk::{
    lemma_swap_groups_concat, lemma_swap_groups_single, swap_groups_of_four,
};
use crate::endian::{Endian, lemma_reverse_reverse, seq_be_repr, seq_le_repr};

/// Applying the byte swap twice returns any value, scalar or sequence, to
/// its original byte pattern: if swapping `start` can give `once`, and
/// swapping `once` can give `twice`, then `twice` has `start`'s wire
/// forms.
pub proof fn lemma_swap_twice_restores<T: Endian>(start: T, once: T, twice: T)
    requires
        once.le_repr() == start.be_repr(),
        once.be_repr() == start.le_repr(),
        twice.le_repr() == once.be_repr(),
        twice.be_repr() == once.le_repr(),
    ensures
        twice.le_repr() == start.le_repr(),
        twice.be_repr() == start.be_repr(),
{
}

/// A `u8` is determined by either of its wire forms: reading back the
/// bytes a write produced yields the written value.
pub proof fn lemma_round_trip_u8(a: u8, b: u8)
    requires
        a.le_repr() == b.le_repr() || a.be_repr() == b.be_repr(),
    ensures
        a == b,
{
    assert(a.le_repr()[0] == a && a.be_repr()[0] == a);
}

/// An `i8` is determined by either of its wire forms.
pub proof fn lemma_round_trip_i8(a: i8, b: i8)
    requires
        a.le_repr() == b.le_repr() || a.be_repr() == b.be_repr(),
    ensures
        a == b,
{
    assert(a.le_repr()[0] == a as u8 && a.be_repr()[0] == a as u8);
    assert(a as u8 == b as u8 ==> a == b) by (bit_vector);
}

/// A `u16` is determined by either of its wire forms: reading back the
/// bytes a write produced yields the written value.
pub proof fn lemma_round_trip_u16(a: u16, b: u16)
    requires
        a.le_repr() == b.le_repr() || a.be_repr() == b.be_repr(),
    ensures
        a == b,
{
    lemma_auto_spec_u16_to_from_le_bytes();
    if a.be_repr() == b.be_repr() {
        lemma_reverse_reverse::<u8>(spec_u16_to_le_bytes(a));
        lemma_reverse_reverse::<u8>(spec_u16_to_le_bytes(b));
    }
}

/// A `u32` is determined by either of its wire forms.
pub proof fn lemma_round_trip_u32(a: u32, b: u32)
    requires
        a.le_repr() == b.le_repr() || a.be_repr() == b.be_repr(),
    ensures
        a == b,
{
    lemma_auto_spec_u32_to_from_le_bytes();
    if a.be_repr() == b.be_repr() {
        lemma_reverse_reverse::<u8>(spec_u32_to_le_bytes(a));
        lemma_reverse_reverse::<u8>(spec_u32_to_le_bytes(b));
    }
}

/// A `u64` is determined by either of its wire forms.
pub proof fn lemma_round_trip_u64(a: u64, b: u64)
    requires
        a.le_repr() == b.le_repr() || a.be_repr() == b.be_repr(),
    ensures
        a == b,
{
    lemma_auto_spec_u64_to_from_le_bytes();
    if a.be_repr() == b.be_repr() {
        lemma_reverse_reverse::<u8>(spec_u64_to_le_bytes(a));
        lemma_reverse_reverse::<u8>(spec_u64_to_le_bytes(b));
    }
}

/// A `u128` is determined by either of its wire forms.
pub proof fn lemma_round_trip_u128(a: u128, b: u128)
    requires
        a.le_repr() == b.le_repr() || a.be_repr() == b.be_repr(),
    ensures
        a == b,
{
    lemma_auto_spec_u128_to_from_le_bytes();
    if a.be_repr() == b.be_repr() {
        lemma_reverse_reverse::<u8>(spec_u128_to_le_bytes(a));
        lemma_reverse_reverse::<u8>(spec_u128_to_le_bytes(b));
    }
}

/// An `i16` is determined by either of its wire forms.
pub proof fn lemma_round_trip_i16(a: i16, b: i16)
    requires
        a.le_repr() == b.le_repr() || a.be_repr() == b.be_repr(),
    ensures
        a == b,
{
    lemma_auto_spec_u16_to_from_le_bytes();
    if a.be_repr() == b.be_repr() {
        lemma_reverse_reverse::<u8>(spec_u16_to_le_bytes(a as u16));
        lemma_reverse_reverse::<u8>(spec_u16_to_le_bytes(b as u16));
    }
    assert(a as u16 == b as u16 ==> a == b) by (bit_vector);
}

/// An `i32` is determined by either of its wire forms.
pub proof fn lemma_round_trip_i32(a: i32, b: i32)
    requires
        a.le_repr() == b.le_repr() || a.be_repr() == b.be_repr(),
    ensures
        a == b,
{
    lemma_auto_spec_u32_to_from_le_bytes();
    if a.be_repr() == b.be_repr() {
        lemma_reverse_reverse::<u8>(spec_u32_to_le_bytes(a as u32));
        lemma_reverse_reverse::<u8>(spec_u32_to_le_bytes(b as u32));
    }
    assert(a as u32 == b as u32 ==> a == b) by (bit_vector);
}

/// An `i64` is determined by either of its wire forms.
pub proof fn lemma_round_trip_i64(a: i64, b: i64)
    requires
        a.le_repr() == b.le_repr() || a.be_repr() == b.be_repr(),
    ensures
        a == b,
{
    lemma_auto_spec_u64_to_from_le_bytes();
    if a.be_repr() == b.be_repr() {
        lemma_reverse_reverse::<u8>(spec_u64_to_le_bytes(a as u64));
        lemma_reverse_reverse::<u8>(spec_u64_to_le_bytes(b as u64));
    }
    assert(a as u64 == b as u64 ==> a == b) by (bit_vector);
}

/// An `i128` is determined by either of its wire forms.
pub proof fn lemma_round_trip_i128(a: i128, b: i128)
    requires
        a.le_repr() == b.le_repr() || a.be_repr() == b.be_repr(),
    ensures
        a == b,
{
    lemma_auto_spec_u128_to_from_le_bytes();
    if a.be_repr() == b.be_repr() {
        lemma_reverse_reverse::<u8>(spec_u128_to_le_bytes(a as u128));
        lemma_reverse_reverse::<u8>(spec_u128_to_le_bytes(b as u128));
    }
    assert(a as u128 == b as u128 ==> a == b) by (bit_vector);
}

/// A sequence of 32-bit values has four wire bytes per element.
proof fn lemma_seq_le_repr_u32_len(values: Seq<u32>)
    ensures
        seq_le_repr(values).len() == 4 * values.len(),
    decreases values.len(),
{
    lemma_auto_spec_u32_to_from_le_bytes();
    if values.len() != 0 {
        lemma_seq_le_repr_u32_len(values.drop_first());
    }
}

/// The bulk group swap of a 32-bit sequence's little-endian wire bytes is
/// exactly the element-wise byte swap: it produces the sequence's
/// big-endian wire form.  Both bulk paths carry this as their contract,
/// so the chunked, vector-style path may substitute for the per-element
/// one on any input.
pub proof fn lemma_bulk_swap_is_element_wise(values: Seq<u32>)
    ensures
        swap_groups_of_four(seq_le_repr(values)) == seq_be_repr(values),
    decreases values.len(),
{
    lemma_auto_spec_u32_to_from_le_bytes();
    if values.len() == 0 {
        assert(swap_groups_of_four(seq_le_repr(values)) =~= seq_be_repr(values));
    } else {
        let head = values[0];
        let rest = values.drop_first();
        lemma_bulk_swap_is_element_wise(rest);
        lemma_seq_le_repr_u32_len(rest);
        lemma_swap_groups_concat(spec_u32_to_le_bytes(head), seq_le_repr(rest));
        lemma_swap_groups_single(spec_u32_to_le_bytes(head));
    }
}

} // verus!
