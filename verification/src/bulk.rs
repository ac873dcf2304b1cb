//! Bulk byte-order swap for packed four-byte values.
//!
//! A sequence of 32-bit values, seen as raw bytes, changes byte order by
//! reversing each aligned four-byte group in place.  Two paths produce
//! identical output: [`swap_four_byte_groups_scalar`] walks the groups one
//! by one, and [`swap_four_byte_groups_chunked`] processes eight groups
//! (thirty-two bytes) at a time with a fixed byte-shuffle pattern, handling
//! a shorter tail through a zero-padded scratch chunk, the way a wide
//! vector unit would.  Both carry the same contract, so the chunked path
//! can stand in for the scalar one anywhere.

use vstd::prelude::*;

verus! {

use vstd::arithmetic::div_mod::lemma_fundamental_div_mod;

/// The bytes of `s` with every aligned four-byte group reversed: the byte
/// at index `i` comes from the mirrored offset inside `i`'s own group.
pub open spec fn swap_groups_of_four(s: Seq<u8>) -> Seq<u8>
    recommends
        s.len() % 4 == 0,
{
    Seq::new(s.len(), |i: int| s[4 * (i / 4) + (3 - i % 4)])
}

/// Division and remainder by four recover the group and the offset of an
/// index written as `4 * g + k`.
proof fn lemma_group_index(g: int, k: int)
    requires
        0 <= g,
        0 <= k < 4,
    ensures
        (4 * g + k) / 4 == g,
        (4 * g + k) % 4 == k,
{
    assert((4 * g + k) / 4 == g && (4 * g + k) % 4 == k) by (nonlinear_arith)
        requires
            0 <= g,
            0 <= k < 4,
    ;
}

/// An index below a multiple of four lies in a four-byte group that also
/// ends below it.
proof fn lemma_group_in_bounds(m: int, t: int)
    requires
        0 <= m < t,
        t % 4 == 0,
    ensures
        4 * (m / 4) + 4 <= t,
        0 <= 4 * (m / 4) + (3 - m % 4) < t,
{
    assert(4 * (m / 4) + 4 <= t && 0 <= 4 * (m / 4) + (3 - m % 4) < t) by (nonlinear_arith)
        requires
            0 <= m < t,
            t % 4 == 0,
    ;
}

/// Shifting an index by a multiple of four shifts its group and keeps its
/// offset.
proof fn lemma_offset_group(base: int, m: int)
    requires
        base % 4 == 0,
        0 <= base,
        0 <= m,
    ensures
        (base + m) / 4 == base / 4 + m / 4,
        (base + m) % 4 == m % 4,
{
    assert((base + m) / 4 == base / 4 + m / 4 && (base + m) % 4 == m % 4) by (nonlinear_arith)
        requires
            base % 4 == 0,
            0 <= base,
            0 <= m,
    ;
}

/// Reverse each aligned four-byte group of `bytes`, one group at a time.
/// This is the reference path: every other path must match its output
/// byte for byte.
pub fn swap_four_byte_groups_scalar(bytes: &mut Vec<u8>)
    requires
        old(bytes)@.len() % 4 == 0,
    ensures
        final(bytes)@ == swap_groups_of_four(old(bytes)@),
{
    let len = bytes.len();
    let groups = len / 4;
    proof {
        lemma_fundamental_div_mod(len as int, 4);
    }
    let mut out: Vec<u8> = Vec::new();
    let mut g: usize = 0;
    while g < groups
        invariant
            g <= groups,
            groups == len / 4,
            len == bytes@.len(),
            len % 4 == 0,
            len == 4 * groups,
            bytes@ == old(bytes)@,
            out@.len() == 4 * g,
            forall|j: int| 0 <= j < 4 * g ==> out@[j] == swap_groups_of_four(bytes@)[j],
        decreases groups - g,
    {
        let base = 4 * g;
        out.push(bytes[base + 3]);
        out.push(bytes[base + 2]);
        out.push(bytes[base + 1]);
        out.push(bytes[base]);
        proof {
            assert forall|j: int| 4 * g <= j < 4 * (g + 1) implies out@[j] == swap_groups_of_four(
                bytes@,
            )[j] by {
                let k = j - 4 * g;
                lemma_group_index(g as int, k);
            }
        }
        g += 1;
    }
    proof {
        assert(out@ =~= swap_groups_of_four(bytes@));
    }
    *bytes = out;
}

/// One thirty-two-byte chunk permuted by the fixed shuffle pattern that
/// reverses the four bytes inside each of its eight four-byte lanes.
fn shuffled_chunk(chunk: &Vec<u8>) -> (r: Vec<u8>)
    requires
        chunk@.len() == 32,
    ensures
        r@ == swap_groups_of_four(chunk@),
{
    let mut r: Vec<u8> = Vec::new();
    let mut g: usize = 0;
    while g < 8
        invariant
            g <= 8,
            chunk@.len() == 32,
            r@.len() == 4 * g,
            forall|j: int| 0 <= j < 4 * g ==> r@[j] == swap_groups_of_four(chunk@)[j],
        decreases 8 - g,
    {
        let base = 4 * g;
        r.push(chunk[base + 3]);
        r.push(chunk[base + 2]);
        r.push(chunk[base + 1]);
        r.push(chunk[base]);
        proof {
            assert forall|j: int| 4 * g <= j < 4 * (g + 1) implies r@[j] == swap_groups_of_four(
                chunk@,
            )[j] by {
                let k = j - 4 * g;
                lemma_group_index(g as int, k);
            }
        }
        g += 1;
    }
    proof {
        assert(r@ =~= swap_groups_of_four(chunk@));
    }
    r
}

/// Reverse each aligned four-byte group of `bytes`, thirty-two bytes at a
/// time: every full chunk goes through the fixed shuffle pattern of
/// `shuffled_chunk`; a shorter tail is copied into a zero-padded scratch
/// chunk, shuffled the same way, and copied back only as far as it is
/// valid, so no byte past the end is ever read.  The output is byte for
/// byte the output of [`swap_four_byte_groups_scalar`].
pub fn swap_four_byte_groups_chunked(bytes: &mut Vec<u8>)
    requires
        old(bytes)@.len() % 4 == 0,
    ensures
        final(bytes)@ == swap_groups_of_four(old(bytes)@),
{
    let len = bytes.len();
    let mut out: Vec<u8> = Vec::new();
    let mut base: usize = 0;
    while len - base >= 32
        invariant
            base <= len,
            base % 4 == 0,
            len == bytes@.len(),
            len % 4 == 0,
            bytes@ == old(bytes)@,
            out@.len() == base,
            forall|j: int| 0 <= j < base ==> out@[j] == swap_groups_of_four(bytes@)[j],
        decreases len - base,
    {
        let mut chunk: Vec<u8> = Vec::new();
        let mut k: usize = 0;
        while k < 32
            invariant
                k <= 32,
                base + 32 <= len,
                base <= len,
                len == bytes@.len(),
                chunk@.len() == k,
                forall|j: int| 0 <= j < k ==> chunk@[j] == bytes@[base + j],
            decreases 32 - k,
        {
            chunk.push(bytes[base + k]);
            k += 1;
        }
        let mut shuffled = shuffled_chunk(&chunk);
        out.append(&mut shuffled);
        proof {
            assert forall|j: int| base <= j < base + 32 implies out@[j] == swap_groups_of_four(
                bytes@,
            )[j] by {
                let m = j - base;
                lemma_group_index(m / 4, 3 - m % 4);
                lemma_fundamental_div_mod(m, 4);
                lemma_group_in_bounds(m, 32);
                lemma_offset_group(base as int, m);
                lemma_offset_group(base as int, 4 * (m / 4) + (3 - m % 4));
            }
        }
        base += 32;
    }
    if base < len {
        let tail_len = len - base;
        let mut scratch: Vec<u8> = Vec::new();
        let mut k: usize = 0;
        while k < tail_len
            invariant
                k <= tail_len,
                base + tail_len == len,
                len == bytes@.len(),
                scratch@.len() == k,
                forall|j: int| 0 <= j < k ==> scratch@[j] == bytes@[base + j],
            decreases tail_len - k,
        {
            scratch.push(bytes[base + k]);
            k += 1;
        }
        while scratch.len() < 32
            invariant
                tail_len <= scratch@.len() <= 32,
                forall|j: int| 0 <= j < tail_len ==> scratch@[j] == bytes@[base + j],
                base + tail_len == len,
                len == bytes@.len(),
                tail_len <= 32,
            decreases 32 - scratch@.len(),
        {
            scratch.push(0);
        }
        let shuffled = shuffled_chunk(&scratch);
        let mut k2: usize = 0;
        let ghost out_before = out@;
        while k2 < tail_len
            invariant
                k2 <= tail_len,
                base + tail_len == len,
                shuffled@ == swap_groups_of_four(scratch@),
                scratch@.len() == 32,
                tail_len <= 32,
                forall|j: int| 0 <= j < tail_len ==> scratch@[j] == bytes@[base + j],
                out@.len() == base + k2,
                out@.take(base as int) == out_before,
                out_before.len() == base,
                forall|j: int| base <= j < base + k2 ==> out@[j] == shuffled@[j - base],
            decreases tail_len - k2,
        {
            out.push(shuffled[k2]);
            proof {
                assert(out@.take(base as int) =~= out_before);
            }
            k2 += 1;
        }
        proof {
            assert forall|j: int| base <= j < len implies out@[j] == swap_groups_of_four(bytes@)[j]
                by {
                let m = j - base;
                lemma_fundamental_div_mod(m, 4);
                lemma_group_in_bounds(m, tail_len as int);
                lemma_group_index(m / 4, 3 - m % 4);
                lemma_offset_group(base as int, m);
                lemma_offset_group(base as int, 4 * (m / 4) + (3 - m % 4));
            }
            assert forall|j: int| 0 <= j < base implies out@[j] == swap_groups_of_four(bytes@)[j]
                by {
                assert(out@[j] == out@.take(base as int)[j]);
            }
        }
    }
    proof {
        assert(out@ =~= swap_groups_of_four(bytes@));
    }
    *bytes = out;
}


/// On a single four-byte group the swap is a plain reversal.
pub proof fn lemma_swap_groups_single(a: Seq<u8>)
    requires
        a.len() == 4,
    ensures
        swap_groups_of_four(a) == a.reverse(),
{
    assert forall|i: int| 0 <= i < 4 implies swap_groups_of_four(a)[i] == a.reverse()[i] by {
        lemma_group_index(0, i);
    }
    assert(swap_groups_of_four(a) =~= a.reverse());
}

/// The group swap distributes over concatenation at a four-byte-aligned
/// seam.
pub proof fn lemma_swap_groups_concat(a: Seq<u8>, b: Seq<u8>)
    requires
        a.len() % 4 == 0,
        b.len() % 4 == 0,
    ensures
        swap_groups_of_four(a + b) == swap_groups_of_four(a) + swap_groups_of_four(b),
{
    assert forall|i: int| 0 <= i < a.len() + b.len() implies swap_groups_of_four(a + b)[i] == (
    swap_groups_of_four(a) + swap_groups_of_four(b))[i] by {
        lemma_fundamental_div_mod(i, 4);
        if i < a.len() {
            lemma_group_in_bounds(i, a.len() as int);
        } else {
            let m = i - a.len();
            lemma_fundamental_div_mod(m, 4);
            lemma_group_in_bounds(m, b.len() as int);
            lemma_offset_group(a.len() as int, m);
            lemma_offset_group(a.len() as int, 4 * (m / 4) + (3 - m % 4));
        }
    }
    assert(swap_groups_of_four(a + b) =~= swap_groups_of_four(a) + swap_groups_of_four(b));
}

/// The chunked path and the scalar path agree on every input: both
/// produce exactly the group-reversed bytes, so their outputs are equal.
pub proof fn lemma_chunked_equals_scalar(s: Seq<u8>, chunked: Seq<u8>, scalar: Seq<u8>)
    requires
        s.len() % 4 == 0,
        chunked == swap_groups_of_four(s),
        scalar == swap_groups_of_four(s),
    ensures
        chunked == scalar,
{
}

/// Reversing each four-byte group twice restores the original bytes.
pub proof fn lemma_swap_groups_involution(s: Seq<u8>)
    requires
        s.len() % 4 == 0,
    ensures
        swap_groups_of_four(swap_groups_of_four(s)) == s,
{
    assert forall|i: int| 0 <= i < s.len() implies swap_groups_of_four(swap_groups_of_four(s))[i]
        == s[i] by {
        lemma_fundamental_div_mod(i, 4);
        lemma_group_in_bounds(i, s.len() as int);
        lemma_group_index(i / 4, 3 - i % 4);
    }
    assert(swap_groups_of_four(swap_groups_of_four(s)) =~= s);
}

} // verus!
