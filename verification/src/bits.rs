//! Bit strings and their unsigned values.
//!
//! A frame on the wire is a sequence of bits, most-significant bit first.
//! This module gives the two spec-level views used throughout the codec:
//! the value of a bit string, and the bit string of a value at a given
//! width, together with the lemmas connecting them.

use vstd::prelude::*;

verus! {

use vstd::arithmetic::power2::{pow2, lemma_pow2_unfold, lemma2_to64};
use vstd::arithmetic::div_mod::lemma_fundamental_div_mod;
use vstd::bits::lemma_u16_shr_is_div;

/// The unsigned value of a bit string, read most-significant bit first.
pub open spec fn val_of(s: Seq<bool>) -> nat
    decreases s.len(),
{
    if s.len() == 0 {
        0
    } else {
        2 * val_of(s.drop_last()) + (if s.last() {
            1nat
        } else {
            0nat
        })
    }
}

/// The low `w` bits of `x`, most-significant bit first.
pub open spec fn bits_be(x: u16, w: nat) -> Seq<bool>
    recommends
        w <= 16,
{
    Seq::new(w, |i: int| ((x >> ((w - 1 - i) as u16)) & 1) == 1)
}

/// A bit string of width `w` has a value below `2^w`.
pub proof fn lemma_val_of_bound(s: Seq<bool>)
    ensures
        val_of(s) < pow2(s.len()),
    decreases s.len(),
{
    if s.len() == 0 {
        lemma2_to64();
    } else {
        lemma_val_of_bound(s.drop_last());
        lemma_pow2_unfold(s.len());
    }
}

/// Dropping the last bit of `bits_be(x, w)` leaves the bits of `x >> 1`.
proof fn lemma_bits_be_drop_last(x: u16, w: nat)
    requires
        1 <= w <= 16,
    ensures
        bits_be(x, w).drop_last() == bits_be(x >> 1u16, (w - 1) as nat),
{
    assert forall|i: int| 0 <= i < w - 1 implies bits_be(x, w).drop_last()[i] == bits_be(
        x >> 1u16,
        (w - 1) as nat,
    )[i] by {
        let j = (w - 1 - i) as u16;
        assert(((x >> j) & 1) == (((x >> 1u16) >> ((j - 1) as u16)) & 1)) by (bit_vector)
            requires
                1 <= j < 16,
        ;
    }
    assert(bits_be(x, w).drop_last() =~= bits_be(x >> 1u16, (w - 1) as nat));
}

/// Reading back the bits of `x` yields `x` itself.
pub proof fn lemma_val_of_bits_be(x: u16, w: nat)
    requires
        w <= 16,
        x < pow2(w),
    ensures
        val_of(bits_be(x, w)) == x,
    decreases w,
{
    if w == 0 {
        lemma2_to64();
        assert(bits_be(x, 0) =~= Seq::<bool>::empty());
    } else {
        let s = bits_be(x, w);
        lemma_bits_be_drop_last(x, w);
        lemma_u16_shr_is_div(x, 1);
        lemma2_to64();
        lemma_pow2_unfold(w);
        lemma_fundamental_div_mod(x as int, 2);
        assert(2 * ((x >> 1u16) as int) <= x);
        lemma_val_of_bits_be(x >> 1u16, (w - 1) as nat);
        assert(s.last() == (((x >> 0u16) & 1) == 1));
        assert(((x >> 0u16) & 1) == x % 2) by (bit_vector);
        assert(val_of(s) == 2 * val_of(s.drop_last()) + (if s.last() {
            1nat
        } else {
            0nat
        }));
    }
}

/// Flipping the bit at position `k` moves the value by exactly
/// `2^(len - 1 - k)`, up when the bit was clear and down when it was set.
pub proof fn lemma_val_of_update(s: Seq<bool>, k: int)
    requires
        0 <= k < s.len(),
    ensures
        val_of(s.update(k, !s[k])) as int == val_of(s) as int + (if s[k] {
            -(pow2((s.len() - 1 - k) as nat) as int)
        } else {
            pow2((s.len() - 1 - k) as nat) as int
        }),
    decreases s.len(),
{
    let t = s.update(k, !s[k]);
    assert(t.len() == s.len());
    if k == s.len() - 1 {
        assert(t.drop_last() =~= s.drop_last());
        assert(t.last() == !s.last());
        lemma2_to64();
    } else {
        assert(t.drop_last() =~= s.drop_last().update(k, !s.drop_last()[k]));
        assert(t.last() == s.last());
        lemma_val_of_update(s.drop_last(), k);
        lemma_pow2_unfold((s.len() - 1 - k) as nat);
    }
}

/// Reads the value of `len` bits of `data` starting at `start`,
/// most-significant bit first.
pub fn read_val(data: &[bool], start: usize, len: usize) -> (r: u16)
    requires
        start + len <= data@.len(),
        len <= 16,
    ensures
        r == val_of(data@.subrange(start as int, start as int + len as int)),
{
    let n = data.len();
    let mut acc: u16 = 0;
    for i in 0..len
        invariant
            n == data@.len(),
            start + len <= data@.len(),
            len <= 16,
            acc == val_of(data@.subrange(start as int, start as int + i as int)),
    {
        proof {
            lemma_val_of_bound(data@.subrange(start as int, start as int + i as int));
            lemma2_to64();
            if i < 15 {
                vstd::arithmetic::power2::lemma_pow2_strictly_increases(i as nat, 15);
            }
        }
        let bit = data[start + i];
        acc = 2 * acc + (if bit {
            1
        } else {
            0
        });
        proof {
            let prev = data@.subrange(start as int, start as int + i as int);
            let cur = data@.subrange(start as int, start as int + i as int + 1);
            assert(cur.drop_last() =~= prev);
            assert(cur.last() == data@[start as int + i as int]);
        }
    }
    acc
}

/// Appends the low `w` bits of `x` to `out`, most-significant bit first.
pub fn push_bits_be(out: &mut Vec<bool>, x: u16, w: usize)
    requires
        w <= 16,
    ensures
        final(out)@ == old(out)@ + bits_be(x, w as nat),
{
    let ghost base = out@;
    for i in 0..w
        invariant
            w <= 16,
            out@ == base + bits_be(x, w as nat).take(i as int),
    {
        out.push(((x >> ((w - 1 - i) as u16)) & 1) == 1);
        proof {
            assert(bits_be(x, w as nat).take(i as int).push(bits_be(x, w as nat)[i as int])
                =~= bits_be(x, w as nat).take(i as int + 1));
        }
    }
    proof {
        assert(bits_be(x, w as nat).take(w as int) =~= bits_be(x, w as nat));
    }
}

} // verus!
