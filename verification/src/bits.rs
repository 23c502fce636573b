//! Growable bit stream: fixed-width big-endian bit fields pushed onto a
//! vector of bits, and packing of a finished stream into bytes.

use vstd::prelude::*;

verus! {

/// 2 to the power w.
pub open spec fn spec_pow2(w: nat) -> nat
    decreases w,
{
    if w == 0 { 1 } else { 2 * spec_pow2((w - 1) as nat) }
}

/// Powers of two used by the bit fields of this crate.
pub proof fn lemma_pow2_values()
    ensures
        spec_pow2(0) == 1,
        spec_pow2(1) == 2,
        spec_pow2(2) == 4,
        spec_pow2(3) == 8,
        spec_pow2(4) == 16,
        spec_pow2(5) == 32,
        spec_pow2(6) == 64,
        spec_pow2(7) == 128,
        spec_pow2(8) == 256,
        spec_pow2(9) == 512,
        spec_pow2(10) == 1024,
        spec_pow2(11) == 2048,
        spec_pow2(12) == 4096,
        spec_pow2(13) == 8192,
        spec_pow2(14) == 16384,
        spec_pow2(15) == 32768,
        spec_pow2(16) == 65536,
{
    assert(spec_pow2(1) == 2 * spec_pow2(0));
    assert(spec_pow2(2) == 2 * spec_pow2(1));
    assert(spec_pow2(3) == 2 * spec_pow2(2));
    assert(spec_pow2(4) == 2 * spec_pow2(3));
    assert(spec_pow2(5) == 2 * spec_pow2(4));
    assert(spec_pow2(6) == 2 * spec_pow2(5));
    assert(spec_pow2(7) == 2 * spec_pow2(6));
    assert(spec_pow2(8) == 2 * spec_pow2(7));
    assert(spec_pow2(9) == 2 * spec_pow2(8));
    assert(spec_pow2(10) == 2 * spec_pow2(9));
    assert(spec_pow2(11) == 2 * spec_pow2(10));
    assert(spec_pow2(12) == 2 * spec_pow2(11));
    assert(spec_pow2(13) == 2 * spec_pow2(12));
    assert(spec_pow2(14) == 2 * spec_pow2(13));
    assert(spec_pow2(15) == 2 * spec_pow2(14));
    assert(spec_pow2(16) == 2 * spec_pow2(15));
}

pub proof fn lemma_pow2_mono(a: nat, b: nat)
    requires
        a <= b,
    ensures
        spec_pow2(a) <= spec_pow2(b),
    decreases b,
{
    if a < b {
        lemma_pow2_mono(a, (b - 1) as nat);
    }
}

/// The low `width` bits of a value, most significant first.
pub open spec fn spec_bits_of(value: int, width: nat) -> Seq<bool>
    decreases width,
{
    if width == 0 {
        Seq::empty()
    } else {
        spec_bits_of(value / 2, (width - 1) as nat).push(value % 2 == 1)
    }
}

pub proof fn lemma_bits_of_len(value: int, width: nat)
    ensures
        spec_bits_of(value, width).len() == width,
    decreases width,
{
    if width > 0 {
        lemma_bits_of_len(value / 2, (width - 1) as nat);
    }
}

/// The value a bit sequence denotes, read most significant bit first.
pub open spec fn spec_bits_val(s: Seq<bool>) -> int
    decreases s.len(),
{
    if s.len() == 0 {
        0
    } else {
        2 * spec_bits_val(s.drop_last()) + (if s.last() { 1int } else { 0 })
    }
}

pub proof fn lemma_bits_val_bound(s: Seq<bool>)
    ensures
        0 <= spec_bits_val(s) < spec_pow2(s.len()),
    decreases s.len(),
{
    if s.len() > 0 {
        lemma_bits_val_bound(s.drop_last());
    }
}

/// Append the low `width` bits of a value, most significant first.
pub fn push_bits(bits: &mut Vec<bool>, value: u32, width: usize)
    requires
        width <= 32,
        (value as int) < spec_pow2(width as nat),
    ensures
        final(bits)@ == old(bits)@ + spec_bits_of(value as int, width as nat),
    decreases width,
{
    if width == 0 {
        proof {
            assert(bits@ + spec_bits_of(value as int, 0) =~= bits@);
        }
    } else {
        push_bits(bits, value / 2, width - 1);
        bits.push(value % 2 == 1);
        proof {
            assert(bits@ =~= old(bits)@ + spec_bits_of(value as int, width as nat));
        }
    }
}

/// The bytes a bit stream packs into, eight bits per byte, in order.
pub open spec fn spec_bytes_of(b: Seq<bool>) -> Seq<u8> {
    Seq::new(b.len() / 8, |i: int| spec_bits_val(b.subrange(8 * i, 8 * i + 8)) as u8)
}

/// Pack a bit stream whose length is a whole number of bytes.
pub fn bits_to_bytes(bits: &Vec<bool>) -> (r: Vec<u8>)
    requires
        bits@.len() % 8 == 0,
    ensures
        r@ == spec_bytes_of(bits@),
        r@.len() == bits@.len() / 8,
{
    let n = bits.len() / 8;
    proof {
        assert(8 * (bits@.len() as int / 8) == bits@.len() as int);
    }
    let mut r: Vec<u8> = Vec::new();
    let mut i: usize = 0;
    while i < n
        invariant
            8 * n == bits@.len(),
            8 * n <= usize::MAX,
            i <= n,
            r@.len() == i,
            forall|j: int| 0 <= j < i
                ==> #[trigger] r@[j] == spec_bits_val(bits@.subrange(8 * j, 8 * j + 8)) as u8,
        decreases n - i,
    {
        let mut b: u8 = 0;
        let mut t: usize = 0;
        while t < 8
            invariant
                8 * n == bits@.len(),
                8 * n <= usize::MAX,
                i < n,
                t <= 8,
                b as int == spec_bits_val(bits@.subrange(8 * i as int, 8 * i as int + t as int)),
                (b as int) < spec_pow2(t as nat),
            decreases 8 - t,
        {
            proof {
                lemma_pow2_values();
                lemma_pow2_mono(t as nat, 7);
                assert(bits@.subrange(8 * i as int, 8 * i as int + t as int + 1).drop_last()
                    =~= bits@.subrange(8 * i as int, 8 * i as int + t as int));
            }
            let bit = bits[8 * i + t];
            b = 2 * b + (if bit { 1 } else { 0 });
            t += 1;
        }
        r.push(b);
        i += 1;
    }
    proof {
        assert(r@ =~= spec_bytes_of(bits@));
    }
    r
}

} // verus!
