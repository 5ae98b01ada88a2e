//! Fixed-width little-endian integers, the building block of the log formats.
use vstd::prelude::*;

verus! {

/// `256` raised to the power `w`.
pub open spec fn pow256(w: nat) -> nat
    decreases w,
{
    if w == 0 {
        1
    } else {
        256 * pow256((w - 1) as nat)
    }
}

/// The number that the bytes of `s` denote, least significant byte first.
pub open spec fn le_value(s: Seq<u8>) -> nat
    decreases s.len(),
{
    if s.len() == 0 {
        0
    } else {
        s[0] as nat + 256 * le_value(s.drop_first())
    }
}

/// The number that the bytes of `s` denote, most significant byte first.
pub open spec fn be_value(s: Seq<u8>) -> nat
    decreases s.len(),
{
    if s.len() == 0 {
        0
    } else {
        s.last() as nat + 256 * be_value(s.drop_last())
    }
}

/// The `w` low bytes of `v`, least significant byte first.
pub open spec fn le_bytes(v: nat, w: nat) -> Seq<u8>
    decreases w,
{
    if w == 0 {
        Seq::empty()
    } else {
        seq![(v % 256) as u8] + le_bytes(v / 256, (w - 1) as nat)
    }
}

pub proof fn lemma_pow256_pos(w: nat)
    ensures
        pow256(w) > 0,
    decreases w,
{
    if w > 0 {
        lemma_pow256_pos((w - 1) as nat);
    }
}

pub proof fn lemma_pow256_mono(a: nat, b: nat)
    requires
        a <= b,
    ensures
        pow256(a) <= pow256(b),
    decreases b,
{
    if a < b {
        lemma_pow256_mono(a, (b - 1) as nat);
        lemma_pow256_pos((b - 1) as nat);
    }
}

pub proof fn lemma_pow256_16()
    ensures
        pow256(16) == 0x1_0000_0000_0000_0000_0000_0000_0000_0000,
        pow256(8) == 0x1_0000_0000_0000_0000,
        pow256(4) == 0x1_0000_0000,
        pow256(2) == 0x1_0000,
{
    reveal_with_fuel(pow256, 17);
}

pub proof fn lemma_le_bytes_len(v: nat, w: nat)
    ensures
        le_bytes(v, w).len() == w,
    decreases w,
{
    if w > 0 {
        lemma_le_bytes_len(v / 256, (w - 1) as nat);
    }
}

pub proof fn lemma_le_value_bound(s: Seq<u8>)
    ensures
        le_value(s) < pow256(s.len()),
    decreases s.len(),
{
    if s.len() > 0 {
        lemma_le_value_bound(s.drop_first());
    }
}

pub proof fn lemma_be_value_bound(s: Seq<u8>)
    ensures
        be_value(s) < pow256(s.len()),
    decreases s.len(),
{
    if s.len() > 0 {
        lemma_be_value_bound(s.drop_last());
    }
}

/// Reading back the bytes of a value that fits in them gives the value.
pub proof fn lemma_le_round_trip(v: nat, w: nat)
    requires
        v < pow256(w),
    ensures
        le_value(le_bytes(v, w)) == v,
    decreases w,
{
    if w > 0 {
        let b = le_bytes(v, w);
        let rest = le_bytes(v / 256, (w - 1) as nat);
        assert(b.drop_first() =~= rest);
        assert(v / 256 < pow256((w - 1) as nat));
        lemma_le_round_trip(v / 256, (w - 1) as nat);
    }
}

/// Appends the `width` low bytes of `v`, least significant first.
pub fn push_le(out: &mut Vec<u8>, v: u128, width: usize)
    ensures
        final(out)@ == old(out)@ + le_bytes(v as nat, width as nat),
    decreases width,
{
    if width == 0 {
        assert(old(out)@ + le_bytes(v as nat, 0) =~= old(out)@);
    } else {
        out.push((v % 256) as u8);
        push_le(out, v / 256, width - 1);
        assert(final(out)@ =~= old(out)@ + le_bytes(v as nat, width as nat));
    }
}

/// Reads `width` bytes of `b` from `off` as a little-endian number.
pub fn read_le(b: &[u8], off: usize, width: usize) -> (r: u128)
    requires
        width <= 16,
        off + width <= b@.len(),
    ensures
        r as nat == le_value(b@.subrange(off as int, off + width)),
    decreases width,
{
    if width == 0 {
        0
    } else {
        let n = b.len();
        assert(off + 1 <= n);
        let rest = read_le(b, off + 1, width - 1);
        proof {
            let s = b@.subrange(off as int, off + width);
            assert(s.drop_first() =~= b@.subrange(off + 1, off + width));
            lemma_le_value_bound(b@.subrange(off + 1, off + width));
            lemma_pow256_mono((width - 1) as nat, 15);
            reveal_with_fuel(pow256, 16);
        }
        (b[off] as u128) + 256 * rest
    }
}

/// Reads `width` bytes of `b` from `off` as a big-endian number.
pub fn read_be(b: &[u8], off: usize, width: usize) -> (r: u128)
    requires
        width <= 16,
        off + width <= b@.len(),
    ensures
        r as nat == be_value(b@.subrange(off as int, off + width)),
    decreases width,
{
    if width == 0 {
        0
    } else {
        let n = b.len();
        assert(off + width <= n);
        let rest = read_be(b, off, width - 1);
        proof {
            let s = b@.subrange(off as int, off + width);
            assert(s.drop_last() =~= b@.subrange(off as int, off + width - 1));
            lemma_be_value_bound(b@.subrange(off as int, off + width - 1));
            lemma_pow256_mono((width - 1) as nat, 15);
            reveal_with_fuel(pow256, 16);
        }
        (b[off + width - 1] as u128) + 256 * rest
    }
}

} // verus!
