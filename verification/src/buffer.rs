//! Byte-level access to caller-supplied buffers.
//!
//! All raw memory the codec touches goes through the few primitives here:
//! a little-endian store and load of a scalar of 1 to 8 bytes, and a
//! clamped byte copy. Each states exactly which bytes it touches; every
//! byte outside the addressed range keeps its prior content.

use vstd::prelude::*;

verus! {

/// Little-endian byte `j` of a 64-bit value.
pub open spec fn le_byte(v: u64, j: int) -> u8 {
    ((v >> (((8 * j) as u64))) & 0xFF) as u8
}

/// The buffer with bytes `[pos, pos + w)` replaced by the `w` lowest
/// bytes of `v` in little-endian order, all other bytes unchanged.
pub open spec fn stored(s: Seq<u8>, pos: int, w: int, v: u64) -> Seq<u8> {
    Seq::new(
        s.len(),
        |i: int|
            if pos <= i < pos + w {
                le_byte(v, i - pos)
            } else {
                s[i]
            },
    )
}

/// The unsigned value of bytes `[pos, pos + w)` read little-endian.
pub open spec fn le_load(s: Seq<u8>, pos: int, w: int) -> u64
    decreases w,
{
    if w <= 0 {
        0
    } else {
        le_load(s, pos, w - 1) | ((s[pos + w - 1] as u64) << (((8 * (w - 1)) as u64)))
    }
}

/// Mask of the `w` lowest bytes of a 64-bit value.
pub open spec fn le_mask(w: int) -> u64 {
    if w <= 0 {
        0
    } else if w == 1 {
        0xFF
    } else if w == 2 {
        0xFFFF
    } else if w == 3 {
        0xFF_FFFF
    } else if w == 4 {
        0xFFFF_FFFF
    } else if w == 5 {
        0xFF_FFFF_FFFF
    } else if w == 6 {
        0xFFFF_FFFF_FFFF
    } else if w == 7 {
        0xFF_FFFF_FFFF_FFFF
    } else {
        0xFFFF_FFFF_FFFF_FFFF
    }
}

/// The signed value of a `w`-byte little-endian scalar whose unsigned
/// value is `raw`: two's-complement interpretation of the top bit.
pub open spec fn le_signed(raw: u64, w: int) -> int {
    if w >= 8 {
        raw as i64 as int
    } else {
        let m = raw & le_mask(w);
        if m > le_mask(w) / 2 {
            m - le_mask(w) - 1
        } else {
            m as int
        }
    }
}

/// The smaller of two lengths: how many bytes a clamped copy moves.
pub open spec fn clamp_len(a: int, b: int) -> int {
    if a < b {
        a
    } else {
        b
    }
}

/// The buffer with bytes `[pos, pos + n)` replaced by the first `n` bytes
/// of `data`, where `n` clamps `data`'s length to `itemsize`; all other
/// bytes unchanged.
pub open spec fn copied(s: Seq<u8>, pos: int, data: Seq<u8>, itemsize: int) -> Seq<u8> {
    Seq::new(
        s.len(),
        |i: int|
            if pos <= i < pos + clamp_len(data.len() as int, itemsize) {
                data[i - pos]
            } else {
                s[i]
            },
    )
}

/// Store the `w` lowest bytes of `v` at `pos`, little-endian; every byte
/// outside `[pos, pos + w)` keeps its prior content.
pub fn store_le(buf: &mut Vec<u8>, pos: usize, w: usize, v: u64)
    requires
        w <= 8,
        pos + w <= old(buf).len(),
    ensures
        final (buf)@ == stored(old(buf)@, pos as int, w as int, v),
{
    let mut j: usize = 0;
    while j < w
        invariant
            w <= 8,
            pos + w <= old(buf).len(),
            buf@.len() == old(buf)@.len(),
            j <= w,
            forall|i: int|
                0 <= i < buf@.len() ==> buf@[i] == (if pos <= i < pos + j {
                    le_byte(v, i - pos)
                } else {
                    old(buf)@[i]
                }),
        decreases w - j,
    {
        let b: u8 = ((v >> ((8 * j) as u64)) & 0xFF) as u8;
        buf.set(pos + j, b);
        j = j + 1;
    }
    proof {
        assert(buf@ =~= stored(old(buf)@, pos as int, w as int, v));
    }
}

/// Load the `w`-byte little-endian scalar at `pos`.
pub fn load_le(buf: &Vec<u8>, pos: usize, w: usize) -> (r: u64)
    requires
        w <= 8,
        pos + w <= buf.len(),
    ensures
        r == le_load(buf@, pos as int, w as int),
{
    let mut acc: u64 = 0;
    let mut j: usize = 0;
    while j < w
        invariant
            w <= 8,
            pos + w <= buf.len(),
            j <= w,
            acc == le_load(buf@, pos as int, j as int),
        decreases w - j,
    {
        acc = acc | ((buf[pos + j] as u64) << ((8 * j) as u64));
        j = j + 1;
    }
    acc
}

/// Copy `min(data.len(), itemsize)` bytes of `data` to `pos`, never
/// writing past `pos + itemsize`; the rest of the buffer keeps its prior
/// content.
pub fn copy_clamped(buf: &mut Vec<u8>, pos: usize, data: &[u8], itemsize: usize)
    requires
        pos + itemsize <= old(buf).len(),
    ensures
        final (buf)@ == copied(old(buf)@, pos as int, data@, itemsize as int),
{
    let n: usize = if data.len() < itemsize {
        data.len()
    } else {
        itemsize
    };
    let mut j: usize = 0;
    while j < n
        invariant
            n == clamp_len(data@.len() as int, itemsize as int),
            pos + itemsize <= old(buf).len(),
            n <= itemsize,
            n <= data@.len(),
            buf@.len() == old(buf)@.len(),
            j <= n,
            forall|i: int|
                0 <= i < buf@.len() ==> buf@[i] == (if pos <= i < pos + j {
                    data@[i - pos]
                } else {
                    old(buf)@[i]
                }),
        decreases n - j,
    {
        let b: u8 = data[j];
        buf.set(pos + j, b);
        j = j + 1;
    }
    proof {
        assert(buf@ =~= copied(old(buf)@, pos as int, data@, itemsize as int));
    }
}

/// A load reads only the addressed bytes: two buffers that agree there
/// load the same value.
pub proof fn lemma_le_load_agree(s1: Seq<u8>, s2: Seq<u8>, pos: int, w: int)
    requires
        0 <= pos,
        0 <= w,
        pos + w <= s1.len(),
        s1.len() == s2.len(),
        forall|k: int| pos <= k < pos + w ==> s1[k] == s2[k],
    ensures
        le_load(s1, pos, w) == le_load(s2, pos, w),
    decreases w,
{
    if w > 0 {
        lemma_le_load_agree(s1, s2, pos, w - 1);
    }
}

/// A value stored and loaded at the same position and width comes back
/// masked to that width: the bytes written are the bytes read.
pub proof fn lemma_store_load(s: Seq<u8>, pos: int, w: int, v: u64)
    requires
        0 <= pos,
        0 <= w <= 8,
        pos + w <= s.len(),
    ensures
        le_load(stored(s, pos, w, v), pos, w) == v & le_mask(w),
{
    lemma_le_load_of_bytes(stored(s, pos, w, v), pos, w, v);
}

/// Loading `w` bytes that hold the little-endian bytes of `v` yields `v`
/// masked to those bytes.
pub proof fn lemma_le_load_of_bytes(t: Seq<u8>, pos: int, w: int, v: u64)
    requires
        0 <= pos,
        0 <= w <= 8,
        pos + w <= t.len(),
        forall|i: int| pos <= i < pos + w ==> t[i] == le_byte(v, i - pos),
    ensures
        le_load(t, pos, w) == v & le_mask(w),
    decreases w,
{
    if w == 0 {
        assert(v & 0 == 0) by (bit_vector);
    } else {
        lemma_le_load_of_bytes(t, pos, w - 1, v);
        let prev = v & le_mask(w - 1);
        let b = le_byte(v, w - 1);
        assert(le_load(t, pos, w) == prev | ((b as u64) << (((8 * (w - 1)) as u64))));
        if w == 1 {
            assert((v & 0) | ((((((v >> 0) & 0xFF) as u8) as u64) << 0)) == v & 0xFF)
                by (bit_vector);
        } else if w == 2 {
            assert((v & 0xFF) | ((((((v >> 8) & 0xFF) as u8) as u64) << 8)) == v & 0xFFFF)
                by (bit_vector);
        } else if w == 3 {
            assert((v & 0xFFFF) | ((((((v >> 16) & 0xFF) as u8) as u64) << 16)) == v & 0xFF_FFFF)
                by (bit_vector);
        } else if w == 4 {
            assert((v & 0xFF_FFFF) | ((((((v >> 24) & 0xFF) as u8) as u64) << 24)) == v
                & 0xFFFF_FFFF) by (bit_vector);
        } else if w == 5 {
            assert((v & 0xFFFF_FFFF) | ((((((v >> 32) & 0xFF) as u8) as u64) << 32)) == v
                & 0xFF_FFFF_FFFF) by (bit_vector);
        } else if w == 6 {
            assert((v & 0xFF_FFFF_FFFF) | ((((((v >> 40) & 0xFF) as u8) as u64) << 40)) == v
                & 0xFFFF_FFFF_FFFF) by (bit_vector);
        } else if w == 7 {
            assert((v & 0xFFFF_FFFF_FFFF) | ((((((v >> 48) & 0xFF) as u8) as u64) << 48)) == v
                & 0xFF_FFFF_FFFF_FFFF) by (bit_vector);
        } else {
            assert((v & 0xFF_FFFF_FFFF_FFFF) | ((((((v >> 56) & 0xFF) as u8) as u64) << 56)) == v
                & 0xFFFF_FFFF_FFFF_FFFF) by (bit_vector);
        }
    }
}

} // verus!
