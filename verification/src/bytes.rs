//! Byte-level decoding helpers shared by the boot-sector parser and the
//! directory scanner: little-endian integer reads, stripping of trailing
//! `0x20` padding from fixed-width name fields, and the printable-or-space
//! mapping used for file content previews.

use vstd::prelude::*;

verus! {

/// The 16-bit little-endian value stored at byte offset `off`.
pub open spec fn le16(b: Seq<u8>, off: int) -> int
    recommends
        0 <= off,
        off + 2 <= b.len(),
{
    b[off] + 0x100 * b[off + 1]
}

/// The 32-bit little-endian value stored at byte offset `off`.
pub open spec fn le32(b: Seq<u8>, off: int) -> int
    recommends
        0 <= off,
        off + 4 <= b.len(),
{
    b[off] + 0x100 * b[off + 1] + 0x10000 * b[off + 2] + 0x1000000 * b[off + 3]
}

/// Read the 16-bit little-endian value at `off`.
pub fn read_u16_le(image: &[u8], off: usize) -> (r: u16)
    requires
        off + 2 <= image@.len(),
    ensures
        r as int == le16(image@, off as int),
{
    image[off] as u16 + image[off + 1] as u16 * 0x100
}

/// Read the 32-bit little-endian value at `off`.
pub fn read_u32_le(image: &[u8], off: usize) -> (r: u32)
    requires
        off + 4 <= image@.len(),
    ensures
        r as int == le32(image@, off as int),
{
    image[off] as u32 + image[off + 1] as u32 * 0x100 + image[off + 2] as u32 * 0x10000
        + image[off + 3] as u32 * 0x1000000
}

/// `s` with every trailing `0x20` byte removed.
pub open spec fn strip_trailing_pad(s: Seq<u8>) -> Seq<u8>
    decreases s.len(),
{
    if s.len() == 0 {
        s
    } else if s.last() == 0x20 {
        strip_trailing_pad(s.drop_last())
    } else {
        s
    }
}

/// Copy the `len` bytes at `off`, with trailing `0x20` padding removed.
pub fn strip_padded(image: &[u8], off: usize, len: usize) -> (r: Vec<u8>)
    requires
        off + len <= image@.len(),
    ensures
        r@ == strip_trailing_pad(image@.subrange(off as int, off + len)),
{
    let total: usize = image.len();
    let ghost s = image@.subrange(off as int, off as int + len as int);
    proof {
        assert(s.take(len as int) =~= s);
    }
    let mut n: usize = len;
    while n > 0 && image[off + n - 1] == 0x20
        invariant
            n <= len,
            off + len <= total,
            total == image@.len(),
            s == image@.subrange(off as int, off + len),
            strip_trailing_pad(s) == strip_trailing_pad(s.take(n as int)),
        decreases n,
    {
        proof {
            assert(s.take(n as int).last() == s[n - 1]);
            assert(s.take(n as int).drop_last() =~= s.take(n - 1));
        }
        n = n - 1;
    }
    proof {
        if n > 0 {
            assert(s.take(n as int).last() == s[n - 1]);
        }
        assert(strip_trailing_pad(s.take(n as int)) == s.take(n as int));
    }
    let mut r: Vec<u8> = Vec::new();
    let mut k: usize = 0;
    while k < n
        invariant
            k <= n,
            n <= len,
            off + len <= total,
            total == image@.len(),
            s == image@.subrange(off as int, off + len),
            r@.len() == k,
            forall|j: int| 0 <= j < k ==> r@[j] == s[j],
        decreases n - k,
    {
        let b = image[off + k];
        r.push(b);
        k = k + 1;
    }
    proof {
        assert(r@ =~= s.take(n as int));
    }
    r
}

/// A byte as it appears in a content preview: kept when in the printable
/// range `[32, 126]`, replaced by a space otherwise.
pub open spec fn printable_or_space(b: u8) -> u8 {
    if 32 <= b && b <= 126 {
        b
    } else {
        32
    }
}

/// The `n` bytes at `off`, each mapped through `printable_or_space`.
pub open spec fn preview_of(img: Seq<u8>, off: int, n: int) -> Seq<u8>
    recommends
        0 <= off,
        0 <= n,
        off + n <= img.len(),
{
    img.subrange(off, off + n).map_values(|b: u8| printable_or_space(b))
}

/// Copy the `n` bytes at `off`, mapping each through `printable_or_space`.
pub fn read_preview(image: &[u8], off: usize, n: usize) -> (r: Vec<u8>)
    requires
        off + n <= image@.len(),
    ensures
        r@ == preview_of(image@, off as int, n as int),
{
    let total: usize = image.len();
    let mut r: Vec<u8> = Vec::new();
    let mut k: usize = 0;
    while k < n
        invariant
            k <= n,
            off + n <= total,
            total == image@.len(),
            r@.len() == k,
            forall|j: int| 0 <= j < k ==> r@[j] == printable_or_space(image@[off + j]),
        decreases n - k,
    {
        let b = image[off + k];
        if 32 <= b && b <= 126 {
            r.push(b);
        } else {
            r.push(32);
        }
        k = k + 1;
    }
    proof {
        assert(r@ =~= preview_of(image@, off as int, n as int));
    }
    r
}

} // verus!
