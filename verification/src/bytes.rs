//! Little/big endian integer encodings and small byte-sequence helpers.

use vstd::prelude::*;
use vstd::utf8::encode_utf8;

verus! {

/// Little-endian encoding of a 16-bit value.
pub open spec fn u16_le(x: u16) -> Seq<u8> {
    seq![(x % 256) as u8, (x / 256) as u8]
}

/// Big-endian encoding of a 16-bit value.
pub open spec fn u16_be(x: u16) -> Seq<u8> {
    seq![(x / 256) as u8, (x % 256) as u8]
}

/// Little-endian encoding of a 32-bit value.
pub open spec fn u32_le(x: u32) -> Seq<u8> {
    seq![
        (x % 256) as u8,
        ((x / 256) % 256) as u8,
        ((x / 65536) % 256) as u8,
        (x / 16777216) as u8,
    ]
}

/// Little-endian encoding of a 64-bit value.
pub open spec fn u64_le(x: u64) -> Seq<u8> {
    u32_le((x % 0x1_0000_0000) as u32) + u32_le((x / 0x1_0000_0000) as u32)
}

/// Big-endian encoding of a 32-bit value.
pub open spec fn u32_be(x: u32) -> Seq<u8> {
    seq![
        (x / 16777216) as u8,
        ((x / 65536) % 256) as u8,
        ((x / 256) % 256) as u8,
        (x % 256) as u8,
    ]
}

/// The 16-bit little-endian value stored at `s[i..i + 2]`.
pub open spec fn le_u16_at(s: Seq<u8>, i: int) -> u16 {
    (s[i] + 256 * s[i + 1]) as u16
}

/// The 16-bit big-endian value stored at `s[i..i + 2]`.
pub open spec fn be_u16_at(s: Seq<u8>, i: int) -> u16 {
    (256 * s[i] + s[i + 1]) as u16
}

/// The 32-bit little-endian value stored at `s[i..i + 4]`.
pub open spec fn le_u32_at(s: Seq<u8>, i: int) -> u32 {
    (s[i] + 256 * s[i + 1] + 65536 * s[i + 2] + 16777216 * s[i + 3]) as u32
}

/// `needle` occurs as a contiguous run inside `hay`.
pub open spec fn contains_run(hay: Seq<u8>, needle: Seq<u8>) -> bool {
    exists|k: int| 0 <= k && k + needle.len() <= hay.len() && #[trigger] hay.subrange(k, k + needle.len()) == needle
}

/// Reading back a 16-bit encoding gives the value encoded.
pub proof fn lemma_u16_le_roundtrip(x: u16)
    ensures
        le_u16_at(u16_le(x), 0) == x,
        be_u16_at(u16_be(x), 0) == x,
{
}

/// Reading back a 32-bit little-endian encoding gives the value encoded.
pub proof fn lemma_u32_le_roundtrip(x: u32)
    ensures
        le_u32_at(u32_le(x), 0) == x,
{
    let a = x % 256;
    let b = (x / 256) % 256;
    let c = (x / 65536) % 256;
    let d = x / 16777216;
    assert(x == a + 256 * b + 65536 * c + 16777216 * d) by (nonlinear_arith)
        requires
            a == x % 256,
            b == (x / 256) % 256,
            c == (x / 65536) % 256,
            d == x / 16777216,
    ;
}

/// Appends the little-endian bytes of `x`.
pub fn push_u16_le(v: &mut Vec<u8>, x: u16)
    ensures
        final(v)@ == old(v)@ + u16_le(x),
{
    assert((x & 0xff) == x % 256) by (bit_vector);
    assert((x >> 8u16) == x / 256) by (bit_vector);
    v.push((x & 0xff) as u8);
    v.push((x >> 8u16) as u8);
    assert(v@ =~= old(v)@ + u16_le(x));
}

/// Appends the big-endian bytes of `x`.
pub fn push_u16_be(v: &mut Vec<u8>, x: u16)
    ensures
        final(v)@ == old(v)@ + u16_be(x),
{
    assert((x & 0xff) == x % 256) by (bit_vector);
    assert((x >> 8u16) == x / 256) by (bit_vector);
    v.push((x >> 8u16) as u8);
    v.push((x & 0xff) as u8);
    assert(v@ =~= old(v)@ + u16_be(x));
}

/// Appends the little-endian bytes of `x`.
pub fn push_u32_le(v: &mut Vec<u8>, x: u32)
    ensures
        final(v)@ == old(v)@ + u32_le(x),
{
    assert((x & 0xff) == x % 256) by (bit_vector);
    assert(((x >> 8u32) & 0xff) == (x / 256) % 256) by (bit_vector);
    assert(((x >> 16u32) & 0xff) == (x / 65536) % 256) by (bit_vector);
    assert((x >> 24u32) == x / 16777216) by (bit_vector);
    v.push((x & 0xff) as u8);
    v.push(((x >> 8u32) & 0xff) as u8);
    v.push(((x >> 16u32) & 0xff) as u8);
    v.push((x >> 24u32) as u8);
    assert(v@ =~= old(v)@ + u32_le(x));
}

/// Appends the little-endian bytes of `x`.
pub fn push_u64_le(v: &mut Vec<u8>, x: u64)
    ensures
        final(v)@ == old(v)@ + u64_le(x),
{
    assert((x & 0xffff_ffff) == x % 0x1_0000_0000 && (x >> 32u64) == x / 0x1_0000_0000) by (bit_vector);
    let ghost start = v@;
    push_u32_le(v, (x & 0xffff_ffff) as u32);
    push_u32_le(v, (x >> 32u64) as u32);
    assert(v@ =~= start + u64_le(x));
}

/// Appends the big-endian bytes of `x`.
pub fn push_u32_be(v: &mut Vec<u8>, x: u32)
    ensures
        final(v)@ == old(v)@ + u32_be(x),
{
    assert((x & 0xff) == x % 256) by (bit_vector);
    assert(((x >> 8u32) & 0xff) == (x / 256) % 256) by (bit_vector);
    assert(((x >> 16u32) & 0xff) == (x / 65536) % 256) by (bit_vector);
    assert((x >> 24u32) == x / 16777216) by (bit_vector);
    v.push((x >> 24u32) as u8);
    v.push(((x >> 16u32) & 0xff) as u8);
    v.push(((x >> 8u32) & 0xff) as u8);
    v.push((x & 0xff) as u8);
    assert(v@ =~= old(v)@ + u32_be(x));
}

/// Appends every byte of `src`.
pub fn push_all(v: &mut Vec<u8>, src: &[u8])
    ensures
        final(v)@ == old(v)@ + src@,
{
    let mut i: usize = 0;
    while i < src.len()
        invariant
            i <= src@.len(),
            v@ == old(v)@ + src@.subrange(0, i as int),
        decreases src@.len() - i,
    {
        v.push(src[i]);
        i = i + 1;
        assert(v@ =~= old(v)@ + src@.subrange(0, i as int));
    }
    assert(src@.subrange(0, src@.len() as int) =~= src@);
}

/// Reads the little-endian 16-bit value at `b[i..i + 2]`.
pub fn read_u16_le(b: &[u8], i: usize) -> (r: u16)
    requires
        i + 2 <= b@.len(),
    ensures
        r == le_u16_at(b@, i as int),
{
    let lo = b[i] as u16;
    let hi = b[i + 1] as u16;
    (lo + hi * 256) as u16
}

/// Reads the big-endian 16-bit value at `b[i..i + 2]`.
pub fn read_u16_be(b: &[u8], i: usize) -> (r: u16)
    requires
        i + 2 <= b@.len(),
    ensures
        r == be_u16_at(b@, i as int),
{
    let hi = b[i] as u16;
    let lo = b[i + 1] as u16;
    (hi * 256 + lo) as u16
}

/// Reads the little-endian 32-bit value at `b[i..i + 4]`.
pub fn read_u32_le(b: &[u8], i: usize) -> (r: u32)
    requires
        i + 4 <= b@.len(),
    ensures
        r == le_u32_at(b@, i as int),
{
    let b0 = b[i] as u32;
    let b1 = b[i + 1] as u32;
    let b2 = b[i + 2] as u32;
    let b3 = b[i + 3] as u32;
    b0 + 256 * b1 + 65536 * b2 + 16777216 * b3
}

/// Byte-wise equality of two slices.
pub fn bytes_eq(a: &[u8], b: &[u8]) -> (r: bool)
    ensures
        r == (a@ == b@),
{
    if a.len() != b.len() {
        return false;
    }
    let mut i: usize = 0;
    while i < a.len()
        invariant
            i <= a@.len(),
            a@.len() == b@.len(),
            forall|k: int| 0 <= k < i ==> a@[k] == b@[k],
        decreases a@.len() - i,
    {
        if a[i] != b[i] {
            return false;
        }
        i = i + 1;
    }
    assert(a@ =~= b@);
    true
}

/// Does `needle` occur as a contiguous run of bytes in `hay`?
pub fn find_run(hay: &[u8], needle: &[u8]) -> (r: bool)
    ensures
        r == contains_run(hay@, needle@),
{
    if needle.len() > hay.len() {
        return false;
    }
    if needle.len() == 0 {
        assert(hay@.subrange(0int, 0int + needle@.len()) =~= needle@);
        return true;
    }
    let n = hay.len();
    let last = n - needle.len();
    let mut k: usize = 0;
    while k < last + 1
        invariant
            n == hay@.len(),
            last + needle@.len() == hay@.len(),
            needle@.len() > 0,
            k <= last + 1,
            forall|j: int| 0 <= j < k ==> #[trigger] hay@.subrange(j, j + needle@.len()) != needle@,
        decreases last + 1 - k,
    {
        let mut m: usize = 0;
        let mut same = true;
        while m < needle.len()
            invariant
                k <= last,
                n == hay@.len(),
                last + needle@.len() == hay@.len(),
                m <= needle@.len(),
                same == (forall|t: int| 0 <= t < m ==> hay@[k + t] == needle@[t]),
            decreases needle@.len() - m,
        {
            assert(k + m < hay@.len());
            if hay[k + m] != needle[m] {
                same = false;
            }
            m = m + 1;
        }
        if same {
            assert(hay@.subrange(k as int, k + needle@.len()) =~= needle@);
            return true;
        }
        assert(hay@.subrange(k as int, k + needle@.len()) != needle@) by {
            let t = choose|t: int| 0 <= t < needle@.len() && hay@[k + t] != needle@[t];
            assert(hay@.subrange(k as int, k + needle@.len())[t] == hay@[k + t]);
        }
        k = k + 1;
    }
    assert forall|j: int| 0 <= j && j + needle@.len() <= hay@.len() implies #[trigger] hay@.subrange(j, j + needle@.len()) != needle@ by {
        assert(j < k);
    }
    false
}


/// `s` with `t` written over it from offset `off`.
pub open spec fn splice(s: Seq<u8>, off: int, t: Seq<u8>) -> Seq<u8> {
    s.subrange(0, off) + t + s.subrange(off + t.len(), s.len() as int)
}

/// Writes `src` over `v` from offset `off`.
pub fn overwrite(v: &mut Vec<u8>, off: usize, src: &[u8])
    requires
        off + src@.len() <= old(v)@.len(),
    ensures
        final(v)@ == splice(old(v)@, off as int, src@),
{
    let n = src.len();
    let total = v.len();
    let mut k: usize = 0;
    while k < n
        invariant
            n == src@.len(),
            total == v@.len(),
            off + n <= v@.len(),
            k <= n,
            v@.len() == old(v)@.len(),
            v@ == splice(old(v)@, off as int, src@.subrange(0, k as int)),
        decreases n - k,
    {
        v[off + k] = src[k];
        k = k + 1;
        assert(v@ =~= splice(old(v)@, off as int, src@.subrange(0, k as int)));
    }
    assert(src@.subrange(0, n as int) =~= src@);
}


/// `needle` occurs in `hay` (as UTF-8 text).
pub open spec fn text_contains(hay: Seq<char>, needle: Seq<char>) -> bool {
    contains_run(encode_utf8(hay), encode_utf8(needle))
}

/// Does `needle` occur in `hay`? (`str::contains` with a string pattern.)
pub fn str_contains(hay: &str, needle: &str) -> (r: bool)
    ensures
        r == text_contains(hay@, needle@),
{
    find_run(hay.as_bytes(), needle.as_bytes())
}

} // verus!
