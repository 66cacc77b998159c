//! Little- and big-endian views of 32-bit words, and the byte order calls
//! that the library makes into `byteorder`.
use vstd::prelude::*;
use byteorder::{ByteOrder, LittleEndian};

verus! {

/// The word whose little-endian bytes are `b[0..4]`.
pub open spec fn le_word(b: Seq<u8>) -> u32 {
    (b[0] as u32) | ((b[1] as u32) << 8u32) | ((b[2] as u32) << 16u32) | ((b[3] as u32) << 24u32)
}

/// The four bytes of `w`, least significant first.
pub open spec fn le_bytes(w: u32) -> Seq<u8> {
    seq![w as u8, (w >> 8u32) as u8, (w >> 16u32) as u8, (w >> 24u32) as u8]
}

/// The four bytes of `w`, most significant first.
pub open spec fn be_bytes(w: u32) -> Seq<u8> {
    seq![(w >> 24u32) as u8, (w >> 16u32) as u8, (w >> 8u32) as u8, w as u8]
}

/// The 64-bit integer whose little-endian bytes are `b[0..8]`.
pub open spec fn le_u64(b: Seq<u8>) -> u64 {
    (b[0] as u64) | ((b[1] as u64) << 8u64) | ((b[2] as u64) << 16u64) | ((b[3] as u64) << 24u64)
        | ((b[4] as u64) << 32u64) | ((b[5] as u64) << 40u64) | ((b[6] as u64) << 48u64) | ((
    b[7] as u64) << 56u64)
}

/// The words of `ws` laid out one after another, each little-endian.
pub open spec fn words_le_bytes(ws: Seq<u32>) -> Seq<u8>
    decreases ws.len(),
{
    if ws.len() == 0 {
        Seq::empty()
    } else {
        words_le_bytes(ws.drop_last()) + le_bytes(ws.last())
    }
}

/// `words_le_bytes` has four bytes per word.
pub proof fn lemma_words_le_bytes_len(ws: Seq<u32>)
    ensures
        words_le_bytes(ws).len() == 4 * ws.len(),
    decreases ws.len(),
{
    if ws.len() > 0 {
        lemma_words_le_bytes_len(ws.drop_last());
    }
}

/// Relies on `byteorder::LittleEndian::read_u32`, which reads `buf[..4]` as a
/// little-endian word; it panics only when fewer than four bytes are given.
#[verifier::external_body]
pub(crate) fn read_u32_le(buf: &[u8], off: usize) -> (r: u32)
    requires
        off + 4 <= buf@.len(),
    ensures
        r == le_word(buf@.subrange(off as int, off + 4)),
{
    LittleEndian::read_u32(&buf[off..])
}

/// Relies on `byteorder::LittleEndian::write_u32`, which copies the four
/// little-endian bytes of `n` into `buf[..4]` and leaves the rest; it panics
/// only when fewer than four bytes are given.
#[verifier::external_body]
pub(crate) fn write_u32_le(buf: &mut Vec<u8>, off: usize, n: u32)
    requires
        off + 4 <= old(buf)@.len(),
    ensures
        final(buf)@ == old(buf)@.subrange(0, off as int) + le_bytes(n) + old(buf)@.subrange(
            off + 4,
            old(buf)@.len() as int,
        ),
{
    LittleEndian::write_u32(&mut buf[off..], n)
}

/// Lays out the first `n` words of `ws` as little-endian bytes.
pub(crate) fn encode_words_le(ws: &[u32], n: usize) -> (r: Vec<u8>)
    requires
        n <= ws@.len(),
        4 * n <= usize::MAX,
    ensures
        r@ == words_le_bytes(ws@.subrange(0, n as int)),
{
    let mut out: Vec<u8> = vec![0u8; 4 * n];
    for i in 0..n
        invariant
            n <= ws@.len(),
            4 * n <= usize::MAX,
            out@.len() == 4 * n,
            out@.subrange(0, 4 * i) == words_le_bytes(ws@.subrange(0, i as int)),
    {
        let ghost before = out@;
        write_u32_le(&mut out, 4 * i, ws[i]);
        proof {
            let pre = ws@.subrange(0, i + 1);
            assert(pre.drop_last() =~= ws@.subrange(0, i as int));
            assert(out@.subrange(0, 4 * i) =~= before.subrange(0, 4 * i));
            assert(out@.subrange(0, 4 * (i + 1)) =~= out@.subrange(0, 4 * i) + le_bytes(ws@[i as int]));
        }
    }
    assert(out@.subrange(0, 4 * n) =~= out@);
    out
}

} // verus!
