use vstd::prelude::*;
use crate::byte_order::{be_bytes, le_u64};
use crate::keccak::f800round::{keccak_progpow_permute, keccak_progpow_state};

verus! {

/// The 64-bit seed: state word 0 big-endian into bytes 4..8 and word 1
/// big-endian into bytes 0..4 of an 8-byte buffer, read as little-endian.
pub open spec fn keccak_f800_short_spec(header_hash: Seq<u8>, nonce: u64, result: Seq<u32>) -> u64 {
    let st = keccak_progpow_state(header_hash, nonce, result);
    le_u64(be_bytes(st[1]) + be_bytes(st[0]))
}

/// Derives the 64-bit ProgPoW seed from the first 32 bytes of the header
/// hash, the nonce and the first eight words of `result`.
pub fn keccak_f800_short(header_hash: &[u8], nonce: u64, result: &[u32]) -> (r: u64)
    requires
        header_hash@.len() >= 32,
        result@.len() >= 8,
    ensures
        r == keccak_f800_short_spec(header_hash@, nonce, result@),
{
    let st = keccak_progpow_permute(header_hash, nonce, result);
    let w0 = st[0];
    let w1 = st[1];
    let ret: [u8; 8] = [
        (w1 >> 24) as u8,
        (w1 >> 16) as u8,
        (w1 >> 8) as u8,
        w1 as u8,
        (w0 >> 24) as u8,
        (w0 >> 16) as u8,
        (w0 >> 8) as u8,
        w0 as u8,
    ];
    let r = (ret[0] as u64) | ((ret[1] as u64) << 8) | ((ret[2] as u64) << 16) | ((ret[3] as u64)
        << 24) | ((ret[4] as u64) << 32) | ((ret[5] as u64) << 40) | ((ret[6] as u64) << 48) | ((
    ret[7] as u64) << 56);
    assert(ret@ =~= be_bytes(w1) + be_bytes(w0));
    r
}

} // verus!
