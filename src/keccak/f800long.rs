use vstd::prelude::*;
use crate::byte_order::{encode_words_le, words_le_bytes, lemma_words_le_bytes_len};
use crate::keccak::f800round::{keccak_progpow_permute, keccak_progpow_state};

verus! {

/// The 32-byte digest: state words 0..8, each little-endian.
pub open spec fn keccak_f800_long_spec(header_hash: Seq<u8>, nonce: u64, result: Seq<u32>) -> Seq<u8> {
    words_le_bytes(keccak_progpow_state(header_hash, nonce, result).subrange(0, 8))
}

/// Derives the 32-byte ProgPoW digest from the first 32 bytes of the header
/// hash, the nonce and the first eight words of `result`.
pub fn keccak_f800_long(header_hash: &[u8], nonce: u64, result: &[u32]) -> (r: Vec<u8>)
    requires
        header_hash@.len() >= 32,
        result@.len() >= 8,
    ensures
        r@ == keccak_f800_long_spec(header_hash@, nonce, result@),
        r@.len() == 32,
{
    let st = keccak_progpow_permute(header_hash, nonce, result);
    let r = encode_words_le(&st, 8);
    proof {
        lemma_words_le_bytes_len(st@.subrange(0, 8));
    }
    r
}

} // verus!
