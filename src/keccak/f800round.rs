use vstd::prelude::*;
use crate::basic_algorithm::{higher32, higher32_spec, lower32, lower32_spec, rotl32, rotl32_spec};
use crate::byte_order::le_word;

verus! {

/// Number of words in the Keccak-f[800] state.
pub const KECCAK_STATE_WORDS: usize = 25;

/// Round constants, one per round, added in the iota step.
pub const KECCAKF_RNDC: [u32; 24] = [
    0x00000001, 0x00008082, 0x0000808a, 0x80008000, 0x0000808b, 0x80000001, 0x80008081, 0x00008009,
    0x0000008a, 0x00000088, 0x80008009, 0x8000000a, 0x8000808b, 0x0000008b, 0x00008089, 0x00008003,
    0x00008002, 0x00000080, 0x0000800a, 0x8000000a, 0x80008081, 0x00008080, 0x80000001, 0x80008008,
];

/// Rotation offsets of the rho step, in the order of the pi walk.
pub const KECCAKF_ROTC: [u32; 24] = [
    1, 3, 6, 10, 15, 21, 28, 36, 45, 55, 2, 14, 27, 41, 56, 8, 25, 43, 62, 18, 39, 61, 20, 44,
];

/// Target words of the pi walk.
pub const KECCAKF_PILN: [usize; 24] = [
    10, 7, 11, 17, 18, 3, 5, 16, 8, 21, 24, 4, 15, 23, 19, 13, 12, 2, 20, 14, 22, 9, 6, 1,
];

/// XOR of the five words of column `c`.
pub open spec fn column_parity(st: Seq<u32>, c: int) -> u32 {
    st[c] ^ st[c + 5] ^ st[c + 10] ^ st[c + 15] ^ st[c + 20]
}

/// What theta XORs into every word of column `c`.
pub open spec fn theta_mask(st: Seq<u32>, c: int) -> u32 {
    column_parity(st, (c + 4) % 5) ^ rotl32_spec(column_parity(st, (c + 1) % 5), 1)
}

/// The theta step.
pub open spec fn theta_spec(st: Seq<u32>) -> Seq<u32> {
    Seq::new(25, |k: int| st[k] ^ theta_mask(st, k % 5))
}

/// The rho and pi steps as the in-place walk with one temporary: from step
/// `i` on, with `t` the word carried so far.
pub open spec fn rho_pi_walk(st: Seq<u32>, t: u32, i: nat) -> Seq<u32>
    decreases 24 - i,
{
    if i >= 24 {
        st
    } else {
        let j = KECCAKF_PILN@[i as int] as int;
        rho_pi_walk(st.update(j, rotl32_spec(t, KECCAKF_ROTC@[i as int])), st[j], i + 1)
    }
}

/// The rho and pi steps.
pub open spec fn rho_pi_spec(st: Seq<u32>) -> Seq<u32> {
    rho_pi_walk(st, st[1], 0)
}

/// The chi step: each word XOR (NOT next word AND the word after) in its row.
pub open spec fn chi_spec(st: Seq<u32>) -> Seq<u32> {
    Seq::new(
        25,
        |k: int|
            {
                let row = k - k % 5;
                st[k] ^ (!st[row + (k % 5 + 1) % 5] & st[row + (k % 5 + 2) % 5])
            },
    )
}

/// The iota step for round `r`.
pub open spec fn iota_spec(st: Seq<u32>, r: int) -> Seq<u32> {
    st.update(0, st[0] ^ KECCAKF_RNDC@[r])
}

/// One round of Keccak-f[800] with round index `r`.
pub open spec fn keccak_round_spec(st: Seq<u32>, r: int) -> Seq<u32> {
    iota_spec(chi_spec(rho_pi_spec(theta_spec(st))), r)
}

/// Rounds `0 .. n` applied in order.
pub open spec fn keccak_rounds(st: Seq<u32>, n: nat) -> Seq<u32>
    decreases n,
{
    if n == 0 {
        st
    } else {
        keccak_round_spec(keccak_rounds(st, (n - 1) as nat), n - 1)
    }
}

/// Theta: XORs into every word the parities of the two neighbouring columns.
fn theta(st: &mut [u32; 25])
    ensures
        final(st)@ == theta_spec(old(st)@),
{
    let ghost orig = st@;
    let mut bc = [0u32; 5];
    for i in 0..5
        invariant
            st@ == orig,
            forall|m: int| 0 <= m < i ==> bc@[m] == column_parity(orig, m),
    {
        bc[i] = st[i] ^ st[i + 5] ^ st[i + 10] ^ st[i + 15] ^ st[i + 20];
    }
    let mut d = [0u32; 5];
    for i in 0..5
        invariant
            st@ == orig,
            forall|m: int| 0 <= m < 5 ==> bc@[m] == column_parity(orig, m),
            forall|m: int| 0 <= m < i ==> d@[m] == theta_mask(orig, m),
    {
        d[i] = bc[(i + 4) % 5] ^ rotl32(bc[(i + 1) % 5], 1);
    }
    for k in 0..25
        invariant
            forall|m: int| 0 <= m < 5 ==> d@[m] == theta_mask(orig, m),
            st@.len() == 25,
            forall|m: int| 0 <= m < k ==> st@[m] == orig[m] ^ theta_mask(orig, m % 5),
            forall|m: int| k <= m < 25 ==> st@[m] == orig[m],
    {
        st[k] = st[k] ^ d[k % 5];
    }
    assert(st@ =~= theta_spec(orig));
}

/// Rho and pi: rotates each word and moves it to its target position.
fn rho_pi(st: &mut [u32; 25])
    ensures
        final(st)@ == rho_pi_spec(old(st)@),
{
    let ghost orig = st@;
    let mut t = st[1];
    for i in 0..24
        invariant
            st@.len() == 25,
            rho_pi_walk(st@, t, i as nat) == rho_pi_spec(orig),
    {
        let j = KECCAKF_PILN[i];
        assert(j < 25);
        let saved = st[j];
        st[j] = rotl32(t, KECCAKF_ROTC[i]);
        t = saved;
    }
}

/// Chi: the nonlinear step, row by row.
fn chi(st: &mut [u32; 25])
    ensures
        final(st)@ == chi_spec(old(st)@),
{
    let ghost orig = st@;
    for r in 0..5
        invariant
            st@.len() == 25,
            forall|m: int| 0 <= m < 5 * r ==> st@[m] == #[trigger] chi_spec(orig)[m],
            forall|m: int| 5 * r <= m < 25 ==> st@[m] == orig[m],
    {
        let j = 5 * r;
        let b0 = st[j];
        let b1 = st[j + 1];
        let b2 = st[j + 2];
        let b3 = st[j + 3];
        let b4 = st[j + 4];
        st[j] = b0 ^ (!b1 & b2);
        st[j + 1] = b1 ^ (!b2 & b3);
        st[j + 2] = b2 ^ (!b3 & b4);
        st[j + 3] = b3 ^ (!b4 & b0);
        st[j + 4] = b4 ^ (!b0 & b1);
        assert forall|m: int| j <= m < j + 5 implies st@[m] == #[trigger] chi_spec(orig)[m] by {
            assert(m % 5 == m - j);
            assert(m - m % 5 == j);
        }
    }
    assert(st@ =~= chi_spec(orig));
}

/// Applies one Keccak-f[800] round with round index `r` to the state:
/// theta, rho and pi, chi, then iota with round constant `r`.
pub fn keccak_f800_round(st: &mut [u32; 25], r: usize)
    requires
        r < 24,
    ensures
        final(st)@ == keccak_round_spec(old(st)@, r as int),
{
    theta(st);
    rho_pi(st);
    chi(st);
    st[0] = st[0] ^ KECCAKF_RNDC[r];
}


/// Number of rounds that the ProgPoW digests run: indices `0 ..= 21`, not the
/// full 24 of Keccak-f[800].
pub const PROGPOW_KECCAK_ROUNDS: usize = 22;

/// The state that both digests start from: eight little-endian words of the
/// header hash, the nonce's low and high words, eight words of `result`, and
/// zeros.
pub open spec fn keccak_absorb(header_hash: Seq<u8>, nonce: u64, result: Seq<u32>) -> Seq<u32> {
    Seq::new(
        25,
        |i: int|
            if i < 8 {
                le_word(header_hash.subrange(4 * i, 4 * i + 4))
            } else if i == 8 {
                lower32_spec(nonce)
            } else if i == 9 {
                higher32_spec(nonce)
            } else if i < 18 {
                result[i - 10]
            } else {
                0u32
            },
    )
}

/// The absorbed state after the ProgPoW rounds.
pub open spec fn keccak_progpow_state(header_hash: Seq<u8>, nonce: u64, result: Seq<u32>) -> Seq<
    u32,
> {
    keccak_rounds(keccak_absorb(header_hash, nonce, result), PROGPOW_KECCAK_ROUNDS as nat)
}

/// Builds the absorbed state and runs the ProgPoW rounds over it.
pub(crate) fn keccak_progpow_permute(header_hash: &[u8], nonce: u64, result: &[u32]) -> (st: [u32; 25])
    requires
        header_hash@.len() >= 32,
        result@.len() >= 8,
    ensures
        st@ == keccak_progpow_state(header_hash@, nonce, result@),
{
    let mut st = [0u32; 25];
    for i in 0..8
        invariant
            header_hash@.len() >= 32,
            result@.len() >= 8,
            st@.len() == 25,
            forall|m: int| 0 <= m < i ==> st@[m] == #[trigger] keccak_absorb(header_hash@, nonce, result@)[m],
            forall|m: int| i <= m < 25 ==> st@[m] == 0,
    {
        st[i] = (header_hash[4 * i] as u32) | ((header_hash[4 * i + 1] as u32) << 8) | ((
        header_hash[4 * i + 2] as u32) << 16) | ((header_hash[4 * i + 3] as u32) << 24);
        assert(header_hash@.subrange(4 * i, 4 * i + 4)[1] == header_hash@[4 * i + 1]);
        assert(header_hash@.subrange(4 * i, 4 * i + 4)[2] == header_hash@[4 * i + 2]);
        assert(header_hash@.subrange(4 * i, 4 * i + 4)[3] == header_hash@[4 * i + 3]);
    }
    st[8] = lower32(nonce);
    st[9] = higher32(nonce);
    for i in 0..8
        invariant
            header_hash@.len() >= 32,
            result@.len() >= 8,
            st@.len() == 25,
            forall|m: int| 0 <= m < 10 + i ==> st@[m] == #[trigger] keccak_absorb(header_hash@, nonce, result@)[m],
            forall|m: int| 10 + i <= m < 25 ==> st@[m] == 0,
    {
        st[10 + i] = result[i];
    }
    assert(st@ =~= keccak_absorb(header_hash@, nonce, result@));
    let ghost st0 = st@;
    for r in 0..PROGPOW_KECCAK_ROUNDS
        invariant
            st@ == keccak_rounds(st0, r as nat),
    {
        keccak_f800_round(&mut st, r);
    }
    st
}

} // verus!
