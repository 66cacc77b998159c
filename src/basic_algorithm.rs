use vstd::prelude::*;
use crate::byte_order::{le_word, read_u32_le};

verus! {

/// Total number of bytes in the ProgPoW cache.
pub const PROGPOW_CACHE_BYTES: usize = 16 * 1024;

/// Total number of 32-bit words in the ProgPoW cache.
pub const PROGPOW_CACHE_WORDS: usize = PROGPOW_CACHE_BYTES / 4;

/// Number of parallel lanes in ProgPoW.
pub const PROGPOW_LANES: usize = 16;

/// Number of registers in each lane.
pub const PROGPOW_REGS: usize = 32;

/// Number of DAG loads performed per loop.
pub const PROGPOW_DAG_LOADS: usize = 4;

/// Number of cache accesses per loop.
pub const PROGPOW_CNT_CACHE: usize = 11;

/// Number of mathematical operations per loop.
pub const PROGPOW_CNT_MATH: usize = 18;

/// Number of DAG accesses per computation.
pub const PROGPOW_CNT_DAG: usize = 64;

/// Number of bytes in the ProgPoW mix buffer.
pub const PROGPOW_MIX_BYTES: usize = 256;

/// Length of the period for block processing.
pub const PROGPOW_PERIOD_LENGTH: u64 = 0xffff_ffff_ffff_ffff;

/// FNV-1a offset basis, the starting value of every FNV accumulator.
pub const FNV_OFFSET_BASIS: u32 = 0x811c9dc5;

/// FNV-1a prime.
pub const FNV_PRIME: u32 = 0x1000193;

/// State of the KISS99 generator: two multiply-with-carry generators (`z`,
/// `w`), a xor-shift generator (`jsr`) and a congruential one (`jcong`).
#[derive(Clone, Copy, Debug, PartialEq, Eq, Structural)]
pub struct Kiss99State {
    pub z: u32,
    pub w: u32,
    pub jsr: u32,
    pub jcong: u32,
}

impl Default for Kiss99State {
    fn default() -> (r: Kiss99State)
        ensures
            r == (Kiss99State { z: 0, w: 0, jsr: 0, jcong: 0 }),
    {
        Kiss99State { z: 0, w: 0, jsr: 0, jcong: 0 }
    }
}

/// One FNV-1a step: `(h ^ d) * FNV_PRIME`, wrapping at 32 bits.
pub open spec fn fnv1a_spec(h: u32, d: u32) -> u32 {
    (h ^ d).wrapping_mul(FNV_PRIME)
}

/// The generator state after one draw.
pub open spec fn kiss99_next(st: Kiss99State) -> Kiss99State {
    let z = (36969 * (st.z & 65535) + (st.z >> 16)) as u32;
    let w = (18000 * (st.w & 65535) + (st.w >> 16)) as u32;
    let j1 = st.jsr ^ (st.jsr << 17u32);
    let j2 = j1 ^ (j1 >> 13u32);
    let jsr = j2 ^ (j2 << 5u32);
    let jcong = st.jcong.wrapping_mul(69069).wrapping_add(1234567);
    Kiss99State { z, w, jsr, jcong }
}

/// The value drawn, computed from the state that the draw left behind.
pub open spec fn kiss99_value(next: Kiss99State) -> u32 {
    let mwc = (next.z << 16u32).wrapping_add(next.w);
    (mwc ^ next.jcong).wrapping_add(next.jsr)
}

/// The generator state after `n` draws.
pub open spec fn kiss99_advance(st: Kiss99State, n: nat) -> Kiss99State
    decreases n,
{
    if n == 0 {
        st
    } else {
        kiss99_next(kiss99_advance(st, (n - 1) as nat))
    }
}

/// The first `n` values drawn from `st`, in order.
pub open spec fn kiss99_draws(st: Kiss99State, n: nat) -> Seq<u32>
    decreases n,
{
    if n == 0 {
        Seq::empty()
    } else {
        kiss99_draws(st, (n - 1) as nat).push(kiss99_value(kiss99_advance(st, n)))
    }
}

/// Left rotation of a 32-bit word by `n mod 32` bits.
pub open spec fn rotl32_spec(x: u32, n: u32) -> u32 {
    let s = n % 32;
    if s == 0 {
        x
    } else {
        (x << s) | (x >> ((32 - s) as u32))
    }
}

/// Right rotation of a 32-bit word by `n mod 32` bits.
pub open spec fn rotr32_spec(x: u32, n: u32) -> u32 {
    let s = n % 32;
    if s == 0 {
        x
    } else {
        (x >> s) | (x << ((32 - s) as u32))
    }
}

/// Computes one FNV-1a step on the accumulator `h` and returns its new value.
pub fn fnv1a(h: &mut u32, d: u32) -> (r: u32)
    ensures
        *final(h) == fnv1a_spec(*old(h), d),
        r == *final(h),
{
    *h = (*h ^ d).wrapping_mul(FNV_PRIME);
    *h
}

/// Draws the next 32-bit value from the KISS99 generator.
pub fn kiss99(st: &mut Kiss99State) -> (r: u32)
    ensures
        *final(st) == kiss99_next(*old(st)),
        r == kiss99_value(*final(st)),
{
    let z = st.z;
    let w = st.w;
    assert(z & 65535 <= 65535 && z >> 16 <= 65535) by (bit_vector);
    assert(w & 65535 <= 65535 && w >> 16 <= 65535) by (bit_vector);
    st.z = 36969 * (z & 65535) + (z >> 16);
    st.w = 18000 * (w & 65535) + (w >> 16);
    let mwc = (st.z << 16).wrapping_add(st.w);
    st.jsr ^= st.jsr.wrapping_shl(17);
    st.jsr ^= st.jsr.wrapping_shr(13);
    st.jsr ^= st.jsr.wrapping_shl(5);
    st.jcong = st.jcong.wrapping_mul(69069).wrapping_add(1234567);
    (mwc ^ st.jcong).wrapping_add(st.jsr)
}

/// The lower 32 bits of a 64-bit integer.
pub fn lower32(n: u64) -> (r: u32)
    ensures
        r == n % 0x1_0000_0000,
{
    assert(n as u32 == n % 0x1_0000_0000) by (bit_vector);
    n as u32
}

/// The higher 32 bits of a 64-bit integer.
pub fn higher32(n: u64) -> (r: u32)
    ensures
        r == n / 0x1_0000_0000,
{
    assert(n >> 32 == n / 0x1_0000_0000) by (bit_vector);
    (n >> 32) as u32
}

/// Rotates `x` left by `n mod 32` bits.
pub fn rotl32(x: u32, n: u32) -> (r: u32)
    ensures
        r == rotl32_spec(x, n),
{
    let s = n % 32;
    if s == 0 {
        x
    } else {
        (x << s) | (x >> (32 - s))
    }
}

/// Rotates `x` right by `n mod 32` bits; the amount is reduced modulo 32
/// before rotating.
pub fn rotr32(x: u32, n: u32) -> (r: u32)
    ensures
        r == rotr32_spec(x, n),
{
    let s = n % 32;
    if s == 0 {
        x
    } else {
        (x >> s) | (x << (32 - s))
    }
}


/// The lower 32 bits of `n`.
pub open spec fn lower32_spec(n: u64) -> u32 {
    (n % 0x1_0000_0000) as u32
}

/// The higher 32 bits of `n`.
pub open spec fn higher32_spec(n: u64) -> u32 {
    (n / 0x1_0000_0000) as u32
}

/// Generator state of a lane: four FNV-1a steps from the offset basis over
/// the seed's low word, its high word, and the lane id twice.
pub open spec fn lane_rng_init(seed: u64, lane_id: u32) -> Kiss99State {
    let z = fnv1a_spec(FNV_OFFSET_BASIS, lower32_spec(seed));
    let w = fnv1a_spec(z, higher32_spec(seed));
    let jsr = fnv1a_spec(w, lane_id);
    let jcong = fnv1a_spec(jsr, lane_id);
    Kiss99State { z, w, jsr, jcong }
}

/// Initial registers of a lane: the first `PROGPOW_REGS` draws of its generator.
pub open spec fn fill_mix_spec(seed: u64, lane_id: u32) -> Seq<u32> {
    kiss99_draws(lane_rng_init(seed, lane_id), PROGPOW_REGS as nat)
}

/// Number of set bits among the lowest `n` bits of `x`.
pub open spec fn count_ones_below(x: u32, n: nat) -> u32
    decreases n,
{
    if n == 0 {
        0
    } else {
        (count_ones_below(x, (n - 1) as nat) + ((x >> ((n - 1) as u32)) & 1)) as u32
    }
}

/// Number of set bits of `x`.
pub open spec fn count_ones_spec(x: u32) -> u32 {
    count_ones_below(x, 32)
}

/// The operation that `progpow_math` applies, selected by `r mod 11`.
pub open spec fn progpow_math_spec(a: u32, b: u32, r: u32) -> u32 {
    let op = r % 11;
    if op == 0 {
        a.wrapping_add(b)
    } else if op == 1 {
        a.wrapping_mul(b)
    } else if op == 2 {
        ((a as int * b as int) / 0x1_0000_0000) as u32
    } else if op == 3 {
        if a < b {
            a
        } else {
            b
        }
    } else if op == 4 {
        rotl32_spec(a, b)
    } else if op == 5 {
        rotr32_spec(a, b)
    } else if op == 6 {
        a & b
    } else if op == 7 {
        a | b
    } else if op == 8 {
        a ^ b
    } else if op == 9 {
        (a.leading_zeros() + b.leading_zeros()) as u32
    } else {
        (count_ones_spec(a) + count_ones_spec(b)) as u32
    }
}

/// Rotation amount of the two rotating merge variants: always in `[1, 31]`.
pub open spec fn merge_rotation(r: u32) -> u32 {
    ((r >> 16u32) % 31 + 1) as u32
}

/// The value `merge` leaves in the destination, selected by `r mod 4`.
pub open spec fn merge_spec(a: u32, b: u32, r: u32) -> u32 {
    let op = r % 4;
    if op == 0 {
        a.wrapping_mul(33).wrapping_add(b)
    } else if op == 1 {
        (a ^ b).wrapping_mul(33)
    } else if op == 2 {
        rotl32_spec(a, merge_rotation(r)) ^ b
    } else {
        rotr32_spec(a, merge_rotation(r)) ^ b
    }
}

/// Generator state of the register sequences: four FNV-1a steps from the
/// offset basis over the seed's low, high, low and high words.
pub open spec fn seq_rng_init(seed: u64) -> Kiss99State {
    let z = fnv1a_spec(FNV_OFFSET_BASIS, lower32_spec(seed));
    let w = fnv1a_spec(z, higher32_spec(seed));
    let jsr = fnv1a_spec(w, lower32_spec(seed));
    let jcong = fnv1a_spec(jsr, higher32_spec(seed));
    Kiss99State { z, w, jsr, jcong }
}

/// `s` with positions `i` and `j` exchanged.
pub open spec fn swap_spec(s: Seq<u32>, i: int, j: int) -> Seq<u32> {
    s.update(i, s[j]).update(j, s[i])
}

/// The sequence `0, 1, ..., PROGPOW_REGS - 1`.
pub open spec fn identity_regs() -> Seq<u32> {
    Seq::new(PROGPOW_REGS as nat, |i: int| i as u32)
}

/// Generator state and (destination, source) sequences after the first `k`
/// steps of the Durstenfeld shuffle; step `k` works on position
/// `PROGPOW_REGS - k` and draws once for each sequence.
pub open spec fn shuffle_spec(seed: u64, k: nat) -> (Kiss99State, Seq<u32>, Seq<u32>)
    decreases k,
{
    if k == 0 {
        (seq_rng_init(seed), identity_regs(), identity_regs())
    } else {
        let prev = shuffle_spec(seed, (k - 1) as nat);
        let i = PROGPOW_REGS - k;
        let st1 = kiss99_next(prev.0);
        let j1 = kiss99_value(st1) % ((i + 1) as u32);
        let st2 = kiss99_next(st1);
        let j2 = kiss99_value(st2) % ((i + 1) as u32);
        (st2, swap_spec(prev.1, i, j1 as int), swap_spec(prev.2, i, j2 as int))
    }
}

/// What `progpow_init` returns: the generator state and the destination and
/// source sequences after the whole shuffle.
pub open spec fn progpow_init_spec(seed: u64) -> (Kiss99State, Seq<u32>, Seq<u32>) {
    shuffle_spec(seed, (PROGPOW_REGS - 1) as nat)
}

/// `s` is a permutation of `0 .. PROGPOW_REGS`.
pub open spec fn is_register_permutation(s: Seq<u32>) -> bool {
    &&& s.len() == PROGPOW_REGS
    &&& forall|i: int| 0 <= i < PROGPOW_REGS ==> #[trigger] s[i] < PROGPOW_REGS
    &&& forall|i: int, j: int|
        0 <= i < PROGPOW_REGS && 0 <= j < PROGPOW_REGS && i != j ==> #[trigger] s[i] != #[trigger] s[j]
}

/// Exchanging two positions keeps a permutation a permutation.
pub proof fn lemma_swap_keeps_permutation(s: Seq<u32>, i: int, j: int)
    requires
        is_register_permutation(s),
        0 <= i < PROGPOW_REGS,
        0 <= j < PROGPOW_REGS,
    ensures
        is_register_permutation(swap_spec(s, i, j)),
{
    let t = swap_spec(s, i, j);
    assert forall|a: int, b: int|
        0 <= a < PROGPOW_REGS && 0 <= b < PROGPOW_REGS && a != b implies #[trigger] t[a]
        != #[trigger] t[b] by {
        let sa = if a == j { i } else if a == i { j } else { a };
        let sb = if b == j { i } else if b == i { j } else { b };
        assert(t[a] == s[sa] && t[b] == s[sb]);
    }
}

/// Every step of the shuffle leaves both sequences permutations of
/// `0 .. PROGPOW_REGS`.
pub proof fn lemma_shuffle_permutation(seed: u64, k: nat)
    requires
        k <= PROGPOW_REGS - 1,
    ensures
        is_register_permutation(shuffle_spec(seed, k).1),
        is_register_permutation(shuffle_spec(seed, k).2),
    decreases k,
{
    if k > 0 {
        lemma_shuffle_permutation(seed, (k - 1) as nat);
        let prev = shuffle_spec(seed, (k - 1) as nat);
        let i = PROGPOW_REGS - k;
        let st1 = kiss99_next(prev.0);
        let st2 = kiss99_next(st1);
        lemma_swap_keeps_permutation(prev.1, i, (kiss99_value(st1) % ((i + 1) as u32)) as int);
        lemma_swap_keeps_permutation(prev.2, i, (kiss99_value(st2) % ((i + 1) as u32)) as int);
    }
}

/// The destination and source sequences that `progpow_init` derives from any
/// seed are permutations of `0 .. PROGPOW_REGS`: no register is missing and
/// none appears twice.
pub proof fn lemma_init_sequences_are_permutations(seed: u64)
    ensures
        is_register_permutation(progpow_init_spec(seed).1),
        is_register_permutation(progpow_init_spec(seed).2),
{
    lemma_shuffle_permutation(seed, (PROGPOW_REGS - 1) as nat);
}

/// Fills the registers of lane `lane_id` with the first draws of a generator
/// seeded from `seed` and `lane_id`.
pub fn fill_mix(seed: u64, lane_id: u32) -> (mix: [u32; PROGPOW_REGS])
    ensures
        mix@ == fill_mix_spec(seed, lane_id),
{
    let mut st = Kiss99State { z: 0, w: 0, jsr: 0, jcong: 0 };
    let mut mix = [0u32; PROGPOW_REGS];
    let mut fnv_hash: u32 = FNV_OFFSET_BASIS;
    st.z = fnv1a(&mut fnv_hash, lower32(seed));
    st.w = fnv1a(&mut fnv_hash, higher32(seed));
    st.jsr = fnv1a(&mut fnv_hash, lane_id);
    st.jcong = fnv1a(&mut fnv_hash, lane_id);
    let ghost st0 = st;
    assert(st0 == lane_rng_init(seed, lane_id));
    for i in 0..PROGPOW_REGS
        invariant
            st0 == lane_rng_init(seed, lane_id),
            st == kiss99_advance(st0, i as nat),
            mix@.len() == PROGPOW_REGS,
            mix@.subrange(0, i as int) == kiss99_draws(st0, i as nat),
    {
        let v = kiss99(&mut st);
        mix[i] = v;
        assert(mix@.subrange(0, i + 1) =~= mix@.subrange(0, i as int).push(v));
    }
    assert(mix@.subrange(0, PROGPOW_REGS as int) =~= mix@);
    mix
}

/// Counts the set bits of `x`.
fn count_ones(x: u32) -> (r: u32)
    ensures
        r == count_ones_spec(x),
        r <= 32,
{
    let mut c: u32 = 0;
    for i in 0..32u32
        invariant
            c == count_ones_below(x, i as nat),
            c <= i,
    {
        let bit = (x >> i) & 1;
        assert(bit <= 1) by (bit_vector)
            requires
                bit == (x >> i) & 1,
        ;
        c = c + bit;
    }
    c
}

/// Applies one of eleven operations to `a` and `b`, chosen by `r mod 11`.
/// Defined on every input: all arithmetic wraps.
pub fn progpow_math(a: u32, b: u32, r: u32) -> (v: u32)
    ensures
        v == progpow_math_spec(a, b, r),
{
    broadcast use vstd::std_specs::bits::axiom_u32_leading_zeros;

    match r % 11 {
        0 => a.wrapping_add(b),
        1 => a.wrapping_mul(b),
        2 => {
            assert(a as int * b as int <= 0xffff_ffff * 0xffff_ffff) by (nonlinear_arith)
                requires
                    a <= 0xffff_ffff,
                    b <= 0xffff_ffff,
            ;
            higher32((a as u64) * (b as u64))
        },
        3 => {
            if a < b {
                a
            } else {
                b
            }
        },
        4 => rotl32(a, b),
        5 => rotr32(a, b),
        6 => a & b,
        7 => a | b,
        8 => a ^ b,
        9 => a.leading_zeros() + b.leading_zeros(),
        _ => count_ones(a) + count_ones(b),
    }
}

/// Folds `b` into `*a` with one of four variants chosen by `r mod 4`.
/// Defined on every input; the rotating variants rotate by
/// `merge_rotation(r)`, which is never 0.
pub fn merge(a: &mut u32, b: u32, r: u32)
    ensures
        *final(a) == merge_spec(*old(a), b, r),
{
    match r % 4 {
        0 => *a = (*a).wrapping_mul(33).wrapping_add(b),
        1 => *a = (*a ^ b).wrapping_mul(33),
        2 => *a = rotl32(*a, ((r >> 16) % 31) + 1) ^ b,
        _ => *a = rotr32(*a, ((r >> 16) % 31) + 1) ^ b,
    }
}

/// The rotation amount of `merge` lies in `[1, 31]`, so its rotating variants
/// always rotate by a nonzero amount modulo 32.
pub proof fn lemma_merge_rotation_nonzero(r: u32)
    ensures
        1 <= merge_rotation(r) <= 31,
        merge_rotation(r) % 32 != 0,
{
}

/// Derives the generator state and the destination and source register
/// sequences from `seed`: each sequence is a Durstenfeld shuffle of
/// `0 .. PROGPOW_REGS`. The returned state may be drawn from further.
pub fn progpow_init(seed: u64) -> (r: (Kiss99State, [u32; PROGPOW_REGS], [u32; PROGPOW_REGS]))
    ensures
        (r.0, r.1@, r.2@) == progpow_init_spec(seed),
        is_register_permutation(r.1@),
        is_register_permutation(r.2@),
{
    let mut rand_state = Kiss99State::default();
    let mut fnv_hash: u32 = FNV_OFFSET_BASIS;
    rand_state.z = fnv1a(&mut fnv_hash, lower32(seed));
    rand_state.w = fnv1a(&mut fnv_hash, higher32(seed));
    rand_state.jsr = fnv1a(&mut fnv_hash, lower32(seed));
    rand_state.jcong = fnv1a(&mut fnv_hash, higher32(seed));

    let mut dst_seq = [0u32; PROGPOW_REGS];
    let mut src_seq = [0u32; PROGPOW_REGS];
    for k in 0..PROGPOW_REGS
        invariant
            dst_seq@.len() == PROGPOW_REGS,
            src_seq@.len() == PROGPOW_REGS,
            forall|m: int| 0 <= m < k ==> dst_seq@[m] == m && src_seq@[m] == m,
    {
        dst_seq[k] = k as u32;
        src_seq[k] = k as u32;
    }
    assert(dst_seq@ =~= identity_regs());
    assert(src_seq@ =~= identity_regs());

    let mut i: usize = PROGPOW_REGS - 1;
    while i > 0
        invariant
            i < PROGPOW_REGS,
            (rand_state, dst_seq@, src_seq@) == shuffle_spec(seed, (PROGPOW_REGS - 1 - i) as nat),
        decreases i,
    {
        let ghost k = (PROGPOW_REGS - i) as nat;
        let bound = i as u32 + 1;
        let j = (kiss99(&mut rand_state) % bound) as usize;
        let t = dst_seq[i];
        dst_seq[i] = dst_seq[j];
        dst_seq[j] = t;
        let j = (kiss99(&mut rand_state) % bound) as usize;
        let t = src_seq[i];
        src_seq[i] = src_seq[j];
        src_seq[j] = t;
        proof {
            assert(dst_seq@ =~= shuffle_spec(seed, k).1);
            assert(src_seq@ =~= shuffle_spec(seed, k).2);
        }
        i = i - 1;
    }
    proof {
        lemma_init_sequences_are_permutations(seed);
    }
    (rand_state, dst_seq, src_seq)
}


/// Why a ProgPoW computation was refused or could not finish.
#[derive(Clone, Copy, Debug, PartialEq, Eq, Structural)]
pub enum ProgPowError {
    /// The header hash is not 32 bytes long, or the cache holds fewer than
    /// `PROGPOW_CACHE_WORDS` words.
    InvalidInputLength,
    /// The dataset size gives no item, or more items than a 32-bit lookup
    /// index can address.
    ZeroOrInvalidDatasetSize,
    /// A lookup returned a chunk that is not 64 bytes long.
    LookupFailure,
}

/// Largest number of dataset items (of `PROGPOW_MIX_BYTES` bytes each): the
/// lookup index of every chunk of every item then fits in 32 bits.
pub const PROGPOW_MAX_DATASET_ITEMS: u32 = 0x3ff_ffff;

/// A lane's generator, registers, and the two counters that walk the source
/// and destination sequences, while the lane is mixed.
pub struct LaneMix {
    pub rng: Kiss99State,
    pub regs: Seq<u32>,
    pub src_counter: u32,
    pub dst_counter: u32,
}

/// The generator state and sequences that every lane starts from.
pub open spec fn lane_start(init: (Kiss99State, Seq<u32>, Seq<u32>), regs: Seq<u32>) -> LaneMix {
    LaneMix { rng: init.0, regs, src_counter: 0, dst_counter: 0 }
}

/// Draws once and merges `v` into the next destination register.
pub open spec fn merge_into_next_dst(s: LaneMix, v: u32, dst_seq: Seq<u32>) -> LaneMix {
    let dst = dst_seq[(s.dst_counter % 32) as int] as int;
    let rng = kiss99_next(s.rng);
    LaneMix {
        rng,
        regs: s.regs.update(dst, merge_spec(s.regs[dst], v, kiss99_value(rng))),
        src_counter: s.src_counter,
        dst_counter: (s.dst_counter + 1) as u32,
    }
}

/// A cache access: the next source register picks a cache word, which is
/// merged into the next destination register.
pub open spec fn cache_access_spec(s: LaneMix, init: (Kiss99State, Seq<u32>, Seq<u32>), c_dag: Seq<u32>) -> LaneMix {
    let src = init.2[(s.src_counter % 32) as int];
    let data32 = c_dag[(s.regs[src as int] % PROGPOW_CACHE_WORDS as u32) as int];
    merge_into_next_dst(
        LaneMix { src_counter: (s.src_counter + 1) as u32, ..s },
        data32,
        init.1,
    )
}

/// The two distinct source registers that a draw `r` selects.
pub open spec fn math_sources(r: u32) -> (u32, u32) {
    let src_rnd = r % 992;
    let src1 = src_rnd % 32;
    let q = src_rnd / 32;
    (src1, if q >= src1 { (q + 1) as u32 } else { q })
}

/// A random math operation on two distinct registers, merged into the next
/// destination register.
pub open spec fn random_math_spec(s: LaneMix, dst_seq: Seq<u32>) -> LaneMix {
    let st1 = kiss99_next(s.rng);
    let srcs = math_sources(kiss99_value(st1));
    let st2 = kiss99_next(st1);
    let data32 = progpow_math_spec(s.regs[srcs.0 as int], s.regs[srcs.1 as int], kiss99_value(st2));
    merge_into_next_dst(LaneMix { rng: st2, ..s }, data32, dst_seq)
}

/// Round `i` of the math loop: a cache access in the first
/// `PROGPOW_CNT_CACHE` rounds, then a random math operation.
pub open spec fn math_round_spec(s: LaneMix, i: nat, init: (Kiss99State, Seq<u32>, Seq<u32>), c_dag: Seq<u32>) -> LaneMix {
    let s1 = if i < PROGPOW_CNT_CACHE {
        cache_access_spec(s, init, c_dag)
    } else {
        s
    };
    random_math_spec(s1, init.1)
}

/// The first `n` rounds of the math loop.
pub open spec fn math_rounds_spec(s: LaneMix, n: nat, init: (Kiss99State, Seq<u32>, Seq<u32>), c_dag: Seq<u32>) -> LaneMix
    decreases n,
{
    if n == 0 {
        s
    } else {
        math_round_spec(math_rounds_spec(s, (n - 1) as nat, init, c_dag), (n - 1) as nat, init, c_dag)
    }
}

/// First word of the dataset item that lane `lane` reads in loop `loop_index`.
pub open spec fn dag_word_index(lane: u32, loop_index: u32) -> u32 {
    (((lane ^ loop_index) % PROGPOW_LANES as u32) * PROGPOW_DAG_LOADS as u32) as u32
}

/// The `PROGPOW_DAG_LOADS` little-endian words of `dag_item` that a lane reads.
pub open spec fn dag_words(dag_item: Seq<u8>, lane: u32, loop_index: u32) -> Seq<u32> {
    let idx = dag_word_index(lane, loop_index) as int;
    Seq::new(
        PROGPOW_DAG_LOADS as nat,
        |k: int| le_word(dag_item.subrange(4 * (idx + k), 4 * (idx + k) + 4)),
    )
}

/// A lane's registers after one loop: the math rounds, then the dataset words,
/// the first merged into register 0 and the others into the next destination
/// registers.
pub open spec fn mix_lane_spec(
    init: (Kiss99State, Seq<u32>, Seq<u32>),
    regs: Seq<u32>,
    lane: u32,
    loop_index: u32,
    dag_item: Seq<u8>,
    c_dag: Seq<u32>,
) -> Seq<u32> {
    let s = math_rounds_spec(lane_start(init, regs), PROGPOW_CNT_MATH as nat, init, c_dag);
    let w = dag_words(dag_item, lane, loop_index);
    let rng = kiss99_next(s.rng);
    let s1 = LaneMix { rng, regs: s.regs.update(0, merge_spec(s.regs[0], w[0], kiss99_value(rng))), ..s };
    let s2 = merge_into_next_dst(s1, w[1], init.1);
    let s3 = merge_into_next_dst(s2, w[2], init.1);
    let s4 = merge_into_next_dst(s3, w[3], init.1);
    s4.regs
}

/// The register matrix as a sequence of lanes.
pub open spec fn mix_view(mix: [[u32; PROGPOW_REGS]; PROGPOW_LANES]) -> Seq<Seq<u32>> {
    Seq::new(PROGPOW_LANES as nat, |l: int| mix@[l]@)
}

/// Every lane mixed once with the shared dataset item.
pub open spec fn mix_lanes_spec(
    init: (Kiss99State, Seq<u32>, Seq<u32>),
    mix: Seq<Seq<u32>>,
    loop_index: u32,
    dag_item: Seq<u8>,
    c_dag: Seq<u32>,
) -> Seq<Seq<u32>> {
    Seq::new(
        PROGPOW_LANES as nat,
        |l: int| mix_lane_spec(init, mix[l], l as u32, loop_index, dag_item, c_dag),
    )
}

/// `init` holds two register permutations.
pub open spec fn valid_init(init: (Kiss99State, Seq<u32>, Seq<u32>)) -> bool {
    is_register_permutation(init.1) && is_register_permutation(init.2)
}

/// Draws once and merges `v` into the register that `dst_seq` names next.
fn merge_next_dst(
    rng: &mut Kiss99State,
    regs: &mut [u32; PROGPOW_REGS],
    dst_counter: &mut u32,
    v: u32,
    dst_seq: &[u32; PROGPOW_REGS],
)
    requires
        is_register_permutation(dst_seq@),
        *old(dst_counter) < 64,
    ensures
        (LaneMix { rng: *final(rng), regs: final(regs)@, src_counter: 0, dst_counter: *final(dst_counter) })
            == merge_into_next_dst(
            LaneMix { rng: *old(rng), regs: old(regs)@, src_counter: 0, dst_counter: *old(dst_counter) },
            v,
            dst_seq@,
        ),
{
    let dst = dst_seq[(*dst_counter % PROGPOW_REGS as u32) as usize] as usize;
    *dst_counter = *dst_counter + 1;
    let r = kiss99(rng);
    let mut x = regs[dst];
    merge(&mut x, v, r);
    regs[dst] = x;
}

/// Mixes one lane's registers for one loop: `PROGPOW_CNT_MATH` rounds of cache
/// accesses and random math, then the lane's words of the dataset item.
fn mix_lane(
    regs: &mut [u32; PROGPOW_REGS],
    rand_state: Kiss99State,
    dst_seq: &[u32; PROGPOW_REGS],
    src_seq: &[u32; PROGPOW_REGS],
    lane: u32,
    loop_index: u32,
    dag_item: &[u8],
    c_dag: &[u32],
)
    requires
        valid_init((rand_state, dst_seq@, src_seq@)),
        dag_item@.len() == PROGPOW_MIX_BYTES,
        c_dag@.len() >= PROGPOW_CACHE_WORDS,
    ensures
        final(regs)@ == mix_lane_spec(
            (rand_state, dst_seq@, src_seq@),
            old(regs)@,
            lane,
            loop_index,
            dag_item@,
            c_dag@,
        ),
{
    let ghost init = (rand_state, dst_seq@, src_seq@);
    let ghost s0 = lane_start(init, regs@);
    let mut rng = rand_state;
    let mut src_counter: u32 = 0;
    let mut dst_counter: u32 = 0;
    for i in 0..PROGPOW_CNT_MATH
        invariant
            init == (rand_state, dst_seq@, src_seq@),
            valid_init(init),
            c_dag@.len() >= PROGPOW_CACHE_WORDS,
            src_counter <= i,
            dst_counter <= 2 * i,
            (LaneMix { rng, regs: regs@, src_counter, dst_counter }) == math_rounds_spec(
                s0,
                i as nat,
                init,
                c_dag@,
            ),
    {
        let ghost before = LaneMix { rng, regs: regs@, src_counter, dst_counter };
        let ghost s1 = if i < PROGPOW_CNT_CACHE {
            cache_access_spec(before, init, c_dag@)
        } else {
            before
        };
        if i < PROGPOW_CNT_CACHE {
            let src = src_seq[(src_counter % PROGPOW_REGS as u32) as usize];
            src_counter = src_counter + 1;
            let offset = regs[src as usize] % PROGPOW_CACHE_WORDS as u32;
            let data32 = c_dag[offset as usize];
            merge_next_dst(&mut rng, regs, &mut dst_counter, data32, dst_seq);
        }
        assert((LaneMix { rng, regs: regs@, src_counter, dst_counter }) == s1);
        let src_rnd = kiss99(&mut rng) % (PROGPOW_REGS * (PROGPOW_REGS - 1)) as u32;
        let src1 = src_rnd % PROGPOW_REGS as u32;
        let mut src2 = src_rnd / PROGPOW_REGS as u32;
        if src2 >= src1 {
            src2 = src2 + 1;
        }
        let r = kiss99(&mut rng);
        let data32 = progpow_math(regs[src1 as usize], regs[src2 as usize], r);
        merge_next_dst(&mut rng, regs, &mut dst_counter, data32, dst_seq);
    }
    let index = ((lane ^ loop_index) % PROGPOW_LANES as u32) * PROGPOW_DAG_LOADS as u32;
    assert(index <= 60);
    let w0 = read_u32_le(dag_item, (4 * index) as usize);
    let w1 = read_u32_le(dag_item, (4 * (index + 1)) as usize);
    let w2 = read_u32_le(dag_item, (4 * (index + 2)) as usize);
    let w3 = read_u32_le(dag_item, (4 * (index + 3)) as usize);
    assert(dag_words(dag_item@, lane, loop_index) =~= seq![w0, w1, w2, w3]);
    let r = kiss99(&mut rng);
    let mut x = regs[0];
    merge(&mut x, w0, r);
    regs[0] = x;
    merge_next_dst(&mut rng, regs, &mut dst_counter, w1, dst_seq);
    merge_next_dst(&mut rng, regs, &mut dst_counter, w2, dst_seq);
    merge_next_dst(&mut rng, regs, &mut dst_counter, w3, dst_seq);
}

/// Mixes every lane once with the shared 256-byte dataset item, starting each
/// lane from the generator state and the register sequences given.
pub fn progpow_mix_lanes(
    rand_state: Kiss99State,
    dst_seq: &[u32; PROGPOW_REGS],
    src_seq: &[u32; PROGPOW_REGS],
    loop_index: u32,
    mix: &mut [[u32; PROGPOW_REGS]; PROGPOW_LANES],
    dag_item: &[u8],
    c_dag: &[u32],
)
    requires
        valid_init((rand_state, dst_seq@, src_seq@)),
        dag_item@.len() == PROGPOW_MIX_BYTES,
        c_dag@.len() >= PROGPOW_CACHE_WORDS,
    ensures
        mix_view(*final(mix)) == mix_lanes_spec(
            (rand_state, dst_seq@, src_seq@),
            mix_view(*old(mix)),
            loop_index,
            dag_item@,
            c_dag@,
        ),
{
    let ghost orig = mix_view(*mix);
    for l in 0..PROGPOW_LANES
        invariant
            valid_init((rand_state, dst_seq@, src_seq@)),
            dag_item@.len() == PROGPOW_MIX_BYTES,
            c_dag@.len() >= PROGPOW_CACHE_WORDS,
            orig.len() == PROGPOW_LANES,
            forall|m: int| 0 <= m < l ==> mix@[m]@ == #[trigger] mix_lanes_spec(
                (rand_state, dst_seq@, src_seq@),
                orig,
                loop_index,
                dag_item@,
                c_dag@,
            )[m],
            forall|m: int| l <= m < PROGPOW_LANES ==> mix@[m]@ == #[trigger] orig[m],
    {
        let mut regs = mix[l];
        mix_lane(&mut regs, rand_state, dst_seq, src_seq, l as u32, loop_index, dag_item, c_dag);
        mix[l] = regs;
    }
    assert(mix_view(*mix) =~= mix_lanes_spec(
        (rand_state, dst_seq@, src_seq@),
        orig,
        loop_index,
        dag_item@,
        c_dag@,
    ));
}


/// Every chunk that `lookup` can return for index `i` is `d(i)`: `d` is the
/// dataset that `lookup` reads from.
pub open spec fn lookup_yields<F: Fn(u32) -> Vec<u8>>(lookup: F, d: spec_fn(u32) -> Seq<u8>) -> bool {
    forall|i: u32, v: Vec<u8>| #[trigger] lookup.ensures((i,), v) ==> v@ == d(i)
}

/// The first `k` chunks of the item at `g_offset`, concatenated; `None` when
/// one of them is not 64 bytes long.
pub open spec fn dag_chunks(d: spec_fn(u32) -> Seq<u8>, g_offset: u32, k: nat) -> Option<Seq<u8>>
    decreases k,
{
    if k == 0 {
        Some(Seq::empty())
    } else {
        match dag_chunks(d, g_offset, (k - 1) as nat) {
            Some(p) => {
                let c = d((g_offset * 64 + 16 * (k - 1)) as u32);
                if c.len() == 64 {
                    Some(p + c)
                } else {
                    None
                }
            },
            None => None,
        }
    }
}

/// The 256-byte dataset item at `g_offset`: four 64-byte chunks at
/// consecutive 16-word strides.
pub open spec fn dag_item_spec(d: spec_fn(u32) -> Seq<u8>, g_offset: u32) -> Option<Seq<u8>> {
    dag_chunks(d, g_offset, PROGPOW_DAG_LOADS as nat)
}

/// Once a chunk is missing, the item stays missing.
proof fn lemma_dag_chunks_none(d: spec_fn(u32) -> Seq<u8>, g_offset: u32, k: nat, n: nat)
    requires
        k <= n,
        dag_chunks(d, g_offset, k) is None,
    ensures
        dag_chunks(d, g_offset, n) is None,
    decreases n - k,
{
    if k < n {
        lemma_dag_chunks_none(d, g_offset, k, (n - 1) as nat);
    }
}

/// A present item is `PROGPOW_MIX_BYTES` long.
proof fn lemma_dag_chunks_len(d: spec_fn(u32) -> Seq<u8>, g_offset: u32, k: nat)
    ensures
        dag_chunks(d, g_offset, k) matches Some(p) ==> p.len() == 64 * k,
    decreases k,
{
    if k > 0 {
        lemma_dag_chunks_len(d, g_offset, (k - 1) as nat);
    }
}

/// Reads the 256-byte dataset item at `g_offset` through `lookup`, four
/// chunks of 64 bytes at lookup indices `64 * g_offset + 16 * k`.
pub fn fetch_dag_item<F: Fn(u32) -> Vec<u8>>(lookup: &F, g_offset: u32) -> (r: Result<
    Vec<u8>,
    ProgPowError,
>)
    requires
        g_offset < PROGPOW_MAX_DATASET_ITEMS,
        forall|i: u32| lookup.requires((i,)),
    ensures
        r matches Ok(item) ==> item@.len() == PROGPOW_MIX_BYTES,
        r matches Err(e) ==> e == ProgPowError::LookupFailure,
        forall|d: spec_fn(u32) -> Seq<u8>|
            #[trigger] lookup_yields(*lookup, d) ==> match dag_item_spec(d, g_offset) {
                Some(item) => r matches Ok(v) && v@ == item,
                None => r is Err,
            },
{
    let base = g_offset * 64;
    let mut item: Vec<u8> = Vec::new();
    for k in 0..4u32
        invariant
            base == g_offset * 64,
            g_offset < PROGPOW_MAX_DATASET_ITEMS,
            forall|i: u32| lookup.requires((i,)),
            item@.len() == 64 * k,
            forall|d: spec_fn(u32) -> Seq<u8>|
                #[trigger] lookup_yields(*lookup, d) ==> dag_chunks(d, g_offset, k as nat)
                    == Some(item@),
    {
        let mut chunk = lookup(base + 16 * k);
        if chunk.len() != 64 {
            proof {
                assert forall|d: spec_fn(u32) -> Seq<u8>| #[trigger]
                    lookup_yields(*lookup, d) implies dag_item_spec(d, g_offset) is None by {
                    assert(dag_chunks(d, g_offset, (k + 1) as nat) is None);
                    lemma_dag_chunks_none(d, g_offset, (k + 1) as nat, PROGPOW_DAG_LOADS as nat);
                }
            }
            return Err(ProgPowError::LookupFailure);
        }
        let ghost c = chunk@;
        item.append(&mut chunk);
        assert forall|d: spec_fn(u32) -> Seq<u8>| #[trigger]
            lookup_yields(*lookup, d) implies dag_chunks(d, g_offset, (k + 1) as nat) == Some(
            item@,
        ) by {
            assert(c == d((g_offset * 64 + 16 * k) as u32));
        }
    }
    Ok(item)
}

/// Index of the dataset item that a loop reads: register 0 of lane
/// `loop_index mod PROGPOW_LANES`, modulo the number of items.
pub open spec fn dag_offset_spec(mix: Seq<Seq<u32>>, loop_index: u32, dataset_size: u32) -> u32 {
    mix[(loop_index % PROGPOW_LANES as u32) as int][0] % dataset_size
}

/// One loop of ProgPoW on the register matrix `mix`, reading dataset `d`.
#[verifier::opaque]
pub open spec fn progpow_loop_spec(
    init: (Kiss99State, Seq<u32>, Seq<u32>),
    loop_index: u32,
    mix: Seq<Seq<u32>>,
    c_dag: Seq<u32>,
    dataset_size: u32,
    d: spec_fn(u32) -> Seq<u8>,
) -> Result<Seq<Seq<u32>>, ProgPowError> {
    match dag_item_spec(d, dag_offset_spec(mix, loop_index, dataset_size)) {
        Some(item) => Ok(mix_lanes_spec(init, mix, loop_index, item, c_dag)),
        None => Err(ProgPowError::LookupFailure),
    }
}

/// What a loop leaves in the matrix and returns, against `spec`: on `Ok`, the
/// new matrix; on `Err`, the same error.
pub open spec fn loop_outcome(
    r: Result<(), ProgPowError>,
    after: Seq<Seq<u32>>,
    spec: Result<Seq<Seq<u32>>, ProgPowError>,
) -> bool {
    match spec {
        Ok(m) => r is Ok && after == m,
        Err(e) => r == Err::<(), ProgPowError>(e),
    }
}

/// One loop with the generator state and register sequences already derived:
/// fetches the dataset item that the loop reads, then mixes every lane.
pub fn progpow_loop_seeded<F: Fn(u32) -> Vec<u8>>(
    rand_state: Kiss99State,
    dst_seq: &[u32; PROGPOW_REGS],
    src_seq: &[u32; PROGPOW_REGS],
    loop_index: u32,
    mix: &mut [[u32; PROGPOW_REGS]; PROGPOW_LANES],
    lookup: &F,
    c_dag: &[u32],
    dataset_size: u32,
) -> (r: Result<(), ProgPowError>)
    requires
        valid_init((rand_state, dst_seq@, src_seq@)),
        c_dag@.len() >= PROGPOW_CACHE_WORDS,
        0 < dataset_size <= PROGPOW_MAX_DATASET_ITEMS,
        forall|i: u32| lookup.requires((i,)),
    ensures
        r matches Err(e) ==> e == ProgPowError::LookupFailure,
        forall|d: spec_fn(u32) -> Seq<u8>|
            #[trigger] lookup_yields(*lookup, d) ==> loop_outcome(
                r,
                mix_view(*final(mix)),
                progpow_loop_spec(
                    (rand_state, dst_seq@, src_seq@),
                    loop_index,
                    mix_view(*old(mix)),
                    c_dag@,
                    dataset_size,
                    d,
                ),
            ),
{
    reveal(progpow_loop_spec);
    let item_count = 64 * dataset_size / (PROGPOW_LANES * PROGPOW_DAG_LOADS) as u32;
    assert(item_count == dataset_size);
    let g_offset = mix[loop_index as usize % PROGPOW_LANES][0] % item_count;
    assert(g_offset == dag_offset_spec(mix_view(*mix), loop_index, dataset_size));
    match fetch_dag_item(lookup, g_offset) {
        Ok(dag_item) => {
            progpow_mix_lanes(rand_state, dst_seq, src_seq, loop_index, mix, &dag_item, c_dag);
            Ok(())
        },
        Err(e) => Err(e),
    }
}

/// One loop of ProgPoW: derives the register sequences from `seed` (the
/// period), reads one dataset item through `lookup`, and mixes every lane.
/// `dataset_size` counts items of `PROGPOW_MIX_BYTES` bytes.
pub fn progpow_loop<F: Fn(u32) -> Vec<u8>>(
    seed: u64,
    loop_index: u32,
    mix: &mut [[u32; PROGPOW_REGS]; PROGPOW_LANES],
    lookup: &F,
    c_dag: &[u32],
    dataset_size: u32,
) -> (r: Result<(), ProgPowError>)
    requires
        c_dag@.len() >= PROGPOW_CACHE_WORDS,
        0 < dataset_size <= PROGPOW_MAX_DATASET_ITEMS,
        forall|i: u32| lookup.requires((i,)),
    ensures
        r matches Err(e) ==> e == ProgPowError::LookupFailure,
        forall|d: spec_fn(u32) -> Seq<u8>|
            #[trigger] lookup_yields(*lookup, d) ==> loop_outcome(
                r,
                mix_view(*final(mix)),
                progpow_loop_spec(
                    progpow_init_spec(seed),
                    loop_index,
                    mix_view(*old(mix)),
                    c_dag@,
                    dataset_size,
                    d,
                ),
            ),
{
    let (rand_state, dst_seq, src_seq) = progpow_init(seed);
    progpow_loop_seeded(rand_state, &dst_seq, &src_seq, loop_index, mix, lookup, c_dag, dataset_size)
}

} // verus!
