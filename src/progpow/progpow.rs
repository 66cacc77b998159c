use vstd::prelude::*;
use crate::basic_algorithm::{
    fill_mix, fill_mix_spec, fnv1a, fnv1a_spec, lookup_yields, loop_outcome, mix_view, progpow_init,
    progpow_init_spec, progpow_loop_seeded, progpow_loop_spec, valid_init, Kiss99State, ProgPowError,
    FNV_OFFSET_BASIS, PROGPOW_CACHE_WORDS, PROGPOW_CNT_DAG, PROGPOW_LANES,
    PROGPOW_MAX_DATASET_ITEMS, PROGPOW_MIX_BYTES, PROGPOW_PERIOD_LENGTH, PROGPOW_REGS,
};
use crate::byte_order::{encode_words_le, lemma_words_le_bytes_len, words_le_bytes};
use crate::keccak::f800long::{keccak_f800_long, keccak_f800_long_spec};
use crate::keccak::f800round::keccak_progpow_state;
use crate::keccak::f800short::{keccak_f800_short, keccak_f800_short_spec};

verus! {

/// Length in bytes of the header hash and of both digests.
pub const PROGPOW_HASH_BYTES: usize = 32;

/// The first `n` loops of ProgPoW, in order, from the matrix `mix`.
pub open spec fn progpow_loops_spec(
    init: (Kiss99State, Seq<u32>, Seq<u32>),
    mix: Seq<Seq<u32>>,
    c_dag: Seq<u32>,
    dataset_size: u32,
    d: spec_fn(u32) -> Seq<u8>,
    n: nat,
) -> Result<Seq<Seq<u32>>, ProgPowError>
    decreases n,
{
    if n == 0 {
        Ok(mix)
    } else {
        match progpow_loops_spec(init, mix, c_dag, dataset_size, d, (n - 1) as nat) {
            Ok(m) => progpow_loop_spec(init, (n - 1) as u32, m, c_dag, dataset_size, d),
            Err(e) => Err(e),
        }
    }
}

/// FNV-1a over the words of `s`, in order, from `h`.
pub open spec fn fnv1a_fold(h: u32, s: Seq<u32>) -> u32
    decreases s.len(),
{
    if s.len() == 0 {
        h
    } else {
        fnv1a_spec(fnv1a_fold(h, s.drop_last()), s.last())
    }
}

/// A lane's registers reduced to one word.
pub open spec fn lane_digest(regs: Seq<u32>) -> u32 {
    fnv1a_fold(FNV_OFFSET_BASIS, regs)
}

/// The eight result words: word `i` folds the digests of lanes `i` and `i + 8`.
pub open spec fn result_words(mix: Seq<Seq<u32>>) -> Seq<u32> {
    Seq::new(
        8,
        |i: int| fnv1a_spec(fnv1a_spec(FNV_OFFSET_BASIS, lane_digest(mix[i])), lane_digest(mix[i + 8])),
    )
}

/// Number of dataset items of `PROGPOW_MIX_BYTES` bytes in `size` bytes.
pub open spec fn dataset_items(size: u64) -> u64 {
    size / PROGPOW_MIX_BYTES as u64
}

/// The period (epoch) that a block number falls in.
pub open spec fn period_of(block_number: u64) -> u64 {
    block_number / PROGPOW_PERIOD_LENGTH
}

/// The 64-bit seed derived from the header hash and the nonce.
pub open spec fn progpow_seed(hash: Seq<u8>, nonce: u64) -> u64 {
    keccak_f800_short_spec(hash, nonce, Seq::new(8, |i: int| 0u32))
}

/// The register matrix before the first loop.
pub open spec fn initial_mix(seed: u64) -> Seq<Seq<u32>> {
    Seq::new(PROGPOW_LANES as nat, |l: int| fill_mix_spec(seed, l as u32))
}

/// The whole computation over dataset `d`: `(mix digest, final digest)`, or
/// the error that stops it.
#[verifier::opaque]
pub open spec fn progpow_spec(
    hash: Seq<u8>,
    nonce: u64,
    size: u64,
    block_number: u64,
    c_dag: Seq<u32>,
    d: spec_fn(u32) -> Seq<u8>,
) -> Result<(Seq<u8>, Seq<u8>), ProgPowError> {
    if hash.len() != PROGPOW_HASH_BYTES || c_dag.len() < PROGPOW_CACHE_WORDS {
        Err(ProgPowError::InvalidInputLength)
    } else if dataset_items(size) == 0 || dataset_items(size) > PROGPOW_MAX_DATASET_ITEMS {
        Err(ProgPowError::ZeroOrInvalidDatasetSize)
    } else {
        let seed = progpow_seed(hash, nonce);
        let init = progpow_init_spec(period_of(block_number));
        match progpow_loops_spec(
            init,
            initial_mix(seed),
            c_dag,
            dataset_items(size) as u32,
            d,
            PROGPOW_CNT_DAG as nat,
        ) {
            Ok(mix) => {
                let result = result_words(mix);
                Ok((words_le_bytes(result), keccak_f800_long_spec(hash, seed, result)))
            },
            Err(e) => Err(e),
        }
    }
}

/// What `progpow` returns, against `spec`.
pub open spec fn progpow_outcome(
    r: Result<(Vec<u8>, Vec<u8>), ProgPowError>,
    spec: Result<(Seq<u8>, Seq<u8>), ProgPowError>,
) -> bool {
    match spec {
        Ok(p) => r matches Ok(v) && v.0@ == p.0 && v.1@ == p.1,
        Err(e) => r == Err::<(Vec<u8>, Vec<u8>), ProgPowError>(e),
    }
}

/// Once a loop fails, the later loops keep the error.
proof fn lemma_loops_err(
    init: (Kiss99State, Seq<u32>, Seq<u32>),
    mix: Seq<Seq<u32>>,
    c_dag: Seq<u32>,
    dataset_size: u32,
    d: spec_fn(u32) -> Seq<u8>,
    k: nat,
    n: nat,
)
    requires
        k <= n,
        progpow_loops_spec(init, mix, c_dag, dataset_size, d, k) is Err,
    ensures
        progpow_loops_spec(init, mix, c_dag, dataset_size, d, n) == progpow_loops_spec(
            init,
            mix,
            c_dag,
            dataset_size,
            d,
            k,
        ),
    decreases n - k,
{
    if k < n {
        lemma_loops_err(init, mix, c_dag, dataset_size, d, k, (n - 1) as nat);
    }
}

/// Reduces each lane's registers with FNV-1a and folds the lane digests into
/// the eight result words.
fn reduce_lanes(mix: &[[u32; PROGPOW_REGS]; PROGPOW_LANES]) -> (result: [u32; 8])
    ensures
        result@ == result_words(mix_view(*mix)),
{
    let mut lane_results = [0u32; PROGPOW_LANES];
    for lane in 0..PROGPOW_LANES
        invariant
            forall|m: int| 0 <= m < lane ==> lane_results@[m] == lane_digest(#[trigger] mix_view(*mix)[m]),
    {
        let mut h: u32 = FNV_OFFSET_BASIS;
        for i in 0..PROGPOW_REGS
            invariant
                lane < PROGPOW_LANES,
                h == fnv1a_fold(FNV_OFFSET_BASIS, mix@[lane as int]@.subrange(0, i as int)),
        {
            fnv1a(&mut h, mix[lane][i]);
            assert(mix@[lane as int]@.subrange(0, i + 1).drop_last() =~= mix@[lane as int]@.subrange(0, i as int));
        }
        assert(mix@[lane as int]@.subrange(0, PROGPOW_REGS as int) =~= mix_view(*mix)[lane as int]);
        lane_results[lane] = h;
    }
    let mut result = [FNV_OFFSET_BASIS; 8];
    for lane in 0..PROGPOW_LANES
        invariant
            forall|m: int| 0 <= m < PROGPOW_LANES ==> lane_results@[m] == lane_digest(#[trigger] mix_view(*mix)[m]),
            forall|i: int|
                0 <= i < 8 ==> #[trigger] result@[i] == if lane <= i {
                    FNV_OFFSET_BASIS
                } else if lane <= i + 8 {
                    fnv1a_spec(FNV_OFFSET_BASIS, lane_results@[i])
                } else {
                    fnv1a_spec(fnv1a_spec(FNV_OFFSET_BASIS, lane_results@[i]), lane_results@[i + 8])
                },
    {
        let mut h = result[lane % 8];
        fnv1a(&mut h, lane_results[lane]);
        result[lane % 8] = h;
    }
    assert(result@ =~= result_words(mix_view(*mix)));
    result
}

/// Runs the `PROGPOW_CNT_DAG` loops in order on the register matrix, stopping
/// at the first lookup failure.
fn run_loops<F: Fn(u32) -> Vec<u8>>(
    rand_state: Kiss99State,
    dst_seq: &[u32; PROGPOW_REGS],
    src_seq: &[u32; PROGPOW_REGS],
    mix: &mut [[u32; PROGPOW_REGS]; PROGPOW_LANES],
    lookup: &F,
    c_dag: &[u32],
    dataset_size: u32,
) -> (r: Result<(), ProgPowError>)
    requires
        valid_init((rand_state, dst_seq@, src_seq@)),
        c_dag@.len() >= PROGPOW_CACHE_WORDS,
        0 < dataset_size <= PROGPOW_MAX_DATASET_ITEMS,
        forall|i: u32| lookup.requires((i,)),
    ensures
        r matches Err(e) ==> e == ProgPowError::LookupFailure,
        forall|d: spec_fn(u32) -> Seq<u8>|
            #[trigger] lookup_yields(*lookup, d) ==> loop_outcome(
                r,
                mix_view(*final(mix)),
                progpow_loops_spec(
                    (rand_state, dst_seq@, src_seq@),
                    mix_view(*old(mix)),
                    c_dag@,
                    dataset_size,
                    d,
                    PROGPOW_CNT_DAG as nat,
                ),
            ),
{
    let ghost init = (rand_state, dst_seq@, src_seq@);
    let ghost mix0 = mix_view(*mix);
    for l in 0..PROGPOW_CNT_DAG
        invariant
            init == (rand_state, dst_seq@, src_seq@),
            mix0 == mix_view(*old(mix)),
            valid_init(init),
            c_dag@.len() >= PROGPOW_CACHE_WORDS,
            0 < dataset_size <= PROGPOW_MAX_DATASET_ITEMS,
            forall|i: u32| lookup.requires((i,)),
            forall|d: spec_fn(u32) -> Seq<u8>| #[trigger]
                lookup_yields(*lookup, d) ==> progpow_loops_spec(
                    init,
                    mix0,
                    c_dag@,
                    dataset_size,
                    d,
                    l as nat,
                ) == Ok::<Seq<Seq<u32>>, ProgPowError>(mix_view(*mix)),
    {
        let ghost before = mix_view(*mix);
        let res = progpow_loop_seeded(
            rand_state,
            dst_seq,
            src_seq,
            l as u32,
            mix,
            lookup,
            c_dag,
            dataset_size,
        );
        if res.is_err() {
            proof {
                assert forall|d: spec_fn(u32) -> Seq<u8>| #[trigger]
                    lookup_yields(*lookup, d) implies loop_outcome(
                    res,
                    mix_view(*mix),
                    progpow_loops_spec(init, mix0, c_dag@, dataset_size, d, PROGPOW_CNT_DAG as nat),
                ) by {
                    assert(progpow_loops_spec(init, mix0, c_dag@, dataset_size, d, (l + 1) as nat)
                        == progpow_loop_spec(init, l as u32, before, c_dag@, dataset_size, d));
                    lemma_loops_err(init, mix0, c_dag@, dataset_size, d, (l + 1) as nat, PROGPOW_CNT_DAG as nat);
                }
            }
            return res;
        }
    }
    Ok(())
}

/// Computes ProgPoW over the header hash, nonce, dataset size in bytes, block
/// number, cache and dataset lookup: `(mix digest, final digest)`, both 32
/// bytes.
///
/// Malformed inputs are refused before any lookup. Beyond that the outcome
/// depends on what `lookup` returns: for every dataset `d` that `lookup`
/// reads from (each chunk it returns for index `i` is `d(i)`), the result is
/// `progpow_spec(.., d)`; a chunk that is not 64 bytes long ends the
/// computation with `LookupFailure`.
pub fn progpow<F: Fn(u32) -> Vec<u8>>(
    hash: &[u8],
    nonce: u64,
    size: u64,
    block_number: u64,
    c_dag: &[u32],
    lookup: &F,
) -> (r: Result<(Vec<u8>, Vec<u8>), ProgPowError>)
    requires
        forall|i: u32| lookup.requires((i,)),
    ensures
        hash@.len() != PROGPOW_HASH_BYTES || c_dag@.len() < PROGPOW_CACHE_WORDS ==> r == Err::<
            (Vec<u8>, Vec<u8>),
            ProgPowError,
        >(ProgPowError::InvalidInputLength),
        hash@.len() == PROGPOW_HASH_BYTES && c_dag@.len() >= PROGPOW_CACHE_WORDS && (dataset_items(
            size,
        ) == 0 || dataset_items(size) > PROGPOW_MAX_DATASET_ITEMS) ==> r == Err::<
            (Vec<u8>, Vec<u8>),
            ProgPowError,
        >(ProgPowError::ZeroOrInvalidDatasetSize),
        r matches Ok(v) ==> v.0@.len() == PROGPOW_HASH_BYTES && v.1@.len() == PROGPOW_HASH_BYTES,
        hash@.len() == PROGPOW_HASH_BYTES && c_dag@.len() >= PROGPOW_CACHE_WORDS && 0 < dataset_items(
            size,
        ) <= PROGPOW_MAX_DATASET_ITEMS ==> (r matches Err(e) ==> e == ProgPowError::LookupFailure),
        forall|d: spec_fn(u32) -> Seq<u8>| #[trigger]
            lookup_yields(*lookup, d) ==> progpow_outcome(
                r,
                progpow_spec(hash@, nonce, size, block_number, c_dag@, d),
            ),
{
    reveal(progpow_spec);
    if hash.len() != PROGPOW_HASH_BYTES || c_dag.len() < PROGPOW_CACHE_WORDS {
        return Err(ProgPowError::InvalidInputLength);
    }
    let items = size / PROGPOW_MIX_BYTES as u64;
    if items == 0 || items > PROGPOW_MAX_DATASET_ITEMS as u64 {
        return Err(ProgPowError::ZeroOrInvalidDatasetSize);
    }
    let dataset_size = items as u32;

    let result = [0u32; 8];
    let seed = keccak_f800_short(hash, nonce, &result);
    assert(result@ =~= Seq::new(8, |i: int| 0u32));

    let mut mix = [[0u32; PROGPOW_REGS]; PROGPOW_LANES];
    for lane in 0..PROGPOW_LANES
        invariant
            forall|m: int| 0 <= m < lane ==> mix@[m]@ == #[trigger] initial_mix(seed)[m],
    {
        mix[lane] = fill_mix(seed, lane as u32);
    }
    assert(mix_view(mix) =~= initial_mix(seed));

    let period = block_number / PROGPOW_PERIOD_LENGTH;
    let (rand_state, dst_seq, src_seq) = progpow_init(period);
    let res = run_loops(rand_state, &dst_seq, &src_seq, &mut mix, lookup, c_dag, dataset_size);
    if res.is_err() {
        return Err(ProgPowError::LookupFailure);
    }

    let result = reduce_lanes(&mix);
    let final_hash = keccak_f800_long(hash, seed, &result);
    let mix_hash = encode_words_le(&result, 8);
    proof {
        assert(result@.subrange(0, 8) =~= result@);
        lemma_words_le_bytes_len(result@);
    }
    Ok((mix_hash, final_hash))
}


/// ProgPoW is deterministic: two runs on the same header hash, nonce, dataset
/// size, block number, cache and dataset give the same outcome.
pub proof fn lemma_progpow_deterministic(
    hash: Seq<u8>,
    nonce: u64,
    size: u64,
    block_number: u64,
    c_dag: Seq<u32>,
    d: spec_fn(u32) -> Seq<u8>,
    r1: Result<(Vec<u8>, Vec<u8>), ProgPowError>,
    r2: Result<(Vec<u8>, Vec<u8>), ProgPowError>,
)
    requires
        progpow_outcome(r1, progpow_spec(hash, nonce, size, block_number, c_dag, d)),
        progpow_outcome(r2, progpow_spec(hash, nonce, size, block_number, c_dag, d)),
    ensures
        r1 matches Ok(a) ==> r2 matches Ok(b) && a.0@ == b.0@ && a.1@ == b.1@,
        r1 is Err ==> r1 == r2,
{
}

/// Both digests of a successful computation are 32 bytes long.
pub proof fn lemma_digest_lengths(
    hash: Seq<u8>,
    nonce: u64,
    size: u64,
    block_number: u64,
    c_dag: Seq<u32>,
    d: spec_fn(u32) -> Seq<u8>,
)
    ensures
        progpow_spec(hash, nonce, size, block_number, c_dag, d) matches Ok(p) ==> p.0.len()
            == PROGPOW_HASH_BYTES && p.1.len() == PROGPOW_HASH_BYTES,
{
    reveal(progpow_spec);
    if let Ok(p) = progpow_spec(hash, nonce, size, block_number, c_dag, d) {
        let seed = progpow_seed(hash, nonce);
        let init = progpow_init_spec(period_of(block_number));
        let mix = progpow_loops_spec(
            init,
            initial_mix(seed),
            c_dag,
            dataset_items(size) as u32,
            d,
            PROGPOW_CNT_DAG as nat,
        )->Ok_0;
        let result = result_words(mix);
        lemma_words_le_bytes_len(result);
        let st = keccak_progpow_state(hash, seed, result);
        assert(st.len() == 25);
        lemma_words_le_bytes_len(st.subrange(0, 8));
    }
}

/// Two block numbers in the same period give the same register sequences,
/// and so the same outcome on the same other inputs.
pub proof fn lemma_epoch_stability(
    b1: u64,
    b2: u64,
    hash: Seq<u8>,
    nonce: u64,
    size: u64,
    c_dag: Seq<u32>,
    d: spec_fn(u32) -> Seq<u8>,
)
    requires
        period_of(b1) == period_of(b2),
    ensures
        progpow_init_spec(period_of(b1)) == progpow_init_spec(period_of(b2)),
        progpow_spec(hash, nonce, size, b1, c_dag, d) == progpow_spec(hash, nonce, size, b2, c_dag, d),
{
    reveal(progpow_spec);
}

/// With the period length at its reference value, every block number below
/// `u64::MAX` lies in period 0.
pub proof fn lemma_reference_period_is_zero(block_number: u64)
    requires
        block_number < PROGPOW_PERIOD_LENGTH,
    ensures
        period_of(block_number) == 0,
{
}

} // verus!
