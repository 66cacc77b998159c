use progpow_kernel::basic_algorithm::{
    fill_mix, progpow_init, progpow_loop, progpow_loop_seeded, ProgPowError,
    PROGPOW_LANES, PROGPOW_REGS,
};
use progpow_kernel::progpow::progpow::progpow;

fn ascending_hash() -> Vec<u8> {
    let mut hash = vec![0u8; 32];
    for i in 0..32 {
        hash[i] = i as u8;
    }
    hash
}

fn sequential_cache() -> Vec<u32> {
    let mut c_dag = vec![0u32; 4 * 1024];
    for i in 0..c_dag.len() {
        c_dag[i] = i as u32;
    }
    c_dag
}

fn counting_lookup(index: u32) -> Vec<u8> {
    let mut data = vec![0u8; 64];
    for i in 0..data.len() {
        data[i] = (index + i as u32) as u8;
    }
    data
}

#[test]
fn test_progpow_function() {
    println!("Test started!");
    let mut hash = vec![0u8; 32];
    for i in 0..32 {
        hash[i] = i as u8;
    }
    let nonce: u64 = 0x123456789ABCDEF0;
    let size: u64 = 1024;
    let block_number: u64 = 100;
    let mut c_dag = vec![0u32; 4 * 1024];
    for i in 0..c_dag.len() {
        c_dag[i] = i as u32;
    }

    let lookup = |index: u32| -> Vec<u8> {
        let mut data = vec![0u8; 64];
        for i in 0..data.len() {
            data[i] = (index + i as u32) as u8;
        }
        data
    };

    let (mix_hash, final_hash) =
        progpow(&hash, nonce, size, block_number, &c_dag, &lookup).unwrap();

    let expected_mix_hash = vec![
        0x64, 0x12, 0x7f, 0xab, 0xd5, 0x19, 0xac, 0xd7, 0x84, 0x5d, 0x02, 0x60, 0xcf, 0xf4,
        0x37, 0x29, 0xaf, 0x6a, 0xba, 0x3d, 0xd7, 0x92, 0x3a, 0x29, 0xe7, 0x37, 0x15, 0x70,
        0x8b, 0x58, 0x49, 0xa6,
    ];
    let expected_final_hash = vec![
        0x4d, 0x02, 0x7c, 0x72, 0xce, 0xe4, 0x68, 0x9b, 0xa3, 0xd5, 0xfd, 0x16, 0x33, 0x04,
        0xec, 0x6b, 0x96, 0xd9, 0x96, 0xbc, 0xf3, 0x0f, 0xbc, 0x1a, 0x7f, 0x1f, 0x5b, 0xdf,
        0x20, 0x59, 0xcb, 0x59,
    ];

    assert_eq!(mix_hash, expected_mix_hash, "Mix Hash does not match!");
    assert_eq!(final_hash, expected_final_hash, "Final Hash does not match!");
}

#[test]
fn repeated_runs_give_identical_digests() {
    let hash = ascending_hash();
    let c_dag = sequential_cache();
    let a = progpow(&hash, 0x123456789ABCDEF0, 1024, 100, &c_dag, &counting_lookup).unwrap();
    let b = progpow(&hash, 0x123456789ABCDEF0, 1024, 100, &c_dag, &counting_lookup).unwrap();
    assert_eq!(a, b);
}

#[test]
fn digests_are_thirty_two_bytes() {
    let hash = ascending_hash();
    let c_dag = sequential_cache();
    for size in [256u64, 1024, 4096, 1 << 20] {
        let (mix_hash, final_hash) = progpow(&hash, 7, size, 3, &c_dag, &counting_lookup).unwrap();
        assert_eq!(mix_hash.len(), 32);
        assert_eq!(final_hash.len(), 32);
    }
}

#[test]
fn flipping_a_nonce_bit_changes_the_digests() {
    let hash = ascending_hash();
    let c_dag = sequential_cache();
    let nonce: u64 = 0x123456789ABCDEF0;
    let base = progpow(&hash, nonce, 1024, 100, &c_dag, &counting_lookup).unwrap();
    for bit in [0u32, 1, 17, 31, 32, 63] {
        let other = progpow(&hash, nonce ^ (1u64 << bit), 1024, 100, &c_dag, &counting_lookup).unwrap();
        assert_ne!(base, other);
    }
}

#[test]
fn flipping_a_header_bit_changes_the_digests() {
    let hash = ascending_hash();
    let c_dag = sequential_cache();
    let base = progpow(&hash, 1, 1024, 100, &c_dag, &counting_lookup).unwrap();
    for (byte, bit) in [(0usize, 0u32), (5, 3), (31, 7), (16, 1)] {
        let mut h = hash.clone();
        h[byte] ^= 1u8 << bit;
        let other = progpow(&h, 1, 1024, 100, &c_dag, &counting_lookup).unwrap();
        assert_ne!(base, other);
    }
}

#[test]
fn flipping_a_dataset_bit_changes_the_digests() {
    let hash = ascending_hash();
    let c_dag = sequential_cache();
    let base = progpow(&hash, 1, 1024, 100, &c_dag, &counting_lookup).unwrap();
    for flip in [0usize, 13, 63] {
        let lookup = move |index: u32| -> Vec<u8> {
            let mut data = counting_lookup(index);
            data[flip] ^= 0x01;
            data
        };
        let other = progpow(&hash, 1, 1024, 100, &c_dag, &lookup).unwrap();
        assert_ne!(base, other);
    }
}

#[test]
fn block_numbers_in_one_period_agree() {
    let hash = ascending_hash();
    let c_dag = sequential_cache();
    let a = progpow(&hash, 9, 1024, 0, &c_dag, &counting_lookup).unwrap();
    let b = progpow(&hash, 9, 1024, 100, &c_dag, &counting_lookup).unwrap();
    let c = progpow(&hash, 9, 1024, u64::MAX - 1, &c_dag, &counting_lookup).unwrap();
    assert_eq!(a, b);
    assert_eq!(a, c);
    let d = progpow(&hash, 9, 1024, u64::MAX, &c_dag, &counting_lookup).unwrap();
    assert_ne!(a, d);
}

#[test]
fn short_header_is_rejected() {
    let c_dag = sequential_cache();
    let hash = vec![0u8; 31];
    assert_eq!(
        progpow(&hash, 1, 1024, 100, &c_dag, &counting_lookup),
        Err(ProgPowError::InvalidInputLength)
    );
    let long = vec![0u8; 33];
    assert_eq!(
        progpow(&long, 1, 1024, 100, &c_dag, &counting_lookup),
        Err(ProgPowError::InvalidInputLength)
    );
}

#[test]
fn small_cache_is_rejected() {
    let hash = ascending_hash();
    let c_dag = vec![0u32; 4095];
    assert_eq!(
        progpow(&hash, 1, 1024, 100, &c_dag, &counting_lookup),
        Err(ProgPowError::InvalidInputLength)
    );
}

#[test]
fn empty_or_huge_dataset_is_rejected() {
    let hash = ascending_hash();
    let c_dag = sequential_cache();
    for size in [0u64, 255, 256 * 0x400_0000, u64::MAX] {
        assert_eq!(
            progpow(&hash, 1, size, 100, &c_dag, &counting_lookup),
            Err(ProgPowError::ZeroOrInvalidDatasetSize)
        );
    }
    assert!(progpow(&hash, 1, 256 * 0x3ff_ffff, 100, &c_dag, &counting_lookup).is_ok());
}

#[test]
fn short_lookup_chunk_is_a_failure() {
    let hash = ascending_hash();
    let c_dag = sequential_cache();
    let lookup = |_index: u32| -> Vec<u8> { vec![0u8; 63] };
    assert_eq!(
        progpow(&hash, 1, 1024, 100, &c_dag, &lookup),
        Err(ProgPowError::LookupFailure)
    );
}

#[test]
fn hoisted_sequences_match_per_loop_derivation() {
    let c_dag = sequential_cache();
    let mut a = [[0u32; PROGPOW_REGS]; PROGPOW_LANES];
    for lane in 0..PROGPOW_LANES {
        a[lane] = fill_mix(0xdead_beef_0123_4567, lane as u32);
    }
    let mut b = a;
    let (rand_state, dst_seq, src_seq) = progpow_init(5);
    for l in 0..8u32 {
        progpow_loop(5, l, &mut a, &counting_lookup, &c_dag, 4).unwrap();
        progpow_loop_seeded(rand_state, &dst_seq, &src_seq, l, &mut b, &counting_lookup, &c_dag, 4)
            .unwrap();
    }
    assert_eq!(a, b);
}
