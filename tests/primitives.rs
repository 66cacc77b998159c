use progpow_kernel::basic_algorithm::{
    fill_mix, fnv1a, higher32, kiss99, lower32, merge, progpow_init, progpow_math,
    progpow_mix_lanes, rotl32, rotr32, Kiss99State, PROGPOW_LANES, PROGPOW_REGS,
};
use progpow_kernel::keccak::f800long::keccak_f800_long;
use progpow_kernel::keccak::f800round::keccak_f800_round;
use progpow_kernel::keccak::f800short::keccak_f800_short;

#[test]
fn fnv1a_updates_and_returns_the_accumulator() {
    let mut h: u32 = 0x811c9dc5;
    assert_eq!(fnv1a(&mut h, 0), 0x050c5d1f);
    assert_eq!(h, 0x050c5d1f);
    let mut g: u32 = 0x12345678;
    assert_eq!(fnv1a(&mut g, 0x9abcdef0), 0x76eeee18);
}

#[test]
fn kiss99_draws_known_stream() {
    let mut st = Kiss99State { z: 1, w: 2, jsr: 3, jcong: 4 };
    assert_eq!(kiss99(&mut st), 0x9144876e);
    assert_eq!(kiss99(&mut st), 0xbab3b579);
    assert_eq!(kiss99(&mut st), 0x5600f9cf);
    assert_eq!(st, Kiss99State { z: 0x2a58ab6f, w: 0x30e3c69f, jsr: 0xdf4dd3c5, jcong: 0xaae1e095 });
}

#[test]
fn kiss99_from_zero_state() {
    let mut st = Kiss99State::default();
    assert_eq!(kiss99(&mut st), 0x0012d687);
    assert_eq!(kiss99(&mut st), 0xda947ba2);
}

#[test]
fn lower_and_higher_halves() {
    assert_eq!(lower32(0x123456789abcdef0), 0x9abcdef0);
    assert_eq!(higher32(0x123456789abcdef0), 0x12345678);
    assert_eq!(lower32(u64::MAX), u32::MAX);
    assert_eq!(higher32(0xffff_ffff), 0);
}

#[test]
fn rotations_reduce_the_amount_modulo_32() {
    assert_eq!(rotl32(0x80000001, 1), 0x3);
    assert_eq!(rotl32(0x12345678, 36), 0x23456781);
    assert_eq!(rotr32(0x12345678, 4), 0x81234567);
    assert_eq!(rotr32(0x12345678, 36), 0x81234567);
    assert_eq!(rotr32(0x12345678, 0), 0x12345678);
    assert_eq!(rotr32(0x12345678, 32), 0x12345678);
    assert_eq!(rotl32(0x12345678, u32::MAX), rotr32(0x12345678, 1));
}

#[test]
fn math_covers_every_operation() {
    let a = 0x9abcdef0u32;
    let b = 0x12345678u32;
    let expected = [
        0xacf13568u32, 0x242d2080, 0x0b00ea4e, 0x12345678, 0xf09abcde, 0xbcdef09a, 0x12345670,
        0x9abcdef8, 0x88888888, 0x3, 0x20,
    ];
    for r in 0..11u32 {
        assert_eq!(progpow_math(a, b, r), expected[r as usize]);
    }
    assert_eq!(progpow_math(a, b, 11), 0xacf13568);
    assert_eq!(progpow_math(0, 0, 9), 64);
}

#[test]
fn math_is_total_on_extreme_inputs() {
    for r in 0..22u32 {
        let _ = progpow_math(u32::MAX, u32::MAX, r);
        let _ = progpow_math(0, u32::MAX, r);
        let _ = progpow_math(u32::MAX, 0, u32::MAX - r);
    }
}

#[test]
fn merge_covers_every_variant() {
    let cases = [
        (0u32, 0x048d1368u32),
        (1, 0x99999988),
        (2, 0x274deb99),
        (3, 0x5f6a3900),
        (0x00050002, 0xbd03ea5e),
        (0x001e0003, 0x274deb99),
        (0xffff0002, 0x78c72dba),
    ];
    for (r, want) in cases {
        let mut a = 0x9abcdef0u32;
        merge(&mut a, 0x12345678, r);
        assert_eq!(a, want);
    }
}

#[test]
fn merge_rotation_is_never_zero() {
    // r >> 16 == 31 would give a rotation of 0 without the +1 offset.
    let mut a = 0x9abcdef0u32;
    merge(&mut a, 0, (31 << 16) | 2);
    assert_ne!(a, 0x9abcdef0);
    let mut b = 0x9abcdef0u32;
    merge(&mut b, 0, (31 << 16) | 3);
    assert_ne!(b, 0x9abcdef0);
}

#[test]
fn fill_mix_known_registers() {
    let mix = fill_mix(0x0123456789abcdef, 3);
    assert_eq!(&mix[..4], &[0x79c10b95, 0x8fd8af35, 0xe867fdf6, 0xcb4bb22f]);
    assert_ne!(fill_mix(0x0123456789abcdef, 4), mix);
}

fn is_permutation(s: &[u32; PROGPOW_REGS]) -> bool {
    let mut seen = [false; PROGPOW_REGS];
    for &x in s.iter() {
        if x as usize >= PROGPOW_REGS || seen[x as usize] {
            return false;
        }
        seen[x as usize] = true;
    }
    true
}

#[test]
fn init_sequences_for_period_zero() {
    let (st, dst, src) = progpow_init(0);
    assert_eq!(
        dst,
        [18, 31, 13, 19, 3, 22, 28, 0, 14, 23, 24, 21, 5, 16, 26, 12, 20, 4, 27, 11, 10, 8, 7, 1,
         9, 17, 25, 6, 29, 15, 2, 30]
    );
    assert_eq!(
        src,
        [29, 8, 31, 4, 1, 18, 11, 27, 24, 17, 7, 30, 26, 25, 9, 16, 6, 15, 3, 2, 19, 28, 13, 20,
         12, 23, 5, 22, 10, 0, 14, 21]
    );
    assert_eq!(st, Kiss99State { z: 0x348e0429, w: 0x1109ac5d, jsr: 0x413131ed, jcong: 0xc0b5787b });
}

#[test]
fn init_sequences_are_permutations() {
    for seed in [0u64, 1, 5, 0xffff_ffff, u64::MAX, 0x123456789abcdef0] {
        let (_, dst, src) = progpow_init(seed);
        assert!(is_permutation(&dst));
        assert!(is_permutation(&src));
    }
    let (_, dst, src) = progpow_init(5);
    assert_eq!(dst[0], 25);
    assert_eq!(src[0], 26);
}

#[test]
fn keccak_round_on_counting_state() {
    let mut st = [0u32; 25];
    for i in 0..25 {
        st[i] = i as u32;
    }
    keccak_f800_round(&mut st, 0);
    let expected = [
        0x181b, 0x180e000, 0xcd800, 0x180001a, 0xc2000, 0xd0000081, 0x2230000, 0x20000083,
        0xd0030000, 0x22200003, 0x26000012, 0x3a00, 0x26380000, 0x3812, 0x380200, 0x78000c01,
        0xf01f0, 0x9000c00, 0x700f0001, 0x90001f0, 0x40001283, 0xb002800, 0x12f4, 0x40002a03,
        0xb000074,
    ];
    assert_eq!(st, expected);
}

#[test]
fn keccak_round_on_zero_state_adds_the_round_constant() {
    let mut st = [0u32; 25];
    keccak_f800_round(&mut st, 3);
    assert_eq!(st[0], 0x80008000);
    assert!(st[1..].iter().all(|&w| w == 0));
}

#[test]
fn short_digest_of_ascending_header() {
    let hash: Vec<u8> = (0..32u8).collect();
    assert_eq!(keccak_f800_short(&hash, 0x123456789ABCDEF0, &[0u32; 8]), 0x03e410fba1aaa56f);
}

#[test]
fn long_digest_of_ascending_header() {
    let hash: Vec<u8> = (0..32u8).collect();
    let digest = keccak_f800_long(&hash, 0x123456789ABCDEF0, &[1, 2, 3, 4, 5, 6, 7, 8]);
    let expected: Vec<u8> = vec![
        0xe5, 0xeb, 0x68, 0xec, 0x9c, 0x81, 0x22, 0x08, 0x1f, 0xe9, 0x98, 0x20, 0x16, 0xcf, 0x06,
        0xf5, 0x1d, 0x0b, 0xba, 0xe7, 0x0e, 0x25, 0x3f, 0xfa, 0x50, 0x4f, 0x84, 0x93, 0xcf, 0xb7,
        0x19, 0xbd,
    ];
    assert_eq!(digest, expected);
}

#[test]
fn mix_lanes_reads_little_endian_dataset_words() {
    let mut mix = [[0u32; PROGPOW_REGS]; PROGPOW_LANES];
    for lane in 0..PROGPOW_LANES {
        mix[lane] = fill_mix(42, lane as u32);
    }
    let item: Vec<u8> = (0..256u32).map(|i| ((i * 7 + 3) & 255) as u8).collect();
    let c_dag: Vec<u32> = (0..4096u32).collect();
    let (st, dst, src) = progpow_init(0);
    let mut a = mix;
    progpow_mix_lanes(st, &dst, &src, 0, &mut a, &item, &c_dag);
    assert_eq!(&a[0][..4], &[0xa0af0216, 0x0db803eb, 0xd7d0db8f, 0x3658d38c]);
    assert_eq!(&a[5][..4], &[0xeb93abea, 0x4cfc60d0, 0xcd195aee, 0x2f789475]);

    // Lane 0 of loop 0 reads bytes 0..16 of the item; lane 5 reads 80..96.
    let mut changed = item.clone();
    changed[1] ^= 0x80;
    let mut b = mix;
    progpow_mix_lanes(st, &dst, &src, 0, &mut b, &changed, &c_dag);
    assert_ne!(a[0], b[0]);
    assert_eq!(a[5], b[5]);
}
