use kaspa_pow::{
    build_header, compare_u256, compute_pow, hash_to_u256_le, heavy_hash_internal,
    heavy_mix_bytes, matrix_from_bytes, matrix_to_bytes, Matrix, Miner, PowError,
    Xoshiro256PlusPlus,
};
use std::cmp::Ordering;

const TIMESTAMP: u64 = 1700000000;

fn hex(s: &str) -> Vec<u8> {
    (0..s.len() / 2)
        .map(|i| u8::from_str_radix(&s[2 * i..2 * i + 2], 16).unwrap())
        .collect()
}

fn seed() -> Vec<u8> {
    (0u8..32).collect()
}

fn sampled_matrix(hash: &[u8]) -> Matrix {
    let mut rng = Xoshiro256PlusPlus::for_pre_pow_hash(hash).unwrap();
    rng.next_candidate()
}

fn target_top(top: u8) -> Vec<u8> {
    let mut t = vec![0xFFu8; 32];
    t[31] = top;
    t
}

fn miner_with_target(target: &[u8]) -> Miner {
    let h = seed();
    let mut miner = Miner::new();
    miner.setup_session(&h, TIMESTAMP, target, sampled_matrix(&h)).unwrap();
    miner
}

fn digest_below(d: &[u8], target: &[u8]) -> bool {
    let dv = hash_to_u256_le(&d.to_vec());
    let tv = hash_to_u256_le(&target.to_vec());
    compare_u256(&dv, &tv) == Ordering::Less
}

#[test]
fn xoshiro_first_draws() {
    let mut rng = Xoshiro256PlusPlus::for_pre_pow_hash(&seed()).unwrap();
    assert_eq!(rng.next(), 0x171513110f151311);
    assert_eq!(rng.next(), 0xa2209f1d9c1e9d1b);
    assert_eq!(rng.next(), 0xe0d100f0a090c0b0);
}

#[test]
fn stream_rejects_short_hash() {
    assert!(matches!(
        Xoshiro256PlusPlus::for_pre_pow_hash(&[0u8; 31]),
        Err(PowError::InvalidLength)
    ));
}

#[test]
fn candidate_matrix_cells() {
    let mut rng = Xoshiro256PlusPlus::for_pre_pow_hash(&seed()).unwrap();
    let m = rng.next_candidate();
    assert_eq!(m.cells.len(), 4096);
    assert_eq!(&m.cells[..20], &[1, 1, 3, 1, 5, 1, 15, 0, 1, 1, 3, 1, 5, 1, 7, 1, 11, 1, 13, 9]);
    assert_eq!(&m.cells[4080..], &[2, 6, 1, 14, 11, 0, 7, 10, 10, 0, 10, 8, 15, 14, 7, 7]);
}

#[test]
fn candidate_sampling_is_deterministic() {
    let a = sampled_matrix(&seed());
    let b = sampled_matrix(&seed());
    assert_eq!(a.cells, b.cells);
    let mut other = seed();
    other[0] = 0xAA;
    assert_ne!(sampled_matrix(&other).cells, a.cells);
}

#[test]
fn matrix_bytes_layout() {
    let mut cells = vec![0u16; 4096];
    cells[0] = 0x1234;
    cells[4095] = 0xBEEF;
    let bytes = matrix_to_bytes(&Matrix { cells });
    assert_eq!(bytes.len(), 8192);
    assert_eq!(&bytes[..2], &[0x34, 0x12]);
    assert_eq!(&bytes[8190..], &[0xEF, 0xBE]);
}

#[test]
fn matrix_bytes_round_trip() {
    let m = sampled_matrix(&seed());
    let back = matrix_from_bytes(&matrix_to_bytes(&m)).unwrap();
    assert_eq!(back.cells, m.cells);
}

#[test]
fn matrix_from_short_bytes_is_invalid() {
    assert!(matches!(matrix_from_bytes(&[0u8; 4095]), Err(PowError::InvalidLength)));
    assert!(matches!(matrix_from_bytes(&[0u8; 8191]), Err(PowError::InvalidLength)));
}

#[test]
fn compute_pow_known_vector() {
    let h = seed();
    let bytes = matrix_to_bytes(&sampled_matrix(&h));
    let d = compute_pow(&h, TIMESTAMP, 42, &bytes).unwrap();
    assert_eq!(d, hex("9a90198ede3314ea0765ecb2642fe669ed6afb04a3ed002fd923ed4b1e12a2c9"));
}

#[test]
fn compute_pow_zero_matrix() {
    let d = compute_pow(&[0u8; 32], 0, 0, &[0u8; 8192]).unwrap();
    assert_eq!(d, hex("b0c1156dc3bae06e780f1bdb31f50a0228c8073c89c1ad09a3e1fdc367354b74"));
}

#[test]
fn compute_pow_is_pure() {
    let h = seed();
    let bytes = matrix_to_bytes(&sampled_matrix(&h));
    let first = compute_pow(&h, TIMESTAMP, 7, &bytes).unwrap();
    let mut miner = Miner::new();
    miner.setup_session(&[9u8; 32], 1, &[0u8; 32], sampled_matrix(&[9u8; 32])).unwrap();
    let _ = miner.mine_range(0, 3, true).unwrap();
    let second = compute_pow(&h, TIMESTAMP, 7, &bytes).unwrap();
    assert_eq!(first, second);
}

#[test]
fn compute_pow_rejects_bad_lengths() {
    let h = seed();
    assert_eq!(compute_pow(&h, 0, 0, &[0u8; 4095]), Err(PowError::InvalidLength));
    assert_eq!(compute_pow(&h[..31], 0, 0, &[0u8; 8192]), Err(PowError::InvalidLength));
    assert_eq!(compute_pow(&[0u8; 33], 0, 0, &[0u8; 8192]), Err(PowError::InvalidLength));
}

#[test]
fn words_are_little_endian() {
    let mut b = vec![0u8; 32];
    b[0] = 0x01;
    b[7] = 0x80;
    b[8] = 0x02;
    b[31] = 0xFF;
    assert_eq!(hash_to_u256_le(&b), [0x8000000000000001, 2, 0, 0xFF00000000000000]);
}

#[test]
fn compare_most_significant_word_first() {
    assert_eq!(compare_u256(&[5, 0, 0, 1], &[0, 0, 0, 2]), Ordering::Less);
    assert_eq!(compare_u256(&[0, 0, 0, 2], &[u64::MAX, u64::MAX, u64::MAX, 1]), Ordering::Greater);
    assert_eq!(compare_u256(&[1, 2, 3, 4], &[1, 2, 3, 4]), Ordering::Equal);
    assert_eq!(compare_u256(&[0, 1, 7, 7], &[u64::MAX, 0, 7, 7]), Ordering::Greater);
}

#[test]
fn word_comparison_matches_big_integer_order() {
    let cases: Vec<(Vec<u8>, Vec<u8>)> = vec![
        (target_top(0x40), target_top(0x41)),
        (target_top(0x40), target_top(0x40)),
        (vec![0xFF; 32], vec![0u8; 32]),
        (hex("53eedd52616eef8a1bf20e61589ee73d8c3173b0e84785052189ae5225107fc3"), target_top(0x40)),
        (hex("5f20f03ebe074dbba003dead6ddd44ca7febc63646339c8a22831e7f9e9d8639"), target_top(0x40)),
    ];
    for (a, b) in cases {
        let mut ra = a.clone();
        let mut rb = b.clone();
        ra.reverse();
        rb.reverse();
        let expected = ra.cmp(&rb);
        let got = compare_u256(&hash_to_u256_le(&a), &hash_to_u256_le(&b));
        assert_eq!(got, expected);
    }
}

#[test]
fn mining_without_session_fails() {
    let miner = Miner::new();
    assert!(matches!(miner.mine_batch(vec![1, 2, 3]), Err(PowError::SessionNotReady)));
    assert!(matches!(miner.mine_range(0, 5, false), Err(PowError::SessionNotReady)));
    assert!(miner.session_fingerprint().is_none());
}

#[test]
fn setup_rejects_bad_lengths() {
    let h = seed();
    let mut miner = Miner::new();
    assert_eq!(
        miner.setup_session(&h[..31], 0, &[0u8; 32], sampled_matrix(&h)),
        Err(PowError::InvalidLength)
    );
    assert_eq!(
        miner.setup_session(&h, 0, &[0u8; 31], sampled_matrix(&h)),
        Err(PowError::InvalidLength)
    );
    assert!(miner.session_fingerprint().is_none());
}

#[test]
fn session_replacement_keeps_second_hash() {
    let first = seed();
    let second = vec![0x5Au8; 32];
    let mut miner = Miner::new();
    miner.setup_session(&first, 1, &[0u8; 32], sampled_matrix(&first)).unwrap();
    assert_eq!(miner.session_fingerprint(), Some(first.clone()));
    miner.setup_session(&second, 2, &[0xFFu8; 32], sampled_matrix(&second)).unwrap();
    assert_eq!(miner.session_fingerprint(), Some(second.clone()));
    let s = miner.session.as_ref().unwrap();
    assert_eq!(s.timestamp, 2);
    assert_eq!(s.target, [u64::MAX; 4]);
}

#[test]
fn batch_finds_first_qualifying() {
    let miner = miner_with_target(&target_top(0x40));
    let (n, d) = miner.mine_batch(vec![0, 2, 3, 8, 9]).unwrap().unwrap();
    assert_eq!(n, 8);
    assert_eq!(d, hex("2e895d5b4e15a6a0b26743c29c445d6227fc8ef67efc268d6ed5097752ff002c"));
    assert!(miner.mine_batch(vec![0, 2, 3, 4, 5, 6, 7]).unwrap().is_none());
    assert!(miner.mine_batch(vec![]).unwrap().is_none());
}

#[test]
fn batch_agrees_with_compute_pow() {
    let target = target_top(0x40);
    let miner = miner_with_target(&target);
    let h = seed();
    let bytes = matrix_to_bytes(&sampled_matrix(&h));
    let nonces: Vec<u64> = vec![6, 0, 4, 9, 1, 8];
    let mut expected = None;
    for &n in &nonces {
        let d = compute_pow(&h, TIMESTAMP, n, &bytes).unwrap();
        if digest_below(&d, &target) {
            expected = Some((n, d));
            break;
        }
    }
    assert_eq!(miner.mine_batch(nonces).unwrap(), expected);
    assert_eq!(expected.map(|e| e.0), Some(9));
}

#[test]
fn sequential_range_matches_batch() {
    let miner = miner_with_target(&target_top(0x40));
    let (n, d, used) = miner.mine_range(0, 10, false).unwrap();
    let batch = miner.mine_batch((0..10).collect()).unwrap().unwrap();
    assert_eq!(n, Some(batch.0));
    assert_eq!(d, Some(batch.1));
    assert_eq!(n, Some(1));
    assert_eq!(used, 2);
    let (n, _, used) = miner.mine_range(2, 10, false).unwrap();
    assert_eq!(n, Some(8));
    assert_eq!(used, 7);
}

#[test]
fn sequential_range_wraps() {
    let miner = miner_with_target(&target_top(0x40));
    let start = u64::MAX - 2;
    let (n, d, used) = miner.mine_range(start, 8, false).unwrap();
    let list: Vec<u64> = (0..8u64).map(|i| start.wrapping_add(i)).collect();
    match miner.mine_batch(list.clone()).unwrap() {
        Some((bn, bd)) => {
            assert_eq!(n, Some(bn));
            assert_eq!(d, Some(bd));
            assert_eq!(used, list.iter().position(|&x| x == bn).unwrap() as u64 + 1);
        }
        None => {
            assert_eq!((n, d, used), (None, None, 8));
        }
    }
}

#[test]
fn random_mode_is_reproducible() {
    let miner = miner_with_target(&[0xFFu8; 32]);
    let (n, _, used) = miner.mine_range(12345, 5, true).unwrap();
    assert_eq!(n, Some(2021368500568277588));
    assert_eq!(used, 1);
    assert_eq!(miner.mine_range(12345, 5, true).unwrap().0, n);
    let mut other = Miner::new();
    let h = vec![3u8; 32];
    other.setup_session(&h, 99, &[0xFFu8; 32], sampled_matrix(&h)).unwrap();
    assert_eq!(other.mine_range(12345, 1, true).unwrap().0, n);
}

#[test]
fn random_mode_second_nonce() {
    let target = target_top(0x40);
    let miner = miner_with_target(&target);
    let first = 2021368500568277588u64;
    let second = 4895494634720187923u64;
    let expected = miner.mine_batch(vec![first, second]).unwrap();
    let (n, d, used) = miner.mine_range(12345, 2, true).unwrap();
    match expected {
        Some((en, ed)) => {
            assert_eq!(n, Some(en));
            assert_eq!(d, Some(ed));
            assert_eq!(used, if en == first { 1 } else { 2 });
        }
        None => assert_eq!((n, d, used), (None, None, 2)),
    }
}

#[test]
fn max_target_first_nonce_qualifies() {
    let miner = miner_with_target(&[0xFFu8; 32]);
    let (n, d) = miner.mine_batch(vec![77, 78]).unwrap().unwrap();
    assert_eq!(n, 77);
    assert_eq!(d.len(), 32);
    assert_eq!(miner.mine_range(500, 10, false).unwrap().0, Some(500));
    assert_eq!(miner.mine_range(500, 10, false).unwrap().2, 1);
    assert_eq!(miner.mine_range(500, 10, true).unwrap().2, 1);
}

#[test]
fn zero_target_never_qualifies() {
    let miner = miner_with_target(&[0u8; 32]);
    assert!(miner.mine_batch((0..20).collect()).unwrap().is_none());
    assert_eq!(miner.mine_range(0, 20, false).unwrap(), (None, None, 20));
    assert_eq!(miner.mine_range(0, 20, true).unwrap(), (None, None, 20));
    assert_eq!(miner.mine_range(0, 0, false).unwrap(), (None, None, 0));
}

#[test]
fn header_layout() {
    let h = build_header(&seed(), 0x0102030405060708, 0x1122334455667788);
    assert_eq!(
        h,
        hex(&[
            "000102030405060708090a0b0c0d0e0f101112131415161718191a1b1c1d1e1f",
            "0807060504030201",
            "0000000000000000000000000000000000000000000000000000000000000000",
            "8877665544332211",
        ]
        .concat())
    );
}

#[test]
fn heavy_mix_known_vector() {
    let h = seed();
    let d = heavy_mix_bytes(&sampled_matrix(&h), &h);
    assert_eq!(d, hex("11101011151414251918181a2d2c1f2d31003302050407060a0808390d3c0f0e"));
}

#[test]
fn heavy_mix_largest_cells() {
    let m = Matrix { cells: vec![0xFFFF; 4096] };
    assert_eq!(heavy_mix_bytes(&m, &vec![0xFF; 32]), vec![0u8; 32]);
}

#[test]
fn heavy_hash_zero_matrix() {
    let m = Matrix { cells: vec![0; 4096] };
    let d = heavy_hash_internal(&m, &vec![0u8; 32]);
    assert_eq!(d, hex("2e77f336354bd0af759314e7b930d18a8c09cf392eabce8b43e2dd234921ecbb"));
}
