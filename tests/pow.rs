use anubis_pow::derivation::{compute_hash, hash_input, DIGEST_SIZE};
use anubis_pow::difficulty::validate;
use anubis_pow::engine::{should_report, update_nonce, PowState, CHALLENGE_CAPACITY};
use sha2::Digest;

fn state_with(challenge: &[u8]) -> PowState {
    let mut s = PowState::new();
    s.write_data(0, challenge);
    s.set_data_length(challenge.len() as u32);
    s
}

fn meets(hash: &[u8], difficulty: u32) -> bool {
    // Bit-by-bit reading of the leading-zero rule, most significant bit first.
    for k in 0..difficulty as usize {
        if k / 8 >= hash.len() {
            break;
        }
        if (hash[k / 8] >> (7 - k % 8)) & 1 == 1 {
            return false;
        }
    }
    true
}

#[test]
fn zero_difficulty_accepts_any_digest() {
    assert!(validate(&[0xFF; 32], 0));
    assert!(validate(&[0x80], 0));
    assert!(validate(&[], 0));
}

#[test]
fn whole_zero_bytes_meet_multiples_of_eight() {
    let mut h = [0xFFu8; 32];
    h[0] = 0;
    h[1] = 0;
    assert!(validate(&h, 8));
    assert!(validate(&h, 16));
    assert!(!validate(&h, 17));
    assert!(!validate(&h, 24));
}

#[test]
fn partial_byte_is_masked_from_the_top() {
    let h = [0x00u8, 0x40, 0xFF];
    assert!(validate(&h, 9));
    assert!(!validate(&h, 10));
    let h = [0x0Fu8];
    assert!(validate(&h, 4));
    assert!(!validate(&h, 5));
    let h = [0x01u8, 0xFF];
    assert!(validate(&h, 7));
    assert!(!validate(&h, 8));
}

#[test]
fn difficulty_beyond_width_needs_all_zero_bytes() {
    assert!(validate(&[0u8; 32], 300));
    assert!(validate(&[0u8; 32], u32::MAX));
    let mut h = [0u8; 32];
    h[31] = 1;
    assert!(!validate(&h, 300));
    assert!(validate(&h, 255));
    assert!(!validate(&h, 256));
    assert!(validate(&[], 40));
}

#[test]
fn predicate_agrees_with_bitwise_reading() {
    let mut seed: u32 = 12345;
    for _ in 0..400 {
        let mut h = [0u8; 4];
        for b in h.iter_mut() {
            seed = seed.wrapping_mul(1103515245).wrapping_add(12345);
            let v = (seed >> 16) as u8;
            *b = if v % 3 == 0 { 0 } else { v >> (v % 8) };
        }
        for d in 0..40u32 {
            assert_eq!(validate(&h, d), meets(&h, d), "{:?} {}", h, d);
        }
    }
}

#[test]
fn high_last_byte_appends_nonce_little_endian() {
    let input = hash_input(&[1, 2, 0x80], 0x0102_0304);
    assert_eq!(input, vec![1, 2, 0x80, 0x04, 0x03, 0x02, 0x01]);
    let input = hash_input(&[0xFF], 7);
    assert_eq!(input, vec![0xFF, 7, 0, 0, 0]);
}

#[test]
fn low_last_byte_appends_nonce_big_endian() {
    let input = hash_input(&[1, 2, 0x7F], 0x0102_0304);
    assert_eq!(input, vec![1, 2, 0x7F, 0x01, 0x02, 0x03, 0x04]);
    let input = hash_input(&[0x00], 7);
    assert_eq!(input, vec![0x00, 0, 0, 0, 7]);
}

#[test]
fn boundary_byte_changes_the_digest() {
    let base = [9u8, 8, 7];
    let mut low = base.to_vec();
    low.push(0x7F);
    let mut high = base.to_vec();
    high.push(0x80);
    for nonce in [1u32, 0x0102_0304, 0xDEAD_BEEF] {
        assert_ne!(compute_hash(&low, nonce), compute_hash(&high, nonce));
    }
}

#[test]
fn digest_is_sha256_of_challenge_and_nonce() {
    let challenge = [0xAAu8, 0xBB, 0x10];
    let nonce: u32 = 0x0A0B_0C0D;
    let mut input = challenge.to_vec();
    input.extend_from_slice(&nonce.to_be_bytes());
    let expected: [u8; 32] = sha2::Sha256::digest(&input).into();
    let got = compute_hash(&challenge, nonce);
    assert_eq!(got, expected);
    assert_ne!(&got[..], &input[..]);
    assert_eq!(got.len(), DIGEST_SIZE);

    let challenge = [0x10u8, 0x90];
    let mut input = challenge.to_vec();
    input.extend_from_slice(&nonce.to_le_bytes());
    let expected: [u8; 32] = sha2::Sha256::digest(&input).into();
    assert_eq!(compute_hash(&challenge, nonce), expected);
}

#[test]
fn distinct_nonces_give_distinct_digests() {
    let challenge = [3u8, 1, 4, 1, 5, 9];
    let stride = 4u32;
    let mut seen = std::collections::HashSet::new();
    for k in 0..500u32 {
        let nonce = 2 + k * stride;
        assert!(seen.insert(compute_hash(&challenge, nonce)));
    }
}

#[test]
fn new_state_is_empty_and_zeroed() {
    let s = PowState::new();
    assert_eq!(s.data_length(), 0);
    assert_eq!(s.result_hash(), [0u8; 32]);
    assert_eq!(s.verification_hash(), [0u8; 32]);
    assert_eq!(s.result_hash_size(), 32);
    assert_eq!(s.verification_hash_size(), 32);
}

#[test]
fn written_challenge_is_what_gets_hashed() {
    let mut s = PowState::new();
    s.write_data(0, &[1, 2, 3, 4]);
    s.write_data(2, &[9, 9]);
    s.set_data_length(4);
    assert_eq!(s.data_length(), 4);
    let found = s.anubis_work(0, 77, 1, &update_nonce);
    assert_eq!(found, Some(77));
    assert_eq!(s.result_hash(), compute_hash(&[1, 2, 9, 9], 77));
}

#[test]
fn buffer_accepts_a_full_capacity_challenge() {
    let challenge = vec![0x42u8; CHALLENGE_CAPACITY];
    let mut s = state_with(&challenge);
    assert_eq!(s.data_length(), CHALLENGE_CAPACITY);
    assert_eq!(s.anubis_work(0, 5, 3, &update_nonce), Some(5));
    assert_eq!(s.result_hash(), compute_hash(&challenge, 5));
}

#[test]
fn search_finds_smallest_nonce_for_scenario() {
    let challenge = [0u8, 0, 0, 0, 0];
    let mut s = state_with(&challenge);
    let found = s.anubis_work(8, 0, 1, &update_nonce).expect("a nonce exists");
    for n in 0..found {
        assert_ne!(compute_hash(&challenge, n)[0], 0);
    }
    let digest = compute_hash(&challenge, found);
    assert_eq!(digest[0], 0);
    assert_eq!(s.result_hash(), digest);

    s.set_verification_hash(digest);
    assert!(s.anubis_validate(found, 8));
}

#[test]
fn search_then_validate_round_trip() {
    let challenge = [0xC3u8, 0x11, 0x5A, 0x90];
    let mut s = state_with(&challenge);
    let found = s.anubis_work(10, 3, 7, &update_nonce).expect("a nonce exists");
    assert_eq!((found - 3) % 7, 0);
    let result = s.result_hash();
    assert!(validate(&result, 10));
    s.set_verification_hash(result);
    assert!(s.anubis_validate(found, 10));
}

#[test]
fn search_wraps_around_the_nonce_space() {
    let challenge = [0x55u8, 0x66];
    let mut s = state_with(&challenge);
    let start = u32::MAX - 5;
    let found = s.anubis_work(6, start, 4, &update_nonce).expect("a nonce exists");
    let mut n = start;
    loop {
        let ok = validate(&compute_hash(&challenge, n), 6);
        if n == found {
            assert!(ok);
            break;
        }
        assert!(!ok);
        n = n.wrapping_add(4);
    }
    assert_eq!(s.result_hash(), compute_hash(&challenge, found));
}

#[test]
fn validate_rejects_wrong_hash_or_weak_nonce() {
    let challenge = [7u8, 7, 7];
    let mut s = state_with(&challenge);
    let found = s.anubis_work(8, 0, 1, &update_nonce).expect("a nonce exists");
    let mut wrong = s.result_hash();
    wrong[31] ^= 1;
    s.set_verification_hash(wrong);
    assert!(!s.anubis_validate(found, 8));

    // A nonce whose digest misses the difficulty fails even when the
    // expected digest matches it.
    let weak = (0..found).next().expect("found is not the first nonce");
    let weak_digest = compute_hash(&challenge, weak);
    if weak_digest[0] != 0 {
        s.set_verification_hash(weak_digest);
        assert!(!s.anubis_validate(weak, 8));
        assert!(s.anubis_validate(weak, 0));
    }
}

#[test]
fn validate_twice_gives_the_same_answer() {
    let challenge = [1u8, 2, 3];
    let mut s = state_with(&challenge);
    let found = s.anubis_work(4, 0, 1, &update_nonce).expect("a nonce exists");
    s.set_verification_hash(s.result_hash());
    let first = s.anubis_validate(found, 4);
    let second = s.anubis_validate(found, 4);
    assert_eq!(first, second);
    assert!(first);
    let first = s.anubis_validate(found.wrapping_add(1), 4);
    let second = s.anubis_validate(found.wrapping_add(1), 4);
    assert_eq!(first, second);
    assert!(!first);
}

#[test]
fn progress_is_reported_on_block_crossings_in_own_slot() {
    assert!(should_report(1023, 1024, 1, 0));
    assert!(!should_report(1024, 1025, 1, 0));
    assert!(should_report(2047, 2050, 3, 2));
    assert!(!should_report(2047, 2050, 3, 1));
    assert!(!should_report(5, 5, 0, 0));
    assert!(!should_report(u32::MAX, 2, 3, 0));
    update_nonce(1024);
}

#[test]
fn progress_hook_sees_each_block_crossing() {
    let challenge = [0x21u8, 0x43, 0x65];
    let mut s = state_with(&challenge);
    let reports = std::cell::RefCell::new(Vec::new());
    let hook = |n: u32| reports.borrow_mut().push(n);
    let found = s.anubis_work(14, 0, 1, &hook).expect("a nonce exists");
    let reports = reports.into_inner();
    let expected: Vec<u32> = (1..=found / 1024).map(|b| b * 1024).collect();
    assert_eq!(reports, expected);
}
