use pow_miner::hash;
use pow_miner::hexcode::{decode, encode};
use pow_miner::job::{JobError, Ticker, WorkState, MAX_CHALLENGE_LEN};
use pow_miner::miner::{
    challenge_bytes, challenge_tag, evaluate, first_share, mine_round, mine_slot, nonce_bytes,
    package, preimage, search_round, search_state, slot_prefix, held_challenge, BATCH_SIZE,
    HASH_LEN, NONCE_LEN,
};

fn job(challenge: &str, difficulty: i32) -> Ticker {
    Ticker {
        challenge: challenge.to_string(),
        current_location: "loc_0".to_string(),
        difficulty,
        ticker: "TICK".to_string(),
        id: "token_1".to_string(),
    }
}

#[test]
fn constants() {
    assert_eq!(MAX_CHALLENGE_LEN, 56);
    assert_eq!(NONCE_LEN, 8);
    assert_eq!(HASH_LEN, 32);
    assert_eq!(BATCH_SIZE, 8_000_000);
}

#[test]
fn slot_prefix_is_little_endian() {
    assert_eq!(slot_prefix(0), vec![0, 0, 0, 0]);
    assert_eq!(slot_prefix(1), vec![1, 0, 0, 0]);
    assert_eq!(slot_prefix(0x01020304), vec![4, 3, 2, 1]);
    assert_eq!(slot_prefix(u32::MAX), vec![255, 255, 255, 255]);
    assert_eq!(slot_prefix(7_999_999), 7_999_999u32.to_le_bytes().to_vec());
}

#[test]
fn nonce_is_prefix_then_suffix() {
    assert_eq!(nonce_bytes(0x0a0b0c0d, [1, 2, 3, 4]), vec![0x0d, 0x0c, 0x0b, 0x0a, 1, 2, 3, 4]);
}

#[test]
fn different_slots_never_share_a_nonce() {
    let random = [9u8, 9, 9, 9];
    for a in 0..50u32 {
        for b in 0..50u32 {
            if a != b {
                assert_ne!(nonce_bytes(a, random), nonce_bytes(b, random));
                assert_ne!(nonce_bytes(a * 65_537, random), nonce_bytes(b * 65_537, random));
            }
        }
    }
}

#[test]
fn preimage_is_challenge_then_nonce() {
    assert_eq!(
        preimage(&[0xff, 0x00], &[1, 2, 3, 4, 5, 6, 7, 8]),
        vec![0xff, 0x00, 1, 2, 3, 4, 5, 6, 7, 8]
    );
    assert_eq!(preimage(&[], &[1, 2, 3, 4, 5, 6, 7, 8]), vec![1, 2, 3, 4, 5, 6, 7, 8]);
}

#[test]
fn challenge_bytes_are_decoded_and_reversed() {
    assert_eq!(challenge_bytes(&job("00ff", 1)), Ok(vec![0xff, 0x00]));
    assert_eq!(challenge_bytes(&job("010203", 1)), Ok(vec![3, 2, 1]));
    assert_eq!(challenge_bytes(&job("", 1)), Ok(vec![]));
}

#[test]
fn challenge_that_is_not_hex() {
    assert_eq!(challenge_bytes(&job("xyz", 1)), Err(JobError::NotHex));
    assert_eq!(challenge_bytes(&job("abc", 1)), Err(JobError::NotHex));
    assert_eq!(mine_round(&job("0q", 0), 4).unwrap_err(), JobError::NotHex);
}

#[test]
fn challenge_that_is_too_long() {
    let longest = "ab".repeat(56);
    let too_long = "ab".repeat(57);
    assert_eq!(challenge_bytes(&job(&longest, 1)).unwrap().len(), 56);
    assert_eq!(challenge_bytes(&job(&too_long, 1)), Err(JobError::TooLong));
    assert_eq!(mine_round(&job(&too_long, 0), 4).unwrap_err(), JobError::TooLong);
}

#[test]
fn package_keeps_or_drops_by_difficulty() {
    let work = job("00ff", 2);
    let nonce = [1u8, 0, 0, 0, 5, 6, 7, 8];
    let good = [0x00u8, 0xab, 0xcd];
    let bad = [0x01u8, 0xab, 0xcd];
    assert!(package(&work, &[0xff, 0x00], &nonce, &bad).is_none());
    let solution = package(&work, &[0xff, 0x00], &nonce, &good).unwrap();
    assert_eq!(solution.nonce, "0100000005060708");
    assert_eq!(solution.hash, "00abcd");
    assert_eq!(solution.location, "loc_0");
    assert_eq!(solution.token_id, "token_1");
    assert_eq!(solution.challenge, vec![0xff, 0x00]);
}

#[test]
fn evaluate_reports_the_double_hash() {
    let work = job("00ff", 0);
    let challenge = challenge_bytes(&work).unwrap();
    let solution = evaluate(&work, &challenge, 3, [10, 20, 30, 40]).unwrap();
    let data = vec![0xff, 0x00, 3, 0, 0, 0, 10, 20, 30, 40];
    assert_eq!(solution.nonce, "030000000a141e28");
    assert_eq!(solution.hash, encode(&hash::Hash::sha256d(&data)));
    assert_eq!(solution.challenge, challenge);
}

#[test]
fn evaluate_agrees_with_the_hash() {
    let work = job("00ff", 1);
    let challenge = challenge_bytes(&work).unwrap();
    for slot in 0..200u32 {
        let random = [1u8, 2, 3, 4];
        let data = preimage(&challenge, &nonce_bytes(slot, random));
        let digest = hash::Hash::sha256d(&data);
        let found = evaluate(&work, &challenge, slot, random);
        assert_eq!(found.is_some(), digest[0] >> 4 == 0);
    }
}

#[test]
fn mine_slot_uses_the_slot_as_prefix() {
    let work = job("00ff", 0);
    let challenge = challenge_bytes(&work).unwrap();
    let solution = mine_slot(&work, &challenge, 0x00010203).unwrap();
    assert_eq!(solution.nonce.len(), 16);
    assert_eq!(&solution.nonce[..8], "03020100");
    let nonce = decode(&solution.nonce).unwrap();
    let data = preimage(&challenge, &nonce);
    assert_eq!(solution.hash, encode(&hash::Hash::sha256d(&data)));
}

#[test]
fn zero_difficulty_wins_in_every_slot() {
    let work = job("00ff", 0);
    let found = mine_round(&work, 25).unwrap();
    assert_eq!(found.len(), 25);
    for (k, solution) in found.iter().enumerate() {
        assert_eq!(&solution.nonce[..8], encode(&(k as u32).to_le_bytes()));
    }
}

#[test]
fn empty_challenge_is_mined_like_any_other() {
    let work = job("", 0);
    let found = mine_round(&work, 3).unwrap();
    assert_eq!(found.len(), 3);
    assert_eq!(found[0].challenge, Vec::<u8>::new());
    let nonce = decode(&found[2].nonce).unwrap();
    assert_eq!(found[2].hash, encode(&hash::Hash::sha256d(&nonce)));
}

#[test]
fn impossible_difficulty_finds_nothing() {
    let work = job("00ff", 65);
    assert_eq!(mine_round(&work, 50).unwrap().len(), 0);
}

#[test]
fn search_round_keeps_to_its_slots() {
    let work = job("00ff", 0);
    let challenge = challenge_bytes(&work).unwrap();
    let found = search_round(&work, &challenge, 1000, 5);
    assert_eq!(found.len(), 5);
    assert_eq!(&found[0].nonce[..8], encode(&1000u32.to_le_bytes()));
    assert_eq!(&found[4].nonce[..8], encode(&1004u32.to_le_bytes()));
    let last = search_round(&work, &challenge, u32::MAX, 1);
    assert_eq!(&last[0].nonce[..8], "ffffffff");
    assert_eq!(search_round(&work, &challenge, 7, 0).len(), 0);
}

#[test]
fn search_finds_a_nonce_for_two_zero_nibbles() {
    let work = job("00ff", 2);
    let found = mine_round(&work, 20_000).unwrap();
    assert!(!found.is_empty());
    for solution in &found {
        let hash = decode(&solution.hash).unwrap();
        assert_eq!(hash.len(), 32);
        assert_eq!(hash[0], 0x00);
        let nonce = decode(&solution.nonce).unwrap();
        assert_eq!(nonce.len(), 8);
        let data = preimage(&[0xff, 0x00], &nonce);
        assert_eq!(hash::Hash::sha256d(&data).to_vec(), hash);
        assert_eq!(solution.location, "loc_0");
        assert_eq!(solution.token_id, "token_1");
        assert_eq!(solution.challenge, vec![0xff, 0x00]);
    }
}

#[test]
fn round_reports_the_job_it_captured() {
    let mut state = WorkState::new(job("00ff", 0)).unwrap();
    let snapshot = state.snapshot();
    let mut next = job("11ee", 0);
    next.current_location = "loc_1".to_string();
    next.id = "token_2".to_string();
    assert!(state.refresh(Some(next)).is_some());
    let found = mine_round(&snapshot, 4).unwrap();
    assert_eq!(found.len(), 4);
    for solution in &found {
        assert_eq!(solution.location, "loc_0");
        assert_eq!(solution.token_id, "token_1");
        assert_eq!(solution.challenge, vec![0xff, 0x00]);
    }
    assert_eq!(state.job().current_location, "loc_1");
}

#[test]
fn challenge_tag_is_the_first_four_bytes() {
    assert_eq!(challenge_tag(&[0xde, 0xad, 0xbe, 0xef, 0x01, 0x02]), "deadbeef");
    assert_eq!(challenge_tag(&[0xde, 0xad, 0xbe, 0xef]), "deadbeef");
    assert_eq!(challenge_tag(&[0xff, 0x00]), "ff00");
    assert_eq!(challenge_tag(&[]), "");
}

#[test]
fn negative_difficulty_is_refused() {
    assert_eq!(challenge_bytes(&job("00ff", -1)), Err(JobError::NegativeDifficulty));
    assert_eq!(mine_round(&job("00ff", -1), 4).unwrap_err(), JobError::NegativeDifficulty);
    assert_eq!(mine_round(&job("0g", -1), 4).unwrap_err(), JobError::NotHex);
    assert_eq!(job("00ff", i32::MIN).check(), Err(JobError::NegativeDifficulty));
    assert_eq!(job("00ff", 0).check(), Ok(()));
}

#[test]
fn difficulty_beyond_the_hash_wins_nowhere() {
    let work = job("00ff", 65);
    let challenge = challenge_bytes(&work).unwrap();
    assert!(evaluate(&work, &challenge, 1, [0, 0, 0, 0]).is_none());
    assert!(mine_slot(&work, &challenge, 1).is_none());
    assert_eq!(search_round(&work, &challenge, 0, 20).len(), 0);
    assert_eq!(mine_round(&job("00ff", i32::MAX), 20).unwrap().len(), 0);
}

#[test]
fn search_on_a_state_cannot_fail() {
    let state = WorkState::new(job("00ff", 0)).unwrap();
    let found = search_state(&state, 10, 3);
    assert_eq!(found.len(), 3);
    assert_eq!(&found[0].nonce[..8], "0a000000");
    assert_eq!(found[0].challenge, vec![0xff, 0x00]);
    assert_eq!(found[2].location, "loc_0");
    let frozen = state.clone();
    assert_eq!(search_state(&frozen, 0, 2).len(), 2);
    assert_eq!(held_challenge(&frozen), vec![0xff, 0x00]);
}

#[test]
fn neighbouring_rounds_join() {
    let work = job("00ff", 0);
    let challenge = challenge_bytes(&work).unwrap();
    let mut joined = search_round(&work, &challenge, 5, 3);
    joined.extend(search_round(&work, &challenge, 8, 2));
    let prefixes: Vec<String> = joined.iter().map(|s| s.nonce[..8].to_string()).collect();
    let whole: Vec<String> = (5u32..10).map(|slot| encode(&slot.to_le_bytes())).collect();
    assert_eq!(prefixes, whole);
}

#[test]
fn first_share_is_the_first_solution() {
    assert!(first_share(&Vec::new()).is_none());
    let found = mine_round(&job("00ff", 0), 3).unwrap();
    let share = first_share(&found).unwrap();
    assert_eq!(share.nonce, found[0].nonce);
    assert_eq!(&share.nonce[..8], "00000000");
}
