use peer_ledger::block::Block;
use peer_ledger::hash::{has_leading_zero_bits, zero_hash};
use peer_ledger::ledger::{Ledger, ValidationError};
use peer_ledger::pow::{mine, try_nonce, MineOutcome};
use std::sync::atomic::AtomicBool;

fn hex(b: &[u8]) -> String {
    let mut s = String::new();
    for x in b {
        s.push_str(&format!("{:02x}", x));
    }
    s
}

fn alice_candidate() -> Block {
    Block::candidate("alice".to_string(), "hello".to_string(), zero_hash())
}

fn mined(candidate: &Block, difficulty: u32) -> Block {
    let cancel = AtomicBool::new(false);
    match mine(candidate, difficulty, &cancel) {
        MineOutcome::Mined(b) => b,
        MineOutcome::Cancelled => panic!("search was not cancelled"),
    }
}

#[test]
fn zero_hash_is_32_zero_bytes() {
    assert_eq!(zero_hash(), vec![0u8; 32]);
}

#[test]
fn leading_zero_bits_are_counted_bitwise() {
    let h = vec![0u8, 0u8, 0x0f, 0xff];
    assert!(has_leading_zero_bits(&h, 0));
    assert!(has_leading_zero_bits(&h, 20));
    assert!(!has_leading_zero_bits(&h, 21));
    assert!(has_leading_zero_bits(&vec![0u8; 4], 32));
    assert!(!has_leading_zero_bits(&vec![0u8; 4], 33));
    assert!(!has_leading_zero_bits(&vec![0x80u8], 1));
}

#[test]
fn candidate_is_unmined() {
    let c = alice_candidate();
    assert_eq!(c.nonce, 0);
    assert_eq!(c.hash, zero_hash());
    assert_eq!(c.creator, "alice");
    assert_eq!(c.payload, "hello");
}

#[test]
fn compute_hash_is_sha256_of_the_fields() {
    let c = alice_candidate();
    assert_eq!(
        hex(&c.compute_hash(0)),
        "b10651612f16df06036da9be1bbc1f06d5d72c8e094cd286ecaf392fdaa3c566"
    );
    assert_eq!(
        hex(&c.compute_hash(166)),
        "003c86614b00c08afcbe79d3994839a9cf47efe1bbd7da2d07cdbe2f70f7a8a2"
    );
}

#[test]
fn mining_at_difficulty_zero_takes_nonce_zero() {
    let b = mined(&alice_candidate(), 0);
    assert_eq!(b.nonce, 0);
    assert_eq!(hex(&b.hash), "b10651612f16df06036da9be1bbc1f06d5d72c8e094cd286ecaf392fdaa3c566");
}

#[test]
fn mining_finds_the_smallest_nonce() {
    let b = mined(&alice_candidate(), 8);
    assert_eq!(b.nonce, 166);
    assert_eq!(hex(&b.hash), "003c86614b00c08afcbe79d3994839a9cf47efe1bbd7da2d07cdbe2f70f7a8a2");
    let b = mined(&alice_candidate(), 12);
    assert_eq!(b.nonce, 6293);
    assert_eq!(b.payload, "hello");
    assert_eq!(b.prev_hash, zero_hash());
}

#[test]
fn cancelled_search_yields_no_block() {
    let cancel = AtomicBool::new(true);
    let r = mine(&alice_candidate(), 16, &cancel);
    assert!(matches!(r, MineOutcome::Cancelled));
}

#[test]
fn structural_validity() {
    let b = mined(&alice_candidate(), 8);
    assert!(b.is_structurally_valid(&zero_hash(), 8));
    assert!(!b.is_structurally_valid(&zero_hash(), 11));
    assert!(!b.is_structurally_valid(&vec![1u8; 32], 8));
}

#[test]
fn append_accepts_a_valid_genesis_block() {
    let mut l = Ledger::new(8);
    assert_eq!(l.tip_hash(), zero_hash());
    let b = mined(&alice_candidate(), 8);
    let h = b.hash.clone();
    assert_eq!(l.append(b), Ok(()));
    assert_eq!(l.len(), 1);
    assert_eq!(l.tip_hash(), h);
    let snap = l.snapshot();
    assert_eq!(snap.len(), 1);
    assert_eq!(snap[0].hash, h);
    assert_eq!(snap[0].prev_hash, zero_hash());
}

#[test]
fn chain_links_to_previous_block() {
    let mut l = Ledger::new(4);
    let b1 = mined(&alice_candidate(), 4);
    let h1 = b1.hash.clone();
    assert_eq!(l.append(b1), Ok(()));
    let c2 = Block::candidate("bob".to_string(), "second".to_string(), l.tip_hash());
    let b2 = mined(&c2, 4);
    assert_eq!(l.append(b2), Ok(()));
    let snap = l.snapshot();
    assert_eq!(snap.len(), 2);
    assert_eq!(snap[0].prev_hash, zero_hash());
    assert_eq!(snap[1].prev_hash, h1);
}

#[test]
fn tampered_payload_is_a_hash_mismatch() {
    let mut l = Ledger::new(8);
    let b = mined(&alice_candidate(), 8);
    let mut t = b.copy();
    t.payload = "HELLO".to_string();
    assert_eq!(l.append(t), Err(ValidationError::HashMismatch));
    assert_eq!(l.len(), 0);
    assert_eq!(l.append(b.copy()), Ok(()));
    let mut t = b.copy();
    t.payload = "hell0".to_string();
    assert_eq!(l.append(t), Err(ValidationError::HashMismatch));
    assert_eq!(l.len(), 1);
}

#[test]
fn reappending_is_an_invalid_prev_hash() {
    let mut l = Ledger::new(8);
    let b = mined(&alice_candidate(), 8);
    assert_eq!(l.append(b.copy()), Ok(()));
    assert_eq!(l.append(b), Err(ValidationError::InvalidPrevHash));
    assert_eq!(l.len(), 1);
}

#[test]
fn weak_block_is_an_invalid_proof_of_work() {
    let mut l = Ledger::new(8);
    let b = mined(&alice_candidate(), 0);
    assert_eq!(l.append(b), Err(ValidationError::InvalidProofOfWork));
    assert_eq!(l.len(), 0);
}

#[test]
fn single_attempt_finalizes_only_a_winning_nonce() {
    let c = alice_candidate();
    assert!(try_nonce(&c, 8, 0).is_none());
    assert!(try_nonce(&c, 8, 165).is_none());
    let b = try_nonce(&c, 8, 166).unwrap();
    assert_eq!(b.nonce, 166);
    assert_eq!(hex(&b.hash), "003c86614b00c08afcbe79d3994839a9cf47efe1bbd7da2d07cdbe2f70f7a8a2");
    assert_eq!(try_nonce(&c, 0, 7).unwrap().nonce, 7);
}

#[test]
fn hash_is_checked_before_the_link() {
    let mut l = Ledger::new(8);
    assert_eq!(l.append(mined(&alice_candidate(), 8)), Ok(()));
    let mut t = mined(&alice_candidate(), 8);
    t.payload = "other".to_string();
    assert_eq!(l.append(t), Err(ValidationError::HashMismatch));
    assert_eq!(l.len(), 1);
}
