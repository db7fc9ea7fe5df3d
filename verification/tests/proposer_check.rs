use cb_pbs::proposer::{
    contains_key, BlsPublicKey, GetProposerEpochResponse, ProposerError, ProposerSlot, Version,
    VersionedResponse, BLS_PUBLIC_KEY_BYTES_LEN, PROPOSER_NOT_FOUND,
};

fn key(byte: u8) -> BlsPublicKey {
    BlsPublicKey::repeat_byte(byte)
}

fn duties(entries: Vec<(u8, u64, u64)>) -> GetProposerEpochResponse {
    VersionedResponse {
        version: Version::Deneb,
        data: entries
            .into_iter()
            .map(|(k, index, slot)| ProposerSlot { pub_key: key(k), validator_index: index, slot })
            .collect(),
    }
}

fn message(err: ProposerError) -> String {
    match err {
        ProposerError::ProposerNotFound(msg) => msg,
    }
}

#[test]
fn key_is_forty_eight_bytes() {
    assert_eq!(BLS_PUBLIC_KEY_BYTES_LEN, 48);
    assert_eq!(key(7).0, [7u8; 48]);
}

#[test]
fn same_key_compares_every_byte() {
    let a = key(1);
    let mut b = key(1);
    assert!(a.same_key(&b));
    b.0[47] = 2;
    assert!(!a.same_key(&b));
    let mut c = key(1);
    c.0[0] = 0;
    assert!(!a.same_key(&c));
}

#[test]
fn keys_compare_with_the_operator() {
    assert!(key(1) == key(1));
    assert!(key(1) != key(2));
    let mut other = key(1);
    other.0[20] = 9;
    assert!(key(1) != other);
}

#[test]
fn contains_key_finds_only_listed_keys() {
    let keys = vec![key(1), key(2), key(3)];
    assert!(contains_key(&keys, &key(1)));
    assert!(contains_key(&keys, &key(3)));
    assert!(!contains_key(&keys, &key(4)));
    assert!(!contains_key(&Vec::new(), &key(1)));
}

#[test]
fn default_duty_is_all_zero() {
    let duty = ProposerSlot::default();
    assert_eq!(duty.pub_key.0, [0u8; 48]);
    assert_eq!(duty.validator_index, 0);
    assert_eq!(duty.slot, 0);
}

#[test]
fn check_passes_on_matching_key_and_slot() {
    let reply = duties(vec![(9, 1, 99), (1, 2, 100), (3, 3, 101)]);
    assert!(reply.check_proposers_slots(vec![key(1)], 100).is_ok());
}

#[test]
fn check_passes_when_any_candidate_matches() {
    let reply = duties(vec![(9, 1, 99), (1, 2, 100)]);
    assert!(reply.check_proposers_slots(vec![key(5), key(6), key(1)], 100).is_ok());
}

#[test]
fn check_fails_on_wrong_slot() {
    let reply = duties(vec![(1, 2, 100)]);
    let err = reply.check_proposers_slots(vec![key(1)], 101).unwrap_err();
    assert_eq!(message(err), "Proposer not found");
}

#[test]
fn check_fails_on_wrong_key() {
    let reply = duties(vec![(1, 2, 100)]);
    assert!(reply.check_proposers_slots(vec![key(2)], 100).is_err());
}

#[test]
fn check_needs_key_and_slot_in_one_record() {
    // Key 1 proposes at 100 and key 2 at 101: key 2 does not propose at 100.
    let reply = duties(vec![(1, 2, 100), (2, 3, 101)]);
    assert!(reply.check_proposers_slots(vec![key(2)], 100).is_err());
    assert!(reply.check_proposers_slots(vec![key(2)], 101).is_ok());
}

#[test]
fn check_fails_on_empty_duties_or_candidates() {
    assert!(duties(vec![]).check_proposers_slots(vec![key(1)], 100).is_err());
    assert!(duties(vec![(1, 2, 100)]).check_proposers_slots(vec![], 100).is_err());
}

#[test]
fn check_ignores_validator_index() {
    let reply = duties(vec![(1, u64::MAX, u64::MAX)]);
    assert!(reply.check_proposers_slots(vec![key(1)], u64::MAX).is_ok());
}

#[test]
fn duties_clone_with_every_record() {
    let reply = duties(vec![(1, 2, 100), (3, 4, 101)]);
    let copy = reply.clone();
    assert_eq!(copy.version, Version::Deneb);
    assert_eq!(copy.data.len(), 2);
    assert!(copy.data[0].pub_key == key(1));
    assert_eq!(copy.data[0].validator_index, 2);
    assert_eq!(copy.data[0].slot, 100);
    assert!(copy.data[1].pub_key == key(3));
    assert_eq!(copy.data[1].validator_index, 4);
    assert_eq!(copy.data[1].slot, 101);
    assert!(copy.check_proposers_slots(vec![key(3)], 101).is_ok());
}

#[test]
fn proposer_error_text() {
    assert_eq!(PROPOSER_NOT_FOUND, "Proposer not found");
    let err = ProposerError::from("nobody at slot 7".to_string());
    assert_eq!(err.to_string(), "Proposer not found: nobody at slot 7");
    let err = duties(vec![]).check_proposers_slots(vec![key(1)], 1).unwrap_err();
    assert_eq!(err.to_string(), "Proposer not found: Proposer not found");
}

#[test]
fn proposer_error_from_string_keeps_message() {
    let err: ProposerError = String::from("gone").into();
    assert_eq!(message(err), "gone");
}
