use atomic_ip::common::{Addr, Bytes32};
use atomic_ip::crypto::{create_commitment_hash, hash_pair};
use atomic_ip::ip_registry::state::IpRegistry;
use atomic_ip::ip_registry::types::{ContractError, LEDGER_BUMP};
use soroban_sdk::Env;

const CONTRACT: Addr = Addr { id: 9_000 };

fn setup() -> (Env, IpRegistry) {
    (Env::default(), IpRegistry::new(CONTRACT))
}

fn addr(id: u64) -> Addr {
    Addr { id }
}

fn filled(b: u8) -> Bytes32 {
    [b; 32]
}

#[test]
fn test_notarize_ip_timestamp_with_valid_signature() {
    let (env, mut reg) = setup();
    let owner = addr(1);
    let secret1 = filled(0x11);
    let bf1 = filled(0x12);
    let hash1 = create_commitment_hash(&env, &secret1, &bf1);
    let secret2 = filled(0x21);
    let bf2 = filled(0x22);
    let hash2 = create_commitment_hash(&env, &secret2, &bf2);

    let id1 = reg.commit_ip(&env, owner, hash1, 0, 0).unwrap();
    let id2 = reg.commit_ip(&env, owner, hash2, 0, 0).unwrap();

    let verifications = vec![(id1, secret1, bf1), (id2, secret2, bf2)];
    let results = reg.batch_verify_commitments(&env, &verifications);
    assert_eq!(results.len(), 2);
    assert!(results[0]);
    assert!(results[1]);
}

#[test]
fn test_batch_verify_commitments_invalid_secret() {
    let (env, mut reg) = setup();
    let secret = filled(0xAA);
    let bf = filled(0xBB);
    let hash = create_commitment_hash(&env, &secret, &bf);
    let id = reg.commit_ip(&env, addr(1), hash, 0, 0).unwrap();

    let wrong_secret = filled(0xFF);
    let results = reg.batch_verify_commitments(&env, &vec![(id, wrong_secret, bf)]);
    assert!(!results[0]);
}

#[test]
fn test_batch_verify_nonexistent_ip_returns_false() {
    let (env, reg) = setup();
    let results = reg.batch_verify_commitments(&env, &vec![(999u64, filled(0x01), filled(0x02))]);
    assert!(!results[0]);
}

#[test]
fn test_ownership_challenge_full_flow() {
    let (env, mut reg) = setup();
    let owner = addr(1);
    let challenger = addr(2);
    let hash = filled(0xA1);
    let ip_id = reg.commit_ip(&env, owner, hash, 0, 0).unwrap();

    let nonce = filled(0x42);
    let challenge_id = reg.issue_ownership_challenge(ip_id, challenger, nonce, 0).unwrap();
    assert_eq!(challenge_id, 1u64);

    let response = hash_pair(&env, &hash, &nonce);
    reg.respond_to_ownership_challenge(challenge_id, response).unwrap();

    assert!(reg.verify_ownership_challenge(&env, challenge_id).unwrap());

    let stored = reg.get_ownership_challenge(challenge_id).unwrap();
    assert!(stored.verified);
    assert_eq!(stored.ip_id, ip_id);
}

#[test]
fn test_ownership_challenge_wrong_response_fails() {
    let (env, mut reg) = setup();
    let ip_id = reg.commit_ip(&env, addr(1), filled(0xB1), 0, 0).unwrap();
    let challenge_id = reg.issue_ownership_challenge(ip_id, addr(2), filled(0x11), 0).unwrap();
    reg.respond_to_ownership_challenge(challenge_id, filled(0xFF)).unwrap();
    assert!(!reg.verify_ownership_challenge(&env, challenge_id).unwrap());
}

#[test]
fn test_ownership_challenge_no_response_returns_false() {
    let (env, mut reg) = setup();
    let ip_id = reg.commit_ip(&env, addr(1), filled(0xC1), 0, 0).unwrap();
    let challenge_id = reg.issue_ownership_challenge(ip_id, addr(2), filled(0x22), 0).unwrap();
    assert!(!reg.verify_ownership_challenge(&env, challenge_id).unwrap());
}

#[test]
fn ownership_challenge_for_missing_ip_is_not_found() {
    let (env, mut reg) = setup();
    assert_eq!(reg.issue_ownership_challenge(5, addr(2), filled(1), 0).err(), Some(ContractError::IpNotFound));
    assert_eq!(reg.verify_ownership_challenge(&env, 7).err(), Some(ContractError::IpNotFound));
    assert!(reg.get_ownership_challenge(7).is_none());
}

#[test]
fn test_rotate_commitment_key_success() {
    let (env, mut reg) = setup();
    let secret = filled(0x10);
    let bf = filled(0x20);
    let old_hash = create_commitment_hash(&env, &secret, &bf);
    let ip_id = reg.commit_ip(&env, addr(1), old_hash, 0, 0).unwrap();

    let new_hash = filled(0xD1);
    reg.rotate_commitment_key(&env, ip_id, new_hash, &secret, &bf).unwrap();

    assert_eq!(reg.get_ip(ip_id).unwrap().commitment_hash, new_hash);
    let history = reg.get_key_rotation_history(ip_id).unwrap();
    assert_eq!(history.len(), 1);
    assert_eq!(history[0], old_hash);
}

#[test]
fn rotate_commitment_key_wrong_old_secret_is_refused() {
    let (env, mut reg) = setup();
    let secret = filled(0x10);
    let bf = filled(0x20);
    let hash = create_commitment_hash(&env, &secret, &bf);
    let ip_id = reg.commit_ip(&env, addr(1), hash, 0, 0).unwrap();
    assert!(reg.rotate_commitment_key(&env, ip_id, filled(0xE1), &filled(0xFF), &bf).is_err());
    assert_eq!(reg.get_ip(ip_id).unwrap().commitment_hash, hash);
}

#[test]
fn test_notarize_ip_timestamp_with_valid_signature_continued() {
    let (env, mut reg) = setup();
    let ip_id = reg.commit_ip(&env, addr(1), filled(50), 0, 77).unwrap();
    let public_key = filled(42);
    reg.set_notary_public_key(public_key);

    let record_ts = reg.get_ip(ip_id).unwrap().timestamp;
    let mut msg_bytes = [0u8; 16];
    msg_bytes[..8].copy_from_slice(&ip_id.to_be_bytes());
    msg_bytes[8..].copy_from_slice(&record_ts.to_be_bytes());

    let check = reg.notarize_ip_timestamp(ip_id, vec![7u8; 64]).unwrap();
    assert_eq!(check.public_key, public_key);
    assert_eq!(check.message, msg_bytes.to_vec());

    let stored_sig = reg.get_ip_notary_signature(ip_id).unwrap();
    assert!(stored_sig.is_some());
}

#[test]
fn notarize_without_key_or_with_short_signature_is_unauthorized() {
    let (env, mut reg) = setup();
    let ip_id = reg.commit_ip(&env, addr(1), filled(52), 0, 0).unwrap();
    assert_eq!(reg.notarize_ip_timestamp(ip_id, vec![0u8; 64]).err(), Some(ContractError::Unauthorized));
    reg.set_notary_public_key(filled(44));
    assert_eq!(reg.notarize_ip_timestamp(ip_id, vec![1u8; 32]).err(), Some(ContractError::Unauthorized));
    assert_eq!(reg.notarize_ip_timestamp(99, vec![1u8; 64]).err(), Some(ContractError::IpNotFound));
    assert_eq!(reg.get_ip_notary_signature(ip_id).unwrap(), None);
}

#[test]
fn test_generate_merkle_proof_single_ip() {
    let (env, mut reg) = setup();
    let ip_id = reg.commit_ip(&env, addr(1), filled(0xF1), 0, 0).unwrap();
    assert_eq!(reg.generate_merkle_proof(&env, ip_id).unwrap().len(), 0);
}

#[test]
fn test_generate_and_verify_merkle_proof_multiple_ips() {
    let (env, mut reg) = setup();
    let owner = addr(1);
    let id1 = reg.commit_ip(&env, owner, filled(0x01), 0, 0).unwrap();
    let id2 = reg.commit_ip(&env, owner, filled(0x02), 0, 0).unwrap();
    let id3 = reg.commit_ip(&env, owner, filled(0x03), 0, 0).unwrap();

    let proof1 = reg.generate_merkle_proof(&env, id1).unwrap();
    let proof2 = reg.generate_merkle_proof(&env, id2).unwrap();
    let proof3 = reg.generate_merkle_proof(&env, id3).unwrap();

    assert!(reg.verify_ip_merkle_proof(&env, id1, &proof1).unwrap());
    assert!(reg.verify_ip_merkle_proof(&env, id2, &proof2).unwrap());
    assert!(reg.verify_ip_merkle_proof(&env, id3, &proof3).unwrap());
    assert!(!reg.verify_ip_merkle_proof(&env, id1, &proof2).unwrap());
}

#[test]
fn test_merkle_root_consistent_with_proof() {
    let (env, mut reg) = setup();
    let owner = addr(1);
    let id1 = reg.commit_ip(&env, owner, filled(0xA0), 0, 0).unwrap();
    let id2 = reg.commit_ip(&env, owner, filled(0xB0), 0, 0).unwrap();

    let root = reg.compute_ip_merkle_root(&env, owner);
    let proof1 = reg.generate_merkle_proof(&env, id1).unwrap();
    let proof2 = reg.generate_merkle_proof(&env, id2).unwrap();
    assert!(reg.verify_ip_merkle_proof(&env, id1, &proof1).unwrap());
    assert!(reg.verify_ip_merkle_proof(&env, id2, &proof2).unwrap());
    assert_ne!(root, filled(0));
    assert_eq!(root, hash_pair(&env, &filled(0xA0), &filled(0xB0)));
}

#[test]
fn test_initiate_dispute_returns_sequential_ids() {
    let (env, mut reg) = setup();
    let ip_id = reg.commit_ip(&env, addr(1), filled(1), 0, 0).unwrap();
    let evidence = filled(0xAB);
    let d1 = reg.initiate_dispute(ip_id, addr(2), evidence, 0).unwrap();
    let d2 = reg.initiate_dispute(ip_id, addr(2), evidence, 0).unwrap();
    assert_eq!(d1, 1);
    assert_eq!(d2, 2);
}

#[test]
fn test_initiate_dispute_stores_record() {
    let (env, mut reg) = setup();
    let challenger = addr(2);
    let ip_id = reg.commit_ip(&env, addr(1), filled(2), 0, 0).unwrap();
    let evidence = filled(0xCD);
    let dispute_id = reg.initiate_dispute(ip_id, challenger, evidence, 0).unwrap();
    let record = reg.get_dispute(dispute_id).unwrap();
    assert_eq!(record.ip_id, ip_id);
    assert_eq!(record.challenger, challenger);
    assert_eq!(record.evidence_hash, evidence);
    assert!(!record.resolved);
}

#[test]
fn test_submit_dispute_evidence_updates_hash() {
    let (env, mut reg) = setup();
    let owner = addr(1);
    let ip_id = reg.commit_ip(&env, owner, filled(3), 0, 0).unwrap();
    let dispute_id = reg.initiate_dispute(ip_id, addr(2), filled(0x11), 0).unwrap();
    let new_evidence = filled(0x22);
    reg.submit_dispute_evidence(dispute_id, owner, new_evidence).unwrap();
    assert_eq!(reg.get_dispute(dispute_id).unwrap().evidence_hash, new_evidence);
}

#[test]
fn submit_evidence_by_non_party_is_unauthorized() {
    let (env, mut reg) = setup();
    let ip_id = reg.commit_ip(&env, addr(1), filled(4), 0, 0).unwrap();
    let dispute_id = reg.initiate_dispute(ip_id, addr(2), filled(0x33), 0).unwrap();
    assert_eq!(
        reg.submit_dispute_evidence(dispute_id, addr(3), filled(0x44)).err(),
        Some(ContractError::Unauthorized)
    );
    assert_eq!(reg.get_dispute(dispute_id).unwrap().evidence_hash, filled(0x33));
}

#[test]
fn test_resolve_dispute_marks_resolved_and_sets_winner() {
    let (env, mut reg) = setup();
    let owner = addr(1);
    let ip_id = reg.commit_ip(&env, owner, filled(5), 0, 0).unwrap();
    let dispute_id = reg.initiate_dispute(ip_id, addr(2), filled(0x55), 0).unwrap();
    reg.resolve_dispute(dispute_id, owner, 0).unwrap();
    let record = reg.get_dispute(dispute_id).unwrap();
    assert!(record.resolved);
    assert_eq!(record.winner, Some(owner));
}

#[test]
fn resolve_dispute_twice_is_refused_and_challenger_win_transfers() {
    let (env, mut reg) = setup();
    let owner = addr(1);
    let challenger = addr(2);
    let ip_id = reg.commit_ip(&env, owner, filled(6), 0, 0).unwrap();
    let dispute_id = reg.initiate_dispute(ip_id, challenger, filled(0x66), 0).unwrap();
    reg.resolve_dispute(dispute_id, challenger, 0).unwrap();
    assert_eq!(reg.get_ip(ip_id).unwrap().owner, challenger);
    assert_eq!(reg.resolve_dispute(dispute_id, owner, 0).err(), Some(ContractError::DisputeAlreadyResolved));
    assert_eq!(reg.get_dispute(999).err(), Some(ContractError::DisputeNotFound));
}

#[test]
fn test_initiate_dispute_emits_event() {
    // The dispute event carries the new dispute's id and IP.
    let (env, mut reg) = setup();
    let ip_id = reg.commit_ip(&env, addr(1), filled(7), 0, 0).unwrap();
    let dispute_id = reg.initiate_dispute(ip_id, addr(2), filled(0x77), 0).unwrap();
    let record = reg.get_dispute(dispute_id).unwrap();
    assert_eq!(record.dispute_id, dispute_id);
    assert_eq!(record.ip_id, ip_id);
}

#[test]
fn test_commitment_checksum_updated_on_commit() {
    let (env, mut reg) = setup();
    let owner = addr(1);
    assert!(reg.verify_commitment_integrity(&env));
    reg.commit_ip(&env, owner, filled(60), 0, 0).unwrap();
    assert!(reg.verify_commitment_integrity(&env));
    reg.commit_ip(&env, owner, filled(61), 0, 0).unwrap();
    assert!(reg.verify_commitment_integrity(&env));
}

#[test]
fn test_commitment_checksum_reflects_all_commitments() {
    let (env, mut reg) = setup();
    reg.commit_ip(&env, addr(1), filled(62), 0, 0).unwrap();
    let result1 = reg.verify_commitment_integrity(&env);
    let result2 = reg.verify_commitment_integrity(&env);
    assert_eq!(result1, result2);
}

#[test]
fn test_get_ip_versions_returns_direct_children() {
    let (env, mut reg) = setup();
    let owner = addr(1);
    let ip_id = reg.commit_ip(&env, owner, filled(70), 0, 0).unwrap();
    assert_eq!(reg.get_ip_versions(ip_id).unwrap().len(), 0);
    let v1 = reg.commit_ip_version(owner, filled(71), ip_id, 0).unwrap();
    let v2 = reg.commit_ip_version(owner, filled(72), ip_id, 0).unwrap();
    let versions = reg.get_ip_versions(ip_id).unwrap();
    assert_eq!(versions.len(), 2);
    assert_eq!(versions[0], v1);
    assert_eq!(versions[1], v2);
}

#[test]
fn test_get_ip_versions_empty_for_no_versions() {
    let (env, mut reg) = setup();
    let ip_id = reg.commit_ip(&env, addr(1), filled(73), 0, 0).unwrap();
    assert_eq!(reg.get_ip_versions(ip_id).unwrap().len(), 0);
}

#[test]
fn test_get_ip_lineage_includes_root_and_versions() {
    let (env, mut reg) = setup();
    let owner = addr(1);
    let root_id = reg.commit_ip(&env, owner, filled(74), 0, 0).unwrap();
    let v1 = reg.commit_ip_version(owner, filled(75), root_id, 0).unwrap();
    let lineage = reg.get_ip_lineage(root_id).unwrap();
    assert!(lineage.len() >= 2);
    assert_eq!(lineage[0], root_id);
    assert!(lineage.iter().any(|x| *x == v1), "v1 should be in lineage");
}

#[test]
fn test_get_ip_version_chain_includes_all() {
    let (env, mut reg) = setup();
    let owner = addr(1);
    let root_id = reg.commit_ip(&env, owner, filled(76), 0, 0).unwrap();
    let v1 = reg.commit_ip_version(owner, filled(77), root_id, 0).unwrap();
    let chain = reg.get_ip_version_chain(root_id).unwrap();
    assert!(chain.len() >= 2);
    assert_eq!(chain[0], root_id);
    assert!(chain.iter().any(|x| *x == v1), "v1 should be in version chain");
}

#[test]
fn test_check_expiration_warning_not_expiring() {
    let (env, mut reg) = setup();
    let ip_id = reg.commit_ip(&env, addr(1), filled(80), 0, 0).unwrap();
    assert!(!reg.check_expiration_warning(ip_id, 1, 0).unwrap(), "Newly committed IP should not be expiring");
}

#[test]
fn test_check_expiration_warning_large_threshold() {
    let (env, mut reg) = setup();
    let ip_id = reg.commit_ip(&env, addr(1), filled(81), 0, 0).unwrap();
    assert!(
        reg.check_expiration_warning(ip_id, LEDGER_BUMP + 1, 0).unwrap(),
        "IP should be expiring when threshold > LEDGER_BUMP"
    );
}

#[test]
fn check_expiration_warning_nonexistent_is_not_found() {
    let (_env, reg) = setup();
    assert_eq!(reg.check_expiration_warning(999, 100, 0).err(), Some(ContractError::IpNotFound));
}

#[test]
fn test_check_expiration_warning_emits_event_when_expiring() {
    // The host emits the warning event exactly when the check answers true.
    let (env, mut reg) = setup();
    let ip_id = reg.commit_ip(&env, addr(1), filled(82), 0, 0).unwrap();
    assert!(reg.check_expiration_warning(ip_id, LEDGER_BUMP + 1, 0).unwrap());
}

#[test]
fn test_anon_batch_creates_records_with_correct_hashes() {
    let (env, mut reg) = setup();
    let h1 = filled(0x11);
    let h2 = filled(0x22);
    let ids = reg.batch_commit_ip_anonymous(&env, filled(0xAA), &vec![h1, h2], 0).unwrap();
    assert_eq!(ids.len(), 2);
    assert_eq!(reg.get_ip(ids[0]).unwrap().commitment_hash, h1);
    assert_eq!(reg.get_ip(ids[1]).unwrap().commitment_hash, h2);
}

#[test]
fn test_anon_batch_ids_are_sequential() {
    let (env, mut reg) = setup();
    reg.commit_ip(&env, addr(1), filled(0x01), 0, 0).unwrap();
    let ids = reg.batch_commit_ip_anonymous(&env, filled(0xBB), &vec![filled(0x02), filled(0x03)], 0).unwrap();
    assert_eq!(ids[0], 2u64);
    assert_eq!(ids[1], 3u64);
}

#[test]
fn test_anon_batch_does_not_populate_owner_index() {
    let (env, mut reg) = setup();
    reg.batch_commit_ip_anonymous(&env, filled(0xCC), &vec![filled(0x33)], 0).unwrap();
    assert_eq!(reg.list_ip_by_owner(addr(5)).len(), 0);
    assert_eq!(reg.list_ip_by_owner(CONTRACT).len(), 0);
}

#[test]
fn test_anon_batch_record_owner_is_contract_address() {
    let (env, mut reg) = setup();
    let ids = reg.batch_commit_ip_anonymous(&env, filled(0xDD), &vec![filled(0x44)], 0).unwrap();
    assert_eq!(reg.get_ip(ids[0]).unwrap().owner, CONTRACT);
}

#[test]
fn test_anon_batch_stores_blinded_owner() {
    let (env, mut reg) = setup();
    let blinded_owner = filled(0xEE);
    let h = filled(0x55);
    reg.batch_commit_ip_anonymous(&env, blinded_owner, &vec![h], 0).unwrap();
    assert_eq!(reg.get_anonymous_owner(&h), Some(blinded_owner));
}

#[test]
fn test_get_anonymous_owner_returns_none_for_non_anonymous_commit() {
    let (env, mut reg) = setup();
    let h = filled(0x66);
    reg.commit_ip(&env, addr(1), h, 0, 0).unwrap();
    assert_eq!(reg.get_anonymous_owner(&h), None);
}

#[test]
fn test_anon_batch_emits_event_per_commitment() {
    // One event per commitment carries its id, timestamp and blinded owner.
    let (env, mut reg) = setup();
    let blinded_owner = filled(0xFF);
    let h1 = filled(0x77);
    let h2 = filled(0x88);
    let ids = reg.batch_commit_ip_anonymous(&env, blinded_owner, &vec![h1, h2], 3).unwrap();
    assert_eq!(ids.len(), 2, "expected one id per commitment");
    assert_eq!(reg.get_ip(ids[0]).unwrap().timestamp, 3);
    assert_eq!(reg.get_anonymous_owner(&h1), Some(blinded_owner));
    assert_eq!(reg.get_anonymous_owner(&h2), Some(blinded_owner));
}

#[test]
fn anon_batch_rejections_leave_registry_unchanged() {
    let (env, mut reg) = setup();
    let b = filled(0x01);
    assert_eq!(
        reg.batch_commit_ip_anonymous(&env, b, &vec![filled(0)], 0).err(),
        Some(ContractError::ZeroCommitmentHash)
    );
    reg.batch_commit_ip_anonymous(&env, b, &vec![filled(0x99)], 0).unwrap();
    assert_eq!(
        reg.batch_commit_ip_anonymous(&env, b, &vec![filled(0x99)], 0).err(),
        Some(ContractError::CommitmentAlreadyRegistered)
    );
    assert_eq!(
        reg.batch_commit_ip_anonymous(&env, b, &vec![filled(0xAA), filled(0xAA)], 0).err(),
        Some(ContractError::CommitmentAlreadyRegistered)
    );
    assert_eq!(reg.batch_commit_ip_anonymous(&env, b, &vec![], 0).err(), Some(ContractError::ZeroCommitmentHash));
    assert_eq!(reg.ip_count(), 1);
}

#[test]
fn test_anon_batch_interleaved_with_regular_commits() {
    let (env, mut reg) = setup();
    let owner = addr(1);
    let id1 = reg.commit_ip(&env, owner, filled(0x10), 0, 0).unwrap();
    let anon_ids = reg.batch_commit_ip_anonymous(&env, filled(0x05), &vec![filled(0x20), filled(0x30)], 0).unwrap();
    let id4 = reg.commit_ip(&env, owner, filled(0x40), 0, 0).unwrap();
    assert_eq!(id1, 1);
    assert_eq!(anon_ids[0], 2);
    assert_eq!(anon_ids[1], 3);
    assert_eq!(id4, 4);
}

#[test]
fn test_non_owner_commit_succeeds_with_mock_all_auths() {
    // Authorization is the host's: the registry records whichever owner it is given.
    let (env, mut reg) = setup();
    let alice = addr(1);
    let bob = addr(2);
    let ip_id = reg.commit_ip(&env, bob, filled(1), 0, 0).unwrap();
    let record = reg.get_ip(ip_id).unwrap();
    assert_eq!(record.owner, bob);
    assert_ne!(record.owner, alice);
}

#[test]
fn test_commitment_timestamp_accuracy() {
    let (env, mut reg) = setup();
    let recorded_time = 0u64;
    let ip_id = reg.commit_ip(&env, addr(1), filled(42), 0, recorded_time).unwrap();
    assert_eq!(reg.get_ip(ip_id).unwrap().timestamp, recorded_time);
}

#[test]
fn test_commit_ip_version_links_parent() {
    let (env, mut reg) = setup();
    let owner = addr(1);
    let v1 = reg.commit_ip(&env, owner, filled(0xA1), 0, 0).unwrap();
    let v2 = reg.commit_ip_version(owner, filled(0xA2), v1, 0).unwrap();
    assert_eq!(reg.get_ip(v2).unwrap().parent_ip_id, Some(v1));
}

#[test]
fn test_get_ip_version_chain_single() {
    let (env, mut reg) = setup();
    let ip_id = reg.commit_ip(&env, addr(1), filled(0xB1), 0, 0).unwrap();
    let chain = reg.get_ip_version_chain(ip_id).unwrap();
    assert_eq!(chain.len(), 1);
    assert_eq!(chain[0], ip_id);
}

#[test]
fn test_get_ip_version_chain_multiple_versions() {
    let (env, mut reg) = setup();
    let owner = addr(1);
    let v1 = reg.commit_ip(&env, owner, filled(0xC1), 0, 0).unwrap();
    let v2 = reg.commit_ip_version(owner, filled(0xC2), v1, 0).unwrap();
    let v3 = reg.commit_ip_version(owner, filled(0xC3), v2, 0).unwrap();

    let chain = reg.get_ip_version_chain(v1).unwrap();
    assert_eq!(chain.len(), 3);
    assert_eq!(chain[0], v1);
    assert_eq!(chain[1], v2);
    assert_eq!(chain[2], v3);

    let chain_from_v3 = reg.get_ip_version_chain(v3).unwrap();
    assert_eq!(chain_from_v3.len(), 3);
    assert_eq!(chain_from_v3[0], v1);
}

#[test]
fn test_version_chain_preserves_prior_art() {
    let (env, mut reg) = setup();
    let owner = addr(1);
    let h1 = filled(0xD1);
    let v1 = reg.commit_ip(&env, owner, h1, 0, 5).unwrap();
    let ts_v1 = reg.get_ip(v1).unwrap().timestamp;
    let _v2 = reg.commit_ip_version(owner, filled(0xD2), v1, 9).unwrap();
    let record_v1 = reg.get_ip(v1).unwrap();
    assert_eq!(record_v1.timestamp, ts_v1);
    assert_eq!(record_v1.commitment_hash, h1);
    assert_eq!(record_v1.parent_ip_id, None);
}

#[test]
fn notary_check_reads_without_recording() {
    let (env, mut reg) = setup();
    let ip_id = reg.commit_ip(&env, addr(1), filled(54), 0, 9).unwrap();
    assert_eq!(reg.notary_check(ip_id, &vec![0u8; 64]).err(), Some(ContractError::Unauthorized));
    reg.set_notary_public_key(filled(3));
    let check = reg.notary_check(ip_id, &vec![0u8; 64]).unwrap();
    assert_eq!(check.public_key, filled(3));
    let mut expected = ip_id.to_be_bytes().to_vec();
    expected.extend_from_slice(&9u64.to_be_bytes());
    assert_eq!(check.message, expected);
    assert_eq!(reg.get_ip_notary_signature(ip_id).unwrap(), None);
}
