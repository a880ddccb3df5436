use atomic_ip::common::{Addr, Bytes32};
use atomic_ip::crypto::create_commitment_hash;
use atomic_ip::ip_registry::state::IpRegistry;
use atomic_ip::ip_registry::types::ContractError;
use soroban_sdk::Env;

const CONTRACT: Addr = Addr { id: 9_000 };

fn setup() -> (Env, IpRegistry) {
    (Env::default(), IpRegistry::new(CONTRACT))
}

fn addr(id: u64) -> Addr {
    Addr { id }
}

fn filled(b: u8) -> Bytes32 {
    [b; 32]
}

fn make_commitment(env: &Env, partial_hash: &Bytes32, blinding: &Bytes32) -> Bytes32 {
    create_commitment_hash(env, partial_hash, blinding)
}

#[test]
fn test_commit_ip_sequential_ids() {
    let (env, mut reg) = setup();
    let owner1 = addr(1);
    let owner2 = addr(2);
    let commitment1 = filled(1);
    let commitment2 = filled(2);
    let commitment3 = filled(3);

    let id1 = reg.commit_ip(&env, owner1, commitment1, 0, 0).unwrap();
    let id2 = reg.commit_ip(&env, owner2, commitment2, 0, 0).unwrap();
    let id3 = reg.commit_ip(&env, owner1, commitment3, 0, 0).unwrap();

    assert_eq!(id1, 1, "First commit should return ID 1");
    assert_eq!(id2, 2, "Second commit should return ID 2");
    assert_eq!(id3, 3, "Third commit should return ID 3");

    let record1 = reg.get_ip(id1).unwrap();
    assert_eq!(record1.owner, owner1);
    assert_eq!(record1.commitment_hash, commitment1);
    let record2 = reg.get_ip(id2).unwrap();
    assert_eq!(record2.owner, owner2);
    assert_eq!(record2.commitment_hash, commitment2);
    let record3 = reg.get_ip(id3).unwrap();
    assert_eq!(record3.owner, owner1);
    assert_eq!(record3.commitment_hash, commitment3);

    let owner1_ips = reg.list_ip_by_owner(owner1);
    let owner2_ips = reg.list_ip_by_owner(owner2);
    assert_eq!(owner1_ips.len(), 2);
    assert_eq!(owner2_ips.len(), 1);
    assert_eq!(owner1_ips[0], id1);
    assert_eq!(owner1_ips[1], id3);
    assert_eq!(owner2_ips[0], id2);
}

#[test]
fn test_commit_ip_emits_event() {
    // The commit event reports the new id and the record's timestamp.
    let (env, mut reg) = setup();
    let owner = addr(1);
    let commitment = filled(42);
    let ip_id = reg.commit_ip(&env, owner, commitment, 0, 1_234).unwrap();
    let record = reg.get_ip(ip_id).unwrap();
    assert_eq!(record.owner, owner);
    assert_eq!(record.commitment_hash, commitment);
    assert_eq!(record.ip_id, ip_id);
    assert_eq!(record.timestamp, 1_234);
}

#[test]
fn commit_ip_zero_hash_is_rejected() {
    let (env, mut reg) = setup();
    assert_eq!(reg.commit_ip(&env, addr(1), filled(0), 0, 0).err(), Some(ContractError::ZeroCommitmentHash));
    assert_eq!(ContractError::ZeroCommitmentHash.code(), 2);
    assert_eq!(reg.ip_count(), 0);
}

#[test]
fn get_ip_nonexistent_is_ip_not_found() {
    let (_env, reg) = setup();
    assert_eq!(reg.get_ip(999).err(), Some(ContractError::IpNotFound));
    assert_eq!(ContractError::IpNotFound.code(), 1);
}

#[test]
fn commit_ip_duplicate_hash_is_rejected() {
    let (env, mut reg) = setup();
    reg.commit_ip(&env, addr(1), filled(3), 0, 0).unwrap();
    assert_eq!(
        reg.commit_ip(&env, addr(2), filled(3), 0, 0).err(),
        Some(ContractError::CommitmentAlreadyRegistered)
    );
}

#[test]
fn test_transfer_ip_updates_owner_and_indexes() {
    let (env, mut reg) = setup();
    let alice = addr(1);
    let bob = addr(2);
    let ip_id = reg.commit_ip(&env, alice, filled(5), 0, 0).unwrap();

    reg.transfer_ip(ip_id, bob, 10).unwrap();

    assert_eq!(reg.get_ip(ip_id).unwrap().owner, bob);
    assert!(!reg.list_ip_by_owner(alice).iter().any(|x| *x == ip_id));
    assert!(reg.list_ip_by_owner(bob).iter().any(|x| *x == ip_id));
}

#[test]
fn transfer_ip_nonexistent_is_ip_not_found() {
    let (_env, mut reg) = setup();
    assert_eq!(reg.transfer_ip(999, addr(2), 0).err(), Some(ContractError::IpNotFound));
}

#[test]
fn test_transfer_ip_emits_event() {
    // The transfer event reports the old and the new owner.
    let (env, mut reg) = setup();
    let alice = addr(1);
    let bob = addr(2);
    let ip_id = reg.commit_ip(&env, alice, filled(20), 0, 0).unwrap();
    let old_owner = reg.get_ip(ip_id).unwrap().owner;
    reg.transfer_ip(ip_id, bob, 0).unwrap();
    let new_owner = reg.get_ip(ip_id).unwrap().owner;
    assert_eq!(old_owner, alice);
    assert_eq!(new_owner, bob);
}

#[test]
fn test_transfer_ip_ownership_successful() {
    let (env, mut reg) = setup();
    let alice = addr(1);
    let bob = addr(2);
    let ip_id = reg.commit_ip(&env, alice, filled(21), 0, 0).unwrap();

    reg.transfer_ip_ownership(ip_id, bob, 0).unwrap();

    assert_eq!(reg.get_ip(ip_id).unwrap().owner, bob);
    assert!(!reg.list_ip_by_owner(alice).iter().any(|x| *x == ip_id));
    assert!(reg.list_ip_by_owner(bob).iter().any(|x| *x == ip_id));
}

#[test]
fn test_list_ip_by_owner_unknown_returns_empty() {
    let (env, mut reg) = setup();
    let owner = addr(1);
    let unknown_owner = addr(2);
    let ip_id = reg.commit_ip(&env, owner, filled(1), 0, 0).unwrap();

    assert_eq!(reg.list_ip_by_owner(unknown_owner).len(), 0);
    let owner_ips = reg.list_ip_by_owner(owner);
    assert_eq!(owner_ips.len(), 1);
    assert_eq!(owner_ips[0], ip_id);
}

#[test]
fn test_revoke_ip_marks_record_revoked() {
    let (env, mut reg) = setup();
    let ip_id = reg.commit_ip(&env, addr(1), filled(7), 0, 0).unwrap();
    assert!(!reg.get_ip(ip_id).unwrap().revoked);
    reg.revoke_ip(ip_id, 0).unwrap();
    assert!(reg.get_ip(ip_id).unwrap().revoked);
}

#[test]
fn test_revoke_ip_emits_event() {
    // The revoke event reports the owner and the revoked id.
    let (env, mut reg) = setup();
    let owner = addr(1);
    let ip_id = reg.commit_ip(&env, owner, filled(9), 0, 0).unwrap();
    reg.revoke_ip(ip_id, 5).unwrap();
    let record = reg.get_ip(ip_id).unwrap();
    assert_eq!(record.owner, owner);
    assert_eq!(record.ip_id, ip_id);
    assert!(record.revoked);
}

#[test]
fn revoke_ip_twice_is_already_revoked() {
    let (env, mut reg) = setup();
    let ip_id = reg.commit_ip(&env, addr(1), filled(8), 0, 0).unwrap();
    reg.revoke_ip(ip_id, 0).unwrap();
    assert_eq!(reg.revoke_ip(ip_id, 0).err(), Some(ContractError::IpAlreadyRevoked));
    assert_eq!(ContractError::IpAlreadyRevoked.code(), 4);
}

#[test]
fn test_sequential_ip_ids() {
    let (env, mut reg) = setup();
    let owner = addr(1);
    let id0 = reg.commit_ip(&env, owner, filled(1), 0, 0).unwrap();
    let id1 = reg.commit_ip(&env, owner, filled(2), 0, 0).unwrap();
    let id2 = reg.commit_ip(&env, owner, filled(3), 0, 0).unwrap();
    assert_eq!(id0, 1);
    assert_eq!(id1, 2);
    assert_eq!(id2, 3);
}

#[test]
fn test_verify_commitment_with_invalid_secret_fails() {
    let (env, mut reg) = setup();
    let owner = addr(1);
    let secret = filled(10);
    let blinding = filled(20);
    let commitment_hash = create_commitment_hash(&env, &secret, &blinding);
    let ip_id = reg.commit_ip(&env, owner, commitment_hash, 0, 0).unwrap();

    let wrong_secret = filled(99);
    assert!(!reg.verify_commitment(&env, ip_id, &wrong_secret, &blinding).unwrap());
    assert!(reg.verify_commitment(&env, ip_id, &secret, &blinding).unwrap());
}

#[test]
fn commitment_hash_is_not_its_input() {
    let env = Env::default();
    let secret = filled(10);
    let blinding = filled(20);
    let h = create_commitment_hash(&env, &secret, &blinding);
    assert_ne!(h, secret);
    assert_ne!(h, blinding);
    assert_eq!(h, create_commitment_hash(&env, &secret, &blinding));
    assert_ne!(h, create_commitment_hash(&env, &blinding, &secret));
}

#[test]
fn test_list_ip_by_owner_returns_all_ids() {
    let (env, mut reg) = setup();
    let owner = addr(1);
    let id0 = reg.commit_ip(&env, owner, filled(4), 0, 0).unwrap();
    let id1 = reg.commit_ip(&env, owner, filled(5), 0, 0).unwrap();
    let id2 = reg.commit_ip(&env, owner, filled(6), 0, 0).unwrap();
    let ids = reg.list_ip_by_owner(owner);
    assert_eq!(ids.len(), 3);
    assert_eq!(ids[0], id0);
    assert_eq!(ids[1], id1);
    assert_eq!(ids[2], id2);
}

#[test]
fn test_is_ip_owner() {
    let (env, mut reg) = setup();
    let alice = addr(1);
    let bob = addr(2);
    let ip_id = reg.commit_ip(&env, alice, filled(10), 0, 0).unwrap();
    assert!(reg.is_ip_owner(ip_id, alice));
    assert!(!reg.is_ip_owner(ip_id, bob));
    assert!(!reg.is_ip_owner(999, alice));
}

#[test]
fn test_reveal_partial_valid_proof_returns_true_and_stores() {
    let (env, mut reg) = setup();
    let partial_hash = filled(0xab);
    let blinding = filled(0xcd);
    let commitment = make_commitment(&env, &partial_hash, &blinding);
    let ip_id = reg.commit_ip(&env, addr(1), commitment, 0, 0).unwrap();

    assert!(reg.reveal_partial(&env, ip_id, partial_hash, &blinding).unwrap());
    assert_eq!(reg.get_partial_disclosure(ip_id), Some(partial_hash));
}

#[test]
fn test_reveal_partial_wrong_blinding_returns_false() {
    let (env, mut reg) = setup();
    let partial_hash = filled(0x11);
    let blinding = filled(0x22);
    let wrong_blinding = filled(0x33);
    let commitment = make_commitment(&env, &partial_hash, &blinding);
    let ip_id = reg.commit_ip(&env, addr(1), commitment, 0, 0).unwrap();

    assert!(!reg.reveal_partial(&env, ip_id, partial_hash, &wrong_blinding).unwrap());
    assert_eq!(reg.get_partial_disclosure(ip_id), None);
}

#[test]
fn test_reveal_partial_wrong_partial_hash_returns_false() {
    let (env, mut reg) = setup();
    let partial_hash = filled(0x44);
    let blinding = filled(0x55);
    let wrong_partial = filled(0x66);
    let commitment = make_commitment(&env, &partial_hash, &blinding);
    let ip_id = reg.commit_ip(&env, addr(1), commitment, 0, 0).unwrap();

    assert!(!reg.reveal_partial(&env, ip_id, wrong_partial, &blinding).unwrap());
    assert_eq!(reg.get_partial_disclosure(ip_id), None);
}

#[test]
fn test_get_partial_disclosure_none_before_reveal() {
    let (env, mut reg) = setup();
    let ip_id = reg.commit_ip(&env, addr(1), filled(0x99), 0, 0).unwrap();
    assert_eq!(reg.get_partial_disclosure(ip_id), None);
}

#[test]
fn test_batch_commit_ip_single() {
    let (env, mut reg) = setup();
    let ids = reg.batch_commit_ip(&env, addr(1), &vec![filled(1)], 0).unwrap();
    assert_eq!(ids.len(), 1);
    assert_eq!(ids[0], 1);
}

#[test]
fn test_batch_commit_ip_five() {
    let (env, mut reg) = setup();
    let commitments = vec![filled(1), filled(2), filled(3), filled(4), filled(5)];
    let ids = reg.batch_commit_ip(&env, addr(1), &commitments, 0).unwrap();
    assert_eq!(ids.len(), 5);
    for i in 0..5 {
        assert_eq!(ids[i], (i + 1) as u64);
    }
}

#[test]
fn test_batch_commit_ip_anonymous_creates_records() {
    let (env, mut reg) = setup();
    let commitment1 = filled(11);
    let commitment2 = filled(12);
    let hashes = vec![commitment1, commitment2];
    let blinded_owner = filled(7);

    let ids = reg.batch_commit_ip_anonymous(&env, blinded_owner, &hashes, 0).unwrap();
    assert_eq!(ids.len(), 2);
    assert_eq!(reg.get_ip(ids[0]).unwrap().commitment_hash, commitment1);
    assert_eq!(reg.get_ip(ids[1]).unwrap().commitment_hash, commitment2);
    assert_eq!(reg.list_ip_by_owner(addr(77)).len(), 0);
}

#[test]
fn test_batch_commit_ip_sequential_with_single() {
    let (env, mut reg) = setup();
    let owner = addr(1);
    let id1 = reg.commit_ip(&env, owner, filled(10), 0, 0).unwrap();
    assert_eq!(id1, 1);
    let ids = reg.batch_commit_ip(&env, owner, &vec![filled(11), filled(12), filled(13)], 0).unwrap();
    assert_eq!(ids.len(), 3);
    assert_eq!(ids[0], 2);
    assert_eq!(ids[1], 3);
    assert_eq!(ids[2], 4);
    let id5 = reg.commit_ip(&env, owner, filled(14), 0, 0).unwrap();
    assert_eq!(id5, 5);
}

#[test]
fn batch_commit_ip_rejects_repeats_and_zero_without_change() {
    let (env, mut reg) = setup();
    reg.commit_ip(&env, addr(1), filled(1), 0, 0).unwrap();
    assert_eq!(
        reg.batch_commit_ip(&env, addr(1), &vec![filled(2), filled(2)], 0).err(),
        Some(ContractError::CommitmentAlreadyRegistered)
    );
    assert_eq!(
        reg.batch_commit_ip(&env, addr(1), &vec![filled(2), filled(0)], 0).err(),
        Some(ContractError::ZeroCommitmentHash)
    );
    assert_eq!(reg.ip_count(), 1);
}

#[test]
fn test_validate_upgrade_accepts_non_zero_hash() {
    assert!(IpRegistry::validate_upgrade(&filled(1)).is_ok());
}

#[test]
fn validate_upgrade_rejects_zero_hash() {
    assert_eq!(IpRegistry::validate_upgrade(&filled(0)).err(), Some(ContractError::UnauthorizedUpgrade));
}

#[test]
fn test_get_pow_difficulty_returns_default_four() {
    let (_env, reg) = setup();
    assert_eq!(reg.get_pow_difficulty(), 4);
}

#[test]
fn test_commit_ip_pow_difficulty_zero_always_passes() {
    let (env, mut reg) = setup();
    assert_eq!(reg.commit_ip(&env, addr(1), filled(0xff), 0, 0).unwrap(), 1);
}

#[test]
fn test_commit_ip_pow_difficulty_eight_accepts_leading_zero_byte() {
    let (env, mut reg) = setup();
    let mut hash_bytes = [0x01u8; 32];
    hash_bytes[0] = 0x00;
    assert_eq!(reg.commit_ip(&env, addr(1), hash_bytes, 8, 0).unwrap(), 1);
}

#[test]
fn test_commit_ip_pow_difficulty_four_accepts_half_zero_nibble() {
    let (env, mut reg) = setup();
    let mut hash_bytes = [0x01u8; 32];
    hash_bytes[0] = 0x0f;
    assert_eq!(reg.commit_ip(&env, addr(1), hash_bytes, 4, 0).unwrap(), 1);
}

#[test]
fn commit_ip_pow_rejections() {
    let (env, mut reg) = setup();
    let mut hash_bytes = [0x01u8; 32];
    hash_bytes[0] = 0x1f;
    assert_eq!(reg.commit_ip(&env, addr(1), hash_bytes, 4, 0).err(), Some(ContractError::InsufficientPoW));
    hash_bytes[0] = 0x80;
    assert_eq!(reg.commit_ip(&env, addr(1), hash_bytes, 1, 0).err(), Some(ContractError::InsufficientPoW));
    assert_eq!(ContractError::InsufficientPoW.code(), 10);
}

#[test]
fn test_get_ip_strength_low_entropy_low_pow() {
    let (env, mut reg) = setup();
    let ip_id = reg.commit_ip(&env, addr(1), filled(1), 0, 0).unwrap();
    assert_eq!(reg.get_ip_strength(ip_id).unwrap(), 1u32);
}

#[test]
fn test_get_ip_strength_high_entropy() {
    let (env, mut reg) = setup();
    let hash_bytes: [u8; 32] = core::array::from_fn(|i| i as u8);
    let ip_id = reg.commit_ip(&env, addr(1), hash_bytes, 0, 0).unwrap();
    assert_eq!(reg.get_ip_strength(ip_id).unwrap(), 50u32);
}

#[test]
fn test_get_ip_strength_max_pow() {
    let (env, mut reg) = setup();
    let mut hash_bytes = [0u8; 32];
    for i in 0..32 {
        hash_bytes[i] = i as u8;
    }
    hash_bytes[0] = 0;
    hash_bytes[1] = 0;
    hash_bytes[2] = 0;
    hash_bytes[3] = 0;
    let ip_id = reg.commit_ip(&env, addr(1), hash_bytes, 32, 0).unwrap();
    assert_eq!(reg.get_ip_strength(ip_id).unwrap(), 95u32);
}

#[test]
fn test_get_ip_strength_capped_at_100() {
    let (env, mut reg) = setup();
    let mut hash_bytes = [0u8; 32];
    for i in 0..32 {
        hash_bytes[i] = i as u8;
    }
    for i in 0..8 {
        hash_bytes[i] = 0;
    }
    let ip_id = reg.commit_ip(&env, addr(1), hash_bytes, 64, 0).unwrap();
    assert_eq!(reg.get_ip_strength(ip_id).unwrap(), 89u32);
}

#[test]
fn test_get_ip_strength_partial_entropy_and_pow() {
    let (env, mut reg) = setup();
    let mut hash_bytes = [0u8; 32];
    for i in 0..32 {
        hash_bytes[i] = (i % 16) as u8;
    }
    hash_bytes[0] = 0;
    hash_bytes[1] = 0;
    let ip_id = reg.commit_ip(&env, addr(1), hash_bytes, 16, 0).unwrap();
    assert_eq!(reg.get_ip_strength(ip_id).unwrap(), 50u32);
}
