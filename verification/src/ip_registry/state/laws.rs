//! Properties the registry keeps across its operations.
use vstd::prelude::*;
use crate::common::{Addr, Bytes32};
use crate::crypto::{sha256_spec, commitment_of, concat_all};
use crate::ip_registry::types::{ContractError, MAX_DELEGATION_DEPTH};
use super::RegistryState;
use super::commit::{commit_error, committed_state};
use super::lifecycle::{transferred_state, revoked_state};
use super::merkle::{fold_proof, proof_path, merkle_root_of, last_position, lemma_proof_path_folds_to_root};
use super::disputes::resolved_state;
use super::assurance::{challenge_response, opens};
use super::delegation::{delegates_of, delegation_depth, in_chain, lists_delegate};
use crate::ip_registry::types::DelegationRecord;

verus! {

/// In every well-formed registry the stored checksum, when there is one, is
/// the hash of all tracked commitment hashes: the integrity check passes.
pub proof fn law_integrity_check_passes(s: RegistryState)
    requires
        s.inv(),
    ensures
        match s.checksum {
            Some(c) => c == sha256_spec(concat_all(s.commitment_hashes)),
            None => true,
        },
{
}

/// A commitment made from a secret and a blinding factor is opened by them:
/// the new IP has the next id, belongs to its committer, is listed for
/// them, and its hash is `sha256(secret || blinding_factor)`.
pub proof fn law_commit_then_verify(
    s: RegistryState,
    owner: Addr,
    hash: Bytes32,
    secret: Bytes32,
    blinding_factor: Bytes32,
    difficulty: u32,
    now: u64,
)
    requires
        s.inv(),
        hash@ == commitment_of(secret@, blinding_factor@),
        commit_error(s, hash, difficulty) is None,
    ensures
        ({
            let t = committed_state(s, owner, hash, difficulty, now);
            let id = (s.ips.len() + 1) as u64;
            &&& t.has_ip(id)
            &&& t.record(id).owner == owner
            &&& t.record(id).commitment_hash@ == commitment_of(secret@, blinding_factor@)
            &&& t.record(id).timestamp == now
            &&& !t.record(id).revoked
            &&& t.ids_of(owner).contains(id)
        }),
{
    let t = committed_state(s, owner, hash, difficulty, now);
    let id = (s.ips.len() + 1) as u64;
    assert(t.ids_of(owner)[t.ids_of(owner).len() - 1] == id);
}

/// A hash can be registered once: committing it again is refused.
pub proof fn law_commitment_registered_once(
    s: RegistryState,
    owner: Addr,
    hash: Bytes32,
    difficulty: u32,
    now: u64,
    other_difficulty: u32,
)
    requires
        s.inv(),
        commit_error(s, hash, difficulty) is None,
    ensures
        commit_error(committed_state(s, owner, hash, difficulty, now), hash, other_difficulty) == Some(
            ContractError::CommitmentAlreadyRegistered,
        ),
{
    let t = committed_state(s, owner, hash, difficulty, now);
    let n = s.commitment_owners.len() as int;
    assert(t.commitment_owners[n].hash == hash);
}

/// Committing leaves every earlier IP as it was.
pub proof fn law_commit_keeps_earlier_ips(
    s: RegistryState,
    owner: Addr,
    hash: Bytes32,
    difficulty: u32,
    now: u64,
    ip_id: u64,
)
    requires
        s.inv(),
        s.has_ip(ip_id),
    ensures
        committed_state(s, owner, hash, difficulty, now).entry(ip_id) == s.entry(ip_id),
{
}

/// A transfer hands the IP to the new owner, lists it for them, and keeps
/// its commitment.
pub proof fn law_transfer_moves_ownership(s: RegistryState, ip_id: u64, new_owner: Addr, now: u64)
    requires
        s.inv(),
        s.has_ip(ip_id),
    ensures
        ({
            let t = transferred_state(s, ip_id, new_owner, now);
            &&& t.has_ip(ip_id)
            &&& t.record(ip_id).owner == new_owner
            &&& t.record(ip_id).commitment_hash == s.record(ip_id).commitment_hash
            &&& t.ids_of(new_owner).contains(ip_id)
            &&& t.entry(ip_id).audit_trail.subrange(0, s.entry(ip_id).audit_trail.len() as int)
                == s.entry(ip_id).audit_trail
        }),
{
    let t = transferred_state(s, ip_id, new_owner, now);
    assert(t.ids_of(new_owner)[t.ids_of(new_owner).len() - 1] == ip_id);
    assert(t.entry(ip_id).audit_trail.subrange(0, s.entry(ip_id).audit_trail.len() as int)
        =~= s.entry(ip_id).audit_trail);
}

/// Revocation sticks: a revoked IP stays revoked, so revoking it again is
/// refused with `IpAlreadyRevoked`.
pub proof fn law_revocation_sticks(s: RegistryState, ip_id: u64, now: u64)
    requires
        s.inv(),
        s.has_ip(ip_id),
    ensures
        revoked_state(s, ip_id, now).record(ip_id).revoked,
        revoked_state(s, ip_id, now).record(ip_id).commitment_hash == s.record(ip_id).commitment_hash,
{
}

/// Version links point backwards: a parent always has a smaller id, so
/// lineages contain no cycle.
pub proof fn law_parents_precede_children(s: RegistryState, ip_id: u64)
    requires
        s.inv(),
        s.has_ip(ip_id),
        s.record(ip_id).parent_ip_id is Some,
    ensures
        1 <= s.record(ip_id).parent_ip_id.unwrap() < ip_id,
{
    assert(s.ips[ip_id - 1].record.parent_ip_id == s.record(ip_id).parent_ip_id);
}

proof fn lemma_last_position_holds(l: Seq<Seq<u8>>, h: Seq<u8>)
    requires
        l.contains(h),
    ensures
        0 <= last_position(l, h) < l.len(),
        l[last_position(l, h)] == h,
    decreases l.len(),
{
    if l.last() != h {
        let k = choose|k: int| 0 <= k < l.len() && l[k] == h;
        assert(l.drop_last()[k] == h);
        lemma_last_position_holds(l.drop_last(), h);
    }
}

/// The proof generated for a leaf verifies against the root of the leaves.
pub proof fn law_generated_proof_verifies(leaves: Seq<Seq<u8>>, h: Seq<u8>)
    requires
        leaves.contains(h),
    ensures
        fold_proof(h, proof_path(leaves, last_position(leaves, h)), last_position(leaves, h))
            == merkle_root_of(leaves),
{
    lemma_last_position_holds(leaves, h);
    lemma_proof_path_folds_to_root(leaves, last_position(leaves, h));
}

/// A resolved dispute stays resolved, so resolving it again is refused.
pub proof fn law_dispute_resolves_once(s: RegistryState, dispute_id: u64, winner: Addr, now: u64)
    requires
        s.inv(),
        1 <= dispute_id <= s.disputes.len(),
    ensures
        resolved_state(s, dispute_id, winner, now).disputes[dispute_id - 1].resolved,
        resolved_state(s, dispute_id, winner, now).disputes[dispute_id - 1].winner == Some(winner),
{
}

/// After a successful delegation the delegate is in the root's chain.
pub proof fn law_delegate_joins_chain(s: RegistryState, root: Addr, delegator: Addr, delegate: Addr)
    requires
        s.inv(),
        delegation_depth(s, root, delegator) is Some,
        delegation_depth(s, root, delegator).unwrap() < MAX_DELEGATION_DEPTH,
    ensures
        ({
            let d = delegation_depth(s, root, delegator).unwrap();
            let t = if lists_delegate(delegates_of(s, root), delegate) {
                s
            } else {
                RegistryState {
                    delegates: s.delegates.insert(
                        root.id,
                        delegates_of(s, root).push(DelegationRecord { delegate, depth: d as u32 }),
                    ),
                    delegate_depths: s.delegate_depths.insert(delegate.id, d as u32),
                    ..s
                }
            };
            in_chain(t, root, delegate, 0)
        }),
{
    let d = delegation_depth(s, root, delegator).unwrap();
    let ds = delegates_of(s, root);
    if lists_delegate(ds, delegate) {
        let i = choose|i: int| 0 <= i < ds.len() && ds[i].delegate == delegate;
        assert(ds[i].delegate == delegate);
    } else {
        let t = RegistryState {
            delegates: s.delegates.insert(root.id, ds.push(DelegationRecord { delegate, depth: d as u32 })),
            delegate_depths: s.delegate_depths.insert(delegate.id, d as u32),
            ..s
        };
        let ts = delegates_of(t, root);
        assert(ts[ds.len() as int].delegate == delegate);
    }
}

/// The owner index is faithful: every IP listed for an owner is held by
/// that owner, and no IP is listed twice.
pub proof fn law_owner_index_is_faithful(s: RegistryState, owner: Addr)
    requires
        s.inv(),
    ensures
        forall|k: int|
            0 <= k < s.ids_of(owner).len() ==> s.has_ip(#[trigger] s.ids_of(owner)[k]) && s.record(
                s.ids_of(owner)[k],
            ).owner == owner,
        s.ids_of(owner).no_duplicates(),
{
    if s.owner_ips.contains_key(owner.id) {
        assert forall|k: int| 0 <= k < s.ids_of(owner).len() implies s.has_ip(#[trigger] s.ids_of(owner)[k])
            && s.record(s.ids_of(owner)[k]).owner == owner by {
            assert(s.lists_own_ip(owner.id, s.owner_ips[owner.id][k]));
        }
    }
}

/// The commitment of a secret under a blinding factor is SHA-256 of the
/// secret's bytes followed by the blinding factor's, so opening a
/// commitment takes the two in that order.
pub proof fn law_commitment_puts_secret_first(secret: Seq<u8>, blinding: Seq<u8>)
    ensures
        commitment_of(secret, blinding) == sha256_spec(secret + blinding),
{
}

/// An ownership challenge is answered by SHA-256 of the IP's commitment
/// hash followed by the challenge nonce, in that order.
pub proof fn law_challenge_answer_is_hash_then_nonce(commitment_hash: Bytes32, nonce: Bytes32)
    ensures
        challenge_response(commitment_hash, nonce) == sha256_spec(commitment_hash@ + nonce@),
{
}

/// A secret and blinding factor open an IP, for batch verification and key
/// rotation alike, exactly when SHA-256 of the secret followed by the
/// blinding factor is the IP's commitment hash.
pub proof fn law_opening_is_secret_then_blinding(s: RegistryState, ip_id: u64, secret: Bytes32, blinding: Bytes32)
    ensures
        opens(s, ip_id, secret, blinding) <==> (s.has_ip(ip_id) && s.record(ip_id).commitment_hash@ == sha256_spec(
            secret@ + blinding@,
        )),
{
}

} // verus!
