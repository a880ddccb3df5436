//! Notarization, deduplication, ownership challenges, key rotation and
//! batch verification of commitments.
use vstd::prelude::*;
use soroban_sdk::Env;
use crate::common::{Addr, Bytes32, bytes32_eq, copy_vec, extend_be_u64, be_bytes_u64, contains_addr, is_all_zero};
use crate::crypto::{sha256_spec, commitment_of, hash_pair};
use crate::ip_registry::types::{
    AuditAction, AuditEntry, ContractError, IpRecordView, OwnershipChallenge,
};
use super::{CommitmentOwner, IpEntryView, IpRegistry, RegistryState, entries_view};
use super::commit::is_zero_hash;
use super::lifecycle::with_entry;

verus! {

/// The message a notary signs for an IP: its id, then its commit
/// timestamp, each as 8 big-endian bytes.
pub open spec fn notary_message(ip_id: u64, timestamp: u64) -> Seq<u8> {
    be_bytes_u64(ip_id) + be_bytes_u64(timestamp)
}

/// What the host must check before a notarization stands: an Ed25519
/// signature of `message` under `public_key`.
pub struct NotaryCheck {
    pub public_key: Bytes32,
    pub message: Vec<u8>,
}

/// The position of a registered hash in the commitment-owner index.
pub open spec fn commitment_index(cs: Seq<CommitmentOwner>, h: Bytes32) -> int {
    choose|i: int| 0 <= i < cs.len() && cs[i].hash == h
}

/// The owner a hash is registered to, if it is registered.
pub open spec fn owner_of_hash(s: RegistryState, h: Bytes32) -> Option<Addr> {
    if s.is_registered(h) {
        Some(s.commitment_owners[commitment_index(s.commitment_owners, h)].owner)
    } else {
        None
    }
}

/// The first id of `ids` naming an existing IP whose hash is `h`.
pub open spec fn first_holding(s: RegistryState, ids: Seq<u64>, h: Bytes32) -> Option<u64>
    decreases ids.len(),
{
    if ids.len() == 0 {
        None
    } else if s.has_ip(ids[0]) && s.record(ids[0]).commitment_hash == h {
        Some(ids[0])
    } else {
        first_holding(s, ids.drop_first(), h)
    }
}

/// The IP holding a registered hash, found through its owner's list.
pub open spec fn duplicate_of(s: RegistryState, h: Bytes32) -> Option<u64> {
    match owner_of_hash(s, h) {
        Some(o) => first_holding(s, s.ids_of(o), h),
        None => None,
    }
}

/// The state after duplicate IP `d` is merged into primary IP `p` at `now`:
/// the duplicate's owner becomes a co-owner of `p` (unless already one or
/// its owner), `d` is revoked, and both audit trails record the merge.
pub open spec fn merged_state(s: RegistryState, p: u64, d: u64, now: u64) -> RegistryState {
    let pe = s.entry(p);
    let actor = pe.record.owner;
    let dup_owner = s.entry(d).record.owner;
    let co = if !pe.record.co_owners.contains(dup_owner) && dup_owner != pe.record.owner {
        pe.record.co_owners.push(dup_owner)
    } else {
        pe.record.co_owners
    };
    let s1 = with_entry(s, p, IpEntryView { record: IpRecordView { co_owners: co, ..pe.record }, ..pe });
    let de1 = s1.entry(d);
    let s2 = with_entry(s1, d, IpEntryView { record: IpRecordView { revoked: true, ..de1.record }, ..de1 });
    let pe2 = s2.entry(p);
    let s3 = with_entry(
        s2,
        p,
        IpEntryView {
            audit_trail: pe2.audit_trail.push(
                AuditEntry { action: AuditAction::Merged, actor, timestamp: now },
            ),
            ..pe2
        },
    );
    let de3 = s3.entry(d);
    with_entry(
        s3,
        d,
        IpEntryView {
            audit_trail: de3.audit_trail.push(
                AuditEntry { action: AuditAction::Revoked, actor, timestamp: now },
            ),
            ..de3
        },
    )
}

/// Whether a challenge with this id exists.
pub open spec fn has_challenge(s: RegistryState, challenge_id: u64) -> bool {
    1 <= challenge_id <= s.challenges.len()
}

/// The state with challenge `challenge_id` replaced by `c`.
pub open spec fn with_challenge(s: RegistryState, challenge_id: u64, c: OwnershipChallenge) -> RegistryState {
    RegistryState { challenges: s.challenges.update(challenge_id - 1, c), ..s }
}

/// The response that proves ownership of a commitment to a challenge:
/// `sha256(commitment_hash || nonce)`.
pub open spec fn challenge_response(commitment_hash: Bytes32, nonce: Bytes32) -> Seq<u8> {
    sha256_spec(commitment_hash@ + nonce@)
}

/// Whether `secret` and `blinding` open the commitment of an existing IP.
pub open spec fn opens(s: RegistryState, ip_id: u64, secret: Bytes32, blinding: Bytes32) -> bool {
    s.has_ip(ip_id) && s.record(ip_id).commitment_hash@ == commitment_of(secret@, blinding@)
}

/// The commitment-owner index without the entry of `h` (unchanged if absent).
pub open spec fn without_hash(cs: Seq<CommitmentOwner>, h: Bytes32) -> Seq<CommitmentOwner> {
    if exists|i: int| 0 <= i < cs.len() && cs[i].hash == h {
        cs.remove(commitment_index(cs, h))
    } else {
        cs
    }
}

/// The error a key rotation of IP `ip_id` reports, if any.
pub open spec fn rotation_error(
    s: RegistryState,
    ip_id: u64,
    new_hash: Bytes32,
    old_secret: Bytes32,
    old_blinding: Bytes32,
) -> Option<ContractError> {
    if !s.has_ip(ip_id) {
        Some(ContractError::IpNotFound)
    } else if s.record(ip_id).revoked {
        Some(ContractError::IpAlreadyRevoked)
    } else if !opens(s, ip_id, old_secret, old_blinding) {
        Some(ContractError::Unauthorized)
    } else if is_zero_hash(new_hash) {
        Some(ContractError::ZeroCommitmentHash)
    } else if s.is_registered(new_hash) {
        Some(ContractError::CommitmentAlreadyRegistered)
    } else {
        None
    }
}

/// The state after the commitment of IP `ip_id` is rotated to `new_hash`:
/// the old hash goes to the rotation history and the owner index moves
/// from the old hash to the new one.
pub open spec fn rotated_state(s: RegistryState, ip_id: u64, new_hash: Bytes32) -> RegistryState {
    let e = s.entry(ip_id);
    with_entry(
        RegistryState {
            commitment_owners: without_hash(s.commitment_owners, e.record.commitment_hash).push(
                CommitmentOwner { hash: new_hash, owner: e.record.owner },
            ),
            ..s
        },
        ip_id,
        IpEntryView {
            record: IpRecordView { commitment_hash: new_hash, ..e.record },
            rotation_history: e.rotation_history.push(e.record.commitment_hash),
            ..e
        },
    )
}

/// In a well-formed state a registered hash has exactly one position.
proof fn lemma_commitment_index_unique(s: RegistryState, h: Bytes32, i: int)
    requires
        s.inv(),
        0 <= i < s.commitment_owners.len(),
        s.commitment_owners[i].hash == h,
    ensures
        s.is_registered(h),
        commitment_index(s.commitment_owners, h) == i,
{
    let cs = s.commitment_owners;
    let k = commitment_index(cs, h);
    assert(0 <= k < cs.len() && cs[k].hash == h);
    if k < i {
        assert(cs[k].hash != cs[i].hash);
    } else if k > i {
        assert(cs[i].hash != cs[k].hash);
    }
}

impl IpRegistry {
    /// The configured admin, if any.
    pub fn admin(&self) -> (r: Option<Addr>)
        requires
            self.wf(),
        ensures
            r == self@.admin,
    {
        self.admin
    }

    /// Stores the notary's Ed25519 public key. Returns the address whose
    /// authorization the host checks: the admin, or the contract itself
    /// when no admin is set.
    pub fn set_notary_public_key(&mut self, public_key: Bytes32) -> (r: Addr)
        requires
            old(self).wf(),
        ensures
            final(self).wf(),
            r == match old(self)@.admin {
                Some(a) => a,
                None => old(self)@.contract,
            },
            final(self)@ == (RegistryState { notary_key: Some(public_key), ..old(self)@ }),
    {
        self.notary_key = Some(public_key);
        assert(self@ =~= (RegistryState { notary_key: Some(public_key), ..old(self)@ }));
        match self.admin {
            Some(a) => a,
            None => self.contract,
        }
    }

    /// What a notary's signature on IP `ip_id` must be checked against: the
    /// notary key and the message `ip_id || timestamp` (big-endian). Refused
    /// with `IpNotFound` for a missing IP and with `Unauthorized` when no
    /// notary key is set or the signature is not 64 bytes long.
    pub fn notary_check(&self, ip_id: u64, notary_signature: &Vec<u8>) -> (r: Result<NotaryCheck, ContractError>)
        requires
            self.wf(),
        ensures
            !self@.has_ip(ip_id) ==> r matches Err(ContractError::IpNotFound),
            self@.has_ip(ip_id) && (self@.notary_key is None || notary_signature@.len() != 64) ==> r matches Err(
                ContractError::Unauthorized,
            ),
            r is Ok <==> (self@.has_ip(ip_id) && self@.notary_key is Some && notary_signature@.len() == 64),
            match r {
                Ok(c) => c.public_key == self@.notary_key.unwrap() && c.message@ == notary_message(
                    ip_id,
                    self@.record(ip_id).timestamp,
                ),
                Err(_) => true,
            },
    {
        if ip_id == 0 || ip_id > self.ips.len() as u64 {
            return Err(ContractError::IpNotFound);
        }
        let public_key = match self.notary_key {
            Some(k) => k,
            None => {
                return Err(ContractError::Unauthorized);
            },
        };
        if notary_signature.len() != 64 {
            return Err(ContractError::Unauthorized);
        }
        let i = (ip_id - 1) as usize;
        let mut message: Vec<u8> = Vec::new();
        extend_be_u64(&mut message, ip_id);
        extend_be_u64(&mut message, self.ips[i].record.timestamp);
        Ok(NotaryCheck { public_key, message })
    }

    /// Records a notary's 64-byte signature on IP `ip_id` (see
    /// [`IpRegistry::notary_check`]) and returns the key and message it must
    /// be verified against. The host verifies it in the same transaction; a
    /// failed verification aborts it, undoing this change.
    pub fn notarize_ip_timestamp(&mut self, ip_id: u64, notary_signature: Vec<u8>) -> (r: Result<
        NotaryCheck,
        ContractError,
    >)
        requires
            old(self).wf(),
        ensures
            final(self).wf(),
            !old(self)@.has_ip(ip_id) ==> r matches Err(ContractError::IpNotFound),
            old(self)@.has_ip(ip_id) && (old(self)@.notary_key is None || notary_signature@.len() != 64)
                ==> r matches Err(ContractError::Unauthorized),
            r is Err ==> final(self)@ == old(self)@,
            r is Ok <==> (old(self)@.has_ip(ip_id) && old(self)@.notary_key is Some
                && notary_signature@.len() == 64),
            match r {
                Ok(c) => c.public_key == old(self)@.notary_key.unwrap() && c.message@ == notary_message(
                    ip_id,
                    old(self)@.record(ip_id).timestamp,
                ) && final(self)@ == with_entry(
                    old(self)@,
                    ip_id,
                    IpEntryView {
                        record: IpRecordView {
                            notary_signature: Some(notary_signature@),
                            ..old(self)@.record(ip_id)
                        },
                        ..old(self)@.entry(ip_id)
                    },
                ),
                Err(_) => true,
            },
    {
        let check = match self.notary_check(ip_id, &notary_signature) {
            Err(e) => {
                return Err(e);
            },
            Ok(c) => c,
        };
        if ip_id == 0 || ip_id > self.ips.len() as u64 {
            return Err(ContractError::IpNotFound);
        }
        let i = (ip_id - 1) as usize;
        let ghost sig = notary_signature@;
        self.ips[i].record.notary_signature = Some(notary_signature);
        proof {
            let e = old(self)@.ips[i as int];
            assert(entries_view(self.ips@) =~= old(self)@.ips.update(
                i as int,
                IpEntryView { record: IpRecordView { notary_signature: Some(sig), ..e.record }, ..e },
            ));
            assert(self@ =~= with_entry(
                old(self)@,
                ip_id,
                IpEntryView { record: IpRecordView { notary_signature: Some(sig), ..e.record }, ..e },
            ));
        }
        Ok(check)
    }

    /// The notary signature recorded for IP `ip_id`, if any.
    pub fn get_ip_notary_signature(&self, ip_id: u64) -> (r: Result<Option<Vec<u8>>, ContractError>)
        requires
            self.wf(),
        ensures
            match r {
                Ok(o) => self@.has_ip(ip_id) && match self@.record(ip_id).notary_signature {
                    Some(sig) => o is Some && o.unwrap()@ == sig,
                    None => o is None,
                },
                Err(e) => !self@.has_ip(ip_id) && e == ContractError::IpNotFound,
            },
    {
        if ip_id == 0 || ip_id > self.ips.len() as u64 {
            return Err(ContractError::IpNotFound);
        }
        match &self.ips[(ip_id - 1) as usize].record.notary_signature {
            Some(sig) => Ok(Some(copy_vec(sig))),
            None => Ok(None),
        }
    }

    /// The IP holding `commitment_hash`, found by walking the list of the
    /// owner the hash is registered to; `None` if it is not registered.
    pub fn find_duplicate_commitment(&self, commitment_hash: &Bytes32) -> (r: Option<u64>)
        requires
            self.wf(),
        ensures
            r == duplicate_of(self@, *commitment_hash),
    {
        let ghost s = self@;
        let ghost h = *commitment_hash;
        let c = match self.find_commitment(commitment_hash) {
            Some(c) => c,
            None => {
                return None;
            },
        };
        proof {
            lemma_commitment_index_unique(s, h, c as int);
        }
        let owner = self.commitment_owners[c].owner;
        let ids = self.list_ip_by_owner(owner);
        let mut k: usize = 0;
        assert(ids@.subrange(0, ids@.len() as int) =~= ids@);
        while k < ids.len()
            invariant
                s == self@,
                h == *commitment_hash,
                self.wf(),
                0 <= k <= ids@.len(),
                ids@ == s.ids_of(owner),
                owner_of_hash(s, h) == Some(owner),
                duplicate_of(s, h) == first_holding(s, ids@.subrange(k as int, ids@.len() as int), h),
            decreases ids@.len() - k,
        {
            let id = ids[k];
            let ghost rest = ids@.subrange(k as int, ids@.len() as int);
            assert(rest[0] == id);
            assert(rest.drop_first() =~= ids@.subrange(k + 1, ids@.len() as int));
            let mut found = false;
            if id >= 1 && id <= self.ips.len() as u64 {
                let hh = self.ips[(id - 1) as usize].record.commitment_hash;
                assert(hh == s.record(id).commitment_hash);
                found = bytes32_eq(&hh, commitment_hash);
            }
            proof {
                if found {
                    assert(first_holding(s, rest, h) == Some(id));
                } else {
                    assert(first_holding(s, rest, h) == first_holding(s, rest.drop_first(), h));
                }
            }
            if found {
                return Some(id);
            }
            k = k + 1;
        }
        None
    }

    /// Merges IP `duplicate_ip_id` into `primary_ip_id` when both carry the
    /// same hash (see [`merged_state`]). Authorization of the primary's
    /// owner is checked by the host before this call.
    pub fn merge_duplicate_commitment(&mut self, primary_ip_id: u64, duplicate_ip_id: u64, now: u64) -> (r:
        Result<(), ContractError>)
        requires
            old(self).wf(),
        ensures
            final(self).wf(),
            !old(self)@.has_ip(primary_ip_id) || !old(self)@.has_ip(duplicate_ip_id) ==> r == Err::<
                (),
                ContractError,
            >(ContractError::IpNotFound) && final(self)@ == old(self)@,
            old(self)@.has_ip(primary_ip_id) && old(self)@.has_ip(duplicate_ip_id) ==> if old(
                self,
            )@.record(primary_ip_id).commitment_hash != old(self)@.record(duplicate_ip_id).commitment_hash {
                r == Err::<(), ContractError>(ContractError::CommitmentAlreadyRegistered) && final(self)@
                    == old(self)@
            } else {
                r is Ok && final(self)@ == merged_state(old(self)@, primary_ip_id, duplicate_ip_id, now)
            },
    {
        if primary_ip_id == 0 || primary_ip_id > self.ips.len() as u64 {
            return Err(ContractError::IpNotFound);
        }
        if duplicate_ip_id == 0 || duplicate_ip_id > self.ips.len() as u64 {
            return Err(ContractError::IpNotFound);
        }
        let p = (primary_ip_id - 1) as usize;
        let d = (duplicate_ip_id - 1) as usize;
        if !bytes32_eq(&self.ips[p].record.commitment_hash, &self.ips[d].record.commitment_hash) {
            return Err(ContractError::CommitmentAlreadyRegistered);
        }
        let ghost s = self@;
        let actor = self.ips[p].record.owner;
        let dup_owner = self.ips[d].record.owner;
        let already = contains_addr(&self.ips[p].record.co_owners, dup_owner);
        if !already && dup_owner != actor {
            self.ips[p].record.co_owners.push(dup_owner);
        }
        let ghost s1 = self@;
        proof {
            let pe = s.ips[p as int];
            let co = if !pe.record.co_owners.contains(dup_owner) && dup_owner != pe.record.owner {
                pe.record.co_owners.push(dup_owner)
            } else {
                pe.record.co_owners
            };
            assert(entries_view(self.ips@) =~= s.ips.update(
                p as int,
                IpEntryView { record: IpRecordView { co_owners: co, ..pe.record }, ..pe },
            ));
            assert(s1 =~= with_entry(
                s,
                primary_ip_id,
                IpEntryView { record: IpRecordView { co_owners: co, ..pe.record }, ..pe },
            ));
        }
        self.ips[d].record.revoked = true;
        let ghost s2 = self@;
        proof {
            let de1 = s1.ips[d as int];
            assert(entries_view(self.ips@) =~= s1.ips.update(
                d as int,
                IpEntryView { record: IpRecordView { revoked: true, ..de1.record }, ..de1 },
            ));
            assert(s2 =~= with_entry(
                s1,
                duplicate_ip_id,
                IpEntryView { record: IpRecordView { revoked: true, ..de1.record }, ..de1 },
            ));
        }
        self.ips[p].audit_trail.push(AuditEntry { action: AuditAction::Merged, actor, timestamp: now });
        let ghost s3 = self@;
        proof {
            let pe2 = s2.ips[p as int];
            assert(entries_view(self.ips@) =~= s2.ips.update(
                p as int,
                IpEntryView {
                    audit_trail: pe2.audit_trail.push(
                        AuditEntry { action: AuditAction::Merged, actor, timestamp: now },
                    ),
                    ..pe2
                },
            ));
            assert(s3 =~= with_entry(
                s2,
                primary_ip_id,
                IpEntryView {
                    audit_trail: pe2.audit_trail.push(
                        AuditEntry { action: AuditAction::Merged, actor, timestamp: now },
                    ),
                    ..pe2
                },
            ));
        }
        self.ips[d].audit_trail.push(AuditEntry { action: AuditAction::Revoked, actor, timestamp: now });
        proof {
            let de3 = s3.ips[d as int];
            assert(entries_view(self.ips@) =~= s3.ips.update(
                d as int,
                IpEntryView {
                    audit_trail: de3.audit_trail.push(
                        AuditEntry { action: AuditAction::Revoked, actor, timestamp: now },
                    ),
                    ..de3
                },
            ));
            assert(self@ =~= merged_state(s, primary_ip_id, duplicate_ip_id, now));
        }
        Ok(())
    }
}

impl IpRegistry {
    /// Opens a nonce challenge against IP `ip_id`: its owner must answer
    /// with `sha256(commitment_hash || nonce)`. Returns the challenge id
    /// (ids start at 1). The challenger's authorization is checked by the
    /// host before this call.
    pub fn issue_ownership_challenge(&mut self, ip_id: u64, challenger: Addr, nonce: Bytes32, now: u64) -> (r:
        Result<u64, ContractError>)
        requires
            old(self).wf(),
            old(self)@.has_ip(ip_id) ==> old(self)@.challenges.len() + 2 <= u64::MAX,
        ensures
            final(self).wf(),
            !old(self)@.has_ip(ip_id) ==> r == Err::<u64, ContractError>(ContractError::IpNotFound)
                && final(self)@ == old(self)@,
            old(self)@.has_ip(ip_id) ==> r == Ok::<u64, ContractError>((old(self)@.challenges.len() + 1) as u64)
                && final(self)@ == (RegistryState {
                challenges: old(self)@.challenges.push(
                    OwnershipChallenge {
                        challenge_id: (old(self)@.challenges.len() + 1) as u64,
                        ip_id,
                        challenger,
                        nonce,
                        response_hash: None,
                        verified: false,
                        timestamp: now,
                    },
                ),
                ..old(self)@
            }),
    {
        if ip_id == 0 || ip_id > self.ips.len() as u64 {
            return Err(ContractError::IpNotFound);
        }
        let challenge_id = self.challenges.len() as u64 + 1;
        let c = OwnershipChallenge {
            challenge_id,
            ip_id,
            challenger,
            nonce,
            response_hash: None,
            verified: false,
            timestamp: now,
        };
        self.challenges.push(c);
        assert(self@ =~= (RegistryState { challenges: old(self)@.challenges.push(c), ..old(self)@ }));
        Ok(challenge_id)
    }

    /// Stores the IP owner's answer to challenge `challenge_id`. Either a
    /// missing challenge or a missing IP is reported as `IpNotFound`. The
    /// owner's authorization is checked by the host before this call.
    pub fn respond_to_ownership_challenge(&mut self, challenge_id: u64, response_hash: Bytes32) -> (r: Result<
        (),
        ContractError,
    >)
        requires
            old(self).wf(),
        ensures
            final(self).wf(),
            !(has_challenge(old(self)@, challenge_id) && old(self)@.has_ip(
                old(self)@.challenges[challenge_id - 1].ip_id,
            )) ==> r == Err::<(), ContractError>(ContractError::IpNotFound) && final(self)@ == old(self)@,
            has_challenge(old(self)@, challenge_id) && old(self)@.has_ip(
                old(self)@.challenges[challenge_id - 1].ip_id,
            ) ==> r is Ok && final(self)@ == with_challenge(
                old(self)@,
                challenge_id,
                OwnershipChallenge {
                    response_hash: Some(response_hash),
                    ..old(self)@.challenges[challenge_id - 1]
                },
            ),
    {
        if challenge_id == 0 || challenge_id > self.challenges.len() as u64 {
            return Err(ContractError::IpNotFound);
        }
        let k = (challenge_id - 1) as usize;
        let ip_id = self.challenges[k].ip_id;
        if ip_id == 0 || ip_id > self.ips.len() as u64 {
            return Err(ContractError::IpNotFound);
        }
        let mut c = self.challenges[k];
        c.response_hash = Some(response_hash);
        self.challenges.set(k, c);
        assert(self@ =~= with_challenge(old(self)@, challenge_id, c));
        Ok(())
    }

    /// Checks the stored answer of challenge `challenge_id` against
    /// `sha256(commitment_hash || nonce)` and marks the challenge verified
    /// when it matches. `Ok(false)` when no answer was given yet.
    pub fn verify_ownership_challenge(&mut self, env: &Env, challenge_id: u64) -> (r: Result<bool, ContractError>)
        requires
            old(self).wf(),
        ensures
            final(self).wf(),
            !has_challenge(old(self)@, challenge_id) ==> r == Err::<bool, ContractError>(
                ContractError::IpNotFound,
            ) && final(self)@ == old(self)@,
            has_challenge(old(self)@, challenge_id) ==> {
                let c = old(self)@.challenges[challenge_id - 1];
                match c.response_hash {
                    None => r == Ok::<bool, ContractError>(false) && final(self)@ == old(self)@,
                    Some(rh) => if !old(self)@.has_ip(c.ip_id) {
                        r == Err::<bool, ContractError>(ContractError::IpNotFound) && final(self)@ == old(self)@
                    } else {
                        let valid = rh@ == challenge_response(old(self)@.record(c.ip_id).commitment_hash, c.nonce);
                        r == Ok::<bool, ContractError>(valid) && (valid ==> final(self)@ == with_challenge(
                            old(self)@,
                            challenge_id,
                            OwnershipChallenge { verified: true, ..c },
                        )) && (!valid ==> final(self)@ == old(self)@)
                    },
                }
            },
    {
        if challenge_id == 0 || challenge_id > self.challenges.len() as u64 {
            return Err(ContractError::IpNotFound);
        }
        let k = (challenge_id - 1) as usize;
        let mut c = self.challenges[k];
        let response = match c.response_hash {
            Some(rh) => rh,
            None => {
                return Ok(false);
            },
        };
        let ip_id = c.ip_id;
        if ip_id == 0 || ip_id > self.ips.len() as u64 {
            return Err(ContractError::IpNotFound);
        }
        let expected = hash_pair(env, &self.ips[(ip_id - 1) as usize].record.commitment_hash, &c.nonce);
        let valid = bytes32_eq(&response, &expected);
        if valid {
            c.verified = true;
            self.challenges.set(k, c);
            assert(self@ =~= with_challenge(old(self)@, challenge_id, c));
        }
        Ok(valid)
    }

    /// Challenge `challenge_id`, if it exists.
    pub fn get_ownership_challenge(&self, challenge_id: u64) -> (r: Option<OwnershipChallenge>)
        requires
            self.wf(),
        ensures
            r == if has_challenge(self@, challenge_id) {
                Some(self@.challenges[challenge_id - 1])
            } else {
                None
            },
    {
        if challenge_id == 0 || challenge_id > self.challenges.len() as u64 {
            return None;
        }
        Some(self.challenges[(challenge_id - 1) as usize])
    }

    /// Replaces the commitment of IP `ip_id` by `new_commitment_hash` once
    /// the caller shows the old secret and blinding factor (see
    /// [`rotation_error`] and [`rotated_state`]). The owner's authorization
    /// is checked by the host before this call.
    pub fn rotate_commitment_key(
        &mut self,
        env: &Env,
        ip_id: u64,
        new_commitment_hash: Bytes32,
        old_secret: &Bytes32,
        old_blinding_factor: &Bytes32,
    ) -> (r: Result<(), ContractError>)
        requires
            old(self).wf(),
        ensures
            final(self).wf(),
            match rotation_error(old(self)@, ip_id, new_commitment_hash, *old_secret, *old_blinding_factor) {
                Some(e) => r == Err::<(), ContractError>(e) && final(self)@ == old(self)@,
                None => r is Ok && final(self)@ == rotated_state(old(self)@, ip_id, new_commitment_hash),
            },
    {
        if ip_id == 0 || ip_id > self.ips.len() as u64 {
            return Err(ContractError::IpNotFound);
        }
        let i = (ip_id - 1) as usize;
        if self.ips[i].record.revoked {
            return Err(ContractError::IpAlreadyRevoked);
        }
        let computed = hash_pair(env, old_secret, old_blinding_factor);
        let old_hash = self.ips[i].record.commitment_hash;
        if !bytes32_eq(&computed, &old_hash) {
            return Err(ContractError::Unauthorized);
        }
        if is_all_zero(&new_commitment_hash) {
            return Err(ContractError::ZeroCommitmentHash);
        }
        if self.find_commitment(&new_commitment_hash).is_some() {
            return Err(ContractError::CommitmentAlreadyRegistered);
        }
        let ghost s = self@;
        let owner = self.ips[i].record.owner;
        let ghost cs = s.commitment_owners;
        match self.find_commitment(&old_hash) {
            Some(c) => {
                proof {
                    lemma_commitment_index_unique(s, old_hash, c as int);
                }
                self.commitment_owners.remove(c);
            },
            None => {},
        }
        assert(self.commitment_owners@ =~= without_hash(cs, old_hash));
        proof {
            let w = without_hash(cs, old_hash);
            assert forall|a: int, b: int| 0 <= a < b < w.len() implies #[trigger] w[a].hash != #[trigger] w[b].hash by {
                if exists|k: int| 0 <= k < cs.len() && cs[k].hash == old_hash {
                    let c = commitment_index(cs, old_hash);
                    let a2 = if a < c { a } else { a + 1 };
                    let b2 = if b < c { b } else { b + 1 };
                    assert(w[a] == cs[a2] && w[b] == cs[b2]);
                    assert(cs[a2].hash != cs[b2].hash);
                }
            }
            assert forall|a: int| 0 <= a < w.len() implies #[trigger] w[a].hash != new_commitment_hash by {
                if exists|k: int| 0 <= k < cs.len() && cs[k].hash == old_hash {
                    let c = commitment_index(cs, old_hash);
                    let a2 = if a < c { a } else { a + 1 };
                    assert(w[a] == cs[a2]);
                } else {
                    assert(w[a] == cs[a]);
                }
            }
        }
        self.commitment_owners.push(CommitmentOwner { hash: new_commitment_hash, owner });
        self.ips[i].rotation_history.push(old_hash);
        self.ips[i].record.commitment_hash = new_commitment_hash;
        proof {
            let e = s.ips[i as int];
            assert(entries_view(self.ips@) =~= s.ips.update(
                i as int,
                IpEntryView {
                    record: IpRecordView { commitment_hash: new_commitment_hash, ..e.record },
                    rotation_history: e.rotation_history.push(old_hash),
                    ..e
                },
            ));
            assert(self@ =~= rotated_state(s, ip_id, new_commitment_hash));
            let w2 = self@.commitment_owners;
            assert forall|a: int, b: int|
                0 <= a < b < w2.len() implies #[trigger] w2[a].hash != #[trigger] w2[b].hash by {
                if b == w2.len() - 1 {
                    assert(w2[a].hash != new_commitment_hash);
                }
            }
        }
        Ok(())
    }

    /// The commitment hashes IP `ip_id` held before each key rotation, oldest first.
    pub fn get_key_rotation_history(&self, ip_id: u64) -> (r: Result<Vec<Bytes32>, ContractError>)
        requires
            self.wf(),
        ensures
            match r {
                Ok(v) => self@.has_ip(ip_id) && v@ == self@.entry(ip_id).rotation_history,
                Err(e) => !self@.has_ip(ip_id) && e == ContractError::IpNotFound,
            },
    {
        if ip_id == 0 || ip_id > self.ips.len() as u64 {
            return Err(ContractError::IpNotFound);
        }
        Ok(copy_vec(&self.ips[(ip_id - 1) as usize].rotation_history))
    }

    /// For each `(ip_id, secret, blinding_factor)`, whether it opens the
    /// commitment of that IP; a missing IP gives `false`.
    pub fn batch_verify_commitments(&self, env: &Env, verifications: &Vec<(u64, Bytes32, Bytes32)>) -> (r: Vec<
        bool,
    >)
        requires
            self.wf(),
        ensures
            r@.len() == verifications@.len(),
            forall|k: int|
                0 <= k < r@.len() ==> #[trigger] r@[k] == opens(
                    self@,
                    verifications@[k].0,
                    verifications@[k].1,
                    verifications@[k].2,
                ),
    {
        let mut results: Vec<bool> = Vec::new();
        let mut k: usize = 0;
        while k < verifications.len()
            invariant
                self.wf(),
                0 <= k <= verifications@.len(),
                results@.len() == k,
                forall|j: int|
                    0 <= j < k ==> #[trigger] results@[j] == opens(
                        self@,
                        verifications@[j].0,
                        verifications@[j].1,
                        verifications@[j].2,
                    ),
            decreases verifications@.len() - k,
        {
            let (ip_id, secret, blinding) = verifications[k];
            let mut ok = false;
            if ip_id >= 1 && ip_id <= self.ips.len() as u64 {
                let computed = hash_pair(env, &secret, &blinding);
                ok = bytes32_eq(&self.ips[(ip_id - 1) as usize].record.commitment_hash, &computed);
            }
            results.push(ok);
            k = k + 1;
        }
        results
    }
}

} // verus!
