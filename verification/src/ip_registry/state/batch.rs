//! Committing several IPs in one call.
use vstd::prelude::*;
use soroban_sdk::Env;
use crate::common::{Addr, Bytes32, bytes32_eq, is_all_zero};
use crate::ip_registry::types::ContractError;
use super::{AnonymousOwner, CommitmentOwner, IpRegistry, RegistryState, entries_view};
use super::commit::{is_zero_hash, fresh_entry, with_new_ip, with_checksum_update, admin_after_commit};

verus! {

/// The error batch item `i` runs into, given the items before it succeeded.
pub open spec fn batch_item_error(s: RegistryState, hs: Seq<Bytes32>, i: int) -> Option<ContractError> {
    if is_zero_hash(hs[i]) {
        Some(ContractError::ZeroCommitmentHash)
    } else if s.is_registered(hs[i]) || (exists|j: int| 0 <= j < i && hs[j] == hs[i]) {
        Some(ContractError::CommitmentAlreadyRegistered)
    } else {
        None
    }
}

/// The error of the first failing item at or after `i`, if any.
pub open spec fn batch_error_from(s: RegistryState, hs: Seq<Bytes32>, i: int) -> Option<ContractError>
    decreases hs.len() - i,
{
    if i < 0 || i >= hs.len() {
        None
    } else if batch_item_error(s, hs, i) is Some {
        batch_item_error(s, hs, i)
    } else {
        batch_error_from(s, hs, i + 1)
    }
}

/// The error a batch commit reports: that of its first failing item.
pub open spec fn batch_error(s: RegistryState, hs: Seq<Bytes32>) -> Option<ContractError> {
    batch_error_from(s, hs, 0)
}

/// The state after recording each hash of `hs`, in order, as an IP of `owner`.
pub open spec fn batch_state(s: RegistryState, owner: Addr, hs: Seq<Bytes32>, now: u64) -> RegistryState
    decreases hs.len(),
{
    if hs.len() == 0 {
        s
    } else {
        let p = batch_state(s, owner, hs.drop_last(), now);
        with_new_ip(p, owner, hs.last(), now, fresh_entry((p.ips.len() + 1) as u64, owner, hs.last(), now, None))
    }
}

/// The state after recording each hash of `hs`, in order, as an anonymous IP
/// held by the contract with the blinded owner `blinded`.
pub open spec fn anon_batch_state(s: RegistryState, blinded: Bytes32, hs: Seq<Bytes32>, now: u64) -> RegistryState
    decreases hs.len(),
{
    if hs.len() == 0 {
        s
    } else {
        let p = anon_batch_state(s, blinded, hs.drop_last(), now);
        let h = hs.last();
        RegistryState {
            ips: p.ips.push(fresh_entry((p.ips.len() + 1) as u64, p.contract, h, now, None)),
            commitment_owners: p.commitment_owners.push(CommitmentOwner { hash: h, owner: p.contract }),
            anonymous_owners: p.anonymous_owners.push(AnonymousOwner { hash: h, blinded_owner: blinded }),
            ..p
        }
    }
}

/// The ids `first, first + 1, ...` of `n` consecutive IPs.
pub open spec fn consecutive_ids(first: int, n: int) -> Seq<u64> {
    Seq::new(n as nat, |k: int| (first + k) as u64)
}

proof fn lemma_batch_error_prefix(s: RegistryState, hs: Seq<Bytes32>, i: int)
    requires
        0 <= i <= hs.len(),
        forall|k: int| 0 <= k < i ==> batch_item_error(s, hs, k) is None,
    ensures
        batch_error(s, hs) == batch_error_from(s, hs, i),
    decreases i,
{
    if i > 0 {
        lemma_batch_error_prefix(s, hs, i - 1);
    }
}

/// Whether `hs[i]` already occurs before position `i`.
fn occurs_before(hs: &Vec<Bytes32>, i: usize) -> (r: bool)
    requires
        i < hs@.len(),
    ensures
        r == (exists|j: int| 0 <= j < i && hs@[j] == hs@[i as int]),
{
    let mut j: usize = 0;
    while j < i
        invariant
            0 <= j <= i,
            i < hs@.len(),
            forall|k: int| 0 <= k < j ==> hs@[k] != hs@[i as int],
        decreases i - j,
    {
        if bytes32_eq(&hs[j], &hs[i]) {
            return true;
        }
        j = j + 1;
    }
    false
}

impl IpRegistry {
    /// Checks every item of a batch; on failure returns the first item's error.
    fn check_batch(&self, hashes: &Vec<Bytes32>) -> (r: Result<(), ContractError>)
        requires
            self.wf(),
        ensures
            match batch_error(self@, hashes@) {
                Some(e) => r == Err::<(), ContractError>(e),
                None => r is Ok,
            },
            r is Ok ==> forall|k: int| 0 <= k < hashes@.len() ==> batch_item_error(self@, hashes@, k) is None,
    {
        let mut i: usize = 0;
        while i < hashes.len()
            invariant
                self.wf(),
                0 <= i <= hashes@.len(),
                forall|k: int| 0 <= k < i ==> batch_item_error(self@, hashes@, k) is None,
            decreases hashes@.len() - i,
        {
            let zero = is_all_zero(&hashes[i]);
            let dup = !zero && (self.is_commitment_registered(&hashes[i]) || occurs_before(hashes, i));
            if zero || dup {
                proof {
                    lemma_batch_error_prefix(self@, hashes@, i as int);
                }
                if zero {
                    return Err(ContractError::ZeroCommitmentHash);
                } else {
                    return Err(ContractError::CommitmentAlreadyRegistered);
                }
            }
            i = i + 1;
        }
        proof {
            lemma_batch_error_prefix(self@, hashes@, hashes@.len() as int);
        }
        Ok(())
    }

    /// Commits several IPs for `owner` in one call and returns their ids in
    /// input order. Each hash must be non-zero and neither registered nor
    /// repeated earlier in the batch; no PoW is required. Authorization of
    /// `owner` is checked by the host before this call.
    pub fn batch_commit_ip(
        &mut self,
        env: &Env,
        owner: Addr,
        commitment_hashes: &Vec<Bytes32>,
        now: u64,
    ) -> (r: Result<Vec<u64>, ContractError>)
        requires
            old(self).wf(),
            old(self)@.ips.len() + commitment_hashes@.len() + 1 < u64::MAX,
        ensures
            final(self).wf(),
            match batch_error(old(self)@, commitment_hashes@) {
                Some(e) => r matches Err(x) && x == e && final(self)@ == old(self)@,
                None => r matches Ok(ids) && ids@ == consecutive_ids(
                    old(self)@.ips.len() + 1int,
                    commitment_hashes@.len() as int,
                ) && final(self)@ == with_checksum_update(
                    batch_state(
                        RegistryState { admin: admin_after_commit(old(self)@), ..old(self)@ },
                        owner,
                        commitment_hashes@,
                        now,
                    ),
                ),
            },
    {
        match self.check_batch(commitment_hashes) {
            Err(e) => {
                return Err(e);
            },
            Ok(()) => {},
        }
        if self.admin.is_none() {
            self.admin = Some(self.contract);
        }
        let ghost s0 = self@;
        let ghost hs = commitment_hashes@;
        assert(s0 == (RegistryState { admin: admin_after_commit(old(self)@), ..old(self)@ }));
        let mut ids: Vec<u64> = Vec::new();
        let mut i: usize = 0;
        assert(hs.subrange(0, 0) =~= Seq::<Bytes32>::empty());
        assert(s0.commitment_owners =~= s0.commitment_owners + Seq::<Bytes32>::empty().map_values(
            |h: Bytes32| CommitmentOwner { hash: h, owner },
        ));
        while i < commitment_hashes.len()
            invariant
                self.wf(),
                0 <= i <= hs.len(),
                hs == commitment_hashes@,
                s0.ips.len() + hs.len() + 1 < u64::MAX,
                self@ == batch_state(s0, owner, hs.subrange(0, i as int), now),
                self@.ips.len() == s0.ips.len() + i,
                self@.commitment_owners == s0.commitment_owners + hs.subrange(0, i as int).map_values(
                    |h: Bytes32| CommitmentOwner { hash: h, owner },
                ),
                ids@ == consecutive_ids(s0.ips.len() + 1int, i as int),
                forall|k: int| 0 <= k < hs.len() ==> batch_item_error(old(self)@, hs, k) is None,
                forall|h: Bytes32| s0.is_registered(h) == old(self)@.is_registered(h),
            decreases hs.len() - i,
        {
            let h = commitment_hashes[i];
            proof {
                assert(batch_item_error(old(self)@, hs, i as int) is None);
                if self@.is_registered(h) {
                    let idx = choose|idx: int|
                        0 <= idx < self@.commitment_owners.len() && self@.commitment_owners[idx].hash == h;
                    if idx < s0.commitment_owners.len() {
                        assert(s0.is_registered(h));
                    } else {
                        let k = idx - s0.commitment_owners.len();
                        assert(hs[k] == h);
                    }
                }
            }
            let ghost before = self@;
            let id = self.ips.len() as u64 + 1;
            let entry = Self::new_entry(id, owner, h, now, None);
            self.push_ip(owner, h, now, entry);
            ids.push(id);
            proof {
                let t = hs.subrange(0, i + 1);
                assert(t.drop_last() =~= hs.subrange(0, i as int));
                assert(t.last() == h);
                assert(self@.commitment_owners =~= s0.commitment_owners + t.map_values(
                    |h: Bytes32| CommitmentOwner { hash: h, owner },
                ));
                assert(ids@ =~= consecutive_ids(s0.ips.len() + 1int, i + 1));
            }
            i = i + 1;
        }
        assert(hs.subrange(0, hs.len() as int) =~= hs);
        self.update_commitment_checksum(env);
        Ok(ids)
    }

    /// Commits several IPs anonymously: each record is held by the contract
    /// itself and the blinded owner identifier is stored per hash; the owner
    /// index is left untouched. An empty batch is rejected with
    /// `ZeroCommitmentHash`. No authorization is required.
    pub fn batch_commit_ip_anonymous(
        &mut self,
        env: &Env,
        blinded_owner: Bytes32,
        commitment_hashes: &Vec<Bytes32>,
        now: u64,
    ) -> (r: Result<Vec<u64>, ContractError>)
        requires
            old(self).wf(),
            old(self)@.ips.len() + commitment_hashes@.len() + 1 < u64::MAX,
        ensures
            final(self).wf(),
            commitment_hashes@.len() == 0 ==> (r matches Err(x) && x == ContractError::ZeroCommitmentHash
                && final(self)@ == old(self)@),
            commitment_hashes@.len() > 0 ==> match batch_error(old(self)@, commitment_hashes@) {
                Some(e) => r matches Err(x) && x == e && final(self)@ == old(self)@,
                None => r matches Ok(ids) && ids@ == consecutive_ids(
                    old(self)@.ips.len() + 1int,
                    commitment_hashes@.len() as int,
                ) && final(self)@ == with_checksum_update(
                    anon_batch_state(
                        RegistryState { admin: admin_after_commit(old(self)@), ..old(self)@ },
                        blinded_owner,
                        commitment_hashes@,
                        now,
                    ),
                ),
            },
    {
        if commitment_hashes.len() == 0 {
            return Err(ContractError::ZeroCommitmentHash);
        }
        match self.check_batch(commitment_hashes) {
            Err(e) => {
                return Err(e);
            },
            Ok(()) => {},
        }
        if self.admin.is_none() {
            self.admin = Some(self.contract);
        }
        let ghost s0 = self@;
        let ghost hs = commitment_hashes@;
        let contract = self.contract;
        let mut ids: Vec<u64> = Vec::new();
        let mut i: usize = 0;
        assert(hs.subrange(0, 0) =~= Seq::<Bytes32>::empty());
        assert(s0.commitment_owners =~= s0.commitment_owners + Seq::<Bytes32>::empty().map_values(
            |h: Bytes32| CommitmentOwner { hash: h, owner: contract },
        ));
        while i < commitment_hashes.len()
            invariant
                self.wf(),
                0 <= i <= hs.len(),
                hs == commitment_hashes@,
                contract == s0.contract,
                s0.ips.len() + hs.len() + 1 < u64::MAX,
                self@ == anon_batch_state(s0, blinded_owner, hs.subrange(0, i as int), now),
                self@.contract == s0.contract,
                self@.ips.len() == s0.ips.len() + i,
                self@.commitment_owners == s0.commitment_owners + hs.subrange(0, i as int).map_values(
                    |h: Bytes32| CommitmentOwner { hash: h, owner: contract },
                ),
                ids@ == consecutive_ids(s0.ips.len() + 1int, i as int),
                forall|k: int| 0 <= k < hs.len() ==> batch_item_error(old(self)@, hs, k) is None,
                forall|h: Bytes32| s0.is_registered(h) == old(self)@.is_registered(h),
            decreases hs.len() - i,
        {
            let h = commitment_hashes[i];
            proof {
                assert(batch_item_error(old(self)@, hs, i as int) is None);
                if self@.is_registered(h) {
                    let idx = choose|idx: int|
                        0 <= idx < self@.commitment_owners.len() && self@.commitment_owners[idx].hash == h;
                    if idx < s0.commitment_owners.len() {
                        assert(s0.is_registered(h));
                    } else {
                        let k = idx - s0.commitment_owners.len();
                        assert(hs[k] == h);
                    }
                }
            }
            let ghost before = self@;
            let id = self.ips.len() as u64 + 1;
            let entry = Self::new_entry(id, contract, h, now, None);
            let ghost e = entry@;
            self.ips.push(entry);
            assert(entries_view(self.ips@) =~= before.ips.push(e));
            self.commitment_owners.push(CommitmentOwner { hash: h, owner: contract });
            self.anonymous_owners.push(AnonymousOwner { hash: h, blinded_owner });
            ids.push(id);
            proof {
                let t = hs.subrange(0, i + 1);
                assert(t.drop_last() =~= hs.subrange(0, i as int));
                assert(t.last() == h);
                assert(self@ =~= (RegistryState {
                    ips: before.ips.push(fresh_entry((before.ips.len() + 1) as u64, before.contract, h, now, None)),
                    commitment_owners: before.commitment_owners.push(CommitmentOwner { hash: h, owner: before.contract }),
                    anonymous_owners: before.anonymous_owners.push(AnonymousOwner { hash: h, blinded_owner }),
                    ..before
                }));
                assert(self@.commitment_owners =~= s0.commitment_owners + t.map_values(
                    |h: Bytes32| CommitmentOwner { hash: h, owner: contract },
                ));
                assert(ids@ =~= consecutive_ids(s0.ips.len() + 1int, i + 1));
                assert forall|a: int, b: int|
                    0 <= a < b < self@.commitment_owners.len() implies #[trigger] self@.commitment_owners[a].hash
                    != #[trigger] self@.commitment_owners[b].hash by {
                    if b == self@.commitment_owners.len() - 1 {
                        assert(before.commitment_owners[a].hash != h);
                    }
                }
            }
            i = i + 1;
        }
        assert(hs.subrange(0, hs.len() as int) =~= hs);
        self.update_commitment_checksum(env);
        Ok(ids)
    }
}

} // verus!
