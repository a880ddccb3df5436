//! Committing IPs and reading them back.
use vstd::prelude::*;
use soroban_sdk::Env;
use crate::common::{Addr, Bytes32, bytes32_eq, is_all_zero, copy_ids};
use crate::crypto::{sha256_spec, concat_all, bytes_of_all, hash_concat};
use crate::ip_registry::types::{
    AuditAction, AuditEntry, ContractError, IpRecord, IpRecordView, NUM_SHARDS,
};
use super::{
    AnonymousOwner, CommitmentOwner, IpEntry, IpEntryView, IpRegistry, RegistryState,
    entries_view, id_lists_view, shards_view,
};

verus! {

broadcast use vstd::std_specs::hash::group_hash_axioms;

/// Whether every byte of a hash is zero.
pub open spec fn is_zero_hash(h: Bytes32) -> bool {
    forall|j: int| 0 <= j < 32 ==> h@[j] == 0u8
}

/// Bit `j` of a byte string, most significant bit of the first byte first.
pub open spec fn bit_at(h: Seq<u8>, j: int) -> u8 {
    (h[j / 8] >> ((7 - j % 8) as u8)) & 1u8
}

/// Whether `h` starts with at least `difficulty` zero bits (bits past the
/// end of `h` are not required).
pub open spec fn pow_ok(h: Seq<u8>, difficulty: u32) -> bool {
    forall|j: int| 0 <= j < difficulty && j < 8 * h.len() ==> bit_at(h, j) == 0u8
}

/// The shard a commitment hash belongs to: its first byte modulo the shard count.
pub open spec fn shard_of(h: Bytes32) -> int {
    (h@[0] % (NUM_SHARDS as u8)) as int
}

/// The entry of a freshly committed IP, before any feature data is attached.
pub open spec fn fresh_entry(
    id: u64,
    owner: Addr,
    hash: Bytes32,
    timestamp: u64,
    parent: Option<u64>,
) -> IpEntryView {
    IpEntryView {
        record: IpRecordView {
            ip_id: id,
            owner,
            commitment_hash: hash,
            timestamp,
            revoked: false,
            co_owners: Seq::empty(),
            parent_ip_id: parent,
            notary_signature: None,
        },
        pow_difficulty: 0,
        partial_disclosure: None,
        licenses: Seq::empty(),
        suggested_price: None,
        versions: Seq::empty(),
        version_chain: None,
        access_grants: Seq::empty(),
        audit_trail: Seq::empty(),
        rotation_history: Seq::empty(),
        renewal_count: 0,
        stake: None,
        compressed: None,
    }
}

/// The error `commit_ip` reports for a candidate commitment, if any.
pub open spec fn commit_error(s: RegistryState, hash: Bytes32, difficulty: u32) -> Option<
    ContractError,
> {
    if is_zero_hash(hash) {
        Some(ContractError::ZeroCommitmentHash)
    } else if s.is_registered(hash) {
        Some(ContractError::CommitmentAlreadyRegistered)
    } else if !pow_ok(hash@, difficulty) {
        Some(ContractError::InsufficientPoW)
    } else {
        None
    }
}

/// The admin after the first commitment: the contract itself unless one is set.
pub open spec fn admin_after_commit(s: RegistryState) -> Option<Addr> {
    match s.admin {
        Some(a) => Some(a),
        None => Some(s.contract),
    }
}

/// The state after the last committed IP's hash is added to the rollback
/// protection list and the checksum over the list is recomputed.
pub open spec fn with_checksum_update(s: RegistryState) -> RegistryState {
    if s.ips.len() == 0 {
        s
    } else {
        let hashes = s.commitment_hashes.push(s.ips.last().record.commitment_hash@);
        RegistryState { commitment_hashes: hashes, checksum: Some(sha256_spec(concat_all(hashes))), ..s }
    }
}

/// The state right after IP `s.ip_count() + 1` is recorded for `owner`
/// with `hash` at `timestamp` and indexed under its owner and its hash.
pub open spec fn with_new_ip(
    s: RegistryState,
    owner: Addr,
    hash: Bytes32,
    timestamp: u64,
    entry: IpEntryView,
) -> RegistryState {
    let id = (s.ips.len() + 1) as u64;
    RegistryState {
        ips: s.ips.push(entry),
        owner_ips: s.owner_ips.insert(owner.id, s.ids_of(owner).push(id)),
        commitment_owners: s.commitment_owners.push(CommitmentOwner { hash, owner }),
        ..s
    }
}

/// The state after a successful `commit_ip`.
pub open spec fn committed_state(
    s: RegistryState,
    owner: Addr,
    hash: Bytes32,
    difficulty: u32,
    now: u64,
) -> RegistryState {
    let id = (s.ips.len() + 1) as u64;
    let entry = IpEntryView {
        pow_difficulty: difficulty,
        audit_trail: seq![AuditEntry { action: AuditAction::Committed, actor: owner, timestamp: now }],
        compressed: Some(hash@.subrange(0, 16)),
        ..fresh_entry(id, owner, hash, now, None)
    };
    let base = with_new_ip(RegistryState { admin: admin_after_commit(s), ..s }, owner, hash, now, entry);
    with_checksum_update(
        RegistryState {
            shards: base.shards.update(shard_of(hash), base.shards[shard_of(hash)].push(id)),
            ..base
        },
    )
}

impl IpRegistry {
    /// Number of IPs committed so far.
    pub fn ip_count(&self) -> (n: u64)
        requires
            self.wf(),
        ensures
            n == self@.ips.len(),
    {
        self.ips.len() as u64
    }

    /// The record of an IP; `IpNotFound` if no IP has this id.
    pub fn get_ip(&self, ip_id: u64) -> (r: Result<&IpRecord, ContractError>)
        requires
            self.wf(),
        ensures
            match r {
                Ok(rec) => self@.has_ip(ip_id) && rec@ == self@.record(ip_id),
                Err(e) => !self@.has_ip(ip_id) && e == ContractError::IpNotFound,
            },
    {
        if ip_id == 0 || ip_id > self.ips.len() as u64 {
            return Err(ContractError::IpNotFound);
        }
        let i = (ip_id - 1) as usize;
        Ok(&self.ips[i].record)
    }

    /// Position of a hash in the commitment-owner index.
    pub(crate) fn find_commitment(&self, hash: &Bytes32) -> (r: Option<usize>)
        requires
            self.wf(),
        ensures
            match r {
                Some(i) => i < self@.commitment_owners.len() && self@.commitment_owners[i as int].hash
                    == *hash,
                None => !self@.is_registered(*hash),
            },
    {
        let mut i: usize = 0;
        while i < self.commitment_owners.len()
            invariant
                0 <= i <= self.commitment_owners@.len(),
                forall|j: int| 0 <= j < i ==> self.commitment_owners@[j].hash != *hash,
            decreases self.commitment_owners@.len() - i,
        {
            if bytes32_eq(&self.commitment_owners[i].hash, hash) {
                return Some(i);
            }
            i = i + 1;
        }
        None
    }

    /// Whether `hash` is already registered to some owner.
    pub fn is_commitment_registered(&self, hash: &Bytes32) -> (r: bool)
        requires
            self.wf(),
        ensures
            r == self@.is_registered(*hash),
    {
        self.find_commitment(hash).is_some()
    }

    /// The IP ids listed for `owner`, in the order they were added.
    pub fn list_ip_by_owner(&self, owner: Addr) -> (r: Vec<u64>)
        requires
            self.wf(),
        ensures
            r@ == self@.ids_of(owner),
    {
        match self.owner_ips.get(&owner.id) {
            Some(v) => copy_ids(v),
            None => Vec::new(),
        }
    }

    /// Appends `id` to the list of `owner`.
    pub(crate) fn append_owner_ip(&mut self, owner: Addr, id: u64)
        requires
            old(self).wf(),
            old(self)@.lists_own_ip(owner.id, id),
            !old(self)@.ids_of(owner).contains(id),
        ensures
            final(self).wf(),
            final(self)@ == (RegistryState {
                owner_ips: old(self)@.owner_ips.insert(owner.id, old(self)@.ids_of(owner).push(id)),
                ..old(self)@
            }),
    {
        let mut ids = self.list_ip_by_owner(owner);
        ids.push(id);
        self.owner_ips.insert(owner.id, ids);
        assert(id_lists_view(self.owner_ips@) =~= id_lists_view(old(self).owner_ips@).insert(
            owner.id,
            old(self)@.ids_of(owner).push(id),
        ));
        proof {
            let s0 = old(self)@;
            let s1 = self@;
            assert forall|o: u64, k: int| s1.owner_ips.contains_key(o) && 0 <= k < s1.owner_ips[o].len() implies s1.lists_own_ip(
                o,
                #[trigger] s1.owner_ips[o][k],
            ) by {
                if o != owner.id || k < s0.ids_of(owner).len() {
                    assert(s0.owner_ips.contains_key(o));
                    assert(s0.owner_ips[o][k] == s1.owner_ips[o][k]);
                }
            }
            assert forall|o: u64| #[trigger] s1.owner_ips.contains_key(o) implies s1.owner_ips[o].no_duplicates() by {
                if o == owner.id {
                    let l = s0.ids_of(owner);
                    if s0.owner_ips.contains_key(o) {
                        assert(l.no_duplicates());
                    }
                    assert forall|a: int, b: int| 0 <= a < b < l.push(id).len() implies l.push(id)[a] != l.push(id)[b] by {
                        if b == l.len() {
                            assert(l[a] == l.push(id)[a]);
                        }
                    }
                } else {
                    assert(s0.owner_ips.contains_key(o));
                }
            }
        }
    }

    /// Records a new IP entry with the next id and indexes it.
    pub(crate) fn push_ip(&mut self, owner: Addr, hash: Bytes32, timestamp: u64, entry: IpEntry)
        requires
            old(self).wf(),
            old(self)@.ips.len() + 1 < u64::MAX,
            !old(self)@.is_registered(hash),
            entry@.record.ip_id == old(self)@.ips.len() + 1,
            entry@.record.owner == owner,
            match entry@.record.parent_ip_id {
                Some(p) => 1 <= p <= old(self)@.ips.len(),
                None => true,
            },
        ensures
            final(self).wf(),
            final(self)@ == with_new_ip(old(self)@, owner, hash, timestamp, entry@),
    {
        let id = self.ips.len() as u64 + 1;
        let ghost e = entry@;
        self.ips.push(entry);
        assert(entries_view(self.ips@) =~= entries_view(old(self).ips@).push(e));
        proof {
            let s0 = old(self)@;
            let s1 = self@;
            assert forall|o: u64, k: int| s1.owner_ips.contains_key(o) && 0 <= k < s1.owner_ips[o].len() implies s1.lists_own_ip(
                o,
                #[trigger] s1.owner_ips[o][k],
            ) by {
                assert(s0.lists_own_ip(o, s0.owner_ips[o][k]));
            }
            if s0.owner_ips.contains_key(owner.id) {
                let l = s0.owner_ips[owner.id];
                assert forall|k: int| 0 <= k < l.len() implies #[trigger] l[k] != id by {
                    assert(s0.lists_own_ip(owner.id, l[k]));
                }
            }
        }
        self.append_owner_ip(owner, id);
        let ghost before = self@;
        self.commitment_owners.push(CommitmentOwner { hash, owner });
        assert(self@ =~= (RegistryState {
            commitment_owners: before.commitment_owners.push(CommitmentOwner { hash, owner }),
            ..before
        }));
        assert forall|i: int, j: int|
            0 <= i < j < self@.commitment_owners.len() implies #[trigger] self@.commitment_owners[i].hash
            != #[trigger] self@.commitment_owners[j].hash by {
            if j == self@.commitment_owners.len() - 1 {
                assert(before.commitment_owners[i].hash != hash);
            }
        }
    }

    /// A fresh entry for IP `id`.
    pub(crate) fn new_entry(id: u64, owner: Addr, hash: Bytes32, timestamp: u64, parent: Option<u64>) -> (e: IpEntry)
        ensures
            e@ == fresh_entry(id, owner, hash, timestamp, parent),
    {
        let e = IpEntry {
            record: IpRecord {
                ip_id: id,
                owner,
                commitment_hash: hash,
                timestamp,
                revoked: false,
                co_owners: Vec::new(),
                parent_ip_id: parent,
                notary_signature: None,
            },
            pow_difficulty: 0,
            partial_disclosure: None,
            licenses: Vec::new(),
            suggested_price: None,
            versions: Vec::new(),
            version_chain: None,
            access_grants: Vec::new(),
            audit_trail: Vec::new(),
            rotation_history: Vec::new(),
            renewal_count: 0,
            stake: None,
            compressed: None,
        };
        assert(e@ =~= fresh_entry(id, owner, hash, timestamp, parent));
        e
    }

    /// Adds the last committed IP's hash to the rollback-protection list and
    /// recomputes the checksum over the whole list.
    pub(crate) fn update_commitment_checksum(&mut self, env: &Env)
        requires
            old(self).wf(),
        ensures
            final(self).wf(),
            final(self)@ == with_checksum_update(old(self)@),
    {
        let n = self.ips.len();
        if n == 0 {
            return;
        }
        let last = self.ips[n - 1].record.commitment_hash;
        assert(last == old(self)@.ips.last().record.commitment_hash);
        self.commitment_hashes.push(last);
        assert(bytes_of_all(self.commitment_hashes@) =~= old(self)@.commitment_hashes.push(last@));
        let checksum = hash_concat(env, &self.commitment_hashes);
        self.checksum = Some(checksum);
        assert(self@ =~= with_checksum_update(old(self)@));
    }
}

} // verus!

verus! {

/// Whether `h` starts with `difficulty` zero bits (see [`pow_ok`]).
pub fn meets_pow(h: &Bytes32, difficulty: u32) -> (r: bool)
    ensures
        r == pow_ok(h@, difficulty),
{
    let limit: u32 = if difficulty < 256 { difficulty } else { 256 };
    let mut j: u32 = 0;
    while j < limit
        invariant
            0 <= j <= limit,
            limit <= 256,
            limit == difficulty || (limit == 256 && difficulty >= 256),
            h@.len() == 32,
            forall|k: int| 0 <= k < j ==> bit_at(h@, k) == 0u8,
        decreases limit - j,
    {
        let byte = h[(j / 8) as usize];
        let shift = (7 - j % 8) as u8;
        assert(bit_at(h@, j as int) == (byte >> shift) & 1u8);
        if (byte >> shift) & 1u8 != 0 {
            return false;
        }
        j = j + 1;
    }
    true
}

/// The first 16 bytes of a hash.
pub fn compress_commitment(h: &Bytes32) -> (c: [u8; 16])
    ensures
        c@ == h@.subrange(0, 16),
{
    let mut c = [0u8; 16];
    let mut i: usize = 0;
    while i < 16
        invariant
            0 <= i <= 16,
            c@.len() == 16,
            h@.len() == 32,
            forall|k: int| 0 <= k < i ==> c@[k] == h@[k],
        decreases 16 - i,
    {
        c[i] = h[i];
        i = i + 1;
    }
    assert(c@ =~= h@.subrange(0, 16));
    c
}

/// The shard of a commitment hash.
pub fn commitment_shard(h: &Bytes32) -> (s: u32)
    ensures
        s == shard_of(*h),
        s < NUM_SHARDS,
{
    (h[0] % (NUM_SHARDS as u8)) as u32
}

impl IpRegistry {
    /// Lists `id` in the shard of `hash`.
    pub(crate) fn assign_to_shard(&mut self, id: u64, hash: &Bytes32)
        requires
            old(self).wf(),
        ensures
            final(self).wf(),
            final(self)@ == (RegistryState {
                shards: old(self)@.shards.update(
                    shard_of(*hash),
                    old(self)@.shards[shard_of(*hash)].push(id),
                ),
                ..old(self)@
            }),
    {
        let s = commitment_shard(hash) as usize;
        let mut ids: Vec<u64> = Vec::new();
        self.shards.set_and_swap(s, &mut ids);
        ids.push(id);
        self.shards.set(s, ids);
        assert(shards_view(self.shards@) =~= shards_view(old(self).shards@).update(
            shard_of(*hash),
            old(self)@.shards[shard_of(*hash)].push(id),
        ));
        assert(self@ =~= (RegistryState {
            shards: old(self)@.shards.update(shard_of(*hash), old(self)@.shards[shard_of(*hash)].push(id)),
            ..old(self)@
        }));
    }

    /// The IP ids stored in a shard (empty for an unknown shard).
    pub fn get_shard_ip_ids(&self, shard_id: u32) -> (r: Vec<u64>)
        requires
            self.wf(),
        ensures
            r@ == if shard_id < NUM_SHARDS { self@.shards[shard_id as int] } else { Seq::empty() },
    {
        if shard_id < NUM_SHARDS {
            copy_ids(&self.shards[shard_id as usize])
        } else {
            Vec::new()
        }
    }

    /// Timestamps a new IP commitment for `owner` and returns its id.
    ///
    /// The hash must be non-zero, not yet registered, and start with
    /// `pow_difficulty` zero bits. The first commitment makes the contract
    /// its own admin if none is set. Authorization of `owner` is checked by
    /// the host before this call.
    pub fn commit_ip(
        &mut self,
        env: &Env,
        owner: Addr,
        commitment_hash: Bytes32,
        pow_difficulty: u32,
        now: u64,
    ) -> (r: Result<u64, ContractError>)
        requires
            old(self).wf(),
            old(self)@.ips.len() + 1 < u64::MAX,
        ensures
            final(self).wf(),
            match commit_error(old(self)@, commitment_hash, pow_difficulty) {
                Some(e) => r == Err::<u64, ContractError>(e) && final(self)@ == old(self)@,
                None => r == Ok::<u64, ContractError>((old(self)@.ips.len() + 1) as u64)
                    && final(self)@ == committed_state(
                    old(self)@,
                    owner,
                    commitment_hash,
                    pow_difficulty,
                    now,
                ),
            },
    {
        if is_all_zero(&commitment_hash) {
            return Err(ContractError::ZeroCommitmentHash);
        }
        if self.find_commitment(&commitment_hash).is_some() {
            return Err(ContractError::CommitmentAlreadyRegistered);
        }
        if !meets_pow(&commitment_hash, pow_difficulty) {
            return Err(ContractError::InsufficientPoW);
        }
        if self.admin.is_none() {
            self.admin = Some(self.contract);
        }
        let ghost s1 = self@;
        assert(s1 == (RegistryState { admin: admin_after_commit(old(self)@), ..old(self)@ }));
        let id = self.ips.len() as u64 + 1;
        let mut entry = Self::new_entry(id, owner, commitment_hash, now, None);
        entry.pow_difficulty = pow_difficulty;
        entry.audit_trail.push(AuditEntry { action: AuditAction::Committed, actor: owner, timestamp: now });
        entry.compressed = Some(compress_commitment(&commitment_hash));
        let ghost ev = IpEntryView {
            pow_difficulty: pow_difficulty,
            audit_trail: seq![AuditEntry { action: AuditAction::Committed, actor: owner, timestamp: now }],
            compressed: Some(commitment_hash@.subrange(0, 16)),
            ..fresh_entry(id, owner, commitment_hash, now, None)
        };
        assert(entry@ =~= ev);
        self.push_ip(owner, commitment_hash, now, entry);
        self.assign_to_shard(id, &commitment_hash);
        self.update_commitment_checksum(env);
        Ok(id)
    }
}

} // verus!
