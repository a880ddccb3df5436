//! Ownership, revocation, commitment verification and read access.
use vstd::prelude::*;
use soroban_sdk::Env;
use crate::common::{
    Addr, Bytes32, bytes32_eq, copy_vec, extend_be_u64, be_bytes_u64, remove_first, remove_first_id,
    is_all_zero, lemma_remove_first_distinct,
};
use crate::crypto::{sha256_spec, commitment_of, concat_all, hash_pair, hash_concat, host_sha256};
use crate::ip_registry::types::{
    AuditAction, AuditEntry, ContractError, IpRecordView, LEDGER_BUMP, DEFAULT_POW_DIFFICULTY,
};
use super::{AnonymousOwner, CommitmentOwner, IpEntryView, IpRegistry, RegistryState, entries_view, id_lists_view};
use super::commit::{pow_ok, meets_pow, is_zero_hash, commitment_shard, shard_of};

verus! {

broadcast use vstd::std_specs::hash::group_hash_axioms;

/// Difficulty `verify_commitment_pow` checks against: no difficulty setting
/// is ever stored, so the fallback applies.
pub const POW_VERIFY_DIFFICULTY: u32 = 2;

/// The commitment-owner index with `h` now held by `owner` (added if absent).
pub open spec fn set_commitment_owner(cs: Seq<CommitmentOwner>, h: Bytes32, owner: Addr) -> Seq<
    CommitmentOwner,
> {
    if exists|i: int| 0 <= i < cs.len() && cs[i].hash == h {
        let i = choose|i: int| 0 <= i < cs.len() && cs[i].hash == h;
        cs.update(i, CommitmentOwner { hash: h, owner })
    } else {
        cs.push(CommitmentOwner { hash: h, owner })
    }
}

/// The state with the entry of IP `ip_id` replaced by `e`.
pub open spec fn with_entry(s: RegistryState, ip_id: u64, e: IpEntryView) -> RegistryState {
    RegistryState { ips: s.ips.update(ip_id - 1, e), ..s }
}

/// The owner index with `ids` listed for `owner`.
pub open spec fn with_owner_ids(s: RegistryState, owner: Addr, ids: Seq<u64>) -> RegistryState {
    RegistryState { owner_ips: s.owner_ips.insert(owner.id, ids), ..s }
}

/// The state after IP `ip_id` is transferred to `new_owner` at `now`.
pub open spec fn transferred_state(s: RegistryState, ip_id: u64, new_owner: Addr, now: u64) -> RegistryState {
    let e = s.entry(ip_id);
    let old_owner = e.record.owner;
    let s1 = with_owner_ids(s, old_owner, remove_first(s.ids_of(old_owner), ip_id));
    let s2 = with_owner_ids(s1, new_owner, s1.ids_of(new_owner).push(ip_id));
    let e2 = IpEntryView {
        record: IpRecordView { owner: new_owner, ..e.record },
        audit_trail: e.audit_trail.push(
            AuditEntry { action: AuditAction::Transferred, actor: new_owner, timestamp: now },
        ),
        ..e
    };
    with_entry(
        RegistryState {
            commitment_owners: set_commitment_owner(s.commitment_owners, e.record.commitment_hash, new_owner),
            ..s2
        },
        ip_id,
        e2,
    )
}

/// The state after IP `ip_id` is revoked at `now`.
pub open spec fn revoked_state(s: RegistryState, ip_id: u64, now: u64) -> RegistryState {
    let e = s.entry(ip_id);
    with_entry(
        s,
        ip_id,
        IpEntryView {
            record: IpRecordView { revoked: true, ..e.record },
            audit_trail: e.audit_trail.push(
                AuditEntry { action: AuditAction::Revoked, actor: e.record.owner, timestamp: now },
            ),
            ..e
        },
    )
}

/// Number of distinct bytes in a byte string.
pub open spec fn distinct_count(s: Seq<u8>) -> nat
    decreases s.len(),
{
    if s.len() == 0 {
        0
    } else {
        distinct_count(s.drop_last()) + if s.drop_last().contains(s.last()) {
            0nat
        } else {
            1nat
        }
    }
}

/// Strength score of a commitment: distinct bytes scaled to 0..50 plus the
/// PoW difficulty scaled to 0..50 (32 bits or more give 50), capped at 100.
pub open spec fn strength_score(h: Seq<u8>, pow_difficulty: u32) -> int {
    let entropy = (distinct_count(h) * 50) / 32;
    let pow_score = if pow_difficulty >= 32 {
        50
    } else {
        (pow_difficulty * 50) / 32
    };
    if entropy + pow_score < 100 {
        entropy + pow_score
    } else {
        100
    }
}

/// The blinded owner most recently stored for a hash.
pub open spec fn last_blinded_owner(s: Seq<AnonymousOwner>, h: Bytes32) -> Option<Bytes32>
    decreases s.len(),
{
    if s.len() == 0 {
        None
    } else if s.last().hash == h {
        Some(s.last().blinded_owner)
    } else {
        last_blinded_owner(s.drop_last(), h)
    }
}

/// Whether an IP committed at `committed_at` is within `threshold` ledgers of
/// its estimated expiry at `now` (five seconds per ledger).
pub open spec fn expiring(committed_at: u64, now: u64, threshold: u32) -> bool {
    let elapsed: u64 = if now >= committed_at { (now - committed_at) as u64 } else { 0 };
    let ledgers = (elapsed / 5) as u32;
    let remaining: u32 = if LEDGER_BUMP >= ledgers { (LEDGER_BUMP - ledgers) as u32 } else { 0 };
    remaining <= threshold
}

/// Number of distinct bytes of a hash.
fn count_distinct(h: &Bytes32) -> (n: u32)
    ensures
        n == distinct_count(h@),
        n <= 32,
{
    let mut n: u32 = 0;
    let mut i: usize = 0;
    while i < 32
        invariant
            0 <= i <= 32,
            h@.len() == 32,
            n == distinct_count(h@.subrange(0, i as int)),
            n <= i,
        decreases 32 - i,
    {
        let mut seen = false;
        let mut j: usize = 0;
        while j < i
            invariant
                0 <= j <= i < 32,
                h@.len() == 32,
                seen == (exists|k: int| 0 <= k < j && h@[k] == h@[i as int]),
            decreases i - j,
        {
            if h[j] == h[i] {
                seen = true;
            }
            j = j + 1;
        }
        proof {
            let sub = h@.subrange(0, i as int);
            if seen {
                let k = choose|k: int| 0 <= k < i && h@[k] == h@[i as int];
                assert(sub[k] == h@[i as int]);
            }
            if sub.contains(h@[i as int]) {
                let k = choose|k: int| 0 <= k < sub.len() && sub[k] == h@[i as int];
                assert(h@[k] == h@[i as int]);
            }
        }
        proof {
            let t = h@.subrange(0, (i + 1) as int);
            assert(t.drop_last() =~= h@.subrange(0, i as int));
            assert(t.last() == h@[i as int]);
        }
        if !seen {
            n = n + 1;
        }
        i = i + 1;
    }
    assert(h@.subrange(0, 32) =~= h@);
    n
}

impl IpRegistry {
    /// Lists `ids` for `owner` in the owner index.
    pub(crate) fn set_owner_ids(&mut self, owner: Addr, ids: Vec<u64>)
        requires
            old(self).wf(),
            forall|k: int| 0 <= k < ids@.len() ==> old(self)@.lists_own_ip(owner.id, #[trigger] ids@[k]),
            ids@.no_duplicates(),
        ensures
            final(self).wf(),
            final(self)@ == with_owner_ids(old(self)@, owner, ids@),
    {
        let ghost v = ids@;
        self.owner_ips.insert(owner.id, ids);
        assert(id_lists_view(self.owner_ips@) =~= id_lists_view(old(self).owner_ips@).insert(owner.id, v));
        assert(self@ =~= with_owner_ids(old(self)@, owner, v));
        proof {
            let s0 = old(self)@;
            let s1 = self@;
            assert forall|o: u64, k: int| s1.owner_ips.contains_key(o) && 0 <= k < s1.owner_ips[o].len() implies s1.lists_own_ip(
                o,
                #[trigger] s1.owner_ips[o][k],
            ) by {
                if o != owner.id {
                    assert(s0.lists_own_ip(o, s0.owner_ips[o][k]));
                }
            }
            assert forall|o: u64| #[trigger] s1.owner_ips.contains_key(o) implies s1.owner_ips[o].no_duplicates() by {
                if o != owner.id {
                    assert(s0.owner_ips.contains_key(o));
                }
            }
        }
    }

    /// Makes `owner` the holder of `hash` in the commitment-owner index.
    pub(crate) fn set_commitment_owner(&mut self, hash: Bytes32, owner: Addr)
        requires
            old(self).wf(),
        ensures
            final(self).wf(),
            final(self)@ == (RegistryState {
                commitment_owners: set_commitment_owner(old(self)@.commitment_owners, hash, owner),
                ..old(self)@
            }),
    {
        let ghost cs = self@.commitment_owners;
        match self.find_commitment(&hash) {
            Some(i) => {
                proof {
                    let c = choose|k: int| 0 <= k < cs.len() && cs[k].hash == hash;
                    if c != i {
                        if c < i {
                            assert(cs[c].hash != cs[i as int].hash);
                        } else {
                            assert(cs[i as int].hash != cs[c].hash);
                        }
                    }
                }
                self.commitment_owners.set(i, CommitmentOwner { hash, owner });
            },
            None => {
                self.commitment_owners.push(CommitmentOwner { hash, owner });
            },
        }
        assert(self@ =~= (RegistryState {
            commitment_owners: set_commitment_owner(old(self)@.commitment_owners, hash, owner),
            ..old(self)@
        }));
        assert forall|a: int, b: int|
            0 <= a < b < self@.commitment_owners.len() implies #[trigger] self@.commitment_owners[a].hash
            != #[trigger] self@.commitment_owners[b].hash by {
            if b == cs.len() {
                assert(cs[a].hash != hash);
            }
        }
    }

    /// Transfers IP `ip_id` to `new_owner`: moves it between the owners'
    /// lists, re-indexes its commitment hash, and records an audit entry.
    /// Authorization of the current owner is checked by the host before
    /// this call.
    pub fn transfer_ip(&mut self, ip_id: u64, new_owner: Addr, now: u64) -> (r: Result<(), ContractError>)
        requires
            old(self).wf(),
        ensures
            final(self).wf(),
            !old(self)@.has_ip(ip_id) ==> r == Err::<(), ContractError>(ContractError::IpNotFound)
                && final(self)@ == old(self)@,
            old(self)@.has_ip(ip_id) ==> r is Ok && final(self)@ == transferred_state(
                old(self)@,
                ip_id,
                new_owner,
                now,
            ),
    {
        if ip_id == 0 || ip_id > self.ips.len() as u64 {
            return Err(ContractError::IpNotFound);
        }
        let i = (ip_id - 1) as usize;
        let old_owner = self.ips[i].record.owner;
        let hash = self.ips[i].record.commitment_hash;
        let mut old_ids = self.list_ip_by_owner(old_owner);
        let ghost listed = old_ids@;
        remove_first_id(&mut old_ids, ip_id);
        proof {
            let s0 = self@;
            if s0.owner_ips.contains_key(old_owner.id) {
                assert(listed.no_duplicates());
            }
            lemma_remove_first_distinct(listed, ip_id);
            assert forall|k: int| 0 <= k < old_ids@.len() implies s0.lists_own_ip(old_owner.id, #[trigger] old_ids@[k]) by {
                let x = old_ids@[k];
                assert(listed.contains(x));
                let j = choose|j: int| 0 <= j < listed.len() && listed[j] == x;
                assert(s0.lists_own_ip(old_owner.id, s0.owner_ips[old_owner.id][j]));
            }
        }
        self.set_owner_ids(old_owner, old_ids);
        self.set_commitment_owner(hash, new_owner);
        let ghost before = self@;
        self.ips[i].record.owner = new_owner;
        self.ips[i].audit_trail.push(
            AuditEntry { action: AuditAction::Transferred, actor: new_owner, timestamp: now },
        );
        proof {
            let e = before.ips[i as int];
            assert(entries_view(self.ips@) =~= before.ips.update(
                i as int,
                IpEntryView {
                    record: IpRecordView { owner: new_owner, ..e.record },
                    audit_trail: e.audit_trail.push(
                        AuditEntry { action: AuditAction::Transferred, actor: new_owner, timestamp: now },
                    ),
                    ..e
                },
            ));
            let s1 = self@;
            assert forall|o: u64, k: int| s1.owner_ips.contains_key(o) && 0 <= k < s1.owner_ips[o].len() implies s1.lists_own_ip(
                o,
                #[trigger] s1.owner_ips[o][k],
            ) by {
                let x = before.owner_ips[o][k];
                assert(before.lists_own_ip(o, x));
                if x == ip_id {
                    assert(o == old_owner.id);
                    assert(before.owner_ips[o].contains(x));
                }
            }
            assert forall|o: u64| #[trigger] s1.owner_ips.contains_key(o) implies s1.owner_ips[o].no_duplicates() by {
                assert(before.owner_ips.contains_key(o));
            }
            assert forall|k: int| 0 <= k < s1.ids_of(new_owner).len() implies #[trigger] s1.ids_of(new_owner)[k] != ip_id by {
                let x = s1.ids_of(new_owner)[k];
                assert(before.lists_own_ip(new_owner.id, before.owner_ips[new_owner.id][k]));
                if x == ip_id {
                    assert(new_owner.id == old_owner.id);
                    assert(before.owner_ips[old_owner.id].contains(x));
                }
            }
        }
        self.append_owner_ip(new_owner, ip_id);
        proof {
            assert(self@ =~= transferred_state(old(self)@, ip_id, new_owner, now));
        }
        Ok(())
    }

    /// Same as [`IpRegistry::transfer_ip`].
    pub fn transfer_ip_ownership(&mut self, ip_id: u64, new_owner: Addr, now: u64) -> (r: Result<(), ContractError>)
        requires
            old(self).wf(),
        ensures
            final(self).wf(),
            !old(self)@.has_ip(ip_id) ==> r == Err::<(), ContractError>(ContractError::IpNotFound)
                && final(self)@ == old(self)@,
            old(self)@.has_ip(ip_id) ==> r is Ok && final(self)@ == transferred_state(
                old(self)@,
                ip_id,
                new_owner,
                now,
            ),
    {
        self.transfer_ip(ip_id, new_owner, now)
    }

    /// Revokes IP `ip_id`; a revoked IP cannot be swapped. Authorization of
    /// the owner is checked by the host before this call.
    pub fn revoke_ip(&mut self, ip_id: u64, now: u64) -> (r: Result<(), ContractError>)
        requires
            old(self).wf(),
        ensures
            final(self).wf(),
            !old(self)@.has_ip(ip_id) ==> r == Err::<(), ContractError>(ContractError::IpNotFound)
                && final(self)@ == old(self)@,
            old(self)@.has_ip(ip_id) && old(self)@.record(ip_id).revoked ==> r == Err::<(), ContractError>(
                ContractError::IpAlreadyRevoked,
            ) && final(self)@ == old(self)@,
            old(self)@.has_ip(ip_id) && !old(self)@.record(ip_id).revoked ==> r is Ok && final(self)@
                == revoked_state(old(self)@, ip_id, now),
    {
        if ip_id == 0 || ip_id > self.ips.len() as u64 {
            return Err(ContractError::IpNotFound);
        }
        let i = (ip_id - 1) as usize;
        if self.ips[i].record.revoked {
            return Err(ContractError::IpAlreadyRevoked);
        }
        let owner = self.ips[i].record.owner;
        self.ips[i].record.revoked = true;
        self.ips[i].audit_trail.push(AuditEntry { action: AuditAction::Revoked, actor: owner, timestamp: now });
        proof {
            let e = old(self)@.ips[i as int];
            assert(entries_view(self.ips@) =~= old(self)@.ips.update(
                i as int,
                IpEntryView {
                    record: IpRecordView { revoked: true, ..e.record },
                    audit_trail: e.audit_trail.push(
                        AuditEntry { action: AuditAction::Revoked, actor: e.record.owner, timestamp: now },
                    ),
                    ..e
                },
            ));
            assert(self@ =~= revoked_state(old(self)@, ip_id, now));
        }
        Ok(())
    }

    /// Checks that a new WASM hash may be used for an upgrade: it must not be
    /// all zeros (`UnauthorizedUpgrade`).
    pub fn validate_upgrade(new_wasm_hash: &Bytes32) -> (r: Result<(), ContractError>)
        ensures
            is_zero_hash(*new_wasm_hash) <==> r is Err,
            r is Err ==> r == Err::<(), ContractError>(ContractError::UnauthorizedUpgrade),
    {
        if is_all_zero(new_wasm_hash) {
            Err(ContractError::UnauthorizedUpgrade)
        } else {
            Ok(())
        }
    }

    /// Checks that an upgrade is allowed: an admin must be set and be the
    /// contract itself. Returns the admin whose authorization the host must
    /// check before replacing the WASM.
    pub fn upgrade(&self) -> (r: Result<Addr, ContractError>)
        requires
            self.wf(),
        ensures
            match self@.admin {
                Some(a) => if a == self@.contract {
                    r == Ok::<Addr, ContractError>(a)
                } else {
                    r == Err::<Addr, ContractError>(ContractError::UnauthorizedUpgrade)
                },
                None => r == Err::<Addr, ContractError>(ContractError::UnauthorizedUpgrade),
            },
    {
        match self.admin {
            Some(a) => {
                if a == self.contract {
                    Ok(a)
                } else {
                    Err(ContractError::UnauthorizedUpgrade)
                }
            },
            None => Err(ContractError::UnauthorizedUpgrade),
        }
    }

    /// Whether `secret` and `blinding_factor` open the commitment of IP
    /// `ip_id`, i.e. `sha256(secret || blinding_factor)` is its hash.
    pub fn verify_commitment(&self, env: &Env, ip_id: u64, secret: &Bytes32, blinding_factor: &Bytes32) -> (r:
        Result<bool, ContractError>)
        requires
            self.wf(),
        ensures
            match r {
                Ok(b) => self@.has_ip(ip_id) && b == (self@.record(ip_id).commitment_hash@ == commitment_of(
                    secret@,
                    blinding_factor@,
                )),
                Err(e) => !self@.has_ip(ip_id) && e == ContractError::IpNotFound,
            },
    {
        if ip_id == 0 || ip_id > self.ips.len() as u64 {
            return Err(ContractError::IpNotFound);
        }
        let computed = hash_pair(env, secret, blinding_factor);
        Ok(bytes32_eq(&self.ips[(ip_id - 1) as usize].record.commitment_hash, &computed))
    }

    /// The PoW difficulty reported to clients; none is ever configured, so
    /// this is the default of 4.
    pub fn get_pow_difficulty(&self) -> (r: u32)
        ensures
            r == DEFAULT_POW_DIFFICULTY,
    {
        DEFAULT_POW_DIFFICULTY
    }

    /// The strength score (0..100) of IP `ip_id` from the distinct bytes of
    /// its hash and the PoW difficulty it was committed with.
    pub fn get_ip_strength(&self, ip_id: u64) -> (r: Result<u32, ContractError>)
        requires
            self.wf(),
        ensures
            match r {
                Ok(s) => self@.has_ip(ip_id) && s == strength_score(
                    self@.record(ip_id).commitment_hash@,
                    self@.entry(ip_id).pow_difficulty,
                ),
                Err(e) => !self@.has_ip(ip_id) && e == ContractError::IpNotFound,
            },
    {
        if ip_id == 0 || ip_id > self.ips.len() as u64 {
            return Err(ContractError::IpNotFound);
        }
        let i = (ip_id - 1) as usize;
        let unique = count_distinct(&self.ips[i].record.commitment_hash);
        let pow = self.ips[i].pow_difficulty;
        let entropy = (unique * 50) / 32;
        let pow_score: u32 = if pow >= 32 {
            50
        } else {
            (pow * 50) / 32
        };
        if entropy + pow_score < 100 {
            Ok(entropy + pow_score)
        } else {
            Ok(100)
        }
    }

    /// Whether `sha256(commitment_hash || nonce as 8 big-endian bytes)` starts
    /// with [`POW_VERIFY_DIFFICULTY`] zero bits.
    pub fn verify_commitment_pow(env: &Env, commitment_hash: &Bytes32, nonce: u64) -> (r: bool)
        ensures
            r == pow_ok(sha256_spec(commitment_hash@ + be_bytes_u64(nonce)), POW_VERIFY_DIFFICULTY),
    {
        let mut buf: Vec<u8> = Vec::new();
        crate::common::extend_bytes32(&mut buf, commitment_hash);
        extend_be_u64(&mut buf, nonce);
        let digest = host_sha256(env, buf.as_slice());
        meets_pow(&digest, POW_VERIFY_DIFFICULTY)
    }

    /// Discloses `partial_hash` for IP `ip_id` if `sha256(partial_hash ||
    /// blinding_factor)` is its commitment; returns whether it was. The
    /// owner's authorization is checked by the host before this call.
    pub fn reveal_partial(
        &mut self,
        env: &Env,
        ip_id: u64,
        partial_hash: Bytes32,
        blinding_factor: &Bytes32,
    ) -> (r: Result<bool, ContractError>)
        requires
            old(self).wf(),
        ensures
            final(self).wf(),
            match r {
                Err(e) => !old(self)@.has_ip(ip_id) && e == ContractError::IpNotFound && final(self)@
                    == old(self)@,
                Ok(b) => old(self)@.has_ip(ip_id) && b == (old(self)@.record(ip_id).commitment_hash@
                    == commitment_of(partial_hash@, blinding_factor@)) && (b ==> final(self)@ == with_entry(
                    old(self)@,
                    ip_id,
                    IpEntryView { partial_disclosure: Some(partial_hash), ..old(self)@.entry(ip_id) },
                )) && (!b ==> final(self)@ == old(self)@),
            },
    {
        if ip_id == 0 || ip_id > self.ips.len() as u64 {
            return Err(ContractError::IpNotFound);
        }
        let i = (ip_id - 1) as usize;
        let computed = hash_pair(env, &partial_hash, blinding_factor);
        if !bytes32_eq(&computed, &self.ips[i].record.commitment_hash) {
            return Ok(false);
        }
        self.ips[i].partial_disclosure = Some(partial_hash);
        proof {
            assert(entries_view(self.ips@) =~= old(self)@.ips.update(
                i as int,
                IpEntryView { partial_disclosure: Some(partial_hash), ..old(self)@.ips[i as int] },
            ));
            assert(self@ =~= with_entry(
                old(self)@,
                ip_id,
                IpEntryView { partial_disclosure: Some(partial_hash), ..old(self)@.entry(ip_id) },
            ));
        }
        Ok(true)
    }

    /// The partial hash disclosed for IP `ip_id`, if any.
    pub fn get_partial_disclosure(&self, ip_id: u64) -> (r: Option<Bytes32>)
        requires
            self.wf(),
        ensures
            r == if self@.has_ip(ip_id) { self@.entry(ip_id).partial_disclosure } else { None },
    {
        if ip_id == 0 || ip_id > self.ips.len() as u64 {
            return None;
        }
        self.ips[(ip_id - 1) as usize].partial_disclosure
    }

    /// Whether `address` owns IP `ip_id` (false if there is no such IP).
    pub fn is_ip_owner(&self, ip_id: u64, address: Addr) -> (r: bool)
        requires
            self.wf(),
        ensures
            r == (self@.has_ip(ip_id) && self@.record(ip_id).owner == address),
    {
        if ip_id == 0 || ip_id > self.ips.len() as u64 {
            return false;
        }
        self.ips[(ip_id - 1) as usize].record.owner == address
    }

    /// The blinded owner stored for an anonymously committed hash, if any.
    pub fn get_anonymous_owner(&self, commitment_hash: &Bytes32) -> (r: Option<Bytes32>)
        requires
            self.wf(),
        ensures
            r == last_blinded_owner(self@.anonymous_owners, *commitment_hash),
    {
        let ghost s = self@.anonymous_owners;
        let mut i: usize = self.anonymous_owners.len();
        assert(s.subrange(0, s.len() as int) =~= s);
        while i > 0
            invariant
                0 <= i <= s.len(),
                s == self.anonymous_owners@,
                last_blinded_owner(s, *commitment_hash) == last_blinded_owner(s.subrange(0, i as int), *commitment_hash),
            decreases i,
        {
            assert(s.subrange(0, i as int).drop_last() =~= s.subrange(0, i - 1));
            i = i - 1;
            if bytes32_eq(&self.anonymous_owners[i].hash, commitment_hash) {
                return Some(self.anonymous_owners[i].blinded_owner);
            }
        }
        assert(s.subrange(0, 0) =~= Seq::<AnonymousOwner>::empty());
        None
    }

    /// The first 16 bytes of the hash of IP `ip_id` as stored at commit time
    /// (all zeros when none was stored).
    pub fn get_compressed_commitment(&self, ip_id: u64) -> (r: Result<[u8; 16], ContractError>)
        requires
            self.wf(),
        ensures
            match r {
                Ok(c) => self@.has_ip(ip_id) && c@ == match self@.entry(ip_id).compressed {
                    Some(x) => x,
                    None => Seq::new(16, |k: int| 0u8),
                },
                Err(e) => !self@.has_ip(ip_id) && e == ContractError::IpNotFound,
            },
    {
        if ip_id == 0 || ip_id > self.ips.len() as u64 {
            return Err(ContractError::IpNotFound);
        }
        match self.ips[(ip_id - 1) as usize].compressed {
            Some(c) => Ok(c),
            None => {
                let z = [0u8; 16];
                assert(z@ =~= Seq::new(16, |k: int| 0u8));
                Ok(z)
            },
        }
    }

    /// The shard of a commitment hash: its first byte modulo 16.
    pub fn get_commitment_shard(commitment_hash: &Bytes32) -> (r: u32)
        ensures
            r == shard_of(*commitment_hash),
    {
        commitment_shard(commitment_hash)
    }

    /// The audit trail of IP `ip_id`, oldest first.
    pub fn get_ip_audit_trail(&self, ip_id: u64) -> (r: Result<Vec<AuditEntry>, ContractError>)
        requires
            self.wf(),
        ensures
            match r {
                Ok(v) => self@.has_ip(ip_id) && v@ == self@.entry(ip_id).audit_trail,
                Err(e) => !self@.has_ip(ip_id) && e == ContractError::IpNotFound,
            },
    {
        if ip_id == 0 || ip_id > self.ips.len() as u64 {
            return Err(ContractError::IpNotFound);
        }
        Ok(copy_vec(&self.ips[(ip_id - 1) as usize].audit_trail))
    }

    /// Recomputes the checksum over the tracked commitment hashes and
    /// compares it with the stored one (true when none is stored yet).
    pub fn verify_commitment_integrity(&self, env: &Env) -> (r: bool)
        requires
            self.wf(),
        ensures
            r == match self@.checksum {
                Some(c) => c == sha256_spec(concat_all(self@.commitment_hashes)),
                None => true,
            },
    {
        match self.checksum {
            None => true,
            Some(stored) => {
                let recomputed = hash_concat(env, &self.commitment_hashes);
                bytes32_eq(&stored, &recomputed)
            },
        }
    }

    /// Whether IP `ip_id` is within `warning_threshold_ledgers` of its
    /// estimated storage expiry at `now`.
    pub fn check_expiration_warning(&self, ip_id: u64, warning_threshold_ledgers: u32, now: u64) -> (r: Result<
        bool,
        ContractError,
    >)
        requires
            self.wf(),
        ensures
            match r {
                Ok(b) => self@.has_ip(ip_id) && b == expiring(
                    self@.record(ip_id).timestamp,
                    now,
                    warning_threshold_ledgers,
                ),
                Err(e) => !self@.has_ip(ip_id) && e == ContractError::IpNotFound,
            },
    {
        if ip_id == 0 || ip_id > self.ips.len() as u64 {
            return Err(ContractError::IpNotFound);
        }
        let ts = self.ips[(ip_id - 1) as usize].record.timestamp;
        let elapsed: u64 = if now >= ts { now - ts } else { 0 };
        let ledgers = (elapsed / 5) as u32;
        let remaining: u32 = if LEDGER_BUMP >= ledgers { LEDGER_BUMP - ledgers } else { 0 };
        Ok(remaining <= warning_threshold_ledgers)
    }
}

} // verus!
