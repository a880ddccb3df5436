//! Versioned commitments: each version is a new IP linked to its parent.
use vstd::prelude::*;
use crate::common::{Addr, Bytes32, is_all_zero, copy_ids};
use crate::ip_registry::types::ContractError;
use super::{IpEntryView, IpRegistry, RegistryState, entries_view};
use super::commit::{is_zero_hash, fresh_entry, with_new_ip};
use super::lifecycle::with_entry;

verus! {

/// The root of the version chain through IP `id` (its oldest ancestor).
pub open spec fn root_of(s: RegistryState, id: u64) -> u64
    decreases id,
{
    if s.has_ip(id) {
        match s.record(id).parent_ip_id {
            Some(p) => if p < id {
                root_of(s, p)
            } else {
                id
            },
            None => id,
        }
    } else {
        id
    }
}

/// The stored version chain rooted at `root`, or just the root.
pub open spec fn chain_of(s: RegistryState, root: u64) -> Seq<u64> {
    match s.entry(root).version_chain {
        Some(c) => c,
        None => seq![root],
    }
}

/// The error `create_ip_version` reports, if any.
pub open spec fn version_error(s: RegistryState, parent: u64, hash: Bytes32) -> Option<ContractError> {
    if !s.has_ip(parent) {
        Some(ContractError::IpNotFound)
    } else if is_zero_hash(hash) {
        Some(ContractError::ZeroCommitmentHash)
    } else if s.is_registered(hash) {
        Some(ContractError::CommitmentAlreadyRegistered)
    } else {
        None
    }
}

/// The state after a new version of `parent` with `hash` is committed at `now`.
pub open spec fn versioned_state(s: RegistryState, parent: u64, hash: Bytes32, now: u64) -> RegistryState {
    let id = (s.ips.len() + 1) as u64;
    let owner = s.record(parent).owner;
    let root = root_of(s, parent);
    let s1 = with_new_ip(s, owner, hash, now, fresh_entry(id, owner, hash, now, Some(parent)));
    let s2 = with_entry(s1, parent, IpEntryView { versions: s1.entry(parent).versions.push(id), ..s1.entry(parent) });
    with_entry(s2, root, IpEntryView { version_chain: Some(chain_of(s2, root).push(id)), ..s2.entry(root) })
}

proof fn lemma_root_exists(s: RegistryState, id: u64)
    requires
        s.inv(),
        s.has_ip(id),
    ensures
        s.has_ip(root_of(s, id)),
        root_of(s, id) <= id,
        s.record(root_of(s, id)).parent_ip_id is None,
    decreases id,
{
    match s.record(id).parent_ip_id {
        Some(p) => {
            assert(s.ips[id - 1].record.parent_ip_id == Some(p));
            lemma_root_exists(s, p);
        },
        None => {},
    }
}

impl IpRegistry {
    /// The root of the version chain through an existing IP.
    pub(crate) fn find_root(&self, id: u64) -> (r: u64)
        requires
            self.wf(),
            self@.has_ip(id),
        ensures
            r == root_of(self@, id),
            self@.has_ip(r),
    {
        proof {
            lemma_root_exists(self@, id);
        }
        let mut cur = id;
        loop
            invariant
                self.wf(),
                self@.has_ip(cur),
                root_of(self@, id) == root_of(self@, cur),
            decreases cur,
        {
            let n = self.ips.len();
            assert(cur <= n);
            let k = (cur - 1) as usize;
            let par = self.ips[k].record.parent_ip_id;
            match par {
                Some(p) => {
                    assert(self@.ips[k as int].record.parent_ip_id == Some(p));
                    cur = p;
                },
                None => {
                    return cur;
                },
            }
        }
    }

    /// Commits a new version of IP `parent_ip_id` held by the parent's owner:
    /// a new IP linked to its parent, listed among the parent's versions and
    /// appended to the chain of the parent's root. Chains are acyclic since
    /// every parent is older than its child. The parent owner's
    /// authorization is checked by the host before this call.
    pub fn create_ip_version(&mut self, parent_ip_id: u64, new_commitment_hash: Bytes32, now: u64) -> (r: Result<
        u64,
        ContractError,
    >)
        requires
            old(self).wf(),
            old(self)@.ips.len() + 1 < u64::MAX,
        ensures
            final(self).wf(),
            match version_error(old(self)@, parent_ip_id, new_commitment_hash) {
                Some(e) => r == Err::<u64, ContractError>(e) && final(self)@ == old(self)@,
                None => r == Ok::<u64, ContractError>((old(self)@.ips.len() + 1) as u64) && final(self)@
                    == versioned_state(old(self)@, parent_ip_id, new_commitment_hash, now),
            },
    {
        if parent_ip_id == 0 || parent_ip_id > self.ips.len() as u64 {
            return Err(ContractError::IpNotFound);
        }
        if is_all_zero(&new_commitment_hash) {
            return Err(ContractError::ZeroCommitmentHash);
        }
        if self.find_commitment(&new_commitment_hash).is_some() {
            return Err(ContractError::CommitmentAlreadyRegistered);
        }
        let root = self.find_root(parent_ip_id);
        let owner = self.ips[(parent_ip_id - 1) as usize].record.owner;
        let id = self.ips.len() as u64 + 1;
        let entry = Self::new_entry(id, owner, new_commitment_hash, now, Some(parent_ip_id));
        self.push_ip(owner, new_commitment_hash, now, entry);
        let ghost s1 = self@;
        let pi = (parent_ip_id - 1) as usize;
        self.ips[pi].versions.push(id);
        proof {
            assert(entries_view(self.ips@) =~= s1.ips.update(
                pi as int,
                IpEntryView { versions: s1.ips[pi as int].versions.push(id), ..s1.ips[pi as int] },
            ));
        }
        let ghost s2 = self@;
        assert(s2 =~= with_entry(s1, parent_ip_id, IpEntryView { versions: s1.entry(parent_ip_id).versions.push(id), ..s1.entry(parent_ip_id) }));
        let ri = (root - 1) as usize;
        let mut chain = match &self.ips[ri].version_chain {
            Some(c) => copy_ids(c),
            None => {
                let mut v: Vec<u64> = Vec::new();
                v.push(root);
                assert(v@ =~= seq![root]);
                v
            },
        };
        chain.push(id);
        self.ips[ri].version_chain = Some(chain);
        proof {
            assert(entries_view(self.ips@) =~= s2.ips.update(
                ri as int,
                IpEntryView { version_chain: Some(chain_of(s2, root).push(id)), ..s2.ips[ri as int] },
            ));
            assert(self@ =~= with_entry(s2, root, IpEntryView { version_chain: Some(chain_of(s2, root).push(id)), ..s2.entry(root) }));
        }
        Ok(id)
    }

    /// Same as [`IpRegistry::create_ip_version`]; `owner` is the address
    /// whose authorization the host checks in addition to the parent owner's.
    pub fn commit_ip_version(
        &mut self,
        owner: Addr,
        commitment_hash: Bytes32,
        parent_ip_id: u64,
        now: u64,
    ) -> (r: Result<u64, ContractError>)
        requires
            old(self).wf(),
            old(self)@.ips.len() + 1 < u64::MAX,
        ensures
            final(self).wf(),
            match version_error(old(self)@, parent_ip_id, commitment_hash) {
                Some(e) => r == Err::<u64, ContractError>(e) && final(self)@ == old(self)@,
                None => r == Ok::<u64, ContractError>((old(self)@.ips.len() + 1) as u64) && final(self)@
                    == versioned_state(old(self)@, parent_ip_id, commitment_hash, now),
            },
    {
        self.create_ip_version(parent_ip_id, commitment_hash, now)
    }

    /// The root of IP `ip_id`'s chain followed by the root's direct versions.
    pub fn get_ip_lineage(&self, ip_id: u64) -> (r: Result<Vec<u64>, ContractError>)
        requires
            self.wf(),
        ensures
            match r {
                Ok(v) => self@.has_ip(ip_id) && v@ == seq![root_of(self@, ip_id)] + self@.entry(
                    root_of(self@, ip_id),
                ).versions,
                Err(e) => !self@.has_ip(ip_id) && e == ContractError::IpNotFound,
            },
    {
        if ip_id == 0 || ip_id > self.ips.len() as u64 {
            return Err(ContractError::IpNotFound);
        }
        let root = self.find_root(ip_id);
        let mut v: Vec<u64> = Vec::new();
        v.push(root);
        let vs = &self.ips[(root - 1) as usize].versions;
        let mut k: usize = 0;
        while k < vs.len()
            invariant
                0 <= k <= vs@.len(),
                v@ == seq![root] + vs@.subrange(0, k as int),
            decreases vs@.len() - k,
        {
            v.push(vs[k]);
            assert(vs@.subrange(0, (k + 1) as int) =~= vs@.subrange(0, k as int).push(vs@[k as int]));
            k = k + 1;
        }
        assert(vs@.subrange(0, vs@.len() as int) =~= vs@);
        Ok(v)
    }

    /// The direct versions of IP `ip_id`.
    pub fn get_ip_versions(&self, ip_id: u64) -> (r: Result<Vec<u64>, ContractError>)
        requires
            self.wf(),
        ensures
            match r {
                Ok(v) => self@.has_ip(ip_id) && v@ == self@.entry(ip_id).versions,
                Err(e) => !self@.has_ip(ip_id) && e == ContractError::IpNotFound,
            },
    {
        if ip_id == 0 || ip_id > self.ips.len() as u64 {
            return Err(ContractError::IpNotFound);
        }
        Ok(copy_ids(&self.ips[(ip_id - 1) as usize].versions))
    }

    /// The whole version chain of IP `ip_id`: its root, then every version
    /// in commit order.
    pub fn get_ip_version_chain(&self, ip_id: u64) -> (r: Result<Vec<u64>, ContractError>)
        requires
            self.wf(),
        ensures
            match r {
                Ok(v) => self@.has_ip(ip_id) && v@ == chain_of(self@, root_of(self@, ip_id)),
                Err(e) => !self@.has_ip(ip_id) && e == ContractError::IpNotFound,
            },
    {
        if ip_id == 0 || ip_id > self.ips.len() as u64 {
            return Err(ContractError::IpNotFound);
        }
        let root = self.find_root(ip_id);
        match &self.ips[(root - 1) as usize].version_chain {
            Some(c) => Ok(copy_ids(c)),
            None => {
                let mut v: Vec<u64> = Vec::new();
                v.push(root);
                assert(v@ =~= seq![root]);
                Ok(v)
            },
        }
    }
}

} // verus!
