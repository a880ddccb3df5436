//! Delegation chains: owners let delegates commit on their behalf.
use vstd::prelude::*;
use soroban_sdk::Env;
use crate::common::{Addr, Bytes32, is_all_zero};
use crate::ip_registry::types::{ContractError, DelegationRecord, MAX_DELEGATION_DEPTH};
use super::{IpRegistry, RegistryState, delegate_lists_view};
use super::commit::{commit_error, fresh_entry, meets_pow, with_checksum_update, with_new_ip};

verus! {

broadcast use vstd::std_specs::hash::group_hash_axioms;

/// The delegation records stored for `owner` (none if nothing is stored).
pub open spec fn delegates_of(s: RegistryState, owner: Addr) -> Seq<DelegationRecord> {
    if s.delegates.contains_key(owner.id) {
        s.delegates[owner.id]
    } else {
        Seq::empty()
    }
}

/// Whether `candidate` is reachable from `root` through delegation records,
/// looking at most [`MAX_DELEGATION_DEPTH`] levels deep starting at `depth`.
pub open spec fn in_chain(s: RegistryState, root: Addr, candidate: Addr, depth: nat) -> bool
    decreases MAX_DELEGATION_DEPTH - depth,
{
    if depth >= MAX_DELEGATION_DEPTH {
        false
    } else {
        let ds = delegates_of(s, root);
        exists|i: int|
            0 <= i < ds.len() && (#[trigger] ds[i].delegate == candidate || in_chain(
                s,
                ds[i].delegate,
                candidate,
                depth + 1,
            ))
    }
}

/// The depth a new delegation by `delegator` under `root` gets: 0 for the
/// root itself, one more than the delegator's own depth otherwise (`None`
/// when the delegator holds no delegation).
pub open spec fn delegation_depth(s: RegistryState, root: Addr, delegator: Addr) -> Option<int> {
    if delegator == root {
        Some(0)
    } else if s.delegate_depths.contains_key(delegator.id) {
        Some(s.delegate_depths[delegator.id] + 1)
    } else {
        None
    }
}

/// `ds` without the records of `delegate`, in order.
pub open spec fn without_delegate(ds: Seq<DelegationRecord>, delegate: Addr) -> Seq<DelegationRecord> {
    ds.filter(|r: DelegationRecord| r.delegate != delegate)
}

/// Whether `delegate` has a record in `ds`.
pub open spec fn lists_delegate(ds: Seq<DelegationRecord>, delegate: Addr) -> bool {
    exists|i: int| 0 <= i < ds.len() && ds[i].delegate == delegate
}

impl IpRegistry {
    /// The delegation records stored for `owner`.
    fn delegate_list(&self, owner: Addr) -> (r: Vec<DelegationRecord>)
        requires
            self.wf(),
        ensures
            r@ == delegates_of(self@, owner),
    {
        match self.delegates.get(&owner.id) {
            Some(v) => crate::common::copy_vec(v),
            None => Vec::new(),
        }
    }

    /// Lets `delegate_address` commit for `root_owner` (see
    /// [`delegation_depth`]): the chain may be at most
    /// [`MAX_DELEGATION_DEPTH`] deep, and an already listed delegate is left
    /// as it is. The delegator's authorization is checked by the host
    /// before this call.
    pub fn delegate_commitment_authority(&mut self, root_owner: Addr, delegator: Addr, delegate_address: Addr) -> (r:
        Result<(), ContractError>)
        requires
            old(self).wf(),
        ensures
            final(self).wf(),
            match delegation_depth(old(self)@, root_owner, delegator) {
                None => r == Err::<(), ContractError>(ContractError::Unauthorized) && final(self)@ == old(self)@,
                Some(d) => if d >= MAX_DELEGATION_DEPTH {
                    r == Err::<(), ContractError>(ContractError::Unauthorized) && final(self)@ == old(self)@
                } else if lists_delegate(delegates_of(old(self)@, root_owner), delegate_address) {
                    r is Ok && final(self)@ == old(self)@
                } else {
                    r is Ok && final(self)@ == (RegistryState {
                        delegates: old(self)@.delegates.insert(
                            root_owner.id,
                            delegates_of(old(self)@, root_owner).push(
                                DelegationRecord { delegate: delegate_address, depth: d as u32 },
                            ),
                        ),
                        delegate_depths: old(self)@.delegate_depths.insert(delegate_address.id, d as u32),
                        ..old(self)@
                    })
                },
            },
    {
        let new_depth: u32 = if delegator == root_owner {
            0
        } else {
            match self.delegate_depths.get(&delegator.id) {
                Some(d) => {
                    if *d >= MAX_DELEGATION_DEPTH - 1 {
                        return Err(ContractError::Unauthorized);
                    }
                    *d + 1
                },
                None => {
                    return Err(ContractError::Unauthorized);
                },
            }
        };
        let mut ds = self.delegate_list(root_owner);
        let mut i: usize = 0;
        while i < ds.len()
            invariant
                self == old(self),
                self.wf(),
                ds@ == delegates_of(old(self)@, root_owner),
                delegation_depth(old(self)@, root_owner, delegator) == Some(new_depth as int),
                new_depth < MAX_DELEGATION_DEPTH,
                0 <= i <= ds@.len(),
                forall|j: int| 0 <= j < i ==> ds@[j].delegate != delegate_address,
            decreases ds@.len() - i,
        {
            if ds[i].delegate == delegate_address {
                return Ok(());
            }
            i = i + 1;
        }
        ds.push(DelegationRecord { delegate: delegate_address, depth: new_depth });
        let ghost v = ds@;
        self.delegates.insert(root_owner.id, ds);
        self.delegate_depths.insert(delegate_address.id, new_depth);
        assert(delegate_lists_view(self.delegates@) =~= old(self)@.delegates.insert(root_owner.id, v));
        assert(self@ =~= (RegistryState {
            delegates: old(self)@.delegates.insert(root_owner.id, v),
            delegate_depths: old(self)@.delegate_depths.insert(delegate_address.id, new_depth),
            ..old(self)@
        }));
        Ok(())
    }

    /// Drops every delegation of `owner` to `delegate_address` and forgets
    /// the delegate's depth. The owner's authorization is checked by the
    /// host before this call.
    pub fn revoke_delegation(&mut self, owner: Addr, delegate_address: Addr)
        requires
            old(self).wf(),
        ensures
            final(self).wf(),
            final(self)@ == (RegistryState {
                delegates: old(self)@.delegates.insert(
                    owner.id,
                    without_delegate(delegates_of(old(self)@, owner), delegate_address),
                ),
                delegate_depths: old(self)@.delegate_depths.remove(delegate_address.id),
                ..old(self)@
            }),
    {
        let ds = self.delegate_list(owner);
        let mut kept: Vec<DelegationRecord> = Vec::new();
        let mut i: usize = 0;
        while i < ds.len()
            invariant
                0 <= i <= ds@.len(),
                kept@ == without_delegate(ds@.subrange(0, i as int), delegate_address),
            decreases ds@.len() - i,
        {
            let rec = ds[i];
            proof {
                let pre = ds@.subrange(0, i as int);
                assert(ds@.subrange(0, (i + 1) as int) =~= pre.push(rec));
                reveal(Seq::filter);
                assert(pre.push(rec).drop_last() =~= pre);
            }
            if rec.delegate != delegate_address {
                kept.push(rec);
            }
            i = i + 1;
        }
        assert(ds@.subrange(0, ds@.len() as int) =~= ds@);
        let ghost v = kept@;
        self.delegates.insert(owner.id, kept);
        self.delegate_depths.remove(&delegate_address.id);
        assert(delegate_lists_view(self.delegates@) =~= old(self)@.delegates.insert(owner.id, v));
        assert(self@ =~= (RegistryState {
            delegates: old(self)@.delegates.insert(owner.id, v),
            delegate_depths: old(self)@.delegate_depths.remove(delegate_address.id),
            ..old(self)@
        }));
    }

    /// Whether `candidate` is reachable from `root` in the delegation chain
    /// from `depth` on (see [`in_chain`]).
    fn is_delegate_in_chain(&self, root: Addr, candidate: Addr, depth: u32) -> (r: bool)
        requires
            self.wf(),
            depth <= MAX_DELEGATION_DEPTH,
        ensures
            r == in_chain(self@, root, candidate, depth as nat),
        decreases MAX_DELEGATION_DEPTH - depth,
    {
        if depth >= MAX_DELEGATION_DEPTH {
            return false;
        }
        let ds = self.delegate_list(root);
        let mut i: usize = 0;
        while i < ds.len()
            invariant
                self.wf(),
                depth < MAX_DELEGATION_DEPTH,
                ds@ == delegates_of(self@, root),
                0 <= i <= ds@.len(),
                forall|j: int|
                    0 <= j < i ==> !(#[trigger] ds@[j].delegate == candidate || in_chain(
                        self@,
                        ds@[j].delegate,
                        candidate,
                        depth as nat + 1,
                    )),
            decreases ds@.len() - i,
        {
            let d = ds[i].delegate;
            if d == candidate {
                assert(ds@[i as int].delegate == candidate);
                return true;
            }
            if self.is_delegate_in_chain(d, candidate, depth + 1) {
                assert(in_chain(self@, ds@[i as int].delegate, candidate, depth as nat + 1));
                return true;
            }
            i = i + 1;
        }
        false
    }

    /// Whether `delegate_address` is in `owner`'s delegation chain.
    pub fn is_delegate(&self, owner: Addr, delegate_address: Addr) -> (r: bool)
        requires
            self.wf(),
        ensures
            r == in_chain(self@, owner, delegate_address, 0),
    {
        self.is_delegate_in_chain(owner, delegate_address, 0)
    }

    /// Commits `commitment_hash` for `owner` when the owner has delegates,
    /// with the checks of `commit_ip`; the record is indexed under its owner
    /// and hash and joins the checksum. The host checks the owner's
    /// authorization before this call.
    pub fn commit_ip_delegated(
        &mut self,
        env: &Env,
        owner: Addr,
        commitment_hash: Bytes32,
        pow_difficulty: u32,
        now: u64,
    ) -> (r: Result<u64, ContractError>)
        requires
            old(self).wf(),
            old(self)@.ips.len() + 1 < u64::MAX,
        ensures
            final(self).wf(),
            delegates_of(old(self)@, owner).len() == 0 ==> r == Err::<u64, ContractError>(
                ContractError::Unauthorized,
            ) && final(self)@ == old(self)@,
            delegates_of(old(self)@, owner).len() > 0 ==> match commit_error(
                old(self)@,
                commitment_hash,
                pow_difficulty,
            ) {
                Some(e) => r == Err::<u64, ContractError>(e) && final(self)@ == old(self)@,
                None => r == Ok::<u64, ContractError>((old(self)@.ips.len() + 1) as u64) && final(self)@
                    == with_checksum_update(
                    with_new_ip(
                        old(self)@,
                        owner,
                        commitment_hash,
                        now,
                        fresh_entry(
                            (old(self)@.ips.len() + 1) as u64,
                            owner,
                            commitment_hash,
                            now,
                            None,
                        ),
                    ),
                ),
            },
    {
        let ds = self.delegate_list(owner);
        if ds.len() == 0 {
            return Err(ContractError::Unauthorized);
        }
        if is_all_zero(&commitment_hash) {
            return Err(ContractError::ZeroCommitmentHash);
        }
        if self.find_commitment(&commitment_hash).is_some() {
            return Err(ContractError::CommitmentAlreadyRegistered);
        }
        if !meets_pow(&commitment_hash, pow_difficulty) {
            return Err(ContractError::InsufficientPoW);
        }
        let id = self.ips.len() as u64 + 1;
        let entry = Self::new_entry(id, owner, commitment_hash, now, None);
        self.push_ip(owner, commitment_hash, now, entry);
        self.update_commitment_checksum(env);
        Ok(id)
    }
}

} // verus!
