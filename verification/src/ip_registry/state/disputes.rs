//! Disputes, stakes, owner reputation and arbitration.
use vstd::prelude::*;
use crate::common::{Addr, Bytes32, copy_vec, contains_addr};
use crate::ip_registry::types::{
    ArbitrationRecord, ArbitrationView, ContractError, DisputeRecord, ReputationRecord, StakeRecord,
};
use super::{IpEntryView, IpRegistry, RegistryState, entries_view, arbitrations_view};
use super::lifecycle::{with_entry, transferred_state};

verus! {

broadcast use vstd::std_specs::hash::group_hash_axioms;

/// Whether a dispute with this id exists.
pub open spec fn has_dispute(s: RegistryState, dispute_id: u64) -> bool {
    1 <= dispute_id <= s.disputes.len()
}

/// The state with dispute `dispute_id` replaced by `d`.
pub open spec fn with_dispute(s: RegistryState, dispute_id: u64, d: DisputeRecord) -> RegistryState {
    RegistryState { disputes: s.disputes.update(dispute_id - 1, d), ..s }
}

/// Whether an arbitration case with this id exists.
pub open spec fn has_arbitration(s: RegistryState, arbitration_id: u64) -> bool {
    1 <= arbitration_id <= s.arbitrations.len()
}

/// The state with arbitration case `arbitration_id` replaced by `a`.
pub open spec fn with_arbitration(s: RegistryState, arbitration_id: u64, a: ArbitrationView) -> RegistryState {
    RegistryState { arbitrations: s.arbitrations.update(arbitration_id - 1, a), ..s }
}

/// The reputation an owner starts with.
pub open spec fn default_reputation(owner: Addr) -> ReputationRecord {
    ReputationRecord { owner, score: 0, commitments: 0, disputes_lost: 0 }
}

/// The reputation of an owner (the default if none is stored).
pub open spec fn reputation_of(s: RegistryState, owner: Addr) -> ReputationRecord {
    if s.reputations.contains_key(owner.id) {
        s.reputations[owner.id]
    } else {
        default_reputation(owner)
    }
}

/// `x` clamped to the range of `i64`.
pub open spec fn clamp_i64(x: int) -> i64 {
    if x > i64::MAX {
        i64::MAX
    } else if x < i64::MIN {
        i64::MIN
    } else {
        x as i64
    }
}

/// The state after dispute `dispute_id` is resolved in favour of `winner`
/// at `now`: the dispute is closed, and the IP moves to the winner when the
/// winner is not its owner.
pub open spec fn resolved_state(s: RegistryState, dispute_id: u64, winner: Addr, now: u64) -> RegistryState {
    let d = s.disputes[dispute_id - 1];
    let s1 = with_dispute(s, dispute_id, DisputeRecord { resolved: true, winner: Some(winner), ..d });
    if s1.has_ip(d.ip_id) && s1.record(d.ip_id).owner != winner {
        transferred_state(s1, d.ip_id, winner, now)
    } else {
        s1
    }
}

/// The winner of an arbitration case: the challenger with strictly more
/// votes, otherwise the IP owner.
pub open spec fn arbitration_winner(a: ArbitrationView, d: DisputeRecord, owner: Addr) -> Addr {
    if a.votes_challenger > a.votes_owner {
        d.challenger
    } else {
        owner
    }
}

/// A copy of an arbitration case.
fn copy_arbitration(a: &ArbitrationRecord) -> (r: ArbitrationRecord)
    ensures
        r@ == a@,
{
    ArbitrationRecord {
        arbitration_id: a.arbitration_id,
        dispute_id: a.dispute_id,
        arbitrators: copy_vec(&a.arbitrators),
        votes_owner: a.votes_owner,
        votes_challenger: a.votes_challenger,
        finalized: a.finalized,
        winner: a.winner,
    }
}

impl IpRegistry {
    /// Opens dispute against IP `ip_id` with `evidence_hash`; returns its id
    /// (ids start at 1). The challenger's authorization is checked by the
    /// host before this call.
    pub fn initiate_dispute(&mut self, ip_id: u64, challenger: Addr, evidence_hash: Bytes32, now: u64) -> (r:
        Result<u64, ContractError>)
        requires
            old(self).wf(),
            old(self)@.has_ip(ip_id) ==> old(self)@.disputes.len() + 2 <= u64::MAX,
        ensures
            final(self).wf(),
            !old(self)@.has_ip(ip_id) ==> r == Err::<u64, ContractError>(ContractError::IpNotFound)
                && final(self)@ == old(self)@,
            old(self)@.has_ip(ip_id) ==> r == Ok::<u64, ContractError>((old(self)@.disputes.len() + 1) as u64)
                && final(self)@ == (RegistryState {
                disputes: old(self)@.disputes.push(
                    DisputeRecord {
                        dispute_id: (old(self)@.disputes.len() + 1) as u64,
                        ip_id,
                        challenger,
                        evidence_hash,
                        timestamp: now,
                        resolved: false,
                        winner: None,
                    },
                ),
                ..old(self)@
            }),
    {
        if ip_id == 0 || ip_id > self.ips.len() as u64 {
            return Err(ContractError::IpNotFound);
        }
        let dispute_id = self.disputes.len() as u64 + 1;
        let d = DisputeRecord {
            dispute_id,
            ip_id,
            challenger,
            evidence_hash,
            timestamp: now,
            resolved: false,
            winner: None,
        };
        self.disputes.push(d);
        assert(self@ =~= (RegistryState { disputes: old(self)@.disputes.push(d), ..old(self)@ }));
        Ok(dispute_id)
    }

    /// Replaces the evidence of an open dispute; only the IP owner or the
    /// challenger may do so. The submitter's authorization is checked by
    /// the host before this call.
    pub fn submit_dispute_evidence(&mut self, dispute_id: u64, submitter: Addr, evidence_hash: Bytes32) -> (r:
        Result<(), ContractError>)
        requires
            old(self).wf(),
        ensures
            final(self).wf(),
            r is Err ==> final(self)@ == old(self)@,
            !has_dispute(old(self)@, dispute_id) ==> r == Err::<(), ContractError>(ContractError::DisputeNotFound),
            has_dispute(old(self)@, dispute_id) ==> {
                let d = old(self)@.disputes[dispute_id - 1];
                if d.resolved {
                    r == Err::<(), ContractError>(ContractError::DisputeAlreadyResolved)
                } else if !old(self)@.has_ip(d.ip_id) {
                    r == Err::<(), ContractError>(ContractError::IpNotFound)
                } else if submitter != old(self)@.record(d.ip_id).owner && submitter != d.challenger {
                    r == Err::<(), ContractError>(ContractError::Unauthorized)
                } else {
                    r is Ok && final(self)@ == with_dispute(
                        old(self)@,
                        dispute_id,
                        DisputeRecord { evidence_hash, ..d },
                    )
                }
            },
    {
        if dispute_id == 0 || dispute_id > self.disputes.len() as u64 {
            return Err(ContractError::DisputeNotFound);
        }
        let k = (dispute_id - 1) as usize;
        let mut d = self.disputes[k];
        if d.resolved {
            return Err(ContractError::DisputeAlreadyResolved);
        }
        if d.ip_id == 0 || d.ip_id > self.ips.len() as u64 {
            return Err(ContractError::IpNotFound);
        }
        let owner = self.ips[(d.ip_id - 1) as usize].record.owner;
        if submitter != owner && submitter != d.challenger {
            return Err(ContractError::Unauthorized);
        }
        d.evidence_hash = evidence_hash;
        self.disputes.set(k, d);
        assert(self@ =~= with_dispute(old(self)@, dispute_id, d));
        Ok(())
    }

    /// Resolves dispute `dispute_id` for `winner` (see [`resolved_state`]).
    /// Needs an admin, whose authorization the host checks before this call.
    pub fn resolve_dispute(&mut self, dispute_id: u64, winner: Addr, now: u64) -> (r: Result<(), ContractError>)
        requires
            old(self).wf(),
        ensures
            final(self).wf(),
            r is Err ==> final(self)@ == old(self)@,
            old(self)@.admin is None ==> r == Err::<(), ContractError>(ContractError::Unauthorized),
            old(self)@.admin is Some && !has_dispute(old(self)@, dispute_id) ==> r == Err::<(), ContractError>(
                ContractError::DisputeNotFound,
            ),
            old(self)@.admin is Some && has_dispute(old(self)@, dispute_id) ==> if old(
                self,
            )@.disputes[dispute_id - 1].resolved {
                r == Err::<(), ContractError>(ContractError::DisputeAlreadyResolved)
            } else {
                r is Ok && final(self)@ == resolved_state(old(self)@, dispute_id, winner, now)
            },
    {
        if self.admin.is_none() {
            return Err(ContractError::Unauthorized);
        }
        if dispute_id == 0 || dispute_id > self.disputes.len() as u64 {
            return Err(ContractError::DisputeNotFound);
        }
        let k = (dispute_id - 1) as usize;
        let mut d = self.disputes[k];
        if d.resolved {
            return Err(ContractError::DisputeAlreadyResolved);
        }
        d.resolved = true;
        d.winner = Some(winner);
        self.disputes.set(k, d);
        assert(self@ =~= with_dispute(old(self)@, dispute_id, d));
        let ip_id = d.ip_id;
        if ip_id >= 1 && ip_id <= self.ips.len() as u64 && self.ips[(ip_id - 1) as usize].record.owner != winner {
            let _ = self.transfer_ip(ip_id, winner, now);
        }
        Ok(())
    }

    /// Dispute `dispute_id`.
    pub fn get_dispute(&self, dispute_id: u64) -> (r: Result<DisputeRecord, ContractError>)
        requires
            self.wf(),
        ensures
            match r {
                Ok(d) => has_dispute(self@, dispute_id) && d == self@.disputes[dispute_id - 1],
                Err(e) => !has_dispute(self@, dispute_id) && e == ContractError::DisputeNotFound,
            },
    {
        if dispute_id == 0 || dispute_id > self.disputes.len() as u64 {
            return Err(ContractError::DisputeNotFound);
        }
        Ok(self.disputes[(dispute_id - 1) as usize])
    }
}

impl IpRegistry {
    /// Places a stake of `amount` on IP `ip_id` in its owner's name; one
    /// stake per IP. The owner's authorization is checked by the host
    /// before this call.
    pub fn stake_commitment(&mut self, ip_id: u64, amount: i128) -> (r: Result<(), ContractError>)
        requires
            old(self).wf(),
        ensures
            final(self).wf(),
            r is Err ==> final(self)@ == old(self)@,
            !old(self)@.has_ip(ip_id) ==> r == Err::<(), ContractError>(ContractError::IpNotFound),
            old(self)@.has_ip(ip_id) ==> if old(self)@.entry(ip_id).stake is Some {
                r == Err::<(), ContractError>(ContractError::AlreadyStaked)
            } else {
                r is Ok && final(self)@ == with_entry(
                    old(self)@,
                    ip_id,
                    IpEntryView {
                        stake: Some(
                            StakeRecord { ip_id, owner: old(self)@.record(ip_id).owner, amount, slashed: false },
                        ),
                        ..old(self)@.entry(ip_id)
                    },
                )
            },
    {
        if ip_id == 0 || ip_id > self.ips.len() as u64 {
            return Err(ContractError::IpNotFound);
        }
        let i = (ip_id - 1) as usize;
        if self.ips[i].stake.is_some() {
            return Err(ContractError::AlreadyStaked);
        }
        let st = StakeRecord { ip_id, owner: self.ips[i].record.owner, amount, slashed: false };
        self.ips[i].stake = Some(st);
        proof {
            let e = old(self)@.ips[i as int];
            assert(entries_view(self.ips@) =~= old(self)@.ips.update(i as int, IpEntryView { stake: Some(st), ..e }));
            assert(self@ =~= with_entry(old(self)@, ip_id, IpEntryView { stake: Some(st), ..e }));
        }
        Ok(())
    }

    /// Slashes the stake on IP `ip_id`: it is marked slashed, and its
    /// owner's reputation loses 10 points (saturating) and counts one more
    /// lost dispute. Needs an admin, whose authorization the host checks.
    pub fn slash_stake(&mut self, ip_id: u64) -> (r: Result<(), ContractError>)
        requires
            old(self).wf(),
            old(self)@.has_ip(ip_id) && old(self)@.entry(ip_id).stake is Some ==> reputation_of(
                old(self)@,
                old(self)@.entry(ip_id).stake.unwrap().owner,
            ).disputes_lost < u64::MAX,
        ensures
            final(self).wf(),
            r is Err ==> final(self)@ == old(self)@,
            old(self)@.admin is None ==> r == Err::<(), ContractError>(ContractError::Unauthorized),
            old(self)@.admin is Some && !(old(self)@.has_ip(ip_id) && old(self)@.entry(ip_id).stake is Some)
                ==> r == Err::<(), ContractError>(ContractError::StakeNotFound),
            old(self)@.admin is Some && old(self)@.has_ip(ip_id) && old(self)@.entry(ip_id).stake is Some ==> {
                let st = old(self)@.entry(ip_id).stake.unwrap();
                let rep = reputation_of(old(self)@, st.owner);
                if st.slashed {
                    r == Err::<(), ContractError>(ContractError::StakeAlreadySlashed)
                } else {
                    r is Ok && final(self)@ == (RegistryState {
                        reputations: old(self)@.reputations.insert(
                            st.owner.id,
                            ReputationRecord {
                                score: clamp_i64(rep.score - 10),
                                disputes_lost: (rep.disputes_lost + 1) as u64,
                                ..rep
                            },
                        ),
                        ..with_entry(
                            old(self)@,
                            ip_id,
                            IpEntryView {
                                stake: Some(StakeRecord { slashed: true, ..st }),
                                ..old(self)@.entry(ip_id)
                            },
                        )
                    })
                }
            },
    {
        if self.admin.is_none() {
            return Err(ContractError::Unauthorized);
        }
        if ip_id == 0 || ip_id > self.ips.len() as u64 {
            return Err(ContractError::StakeNotFound);
        }
        let i = (ip_id - 1) as usize;
        let mut st = match self.ips[i].stake {
            Some(st) => st,
            None => {
                return Err(ContractError::StakeNotFound);
            },
        };
        if st.slashed {
            return Err(ContractError::StakeAlreadySlashed);
        }
        let mut rep = self.get_reputation(st.owner);
        st.slashed = true;
        self.ips[i].stake = Some(st);
        rep.score = if rep.score < i64::MIN + 10 {
            i64::MIN
        } else {
            rep.score - 10
        };
        rep.disputes_lost = rep.disputes_lost + 1;
        self.reputations.insert(st.owner.id, rep);
        proof {
            let e = old(self)@.ips[i as int];
            assert(entries_view(self.ips@) =~= old(self)@.ips.update(i as int, IpEntryView { stake: Some(st), ..e }));
        }
        Ok(())
    }

    /// Withdraws the stake on IP `ip_id` unless it was slashed. The stake
    /// owner's authorization is checked by the host before this call.
    pub fn unstake(&mut self, ip_id: u64) -> (r: Result<(), ContractError>)
        requires
            old(self).wf(),
        ensures
            final(self).wf(),
            r is Err ==> final(self)@ == old(self)@,
            !(old(self)@.has_ip(ip_id) && old(self)@.entry(ip_id).stake is Some) ==> r == Err::<(), ContractError>(
                ContractError::StakeNotFound,
            ),
            old(self)@.has_ip(ip_id) && old(self)@.entry(ip_id).stake is Some ==> if old(self)@.entry(
                ip_id,
            ).stake.unwrap().slashed {
                r == Err::<(), ContractError>(ContractError::StakeAlreadySlashed)
            } else {
                r is Ok && final(self)@ == with_entry(
                    old(self)@,
                    ip_id,
                    IpEntryView { stake: None, ..old(self)@.entry(ip_id) },
                )
            },
    {
        if ip_id == 0 || ip_id > self.ips.len() as u64 {
            return Err(ContractError::StakeNotFound);
        }
        let i = (ip_id - 1) as usize;
        let st = match self.ips[i].stake {
            Some(st) => st,
            None => {
                return Err(ContractError::StakeNotFound);
            },
        };
        if st.slashed {
            return Err(ContractError::StakeAlreadySlashed);
        }
        self.ips[i].stake = None;
        proof {
            let e = old(self)@.ips[i as int];
            assert(entries_view(self.ips@) =~= old(self)@.ips.update(i as int, IpEntryView { stake: None, ..e }));
            assert(self@ =~= with_entry(old(self)@, ip_id, IpEntryView { stake: None, ..e }));
        }
        Ok(())
    }

    /// The stake on IP `ip_id`, if any.
    pub fn get_stake(&self, ip_id: u64) -> (r: Option<StakeRecord>)
        requires
            self.wf(),
        ensures
            r == if self@.has_ip(ip_id) { self@.entry(ip_id).stake } else { None },
    {
        if ip_id == 0 || ip_id > self.ips.len() as u64 {
            return None;
        }
        self.ips[(ip_id - 1) as usize].stake
    }

    /// The reputation of `owner` (zero scores if none is stored).
    pub fn get_reputation(&self, owner: Addr) -> (r: ReputationRecord)
        requires
            self.wf(),
        ensures
            r == reputation_of(self@, owner),
    {
        match self.reputations.get(&owner.id) {
            Some(rep) => *rep,
            None => ReputationRecord { owner, score: 0, commitments: 0, disputes_lost: 0 },
        }
    }

    /// Adds `score_delta` to the reputation score of `owner`, saturating at
    /// the bounds of `i64`. Needs an admin, whose authorization the host
    /// checks before this call.
    pub fn update_reputation(&mut self, owner: Addr, score_delta: i64) -> (r: Result<(), ContractError>)
        requires
            old(self).wf(),
        ensures
            final(self).wf(),
            old(self)@.admin is None ==> r == Err::<(), ContractError>(ContractError::Unauthorized)
                && final(self)@ == old(self)@,
            old(self)@.admin is Some ==> r is Ok && final(self)@ == (RegistryState {
                reputations: old(self)@.reputations.insert(
                    owner.id,
                    ReputationRecord {
                        score: clamp_i64(reputation_of(old(self)@, owner).score + score_delta),
                        ..reputation_of(old(self)@, owner)
                    },
                ),
                ..old(self)@
            }),
    {
        if self.admin.is_none() {
            return Err(ContractError::Unauthorized);
        }
        let mut rep = self.get_reputation(owner);
        rep.score = if score_delta > 0 && rep.score > i64::MAX - score_delta {
            i64::MAX
        } else if score_delta < 0 && rep.score < i64::MIN - score_delta {
            i64::MIN
        } else {
            rep.score + score_delta
        };
        self.reputations.insert(owner.id, rep);
        assert(self@ =~= (RegistryState { reputations: old(self)@.reputations.insert(owner.id, rep), ..old(self)@ }));
        Ok(())
    }

    /// Adds `arbitrator` to the pool (nothing changes if already there).
    /// Needs an admin, whose authorization the host checks before this call.
    pub fn nominate_arbitrator(&mut self, arbitrator: Addr) -> (r: Result<(), ContractError>)
        requires
            old(self).wf(),
        ensures
            final(self).wf(),
            old(self)@.admin is None ==> r == Err::<(), ContractError>(ContractError::Unauthorized)
                && final(self)@ == old(self)@,
            old(self)@.admin is Some ==> r is Ok && final(self)@ == if old(self)@.arbitrator_pool.contains(
                arbitrator,
            ) {
                old(self)@
            } else {
                RegistryState { arbitrator_pool: old(self)@.arbitrator_pool.push(arbitrator), ..old(self)@ }
            },
    {
        if self.admin.is_none() {
            return Err(ContractError::Unauthorized);
        }
        if contains_addr(&self.arbitrator_pool, arbitrator) {
            return Ok(());
        }
        self.arbitrator_pool.push(arbitrator);
        assert(self@ =~= (RegistryState {
            arbitrator_pool: old(self)@.arbitrator_pool.push(arbitrator),
            ..old(self)@
        }));
        Ok(())
    }

    /// Opens an arbitration case over dispute `dispute_id` with the current
    /// arbitrator pool; returns its id (ids start at 1). Needs an admin,
    /// whose authorization the host checks before this call.
    pub fn open_arbitration(&mut self, dispute_id: u64) -> (r: Result<u64, ContractError>)
        requires
            old(self).wf(),
            old(self)@.admin is Some && has_dispute(old(self)@, dispute_id) ==> old(self)@.arbitrations.len() + 2
                <= u64::MAX,
        ensures
            final(self).wf(),
            r is Err ==> final(self)@ == old(self)@,
            old(self)@.admin is None ==> r == Err::<u64, ContractError>(ContractError::Unauthorized),
            old(self)@.admin is Some && !has_dispute(old(self)@, dispute_id) ==> r == Err::<u64, ContractError>(
                ContractError::DisputeNotFound,
            ),
            old(self)@.admin is Some && has_dispute(old(self)@, dispute_id) ==> r == Ok::<u64, ContractError>(
                (old(self)@.arbitrations.len() + 1) as u64,
            ) && final(self)@ == (RegistryState {
                arbitrations: old(self)@.arbitrations.push(
                    ArbitrationView {
                        arbitration_id: (old(self)@.arbitrations.len() + 1) as u64,
                        dispute_id,
                        arbitrators: old(self)@.arbitrator_pool,
                        votes_owner: 0,
                        votes_challenger: 0,
                        finalized: false,
                        winner: None,
                    },
                ),
                ..old(self)@
            }),
    {
        if self.admin.is_none() {
            return Err(ContractError::Unauthorized);
        }
        if dispute_id == 0 || dispute_id > self.disputes.len() as u64 {
            return Err(ContractError::DisputeNotFound);
        }
        let arbitration_id = self.arbitrations.len() as u64 + 1;
        let a = ArbitrationRecord {
            arbitration_id,
            dispute_id,
            arbitrators: copy_vec(&self.arbitrator_pool),
            votes_owner: 0,
            votes_challenger: 0,
            finalized: false,
            winner: None,
        };
        let ghost av = a@;
        self.arbitrations.push(a);
        assert(arbitrations_view(self.arbitrations@) =~= old(self)@.arbitrations.push(av));
        assert(self@ =~= (RegistryState { arbitrations: old(self)@.arbitrations.push(av), ..old(self)@ }));
        Ok(arbitration_id)
    }

    /// Records the vote of arbitrator `voter` on case `arbitration_id`.
    /// The voter's authorization is checked by the host before this call.
    pub fn vote_on_dispute(&mut self, arbitration_id: u64, voter: Addr, vote_for_owner: bool) -> (r: Result<
        (),
        ContractError,
    >)
        requires
            old(self).wf(),
            has_arbitration(old(self)@, arbitration_id) ==> {
                let a = old(self)@.arbitrations[arbitration_id - 1];
                (vote_for_owner ==> a.votes_owner < u32::MAX) && (!vote_for_owner ==> a.votes_challenger
                    < u32::MAX)
            },
        ensures
            final(self).wf(),
            r is Err ==> final(self)@ == old(self)@,
            !has_arbitration(old(self)@, arbitration_id) ==> r == Err::<(), ContractError>(
                ContractError::ArbitrationNotFound,
            ),
            has_arbitration(old(self)@, arbitration_id) ==> {
                let a = old(self)@.arbitrations[arbitration_id - 1];
                if a.finalized {
                    r == Err::<(), ContractError>(ContractError::ArbitrationAlreadyFinalized)
                } else if !a.arbitrators.contains(voter) {
                    r == Err::<(), ContractError>(ContractError::NotAnArbitrator)
                } else {
                    r is Ok && final(self)@ == with_arbitration(
                        old(self)@,
                        arbitration_id,
                        if vote_for_owner {
                            ArbitrationView { votes_owner: (a.votes_owner + 1) as u32, ..a }
                        } else {
                            ArbitrationView { votes_challenger: (a.votes_challenger + 1) as u32, ..a }
                        },
                    )
                }
            },
    {
        if arbitration_id == 0 || arbitration_id > self.arbitrations.len() as u64 {
            return Err(ContractError::ArbitrationNotFound);
        }
        let k = (arbitration_id - 1) as usize;
        if self.arbitrations[k].finalized {
            return Err(ContractError::ArbitrationAlreadyFinalized);
        }
        if !contains_addr(&self.arbitrations[k].arbitrators, voter) {
            return Err(ContractError::NotAnArbitrator);
        }
        let ghost a = old(self)@.arbitrations[k as int];
        if vote_for_owner {
            let v = self.arbitrations[k].votes_owner;
            self.arbitrations[k].votes_owner = v + 1;
            assert(arbitrations_view(self.arbitrations@) =~= old(self)@.arbitrations.update(
                k as int,
                ArbitrationView { votes_owner: (a.votes_owner + 1) as u32, ..a },
            ));
        } else {
            let v = self.arbitrations[k].votes_challenger;
            self.arbitrations[k].votes_challenger = v + 1;
            assert(arbitrations_view(self.arbitrations@) =~= old(self)@.arbitrations.update(
                k as int,
                ArbitrationView { votes_challenger: (a.votes_challenger + 1) as u32, ..a },
            ));
        }
        Ok(())
    }

    /// Closes case `arbitration_id`: the challenger wins with strictly more
    /// votes, otherwise the IP owner; the case and its dispute record the
    /// winner and the dispute is resolved. Needs an admin, whose
    /// authorization the host checks before this call.
    pub fn finalize_arbitration(&mut self, arbitration_id: u64) -> (r: Result<(), ContractError>)
        requires
            old(self).wf(),
        ensures
            final(self).wf(),
            r is Err ==> final(self)@ == old(self)@,
            old(self)@.admin is None ==> r == Err::<(), ContractError>(ContractError::Unauthorized),
            old(self)@.admin is Some && !has_arbitration(old(self)@, arbitration_id) ==> r == Err::<
                (),
                ContractError,
            >(ContractError::ArbitrationNotFound),
            old(self)@.admin is Some && has_arbitration(old(self)@, arbitration_id) ==> {
                let a = old(self)@.arbitrations[arbitration_id - 1];
                if a.finalized {
                    r == Err::<(), ContractError>(ContractError::ArbitrationAlreadyFinalized)
                } else if !has_dispute(old(self)@, a.dispute_id) {
                    r == Err::<(), ContractError>(ContractError::DisputeNotFound)
                } else {
                    let d = old(self)@.disputes[a.dispute_id - 1];
                    if !old(self)@.has_ip(d.ip_id) {
                        r == Err::<(), ContractError>(ContractError::IpNotFound)
                    } else {
                        let w = arbitration_winner(a, d, old(self)@.record(d.ip_id).owner);
                        r is Ok && final(self)@ == with_dispute(
                            with_arbitration(
                                old(self)@,
                                arbitration_id,
                                ArbitrationView { finalized: true, winner: Some(w), ..a },
                            ),
                            a.dispute_id,
                            DisputeRecord { resolved: true, winner: Some(w), ..d },
                        )
                    }
                }
            },
    {
        if self.admin.is_none() {
            return Err(ContractError::Unauthorized);
        }
        if arbitration_id == 0 || arbitration_id > self.arbitrations.len() as u64 {
            return Err(ContractError::ArbitrationNotFound);
        }
        let k = (arbitration_id - 1) as usize;
        if self.arbitrations[k].finalized {
            return Err(ContractError::ArbitrationAlreadyFinalized);
        }
        let dispute_id = self.arbitrations[k].dispute_id;
        if dispute_id == 0 || dispute_id > self.disputes.len() as u64 {
            return Err(ContractError::DisputeNotFound);
        }
        let j = (dispute_id - 1) as usize;
        let mut d = self.disputes[j];
        if d.ip_id == 0 || d.ip_id > self.ips.len() as u64 {
            return Err(ContractError::IpNotFound);
        }
        let owner = self.ips[(d.ip_id - 1) as usize].record.owner;
        let winner = if self.arbitrations[k].votes_challenger > self.arbitrations[k].votes_owner {
            d.challenger
        } else {
            owner
        };
        let ghost a = old(self)@.arbitrations[k as int];
        self.arbitrations[k].finalized = true;
        self.arbitrations[k].winner = Some(winner);
        assert(arbitrations_view(self.arbitrations@) =~= old(self)@.arbitrations.update(
            k as int,
            ArbitrationView { finalized: true, winner: Some(winner), ..a },
        ));
        d.resolved = true;
        d.winner = Some(winner);
        self.disputes.set(j, d);
        Ok(())
    }

    /// Arbitration case `arbitration_id`.
    pub fn get_arbitration(&self, arbitration_id: u64) -> (r: Result<ArbitrationRecord, ContractError>)
        requires
            self.wf(),
        ensures
            match r {
                Ok(a) => has_arbitration(self@, arbitration_id) && a@ == self@.arbitrations[arbitration_id - 1],
                Err(e) => !has_arbitration(self@, arbitration_id) && e == ContractError::ArbitrationNotFound,
            },
    {
        if arbitration_id == 0 || arbitration_id > self.arbitrations.len() as u64 {
            return Err(ContractError::ArbitrationNotFound);
        }
        Ok(copy_arbitration(&self.arbitrations[(arbitration_id - 1) as usize]))
    }
}

} // verus!
