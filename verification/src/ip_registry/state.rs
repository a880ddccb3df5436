//! The registry's state, its mathematical model, and its well-formedness.
use vstd::prelude::*;
use std::collections::HashMap;
use crate::common::{Addr, Bytes32};
use crate::crypto::{bytes_of_all, concat_all, sha256_spec};
pub mod commit;
pub mod batch;
pub mod lifecycle;
pub mod features;
pub mod versions;
pub mod merkle;
pub mod assurance;
pub mod disputes;
pub mod delegation;
pub mod laws;

use super::types::{
    ArbitrationRecord, ArbitrationView, AuditEntry, DelegationRecord, DisputeRecord, IpAccessGrant,
    IpRecord, IpRecordView, LicenseEntry, OwnershipChallenge, ReputationRecord, StakeRecord,
    NUM_SHARDS,
};

verus! {

broadcast use vstd::std_specs::hash::group_hash_axioms;

/// Everything the registry keeps about one IP.
pub struct IpEntry {
    pub record: IpRecord,
    pub pow_difficulty: u32,
    pub partial_disclosure: Option<Bytes32>,
    pub licenses: Vec<LicenseEntry>,
    pub suggested_price: Option<i128>,
    pub versions: Vec<u64>,
    pub version_chain: Option<Vec<u64>>,
    pub access_grants: Vec<IpAccessGrant>,
    pub audit_trail: Vec<AuditEntry>,
    pub rotation_history: Vec<Bytes32>,
    pub renewal_count: u32,
    pub stake: Option<StakeRecord>,
    pub compressed: Option<[u8; 16]>,
}

/// The mathematical content of an [`IpEntry`].
pub ghost struct IpEntryView {
    pub record: IpRecordView,
    pub pow_difficulty: u32,
    pub partial_disclosure: Option<Bytes32>,
    pub licenses: Seq<LicenseEntry>,
    pub suggested_price: Option<i128>,
    pub versions: Seq<u64>,
    pub version_chain: Option<Seq<u64>>,
    pub access_grants: Seq<IpAccessGrant>,
    pub audit_trail: Seq<AuditEntry>,
    pub rotation_history: Seq<Bytes32>,
    pub renewal_count: u32,
    pub stake: Option<StakeRecord>,
    pub compressed: Option<Seq<u8>>,
}

pub open spec fn opt_ids_view(o: Option<Vec<u64>>) -> Option<Seq<u64>> {
    match o {
        Some(v) => Some(v@),
        None => None,
    }
}

impl View for IpEntry {
    type V = IpEntryView;

    open spec fn view(&self) -> IpEntryView {
        IpEntryView {
            record: self.record@,
            pow_difficulty: self.pow_difficulty,
            partial_disclosure: self.partial_disclosure,
            licenses: self.licenses@,
            suggested_price: self.suggested_price,
            versions: self.versions@,
            version_chain: opt_ids_view(self.version_chain),
            access_grants: self.access_grants@,
            audit_trail: self.audit_trail@,
            rotation_history: self.rotation_history@,
            renewal_count: self.renewal_count,
            stake: self.stake,
            compressed: match self.compressed {
                Some(c) => Some(c@),
                None => None,
            },
        }
    }
}

/// Which owner holds a registered commitment hash.
#[derive(Clone, Copy, Debug)]
pub struct CommitmentOwner {
    pub hash: Bytes32,
    pub owner: Addr,
}

/// The blinded owner identifier stored for an anonymous commitment.
#[derive(Clone, Copy, Debug)]
pub struct AnonymousOwner {
    pub hash: Bytes32,
    pub blinded_owner: Bytes32,
}

/// The IP commitment registry.
pub struct IpRegistry {
    pub(crate) contract: Addr,
    pub(crate) admin: Option<Addr>,
    pub(crate) ips: Vec<IpEntry>,
    pub(crate) owner_ips: HashMap<u64, Vec<u64>>,
    pub(crate) commitment_owners: Vec<CommitmentOwner>,
    pub(crate) anonymous_owners: Vec<AnonymousOwner>,
    pub(crate) commitment_hashes: Vec<Bytes32>,
    pub(crate) checksum: Option<Bytes32>,
    pub(crate) notary_key: Option<Bytes32>,
    pub(crate) challenges: Vec<OwnershipChallenge>,
    pub(crate) disputes: Vec<DisputeRecord>,
    pub(crate) arbitrations: Vec<ArbitrationRecord>,
    pub(crate) arbitrator_pool: Vec<Addr>,
    pub(crate) reputations: HashMap<u64, ReputationRecord>,
    pub(crate) delegates: HashMap<u64, Vec<DelegationRecord>>,
    pub(crate) delegate_depths: HashMap<u64, u32>,
    pub(crate) shards: Vec<Vec<u64>>,
}

/// The mathematical model of the registry.
pub ghost struct RegistryState {
    /// The registry contract's own address.
    pub contract: Addr,
    pub admin: Option<Addr>,
    /// `ips[k]` is the IP with id `k + 1`.
    pub ips: Seq<IpEntryView>,
    /// IP ids listed per owner (keyed by the owner's handle).
    pub owner_ips: Map<u64, Seq<u64>>,
    pub commitment_owners: Seq<CommitmentOwner>,
    pub anonymous_owners: Seq<AnonymousOwner>,
    /// Commitment hashes tracked for rollback protection.
    pub commitment_hashes: Seq<Seq<u8>>,
    pub checksum: Option<Seq<u8>>,
    pub notary_key: Option<Bytes32>,
    /// `challenges[k]` has id `k + 1`.
    pub challenges: Seq<OwnershipChallenge>,
    /// `disputes[k]` has id `k + 1`.
    pub disputes: Seq<DisputeRecord>,
    /// `arbitrations[k]` has id `k + 1`.
    pub arbitrations: Seq<ArbitrationView>,
    pub arbitrator_pool: Seq<Addr>,
    pub reputations: Map<u64, ReputationRecord>,
    pub delegates: Map<u64, Seq<DelegationRecord>>,
    pub delegate_depths: Map<u64, u32>,
    pub shards: Seq<Seq<u64>>,
}

pub open spec fn entries_view(s: Seq<IpEntry>) -> Seq<IpEntryView> {
    s.map_values(|e: IpEntry| e@)
}

pub open spec fn id_lists_view(m: Map<u64, Vec<u64>>) -> Map<u64, Seq<u64>> {
    m.map_values(|v: Vec<u64>| v@)
}

pub open spec fn delegate_lists_view(m: Map<u64, Vec<DelegationRecord>>) -> Map<
    u64,
    Seq<DelegationRecord>,
> {
    m.map_values(|v: Vec<DelegationRecord>| v@)
}

pub open spec fn arbitrations_view(s: Seq<ArbitrationRecord>) -> Seq<ArbitrationView> {
    s.map_values(|a: ArbitrationRecord| a@)
}

pub open spec fn shards_view(s: Seq<Vec<u64>>) -> Seq<Seq<u64>> {
    s.map_values(|v: Vec<u64>| v@)
}

impl View for IpRegistry {
    type V = RegistryState;

    closed spec fn view(&self) -> RegistryState {
        RegistryState {
            contract: self.contract,
            admin: self.admin,
            ips: entries_view(self.ips@),
            owner_ips: id_lists_view(self.owner_ips@),
            commitment_owners: self.commitment_owners@,
            anonymous_owners: self.anonymous_owners@,
            commitment_hashes: bytes_of_all(self.commitment_hashes@),
            checksum: match self.checksum {
                Some(c) => Some(c@),
                None => None,
            },
            notary_key: self.notary_key,
            challenges: self.challenges@,
            disputes: self.disputes@,
            arbitrations: arbitrations_view(self.arbitrations@),
            arbitrator_pool: self.arbitrator_pool@,
            reputations: self.reputations@,
            delegates: delegate_lists_view(self.delegates@),
            delegate_depths: self.delegate_depths@,
            shards: shards_view(self.shards@),
        }
    }
}

impl RegistryState {
    /// Number of IPs committed so far; the next IP gets id `ip_count() + 1`.
    pub open spec fn ip_count(self) -> nat {
        self.ips.len()
    }

    pub open spec fn has_ip(self, ip_id: u64) -> bool {
        1 <= ip_id <= self.ips.len()
    }

    /// The entry of an existing IP.
    pub open spec fn entry(self, ip_id: u64) -> IpEntryView
        recommends
            self.has_ip(ip_id),
    {
        self.ips[ip_id - 1]
    }

    pub open spec fn record(self, ip_id: u64) -> IpRecordView
        recommends
            self.has_ip(ip_id),
    {
        self.ips[ip_id - 1].record
    }

    /// The IP ids listed for an owner (empty if none).
    pub open spec fn ids_of(self, owner: Addr) -> Seq<u64> {
        if self.owner_ips.contains_key(owner.id) {
            self.owner_ips[owner.id]
        } else {
            Seq::empty()
        }
    }

    /// Whether a commitment hash is already registered.
    pub open spec fn is_registered(self, hash: Bytes32) -> bool {
        exists|i: int| 0 <= i < self.commitment_owners.len() && self.commitment_owners[i].hash == hash
    }

    /// Well-formedness of the model.
    pub open spec fn inv(self) -> bool {
        &&& forall|k: int| 0 <= k < self.ips.len() ==> #[trigger] self.ips[k].record.ip_id == k + 1
        &&& forall|k: int|
            0 <= k < self.ips.len() ==> match #[trigger] self.ips[k].record.parent_ip_id {
                Some(p) => 1 <= p && p < k + 1,
                None => true,
            }
        &&& self.ips.len() < u64::MAX
        &&& forall|i: int, j: int|
            0 <= i < j < self.commitment_owners.len() ==> #[trigger] self.commitment_owners[i].hash
                != #[trigger] self.commitment_owners[j].hash
        &&& forall|k: int| 0 <= k < self.challenges.len() ==> #[trigger] self.challenges[k].challenge_id == k + 1
        &&& self.challenges.len() < u64::MAX
        &&& forall|k: int| 0 <= k < self.disputes.len() ==> #[trigger] self.disputes[k].dispute_id == k + 1
        &&& self.disputes.len() < u64::MAX
        &&& forall|k: int|
            0 <= k < self.arbitrations.len() ==> #[trigger] self.arbitrations[k].arbitration_id == k + 1
        &&& self.arbitrations.len() < u64::MAX
        &&& self.shards.len() == NUM_SHARDS
        &&& self.checksum is None || self.checksum == Some(sha256_spec(concat_all(self.commitment_hashes)))
        &&& forall|o: u64, k: int|
            self.owner_ips.contains_key(o) && 0 <= k < self.owner_ips[o].len() ==> self.lists_own_ip(
                o,
                #[trigger] self.owner_ips[o][k],
            )
        &&& forall|o: u64| #[trigger] self.owner_ips.contains_key(o) ==> self.owner_ips[o].no_duplicates()
    }

    /// Whether `ip_id` is an IP owned by the owner numbered `o`.
    pub open spec fn lists_own_ip(self, o: u64, ip_id: u64) -> bool {
        self.has_ip(ip_id) && self.record(ip_id).owner.id == o
    }
}

impl IpRegistry {
    /// Well-formedness of the concrete state.
    pub closed spec fn wf(&self) -> bool {
        self@.inv()
    }

    /// A well-formed registry satisfies the registry invariant.
    pub proof fn lemma_wf_inv(&self)
        requires
            self.wf(),
        ensures
            self@.inv(),
    {
    }

    /// An empty registry deployed at `contract`.
    pub fn new(contract: Addr) -> (r: IpRegistry)
        ensures
            r.wf(),
            r@.contract == contract,
            r@.admin is None,
            r@.ips.len() == 0,
            r@.owner_ips == Map::<u64, Seq<u64>>::empty(),
            r@.commitment_owners.len() == 0,
            r@.anonymous_owners.len() == 0,
            r@.commitment_hashes.len() == 0,
            r@.checksum is None,
            r@.notary_key is None,
            r@.challenges.len() == 0,
            r@.disputes.len() == 0,
            r@.arbitrations.len() == 0,
            r@.arbitrator_pool.len() == 0,
            r@.reputations == Map::<u64, ReputationRecord>::empty(),
            r@.delegates == Map::<u64, Seq<DelegationRecord>>::empty(),
            r@.delegate_depths == Map::<u64, u32>::empty(),
            r@.shards == Seq::new(NUM_SHARDS as nat, |i: int| Seq::<u64>::empty()),
    {
        let mut shards: Vec<Vec<u64>> = Vec::new();
        let mut i: u32 = 0;
        while i < NUM_SHARDS
            invariant
                0 <= i <= NUM_SHARDS,
                shards@.len() == i,
                forall|j: int| 0 <= j < i ==> (#[trigger] shards@[j])@ == Seq::<u64>::empty(),
            decreases NUM_SHARDS - i,
        {
            shards.push(Vec::new());
            i = i + 1;
        }
        let r = IpRegistry {
            contract,
            admin: None,
            ips: Vec::new(),
            owner_ips: HashMap::new(),
            commitment_owners: Vec::new(),
            anonymous_owners: Vec::new(),
            commitment_hashes: Vec::new(),
            checksum: None,
            notary_key: None,
            challenges: Vec::new(),
            disputes: Vec::new(),
            arbitrations: Vec::new(),
            arbitrator_pool: Vec::new(),
            reputations: HashMap::new(),
            delegates: HashMap::new(),
            delegate_depths: HashMap::new(),
            shards,
        };
        assert(r@.owner_ips =~= Map::<u64, Seq<u64>>::empty());
        assert(r@.delegates =~= Map::<u64, Seq<DelegationRecord>>::empty());
        assert(r@.shards =~= Seq::new(NUM_SHARDS as nat, |i: int| Seq::<u64>::empty()));
        r
    }
}

} // verus!
