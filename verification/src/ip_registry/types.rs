//! Records and errors of the IP commitment registry.
use vstd::prelude::*;
use crate::common::{Addr, Bytes32};

verus! {

/// Minimum ledger TTL bump applied to every persistent storage write
/// (about one year of five-second ledgers).
pub const LEDGER_BUMP: u32 = 6_307_200;

/// Maximum metadata size in bytes.
pub const MAX_METADATA_BYTES: u32 = 1024;

/// Number of storage shards commitments are distributed over.
pub const NUM_SHARDS: u32 = 16;

/// Maximum delegation chain depth.
pub const MAX_DELEGATION_DEPTH: u32 = 5;

/// PoW difficulty reported when none has been configured.
pub const DEFAULT_POW_DIFFICULTY: u32 = 4;

/// Failure outcomes of the registry's operations.
#[derive(Clone, Copy, Debug, PartialEq, Eq, Structural)]
pub enum ContractError {
    IpNotFound,
    ZeroCommitmentHash,
    CommitmentAlreadyRegistered,
    IpAlreadyRevoked,
    UnauthorizedUpgrade,
    Unauthorized,
    IpExpired,
    MetadataTooLarge,
    LicenseeNotFound,
    InsufficientPoW,
    InvalidExpiry,
    IpInDispute,
    CoOwnerNotFound,
    InvalidOwnershipPercentage,
    OnlyOwnerCanManageCoOwners,
    DisputeNotFound,
    DisputeAlreadyResolved,
    StakeNotFound,
    AlreadyStaked,
    StakeAlreadySlashed,
    ArbitrationNotFound,
    ArbitrationAlreadyFinalized,
    NotAnArbitrator,
}

impl ContractError {
    /// The numeric code of this error.
    pub open spec fn error_code(self) -> u32 {
        match self {
            ContractError::IpNotFound => 1,
            ContractError::ZeroCommitmentHash => 2,
            ContractError::CommitmentAlreadyRegistered => 3,
            ContractError::IpAlreadyRevoked => 4,
            ContractError::UnauthorizedUpgrade => 5,
            ContractError::Unauthorized => 6,
            ContractError::IpExpired => 7,
            ContractError::MetadataTooLarge => 8,
            ContractError::LicenseeNotFound => 9,
            ContractError::InsufficientPoW => 10,
            ContractError::InvalidExpiry => 11,
            ContractError::IpInDispute => 12,
            ContractError::CoOwnerNotFound => 13,
            ContractError::InvalidOwnershipPercentage => 14,
            ContractError::OnlyOwnerCanManageCoOwners => 15,
            ContractError::DisputeNotFound => 16,
            ContractError::DisputeAlreadyResolved => 17,
            ContractError::StakeNotFound => 18,
            ContractError::AlreadyStaked => 19,
            ContractError::StakeAlreadySlashed => 20,
            ContractError::ArbitrationNotFound => 21,
            ContractError::ArbitrationAlreadyFinalized => 22,
            ContractError::NotAnArbitrator => 23,
        }
    }

    /// The numeric code under which the contract reports this error.
    pub fn code(&self) -> (c: u32)
        ensures
            c == self.error_code(),
    {
        match self {
            ContractError::IpNotFound => 1,
            ContractError::ZeroCommitmentHash => 2,
            ContractError::CommitmentAlreadyRegistered => 3,
            ContractError::IpAlreadyRevoked => 4,
            ContractError::UnauthorizedUpgrade => 5,
            ContractError::Unauthorized => 6,
            ContractError::IpExpired => 7,
            ContractError::MetadataTooLarge => 8,
            ContractError::LicenseeNotFound => 9,
            ContractError::InsufficientPoW => 10,
            ContractError::InvalidExpiry => 11,
            ContractError::IpInDispute => 12,
            ContractError::CoOwnerNotFound => 13,
            ContractError::InvalidOwnershipPercentage => 14,
            ContractError::OnlyOwnerCanManageCoOwners => 15,
            ContractError::DisputeNotFound => 16,
            ContractError::DisputeAlreadyResolved => 17,
            ContractError::StakeNotFound => 18,
            ContractError::AlreadyStaked => 19,
            ContractError::StakeAlreadySlashed => 20,
            ContractError::ArbitrationNotFound => 21,
            ContractError::ArbitrationAlreadyFinalized => 22,
            ContractError::NotAnArbitrator => 23,
        }
    }
}

/// A timestamped IP commitment.
pub struct IpRecord {
    pub ip_id: u64,
    pub owner: Addr,
    pub commitment_hash: Bytes32,
    pub timestamp: u64,
    pub revoked: bool,
    pub co_owners: Vec<Addr>,
    pub parent_ip_id: Option<u64>,
    pub notary_signature: Option<Vec<u8>>,
}

/// The mathematical content of an [`IpRecord`].
pub ghost struct IpRecordView {
    pub ip_id: u64,
    pub owner: Addr,
    pub commitment_hash: Bytes32,
    pub timestamp: u64,
    pub revoked: bool,
    pub co_owners: Seq<Addr>,
    pub parent_ip_id: Option<u64>,
    pub notary_signature: Option<Seq<u8>>,
}

pub open spec fn opt_bytes_view(o: Option<Vec<u8>>) -> Option<Seq<u8>> {
    match o {
        Some(v) => Some(v@),
        None => None,
    }
}

impl View for IpRecord {
    type V = IpRecordView;

    open spec fn view(&self) -> IpRecordView {
        IpRecordView {
            ip_id: self.ip_id,
            owner: self.owner,
            commitment_hash: self.commitment_hash,
            timestamp: self.timestamp,
            revoked: self.revoked,
            co_owners: self.co_owners@,
            parent_ip_id: self.parent_ip_id,
            notary_signature: opt_bytes_view(self.notary_signature),
        }
    }
}

/// What an audit entry records.
#[derive(Clone, Copy, Debug, PartialEq, Eq, Structural)]
pub enum AuditAction {
    Committed,
    Transferred,
    Revoked,
    Merged,
}

/// One append-only audit entry of an IP.
#[derive(Clone, Copy, Debug, PartialEq, Eq, Structural)]
pub struct AuditEntry {
    pub action: AuditAction,
    pub actor: Addr,
    pub timestamp: u64,
}

/// A license granted on an IP.
#[derive(Clone, Copy, Debug)]
pub struct LicenseEntry {
    pub licensee: Addr,
    pub terms_hash: Bytes32,
}

/// A tiered access grant: 1 = view, 2 = verify, 3 = transfer.
#[derive(Clone, Copy, Debug, PartialEq, Eq, Structural)]
pub struct IpAccessGrant {
    pub grantee: Addr,
    pub access_level: u32,
}

/// A dispute raised against an IP.
#[derive(Clone, Copy, Debug)]
pub struct DisputeRecord {
    pub dispute_id: u64,
    pub ip_id: u64,
    pub challenger: Addr,
    pub evidence_hash: Bytes32,
    pub timestamp: u64,
    pub resolved: bool,
    pub winner: Option<Addr>,
}

/// A stake placed against an IP commitment.
#[derive(Clone, Copy, Debug, PartialEq, Eq, Structural)]
pub struct StakeRecord {
    pub ip_id: u64,
    pub owner: Addr,
    pub amount: i128,
    pub slashed: bool,
}

/// Reputation of an IP owner.
#[derive(Clone, Copy, Debug, PartialEq, Eq, Structural)]
pub struct ReputationRecord {
    pub owner: Addr,
    pub score: i64,
    pub commitments: u64,
    pub disputes_lost: u64,
}

/// An arbitration case over a dispute.
pub struct ArbitrationRecord {
    pub arbitration_id: u64,
    pub dispute_id: u64,
    pub arbitrators: Vec<Addr>,
    pub votes_owner: u32,
    pub votes_challenger: u32,
    pub finalized: bool,
    pub winner: Option<Addr>,
}

/// The mathematical content of an [`ArbitrationRecord`].
pub ghost struct ArbitrationView {
    pub arbitration_id: u64,
    pub dispute_id: u64,
    pub arbitrators: Seq<Addr>,
    pub votes_owner: u32,
    pub votes_challenger: u32,
    pub finalized: bool,
    pub winner: Option<Addr>,
}

impl View for ArbitrationRecord {
    type V = ArbitrationView;

    open spec fn view(&self) -> ArbitrationView {
        ArbitrationView {
            arbitration_id: self.arbitration_id,
            dispute_id: self.dispute_id,
            arbitrators: self.arbitrators@,
            votes_owner: self.votes_owner,
            votes_challenger: self.votes_challenger,
            finalized: self.finalized,
            winner: self.winner,
        }
    }
}

/// A delegate of an owner and the depth at which authority was granted.
#[derive(Clone, Copy, Debug, PartialEq, Eq, Structural)]
pub struct DelegationRecord {
    pub delegate: Addr,
    pub depth: u32,
}

/// A nonce-based ownership proof challenge.
#[derive(Clone, Copy, Debug)]
pub struct OwnershipChallenge {
    pub challenge_id: u64,
    pub ip_id: u64,
    pub challenger: Addr,
    pub nonce: Bytes32,
    pub response_hash: Option<Bytes32>,
    pub verified: bool,
    pub timestamp: u64,
}

/// An ownership share of a co-owned IP.
/// A claim raised against an IP with its evidence.
#[derive(Clone, Copy, Debug)]
pub struct IpDispute {
    pub ip_id: u64,
    pub claimant: Addr,
    pub evidence_hash: Bytes32,
    pub timestamp: u64,
    pub resolved: bool,
}

/// A third party's statement about an IP.
#[derive(Clone, Debug)]
pub struct Attestation {
    pub attestor: Addr,
    pub attestation_data: Vec<u8>,
    pub timestamp: u64,
}

/// A challenge to an IP, with its stated reason and resolution.
#[derive(Clone, Debug)]
pub struct IpChallenge {
    pub challenger: Addr,
    pub reason: Vec<u8>,
    pub timestamp: u64,
    pub resolved: bool,
    pub resolution: Vec<u8>,
}

#[derive(Clone, Copy, Debug, PartialEq, Eq, Structural)]
pub struct OwnershipShare {
    pub address: Addr,
    pub percentage: u32,
}

/// An anonymous commitment claimable by presenting its reveal token.
#[derive(Clone, Copy, Debug)]
pub struct AnonymousCommitment {
    pub commitment_hash: Bytes32,
    pub timestamp: u64,
    pub claimed: bool,
}

} // verus!
