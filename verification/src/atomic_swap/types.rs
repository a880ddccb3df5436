//! Records, errors and event payloads of the swap marketplace.
use vstd::prelude::*;
use crate::common::Addr;

verus! {

/// Failure outcomes of the marketplace's operations.
#[derive(Clone, Copy, Debug, PartialEq, Eq, Structural)]
pub enum ContractError {
    SwapNotFound,
    InvalidKey,
    PriceTooSmall,
    NotIPOwner,
    SwapExists,
    NotPending,
    OnlySellerReveal,
    NotAccepted,
    OnlySellerBuyer,
    OnlyPending,
    NotInAccepted,
    OnlyBuyerCancel,
    NotExpired,
    IpRevoked,
    UnauthorizedUpg,
    InvalidFeeBps,
    DisputeExpired,
    OnlyBuyerDispute,
    NotDisputed,
    OnlyAdminResolve,
    Paused,
    AlreadyInit,
    Unauthorized,
    NotInitialized,
    PendingNotExpired,
    ExpiryNotGreater,
    NeedApprovals,
    AlreadyApproved,
    SchemaNotGreater,
    MissingFunc,
    FuncChanged,
    InsufficientReputation,
    ArbitrationNotTimedOut,
    NotAllSigned,
    AlreadySigned,
    NotARequiredSigner,
    RollbackWindowExpired,
    OracleNotConfigured,
    OraclePriceInvalid,
    OraclePriceBelowMin,
    OraclePriceAboveMax,
    ConditionNotMet,
}

impl ContractError {
    /// The numeric code of this error.
    pub open spec fn error_code(self) -> u32 {
        match self {
            ContractError::SwapNotFound => 1,
            ContractError::InvalidKey => 2,
            ContractError::PriceTooSmall => 3,
            ContractError::NotIPOwner => 4,
            ContractError::SwapExists => 5,
            ContractError::NotPending => 6,
            ContractError::OnlySellerReveal => 7,
            ContractError::NotAccepted => 8,
            ContractError::OnlySellerBuyer => 9,
            ContractError::OnlyPending => 10,
            ContractError::NotInAccepted => 11,
            ContractError::OnlyBuyerCancel => 12,
            ContractError::NotExpired => 13,
            ContractError::IpRevoked => 14,
            ContractError::UnauthorizedUpg => 15,
            ContractError::InvalidFeeBps => 16,
            ContractError::DisputeExpired => 17,
            ContractError::OnlyBuyerDispute => 18,
            ContractError::NotDisputed => 19,
            ContractError::OnlyAdminResolve => 20,
            ContractError::Paused => 21,
            ContractError::AlreadyInit => 22,
            ContractError::Unauthorized => 23,
            ContractError::NotInitialized => 24,
            ContractError::PendingNotExpired => 25,
            ContractError::ExpiryNotGreater => 26,
            ContractError::NeedApprovals => 27,
            ContractError::AlreadyApproved => 28,
            ContractError::SchemaNotGreater => 29,
            ContractError::MissingFunc => 30,
            ContractError::FuncChanged => 31,
            ContractError::InsufficientReputation => 40,
            ContractError::ArbitrationNotTimedOut => 41,
            ContractError::NotAllSigned => 42,
            ContractError::AlreadySigned => 43,
            ContractError::NotARequiredSigner => 44,
            ContractError::RollbackWindowExpired => 45,
            ContractError::OracleNotConfigured => 46,
            ContractError::OraclePriceInvalid => 47,
            ContractError::OraclePriceBelowMin => 48,
            ContractError::OraclePriceAboveMax => 49,
            ContractError::ConditionNotMet => 50,
        }
    }

    /// The numeric code under which the contract reports this error.
    pub fn code(&self) -> (c: u32)
        ensures
            c == self.error_code(),
    {
        match self {
            ContractError::SwapNotFound => 1,
            ContractError::InvalidKey => 2,
            ContractError::PriceTooSmall => 3,
            ContractError::NotIPOwner => 4,
            ContractError::SwapExists => 5,
            ContractError::NotPending => 6,
            ContractError::OnlySellerReveal => 7,
            ContractError::NotAccepted => 8,
            ContractError::OnlySellerBuyer => 9,
            ContractError::OnlyPending => 10,
            ContractError::NotInAccepted => 11,
            ContractError::OnlyBuyerCancel => 12,
            ContractError::NotExpired => 13,
            ContractError::IpRevoked => 14,
            ContractError::UnauthorizedUpg => 15,
            ContractError::InvalidFeeBps => 16,
            ContractError::DisputeExpired => 17,
            ContractError::OnlyBuyerDispute => 18,
            ContractError::NotDisputed => 19,
            ContractError::OnlyAdminResolve => 20,
            ContractError::Paused => 21,
            ContractError::AlreadyInit => 22,
            ContractError::Unauthorized => 23,
            ContractError::NotInitialized => 24,
            ContractError::PendingNotExpired => 25,
            ContractError::ExpiryNotGreater => 26,
            ContractError::NeedApprovals => 27,
            ContractError::AlreadyApproved => 28,
            ContractError::SchemaNotGreater => 29,
            ContractError::MissingFunc => 30,
            ContractError::FuncChanged => 31,
            ContractError::InsufficientReputation => 40,
            ContractError::ArbitrationNotTimedOut => 41,
            ContractError::NotAllSigned => 42,
            ContractError::AlreadySigned => 43,
            ContractError::NotARequiredSigner => 44,
            ContractError::RollbackWindowExpired => 45,
            ContractError::OracleNotConfigured => 46,
            ContractError::OraclePriceInvalid => 47,
            ContractError::OraclePriceBelowMin => 48,
            ContractError::OraclePriceAboveMax => 49,
            ContractError::ConditionNotMet => 50,
        }
    }
}

/// Lifecycle state of a swap.
#[derive(Clone, Copy, Debug, PartialEq, Eq, Structural)]
pub enum SwapStatus {
    Pending,
    Accepted,
    Completed,
    Disputed,
    Cancelled,
    RolledBack,
}

impl SwapStatus {
    /// Whether a swap in this state still holds its IP: it is pending,
    /// accepted or disputed.
    pub open spec fn is_open(self) -> bool {
        self is Pending || self is Accepted || self is Disputed
    }
}

/// A condition the buyer attaches when accepting.
#[derive(Clone, Copy, Debug, PartialEq, Eq, Structural)]
pub enum SwapCondition {
    KeyValid,
    PriceBelow(i128),
    TimeAfter(u64),
}

/// Whether a swap settles atomically or through a buyer deposit.
#[derive(Clone, Copy, Debug, PartialEq, Eq, Structural)]
pub enum SwapMode {
    Atomic,
    Escrow,
}

/// One state transition in a swap's audit trail.
#[derive(Clone, Copy, Debug, PartialEq, Eq, Structural)]
pub struct SwapHistoryEntry {
    pub status: SwapStatus,
    pub timestamp: u64,
}

/// One instalment of a scheduled payment plan.
#[derive(Clone, Copy, Debug, PartialEq, Eq, Structural)]
pub struct PaymentSchedule {
    pub due_timestamp: u64,
    pub amount: i128,
}

/// Payload of the event for a swap that completed on key reveal.
#[derive(Clone, Copy, Debug, PartialEq, Eq, Structural)]
pub struct KeyRevealedEvent {
    pub swap_id: u64,
    pub seller_amount: i128,
    pub fee_amount: i128,
}

/// Payload of the event for a raised dispute.
#[derive(Clone, Copy, Debug, PartialEq, Eq, Structural)]
pub struct DisputeRaisedEvent {
    pub swap_id: u64,
}

/// Payload of the event for a resolved dispute.
#[derive(Clone, Copy, Debug, PartialEq, Eq, Structural)]
pub struct DisputeResolvedEvent {
    pub swap_id: u64,
    pub refunded: bool,
}

/// Payload of the event for an extended pending expiry.
#[derive(Clone, Copy, Debug, PartialEq, Eq, Structural)]
pub struct SwapExpiryExtendedEvent {
    pub swap_id: u64,
    pub old_expiry: u64,
    pub new_expiry: u64,
}

/// Payload of the event for one scheduled payment.
#[derive(Clone, Copy, Debug, PartialEq, Eq, Structural)]
pub struct ScheduledPaymentMadeEvent {
    pub swap_id: u64,
    pub payment_index: u32,
    pub amount: i128,
    pub remaining_payments: u32,
}

/// Payload of the event for a rolled-back swap.
#[derive(Clone, Copy, Debug, PartialEq, Eq, Structural)]
pub struct SwapRolledBackEvent {
    pub swap_id: u64,
    pub buyer_refund: i128,
    pub treasury_penalty: i128,
}

/// Payload of the event for a swap priced by the oracle.
#[derive(Clone, Copy, Debug, PartialEq, Eq, Structural)]
pub struct OraclePriceUsedEvent {
    pub swap_id: u64,
    pub oracle_price: i128,
}

/// Per-swap settlement of a batch reveal.
#[derive(Clone, Copy, Debug, PartialEq, Eq, Structural)]
pub struct SwapFeeBreakdown {
    pub swap_id: u64,
    pub price: i128,
    pub protocol_fee: i128,
    pub referral_fee: i128,
    pub seller_amount: i128,
}

/// Payload of the event for collateral the buyer deposits on acceptance.
#[derive(Clone, Copy, Debug, PartialEq, Eq, Structural)]
pub struct CollateralDepositedEvent {
    pub swap_id: u64,
    pub buyer: Addr,
    pub collateral_amount: i128,
}

/// Payload of the event for collateral returned when a swap completes.
#[derive(Clone, Copy, Debug, PartialEq, Eq, Structural)]
pub struct CollateralReleasedEvent {
    pub swap_id: u64,
    pub buyer: Addr,
    pub collateral_amount: i128,
}

/// Payload of the event for collateral refunded when a swap is undone.
#[derive(Clone, Copy, Debug, PartialEq, Eq, Structural)]
pub struct CollateralRefundedEvent {
    pub swap_id: u64,
    pub buyer: Addr,
    pub collateral_amount: i128,
}

/// A token movement the contract must perform for an operation, in order.
#[derive(Clone, Copy, Debug, PartialEq, Eq, Structural)]
pub struct Transfer {
    pub token: Addr,
    pub from: Addr,
    pub to: Addr,
    pub amount: i128,
}

/// Fee schedule and time limits the marketplace settles with.
#[derive(Clone, Copy, Debug, PartialEq, Eq, Structural)]
pub struct ProtocolConfig {
    pub protocol_fee_bps: u32,
    pub treasury: Addr,
    pub dispute_window_seconds: u64,
    pub dispute_timeout_secs: u64,
    pub referral_fee_bps: u32,
    /// How long after arbitration is requested an auto-refund is allowed.
    pub arbitration_timeout_seconds: u64,
}

/// Where swap prices may be read from.
#[derive(Clone, Copy, Debug, PartialEq, Eq, Structural)]
pub struct OracleConfig {
    pub oracle_address: Addr,
    pub enabled: bool,
}

/// A price change proposed by the seller of a pending swap.
#[derive(Clone, Copy, Debug, PartialEq, Eq, Structural)]
pub struct RenegotiationOffer {
    pub new_price: i128,
    pub proposer: Addr,
    pub timestamp: u64,
}

/// An English auction of an IP.
#[derive(Clone, Copy, Debug, PartialEq, Eq, Structural)]
pub struct AuctionRecord {
    pub auction_id: u64,
    pub ip_id: u64,
    pub seller: Addr,
    pub token: Addr,
    pub min_bid: i128,
    pub highest_bid: i128,
    pub highest_bidder: Option<Addr>,
    pub start_time: u64,
    pub end_time: u64,
    pub finalized: bool,
}

/// A sale of an IP for a token amount.
pub struct SwapRecord {
    pub ip_id: u64,
    pub seller: Addr,
    pub buyer: Addr,
    pub price: i128,
    pub token: Addr,
    pub status: SwapStatus,
    /// After this time a Pending swap may be cancelled by the buyer (and an
    /// Accepted one refunded).
    pub expiry: u64,
    pub accept_timestamp: u64,
    /// Approvals needed before the buyer may accept.
    pub required_approvals: u32,
    /// When a dispute was raised (zero if none).
    pub dispute_timestamp: u64,
    pub referrer: Option<Addr>,
    /// Collateral the buyer deposits on acceptance (zero if none).
    pub collateral_amount: i128,
    /// Insurance premium the buyer pays on acceptance (zero if none).
    pub insurance_premium: i128,
    pub insurance_enabled: bool,
    pub escrow_agent: Option<Addr>,
    /// Quantity available for partial acceptance.
    pub quantity: u32,
    /// Conditions the buyer attached on acceptance.
    pub conditions: Vec<SwapCondition>,
    /// Paid so far through instalments.
    pub paid_amount: i128,
    pub is_installment: bool,
}

/// The mathematical content of a [`SwapRecord`].
pub ghost struct SwapRecordView {
    pub ip_id: u64,
    pub seller: Addr,
    pub buyer: Addr,
    pub price: i128,
    pub token: Addr,
    pub status: SwapStatus,
    pub expiry: u64,
    pub accept_timestamp: u64,
    pub required_approvals: u32,
    pub dispute_timestamp: u64,
    pub referrer: Option<Addr>,
    pub collateral_amount: i128,
    pub insurance_premium: i128,
    pub insurance_enabled: bool,
    pub escrow_agent: Option<Addr>,
    pub quantity: u32,
    pub conditions: Seq<SwapCondition>,
    pub paid_amount: i128,
    pub is_installment: bool,
}

impl View for SwapRecord {
    type V = SwapRecordView;

    open spec fn view(&self) -> SwapRecordView {
        SwapRecordView {
            ip_id: self.ip_id,
            seller: self.seller,
            buyer: self.buyer,
            price: self.price,
            token: self.token,
            status: self.status,
            expiry: self.expiry,
            accept_timestamp: self.accept_timestamp,
            required_approvals: self.required_approvals,
            dispute_timestamp: self.dispute_timestamp,
            referrer: self.referrer,
            collateral_amount: self.collateral_amount,
            insurance_premium: self.insurance_premium,
            insurance_enabled: self.insurance_enabled,
            escrow_agent: self.escrow_agent,
            quantity: self.quantity,
            conditions: self.conditions@,
            paid_amount: self.paid_amount,
            is_installment: self.is_installment,
        }
    }
}

impl SwapRecord {
    /// A copy of this record.
    pub fn copy(&self) -> (r: SwapRecord)
        ensures
            r@ == self@,
    {
        SwapRecord {
            ip_id: self.ip_id,
            seller: self.seller,
            buyer: self.buyer,
            price: self.price,
            token: self.token,
            status: self.status,
            expiry: self.expiry,
            accept_timestamp: self.accept_timestamp,
            required_approvals: self.required_approvals,
            dispute_timestamp: self.dispute_timestamp,
            referrer: self.referrer,
            collateral_amount: self.collateral_amount,
            insurance_premium: self.insurance_premium,
            insurance_enabled: self.insurance_enabled,
            escrow_agent: self.escrow_agent,
            quantity: self.quantity,
            conditions: crate::common::copy_vec(&self.conditions),
            paid_amount: self.paid_amount,
            is_installment: self.is_installment,
        }
    }
}

} // verus!
