//! Plain value types shared with the runtime side of the node.

use vstd::prelude::*;

verus! {

/// Type for balance values.
pub type Balance = u128;

/// Asset identifier.
pub type AssetId = u32;

/// Fee calculation primitive.
#[derive(Clone, Copy, Debug, PartialEq, Eq, Structural)]
pub struct Fee {
    /// Base fee.
    pub base: Balance,
    /// Fee multiplier based on network congestion.
    pub multiplier: u32,
    /// Additional fee for complex operations.
    pub complexity: u32,
}

/// Reasons for jailing a validator.
#[derive(Clone, Copy, Debug, PartialEq, Eq, Structural)]
pub enum JailReason {
    /// Validator was offline.
    Offline,
    /// Validator equivocated.
    Equivocation,
    /// Validator had poor performance.
    PoorPerformance,
    /// Validator violated protocol rules.
    ProtocolViolation,
}

/// Validator status.
#[derive(Clone, Copy, Debug, PartialEq, Eq, Structural)]
pub enum ValidatorStatus {
    /// Validator is active.
    Active,
    /// Validator is inactive.
    Inactive,
    /// Validator is jailed.
    Jailed {
        /// Reason for being jailed.
        reason: JailReason,
        /// Block number when jailing expires.
        until: u32,
    },
}

/// Bridge message types.
#[derive(Clone, Debug, PartialEq, Eq)]
pub enum BridgeMessage {
    /// Transfer assets between chains.
    Transfer {
        /// Asset being transferred.
        asset: AssetId,
        /// Amount being transferred.
        amount: Balance,
        /// Recipient on target chain.
        recipient: Vec<u8>,
        /// Target chain identifier.
        target_chain: u32,
    },
    /// Execute contract call on target chain.
    ContractCall {
        /// Target contract address.
        contract: Vec<u8>,
        /// Call data.
        data: Vec<u8>,
        /// Gas limit.
        gas_limit: u64,
        /// Target chain identifier.
        target_chain: u32,
    },
}

/// Emergency actions.
#[derive(Clone, Debug, PartialEq, Eq)]
pub enum EmergencyAction {
    /// Pause specific functionality.
    Pause(Vec<u8>),
    /// Resume specific functionality.
    Resume(Vec<u8>),
    /// Set emergency contact.
    SetEmergencyContact {
        /// Contact information.
        contact: Vec<u8>,
    },
}

/// Types of governance actions.
#[derive(Clone, Debug, PartialEq, Eq)]
pub enum ProposalAction {
    /// Change runtime parameter.
    Parameter {
        /// Name of parameter.
        name: Vec<u8>,
        /// New value.
        value: Vec<u8>,
    },
    /// Upgrade runtime.
    Upgrade {
        /// New runtime code.
        code: Vec<u8>,
    },
    /// Emergency action.
    Emergency {
        /// Action to take.
        action: EmergencyAction,
    },
}

/// Governance proposal.
#[derive(Clone, Debug, PartialEq, Eq)]
pub struct Proposal {
    /// Proposal title.
    pub title: Vec<u8>,
    /// Proposal description.
    pub description: Vec<u8>,
    /// Proposed action.
    pub action: ProposalAction,
    /// Block when voting ends.
    pub end_block: u32,
    /// Required participation rate (0-100).
    pub participation_requirement: u32,
    /// Required approval rate (0-100).
    pub approval_requirement: u32,
}

} // verus!
