//! Error kinds shared by the quest instance, the factory, and the rent
//! accounting. Every fatal condition in a transition surfaces as one of
//! these; the host shell aborts the call when it receives one.

use vstd::prelude::*;

verus! {

/// Why a state transition refused to run. Each variant is returned on an
/// exactly specified set of inputs; a transition that returns an error
/// leaves the state unchanged.
#[derive(Clone, Copy, Debug, PartialEq, Eq, Structural)]
pub enum QuestError {
    /// The caller does not hold the operator capability.
    AuthorizationError,
    /// A confirmed reward with the same fingerprint already exists.
    DuplicateReward,
    /// A non-fungible custody or shape check failed (hard failure).
    VerificationFailed,
    /// No confirmed reward is eligible for the completing participant.
    ExhaustedRewards,
    /// The participant already completed this quest.
    AlreadyCompleted,
    /// The attached payment does not cover the storage-rent cost.
    InsufficientPayment,
    /// Child-contract provisioning reported failure.
    DeploymentFailed,
    /// Unknown quest or game id, or a missing adjustment target.
    InvalidReference,
    /// Settlement was attempted while the quest is inactive.
    QuestNotActive,
    /// Activation was attempted while the quest is already active.
    QuestAlreadyActive,
}

} // verus!
