//! Structured notification records a quest instance emits after each
//! committing operation. The host appends them to its public log; off-chain
//! indexers consume them. Emission is best-effort and happens after commit.

use vstd::prelude::*;

use crate::reward::Reward;

verus! {

/// An operator was granted the capability.
#[derive(Debug)]
pub struct AddOperatorLog {
    pub operator: String,
}

/// An operator capability was revoked.
#[derive(Debug)]
pub struct RemoveOperatorLog {
    pub operator: String,
}

/// A reward definition was confirmed and became visible.
#[derive(Debug)]
pub struct AddRewardLog {
    pub reward: Reward,
}

/// A participant completed the quest and a reward was allocated.
#[derive(Debug)]
pub struct SendRewardLog {
    pub player: String,
    pub reward: Reward,
}

/// The reputation payout for completion was changed.
#[derive(Debug)]
pub struct UpdateReputationRewardLog {
    pub amount: u128,
}

/// The quest was deactivated and its custody swept.
#[derive(Debug)]
pub struct DeactivateQuestLog {
    pub withdrawal_account_id: String,
}

/// The event payload of one notification record.
#[derive(Debug)]
pub enum EventLogVariant {
    AddOperator(AddOperatorLog),
    RemoveOperator(RemoveOperatorLog),
    AddReward(AddRewardLog),
    SendReward(SendRewardLog),
    UpdateReputationReward(UpdateReputationRewardLog),
    ActivateQuest,
    DeactivateQuest(DeactivateQuestLog),
}

/// One versioned, append-only notification record.
#[derive(Debug)]
pub struct EventLog {
    pub standard: String,
    pub version: String,
    pub event: EventLogVariant,
}

} // verus!
