//! External actions that the protocol's transitions ask the host to
//! perform.
//!
//! A transition never reaches another contract itself: it returns a value
//! describing the asynchronous call to issue — a custody query with its
//! continuation tag, a token transfer, a reputation credit — and the host
//! dispatches it. The outcome of a custody query is later handed back to
//! the matching continuation function.

use vstd::prelude::*;

use crate::reward::{CallbackAction, Reward};

verus! {

/// The custody check a reward submission issues against the reward's
/// ledger: a balance query for fungible rewards, an ownership query for
/// non-fungible ones. The queried account is always the quest instance
/// itself.
#[derive(Debug)]
pub enum CustodyQuery {
    FtBalanceOf { reward_contract_account_id: String },
    NftToken { reward_contract_account_id: String, token_id: String },
}

/// One issued custody-verification request: the query to send and the
/// values to echo into the continuation — the candidate reward, the action
/// to commit, and the registry index for an in-place adjustment.
#[derive(Debug)]
pub struct VerificationRequest {
    pub action: CallbackAction,
    pub reward: Reward,
    pub index: Option<usize>,
    pub query: CustodyQuery,
}

/// A fire-and-forget token transfer to issue; its outcome is never
/// observed.
#[derive(Debug)]
pub enum TransferAction {
    Ft { reward_contract_account_id: String, receiver_id: String, amount: u128 },
    Nft { reward_contract_account_id: String, receiver_id: String, token_id: String },
}

/// A best-effort reputation credit to issue against the profile ledger.
#[derive(Debug)]
pub struct ReputationCredit {
    pub gg_profiles: String,
    pub account_id: String,
    pub amount: u128,
}

/// A delegated operator change to issue against a quest instance.
#[derive(Debug)]
pub struct QuestAdminAction {
    pub quest: String,
    pub operator: String,
    pub grant: bool,
}

/// A best-effort operator grant to issue against the profile ledger.
#[derive(Debug)]
pub struct ProfilesGrant {
    pub gg_profiles: String,
    pub account_id: String,
}

/// A refund transfer to issue to a payer.
#[derive(Debug)]
pub struct ProvisionRefund {
    pub receiver_id: String,
    pub amount: u128,
}

} // verus!
