//! Lifecycle tests for one quest instance: registration gated on custody
//! verification, settlement under the first-eligible allocation rule, and
//! deactivation.

use ggquest::effects::{CustodyQuery, TransferAction};
use ggquest::errors::QuestError;
use ggquest::quest::Contract;
use ggquest::reward::{CallbackAction, Reward, RewardType, Token};

fn s(x: &str) -> String {
    x.to_string()
}

fn ft_reward(ledger: &str, price: u128, count: u128) -> Reward {
    Reward {
        reward_type: RewardType::FT,
        reward_contract_account_id: s(ledger),
        token_amount: price,
        amount: count,
        id: None,
    }
}

fn nft_reward(ledger: &str, token_id: &str) -> Reward {
    Reward {
        reward_type: RewardType::NFT,
        reward_contract_account_id: s(ledger),
        token_amount: 1,
        amount: 1,
        id: Some(s(token_id)),
    }
}

fn new_quest() -> Contract {
    Contract::new(s("https://quests/0"), 5, s("profiles.test"), s("op.test"))
}

/// Confirms a fungible reward through the full submit-and-verify protocol.
fn confirm_ft(q: &mut Contract, ledger: &str, price: u128, count: u128) {
    let req = q
        .add_reward(&s("op.test"), ft_reward(ledger, price, count))
        .unwrap();
    let outcome = q
        .verify_ft_ownership_callback(
            req.action,
            req.reward,
            req.index,
            Some((price * count).to_string()),
        )
        .unwrap();
    assert!(outcome.verified);
}

#[test]
fn new_quest_is_inactive_and_empty() {
    let q = new_quest();
    assert!(!q.is_active);
    assert_eq!(q.get_reputation_reward(), 5);
    assert_eq!(q.get_quest_uri(), s("https://quests/0"));
    assert!(q.get_players().is_empty());
    assert!(q.get_rewards().is_empty());
    assert!(q.is_operator(&s("op.test")));
    assert!(!q.is_operator(&s("someone.test")));
}

#[test]
fn operator_set_grows_and_shrinks() {
    let mut q = new_quest();
    let log = q.add_operator(&s("op.test"), s("op2.test")).unwrap();
    assert_eq!(log.standard, "ggQuest");
    assert_eq!(log.version, "1.0.0");
    assert!(q.is_operator(&s("op2.test")));
    q.remove_operator(&s("op2.test"), s("op.test")).unwrap();
    assert!(!q.is_operator(&s("op.test")));
    assert!(q.is_operator(&s("op2.test")));
}

#[test]
fn operator_calls_require_capability() {
    let mut q = new_quest();
    assert_eq!(
        q.add_operator(&s("mallory.test"), s("mallory.test"))
            .unwrap_err(),
        QuestError::AuthorizationError
    );
    assert_eq!(
        q.add_reward(&s("mallory.test"), ft_reward("token.test", 5, 2))
            .unwrap_err(),
        QuestError::AuthorizationError
    );
    assert_eq!(
        q.activate_quest(&s("mallory.test")).unwrap_err(),
        QuestError::AuthorizationError
    );
    assert_eq!(
        q.deactivate_quest(&s("mallory.test"), &s("vault.test"))
            .unwrap_err(),
        QuestError::AuthorizationError
    );
}

#[test]
fn submission_issues_query_without_committing() {
    let q = new_quest();
    let req = q
        .add_reward(&s("op.test"), ft_reward("token.test", 5, 2))
        .unwrap();
    assert_eq!(req.action, CallbackAction::AddReward);
    assert!(req.index.is_none());
    assert!(matches!(
        req.query,
        CustodyQuery::FtBalanceOf { ref reward_contract_account_id }
            if reward_contract_account_id == "token.test"
    ));
    // Nothing is visible before the continuation runs.
    assert!(q.get_rewards().is_empty());
}

#[test]
fn ft_confirmation_with_exact_balance_commits() {
    let mut q = new_quest();
    let req = q
        .add_reward(&s("op.test"), ft_reward("token.test", 5, 2))
        .unwrap();
    let outcome = q
        .verify_ft_ownership_callback(req.action, req.reward, req.index, Some(s("10")))
        .unwrap();
    assert!(outcome.verified);
    assert!(!outcome.refund_attached);
    let log = outcome.event.unwrap();
    assert_eq!(log.standard, "ggQuest");
    let rewards = q.get_rewards();
    assert_eq!(rewards.len(), 1);
    assert_eq!(rewards[0].reward_contract_account_id, "token.test");
    assert_eq!(rewards[0].token_amount, 5);
    assert_eq!(rewards[0].amount, 2);
}

#[test]
fn ft_confirmation_with_short_balance_refunds_softly() {
    let mut q = new_quest();
    let req = q
        .add_reward(&s("op.test"), ft_reward("token.test", 5, 2))
        .unwrap();
    let outcome = q
        .verify_ft_ownership_callback(req.action, req.reward, req.index, Some(s("9")))
        .unwrap();
    assert!(!outcome.verified);
    assert!(outcome.refund_attached);
    assert!(outcome.event.is_none());
    assert!(q.get_rewards().is_empty());
}

#[test]
fn ft_callback_on_failed_call_reports_false() {
    let mut q = new_quest();
    let outcome = q
        .verify_ft_ownership_callback(
            CallbackAction::AddReward,
            ft_reward("token.test", 5, 2),
            None,
            None,
        )
        .unwrap();
    assert!(!outcome.verified);
    assert!(!outcome.refund_attached);
    assert!(q.get_rewards().is_empty());
}

#[test]
fn ft_callback_on_malformed_balance_aborts() {
    let mut q = new_quest();
    let r = q.verify_ft_ownership_callback(
        CallbackAction::AddReward,
        ft_reward("token.test", 5, 2),
        None,
        Some(s("12x")),
    );
    assert_eq!(r.unwrap_err(), QuestError::VerificationFailed);
    assert!(q.get_rewards().is_empty());
}

#[test]
fn duplicate_fingerprint_is_rejected() {
    let mut q = new_quest();
    confirm_ft(&mut q, "token.test", 5, 2);
    assert_eq!(
        q.add_reward(&s("op.test"), ft_reward("token.test", 9, 4))
            .unwrap_err(),
        QuestError::DuplicateReward
    );
    // A different ledger fingerprint is accepted.
    assert!(q
        .add_reward(&s("op.test"), ft_reward("other.test", 5, 2))
        .is_ok());
}

#[test]
fn submission_rejected_while_active() {
    let mut q = new_quest();
    q.activate_quest(&s("op.test")).unwrap();
    assert_eq!(
        q.add_reward(&s("op.test"), ft_reward("token.test", 5, 2))
            .unwrap_err(),
        QuestError::QuestAlreadyActive
    );
}

#[test]
fn activation_only_from_inactive() {
    let mut q = new_quest();
    q.activate_quest(&s("op.test")).unwrap();
    assert!(q.is_active);
    assert_eq!(
        q.activate_quest(&s("op.test")).unwrap_err(),
        QuestError::QuestAlreadyActive
    );
}

#[test]
fn settlement_requires_active_quest() {
    let mut q = new_quest();
    assert_eq!(
        q.send_reward(s("alice.test")).unwrap_err(),
        QuestError::QuestNotActive
    );
}

#[test]
fn settlement_with_no_rewards_exhausts() {
    let mut q = new_quest();
    q.activate_quest(&s("op.test")).unwrap();
    assert_eq!(
        q.send_reward(s("alice.test")).unwrap_err(),
        QuestError::ExhaustedRewards
    );
    assert!(q.get_players().is_empty());
}

#[test]
fn reward_for_two_serves_exactly_two() {
    let mut q = new_quest();
    confirm_ft(&mut q, "token.test", 5, 2);
    q.activate_quest(&s("op.test")).unwrap();
    // Participant A: amount 2 > 0 completed.
    assert!(q.send_reward(s("alice.test")).is_ok());
    // Participant B: amount 2 > 1 completed.
    assert!(q.send_reward(s("bob.test")).is_ok());
    // Participant C: amount 2 > 2 fails.
    assert_eq!(
        q.send_reward(s("carol.test")).unwrap_err(),
        QuestError::ExhaustedRewards
    );
    assert_eq!(q.get_players(), vec![s("alice.test"), s("bob.test")]);
}

#[test]
fn repeat_completion_always_rejected() {
    let mut q = new_quest();
    confirm_ft(&mut q, "token.test", 5, 3);
    q.activate_quest(&s("op.test")).unwrap();
    q.send_reward(s("alice.test")).unwrap();
    assert_eq!(
        q.send_reward(s("alice.test")).unwrap_err(),
        QuestError::AlreadyCompleted
    );
    assert_eq!(
        q.send_reward(s("alice.test")).unwrap_err(),
        QuestError::AlreadyCompleted
    );
    assert_eq!(q.get_players().len(), 1);
}

#[test]
fn settlement_picks_first_eligible_reward() {
    let mut q = new_quest();
    confirm_ft(&mut q, "small.test", 5, 1);
    confirm_ft(&mut q, "large.test", 7, 5);
    q.activate_quest(&s("op.test")).unwrap();
    let first = q.send_reward(s("alice.test")).unwrap();
    assert_eq!(first.reward.reward_contract_account_id, "small.test");
    // With one completion recorded, the first entry (amount 1) is no
    // longer eligible; the second is.
    let second = q.send_reward(s("bob.test")).unwrap();
    assert_eq!(second.reward.reward_contract_account_id, "large.test");
    assert!(matches!(
        second.transfer,
        TransferAction::Ft { ref reward_contract_account_id, ref receiver_id, amount }
            if reward_contract_account_id == "large.test"
                && receiver_id == "bob.test"
                && amount == 7
    ));
}

#[test]
fn settlement_outcome_carries_credit_and_event() {
    let mut q = new_quest();
    confirm_ft(&mut q, "token.test", 5, 2);
    q.activate_quest(&s("op.test")).unwrap();
    let outcome = q.send_reward(s("alice.test")).unwrap();
    assert_eq!(outcome.reputation_credit.gg_profiles, "profiles.test");
    assert_eq!(outcome.reputation_credit.account_id, "alice.test");
    assert_eq!(outcome.reputation_credit.amount, 5);
    assert_eq!(outcome.event.standard, "ggQuest");
}

#[test]
fn nft_submission_and_confirmation() {
    let mut q = new_quest();
    let req = q
        .add_reward(&s("op.test"), nft_reward("nft.test", "token-7"))
        .unwrap();
    assert!(matches!(
        req.query,
        CustodyQuery::NftToken { ref reward_contract_account_id, ref token_id }
            if reward_contract_account_id == "nft.test" && token_id == "token-7"
    ));
    let outcome = q
        .verify_nft_ownership_callback(
            req.action,
            req.reward,
            req.index,
            &s("quest-0.factory.test"),
            Some(Token {
                token_id: s("token-7"),
                owner_id: s("quest-0.factory.test"),
            }),
        )
        .unwrap();
    assert!(outcome.verified);
    assert_eq!(q.get_rewards().len(), 1);
}

#[test]
fn nft_confirmation_hard_failures() {
    let mut q = new_quest();
    // Wrong owner aborts.
    let r = q.verify_nft_ownership_callback(
        CallbackAction::AddReward,
        nft_reward("nft.test", "token-7"),
        None,
        &s("quest-0.factory.test"),
        Some(Token {
            token_id: s("token-7"),
            owner_id: s("thief.test"),
        }),
    );
    assert_eq!(r.unwrap_err(), QuestError::VerificationFailed);
    // A non-unit shape aborts even with the right owner.
    let mut fat = nft_reward("nft.test", "token-7");
    fat.amount = 2;
    let r = q.verify_nft_ownership_callback(
        CallbackAction::AddReward,
        fat,
        None,
        &s("quest-0.factory.test"),
        Some(Token {
            token_id: s("token-7"),
            owner_id: s("quest-0.factory.test"),
        }),
    );
    assert_eq!(r.unwrap_err(), QuestError::VerificationFailed);
    // A failed external call is soft.
    let r = q
        .verify_nft_ownership_callback(
            CallbackAction::AddReward,
            nft_reward("nft.test", "token-7"),
            None,
            &s("quest-0.factory.test"),
            None,
        )
        .unwrap();
    assert!(!r.verified);
    assert!(q.get_rewards().is_empty());
}

#[test]
fn deactivation_sweeps_every_reward_and_keeps_entries() {
    let mut q = new_quest();
    confirm_ft(&mut q, "token.test", 5, 2);
    confirm_ft(&mut q, "other.test", 3, 1);
    q.activate_quest(&s("op.test")).unwrap();
    let outcome = q.deactivate_quest(&s("op.test"), &s("vault.test")).unwrap();
    assert!(!q.is_active);
    assert_eq!(outcome.transfers.len(), 2);
    assert!(matches!(
        outcome.transfers[0],
        TransferAction::Ft { ref reward_contract_account_id, ref receiver_id, amount }
            if reward_contract_account_id == "token.test"
                && receiver_id == "vault.test"
                && amount == 5
    ));
    // The registry is not cleared by deactivation.
    assert_eq!(q.get_rewards().len(), 2);
}

#[test]
fn adjustment_reverifies_and_overwrites_in_place() {
    let mut q = new_quest();
    confirm_ft(&mut q, "token.test", 5, 2);
    let req = q
        .increase_reward_amount(&s("op.test"), 3, &ft_reward("token.test", 5, 2))
        .unwrap();
    assert_eq!(req.action, CallbackAction::IncreaseRewardAmount);
    assert_eq!(req.index, Some(0));
    // candidate = 2 + 3 - 0 completed participants.
    assert_eq!(req.reward.amount, 5);
    let outcome = q
        .verify_ft_ownership_callback(req.action, req.reward, req.index, Some(s("25")))
        .unwrap();
    assert!(outcome.verified);
    assert!(outcome.event.is_none());
    let rewards = q.get_rewards();
    assert_eq!(rewards.len(), 1);
    assert_eq!(rewards[0].amount, 5);
}

#[test]
fn adjustment_shortfall_leaves_entry_unchanged() {
    let mut q = new_quest();
    confirm_ft(&mut q, "token.test", 5, 2);
    let req = q
        .increase_reward_amount(&s("op.test"), 3, &ft_reward("token.test", 5, 2))
        .unwrap();
    // The candidate needs 5 × 5 = 25 in custody; 24 falls short.
    let outcome = q
        .verify_ft_ownership_callback(req.action, req.reward, req.index, Some(s("24")))
        .unwrap();
    assert!(!outcome.verified);
    assert!(outcome.refund_attached);
    assert_eq!(q.get_rewards()[0].amount, 2);
}

#[test]
fn adjustment_of_unknown_reward_fails() {
    let q = new_quest();
    assert_eq!(
        q.increase_reward_amount(&s("op.test"), 3, &ft_reward("token.test", 5, 2))
            .unwrap_err(),
        QuestError::InvalidReference
    );
}

#[test]
fn adjustment_bounds_are_checked() {
    let mut q = new_quest();
    confirm_ft(&mut q, "token.test", 5, 2);
    // An increase that would overflow the amount is refused before the
    // adjustment runs.
    assert!(q
        .checked_increase_reward_amount(&s("op.test"), u128::MAX, &ft_reward("token.test", 5, 2))
        .is_none());
    // A representable increase goes through.
    let r = q
        .checked_increase_reward_amount(&s("op.test"), 3, &ft_reward("token.test", 5, 2))
        .unwrap();
    assert_eq!(r.unwrap().reward.amount, 5);
}

#[test]
fn reward_hash_identifies_ledger_and_token() {
    let q = new_quest();
    let a = q.internal_reward_hash(ft_reward("token.test", 5, 2));
    let b = q.internal_reward_hash(ft_reward("token.test", 9, 7));
    let c = q.internal_reward_hash(ft_reward("other.test", 5, 2));
    let d = q.internal_reward_hash(nft_reward("token.test", "token-7"));
    assert_eq!(a.len(), 32);
    // The fingerprint depends on the ledger and token id alone.
    assert_eq!(a, b);
    assert_ne!(a, c);
    assert_ne!(a, d);
}
