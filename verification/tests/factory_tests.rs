//! Tests for the quest deployment factory: the game registry, the
//! provisioning protocol, and the deploy-and-confirm continuation.

use ggquest::errors::QuestError;
use ggquest::factory::{Contract, NEAR_PER_STORAGE, DEPLOY_OVERHEAD};

fn s(x: &str) -> String {
    x.to_string()
}

fn new_factory() -> Contract {
    Contract::new(
        s("profiles.test"),
        s("https://quests/"),
        s("https://games/"),
        s("op.test"),
        vec![0u8; 10],
    )
}

fn required_deposit() -> u128 {
    10 * NEAR_PER_STORAGE + DEPLOY_OVERHEAD
}

#[test]
fn factory_new_factory_is_empty() {
    let f = new_factory();
    assert!(f.get_games().is_empty());
    assert!(f.get_quests().is_empty());
    assert!(f.is_operator(&s("op.test")));
    assert!(!f.is_operator(&s("someone.test")));
    assert_eq!(f.get_code(), &vec![0u8; 10]);
}

#[test]
fn factory_operator_set_grows_and_shrinks() {
    let mut f = new_factory();
    let log = f.add_operator(&s("op.test"), s("op2.test")).unwrap();
    assert_eq!(log.standard, "ggQuests");
    assert!(f.is_operator(&s("op2.test")));
    f.remove_operator(&s("op.test"), s("op2.test")).unwrap();
    assert!(!f.is_operator(&s("op2.test")));
    assert_eq!(
        f.add_operator(&s("mallory.test"), s("mallory.test"))
            .unwrap_err(),
        QuestError::AuthorizationError
    );
}

#[test]
fn games_get_sequential_ids() {
    let mut f = new_factory();
    let (id0, log0) = f.add_game(&s("op.test"), s("first game")).unwrap();
    let (id1, _) = f.add_game(&s("op.test"), s("second game")).unwrap();
    assert_eq!(id0, 0);
    assert_eq!(id1, 1);
    assert_eq!(f.get_games(), vec![s("first game"), s("second game")]);
    match log0.event {
        ggquest::factory::events::EventLogVariant::AddGame(l) => {
            assert_eq!(l.game_name, "first game");
            assert_eq!(l.game_id, 0);
        }
        _ => panic!("expected an AddGame record"),
    }
}

#[test]
fn game_metadata_url_appends_id() {
    let mut f = new_factory();
    f.add_game(&s("op.test"), s("first game")).unwrap();
    assert_eq!(f.get_url_metadata(0).unwrap(), s("https://games/0"));
    assert_eq!(
        f.get_url_metadata(1).unwrap_err(),
        QuestError::InvalidReference
    );
}

#[test]
fn provisioning_rejects_insufficient_payment() {
    let mut f = new_factory();
    f.add_game(&s("op.test"), s("first game")).unwrap();
    let r = f.create_quest(
        &s("op.test"),
        5,
        0,
        required_deposit() - 1,
        &s("factory.test"),
    );
    assert_eq!(r.unwrap_err(), QuestError::InsufficientPayment);
    // Nothing was dispatched or registered.
    assert!(f.get_quests().is_empty());
}

#[test]
fn provisioning_request_carries_child_and_refund() {
    let mut f = new_factory();
    f.add_game(&s("op.test"), s("first game")).unwrap();
    assert_eq!(
        f.create_quest(&s("op.test"), 5, 3, required_deposit(), &s("factory.test"))
            .unwrap_err(),
        QuestError::InvalidReference
    );
    let req = f
        .create_quest(&s("op.test"), 5, 0, required_deposit() + 7, &s("factory.test"))
        .unwrap();
    assert_eq!(req.subaccount, s("quest-0.factory.test"));
    assert_eq!(req.refund, Some(7));
    assert_eq!(req.transfer_amount, required_deposit() + 7);
    assert_eq!(req.init_args.metadata_url, s("https://quests/0"));
    assert_eq!(req.init_args.reputation_reward, 5);
    assert_eq!(req.init_args.profiles_contract, s("profiles.test"));
    assert_eq!(req.game_id, 0);
    assert_eq!(req.payer, s("op.test"));
    // An exact payment leaves nothing to refund.
    let exact = f
        .create_quest(&s("op.test"), 5, 0, required_deposit(), &s("factory.test"))
        .unwrap();
    assert_eq!(exact.refund, None);
}

#[test]
fn deployment_success_commits_registry_entry() {
    let mut f = new_factory();
    f.add_game(&s("op.test"), s("first game")).unwrap();
    let commit = f
        .create_quest_callback(
            &s("quest-0.factory.test"),
            0,
            &s("op.test"),
            required_deposit(),
            true,
        )
        .unwrap();
    assert_eq!(commit.quest_id, 0);
    assert_eq!(commit.grant.gg_profiles, "profiles.test");
    assert_eq!(commit.grant.account_id, "quest-0.factory.test");
    assert_eq!(f.get_quests(), vec![s("quest-0.factory.test")]);
    assert_eq!(
        f.get_quest_address(0).unwrap(),
        s("quest-0.factory.test")
    );
    // A second quest gets the next id.
    let commit = f
        .create_quest_callback(
            &s("quest-1.factory.test"),
            0,
            &s("op.test"),
            required_deposit(),
            true,
        )
        .unwrap();
    assert_eq!(commit.quest_id, 1);
    assert_eq!(f.get_quests().len(), 2);
}

#[test]
fn deployment_failure_refunds_in_full() {
    let mut f = new_factory();
    f.add_game(&s("op.test"), s("first game")).unwrap();
    let attached = required_deposit() + 7;
    let (refund, err) = f
        .create_quest_callback(&s("quest-0.factory.test"), 0, &s("payer.test"), attached, false)
        .unwrap_err();
    assert_eq!(err, QuestError::DeploymentFailed);
    assert_eq!(refund.receiver_id, "payer.test");
    assert_eq!(refund.amount, attached);
    // The registry length is unchanged.
    assert!(f.get_quests().is_empty());
}

#[test]
fn quest_operator_changes_are_delegated() {
    let mut f = new_factory();
    f.add_game(&s("op.test"), s("first game")).unwrap();
    f.create_quest_callback(&s("quest-0.factory.test"), 0, &s("op.test"), 0, true)
        .unwrap();
    let grant = f
        .add_quest_operator(&s("op.test"), 0, s("op2.test"))
        .unwrap();
    assert_eq!(grant.quest, "quest-0.factory.test");
    assert_eq!(grant.operator, "op2.test");
    assert!(grant.grant);
    let revoke = f
        .remove_quest_operator(&s("op.test"), 0, s("op2.test"))
        .unwrap();
    assert!(!revoke.grant);
    assert_eq!(
        f.add_quest_operator(&s("op.test"), 9, s("op2.test"))
            .unwrap_err(),
        QuestError::InvalidReference
    );
}

#[test]
fn stored_code_can_be_replaced() {
    let mut f = new_factory();
    f.update_stored_contract(vec![1, 2, 3]);
    assert_eq!(f.get_code(), &vec![1, 2, 3]);
}

#[test]
fn quest_uri_query_and_callback() {
    let mut f = new_factory();
    f.add_game(&s("op.test"), s("first game")).unwrap();
    f.create_quest_callback(&s("quest-0.factory.test"), 0, &s("op.test"), 0, true)
        .unwrap();
    assert_eq!(f.get_quest_uri(0).unwrap(), s("quest-0.factory.test"));
    assert_eq!(
        f.get_quest_uri(5).unwrap_err(),
        QuestError::InvalidReference
    );
    assert_eq!(
        f.get_quest_uri_callback(Some(s("https://quests/0"))),
        s("https://quests/0")
    );
    assert_eq!(f.get_quest_uri_callback(None), s("Error"));
}
