//! The quest deployment factory: an append-only registry of games and
//! quest instances, and the provisioning protocol that deploys a child
//! contract and commits its registry entry only in the success
//! continuation.

pub mod events;

use vstd::prelude::*;
use vstd::string::StringExecFns;

use crate::accounts::{contains_string, distinct_views, lemma_remove_at_unique, lemma_to_set_push};
use crate::effects::{ProfilesGrant, ProvisionRefund, QuestAdminAction};
use crate::errors::QuestError;
use crate::factory::events::{
    AddGameLog, AddOperatorLog, CreateQuestLog, EventLog, EventLogVariant, RemoveOperatorLog,
};
use crate::text::{spec_child_account, spec_dec_digits, u64_to_dec_string, valid_account_id};
use crate::text::make_child_account;

verus! {

/// Rent per byte of stored contract code, in the ledger's smallest unit.
pub const NEAR_PER_STORAGE: u128 = 10_000_000_000_000_000_000;

/// Fixed overhead attached on top of the code rent, reserved for the
/// storage the success continuation writes.
pub const DEPLOY_OVERHEAD: u128 = 2_360_000_000_000_000_000_000;

/// The attached payment a provisioning call must reach: rent proportional
/// to the stored code size plus the fixed overhead.
pub open spec fn required_provision_deposit(code_len: nat) -> int {
    code_len * NEAR_PER_STORAGE + DEPLOY_OVERHEAD
}

/// The mathematical value of the factory.
pub ghost struct FactoryView {
    pub operators: Set<Seq<char>>,
    pub profiles: Seq<char>,
    /// Registered quest instances, by quest id.
    pub quests: Seq<Seq<char>>,
    pub quests_metadata_base_uri: Seq<char>,
    /// Registered game names, by game id.
    pub games: Seq<Seq<char>>,
    pub games_metadata_base_uri: Seq<char>,
    /// The quest ids provisioned under each game, in creation order.
    pub game_id_to_quest_ids: Seq<Seq<usize>>,
    /// The game each quest was provisioned under.
    pub quest_id_to_game_id: Seq<usize>,
    pub quest_contract_code: Seq<u8>,
}

impl FactoryView {
    /// Whether this identity holds the operator capability.
    pub open spec fn is_operator(self, account_id: Seq<char>) -> bool {
        self.operators.contains(account_id)
    }

    /// The two registry indexes agree: each side lists only ids the other
    /// confirms, and every quest stands in its game's list.
    pub open spec fn index_consistent(self) -> bool {
        &&& self.game_id_to_quest_ids.len() == self.games.len()
        &&& self.quest_id_to_game_id.len() == self.quests.len()
        &&& forall|q: int|
            0 <= q < self.quest_id_to_game_id.len() ==> (#[trigger] self.quest_id_to_game_id[q])
                < self.games.len()
        &&& forall|g: int, k: int|
            0 <= g < self.game_id_to_quest_ids.len() && 0 <= k < self.game_id_to_quest_ids[g].len()
                ==> (#[trigger] self.game_id_to_quest_ids[g][k]) < self.quests.len()
                && self.quest_id_to_game_id[self.game_id_to_quest_ids[g][k] as int] == g
        &&& forall|q: int|
            0 <= q < self.quest_id_to_game_id.len()
                ==> #[trigger] self.game_id_to_quest_ids[self.quest_id_to_game_id[q] as int].contains(
                q as usize,
            )
    }
}

/// Whether a notification record carries this factory standard's name and
/// version.
pub open spec fn labeled_log(log: EventLog) -> bool {
    log.standard@ == "ggQuests"@ && log.version@ == "1.0.0"@
}

/// The initializer arguments handed to a freshly deployed quest instance.
#[derive(Debug)]
pub struct QuestInitArgs {
    pub metadata_url: String,
    pub reputation_reward: u128,
    pub profiles_contract: String,
}

/// One issued provisioning operation: create the child identity, transfer
/// the attached payment, deploy the stored code, call its initializer, and
/// hand the echoed values to the deployment continuation.
#[derive(Debug)]
pub struct ProvisionRequest {
    pub subaccount: String,
    /// The excess payment to refund to the payer before dispatch, if any.
    pub refund: Option<u128>,
    /// The funds transferred to the child: the full attached payment.
    pub transfer_amount: u128,
    pub init_args: QuestInitArgs,
    pub game_id: usize,
    pub payer: String,
    pub attached: u128,
}

/// What a successful deployment continuation commits: the assigned quest
/// id, the operator grant to issue on the profile ledger, and the
/// `CreateQuest` record.
#[derive(Debug)]
pub struct ProvisionCommit {
    pub quest_id: usize,
    pub grant: ProfilesGrant,
    pub event: EventLog,
}

/// The quest deployment factory.
pub struct Contract {
    pub operators: Vec<String>,
    pub profiles: String,
    pub quests: Vec<String>,
    pub quests_metadata_base_uri: String,
    pub games: Vec<String>,
    pub games_metadata_base_uri: String,
    pub game_id_to_quest_ids: Vec<Vec<usize>>,
    pub quest_id_to_game_id: Vec<usize>,
    pub quest_contract_code: Vec<u8>,
}

impl View for Contract {
    type V = FactoryView;

    open spec fn view(&self) -> FactoryView {
        FactoryView {
            operators: self.operators@.map_values(|s: String| s@).to_set(),
            profiles: self.profiles@,
            quests: self.quests@.map_values(|s: String| s@),
            quests_metadata_base_uri: self.quests_metadata_base_uri@,
            games: self.games@.map_values(|s: String| s@),
            games_metadata_base_uri: self.games_metadata_base_uri@,
            game_id_to_quest_ids: self.game_id_to_quest_ids@.map_values(|v: Vec<usize>| v@),
            quest_id_to_game_id: self.quest_id_to_game_id@,
            quest_contract_code: self.quest_contract_code@,
        }
    }
}

impl Contract {
    /// Structural well-formedness: operator identities listed once, and
    /// the two registry indexes consistent.
    pub open spec fn wf(&self) -> bool {
        &&& distinct_views(self.operators@)
        &&& self@.index_consistent()
    }

    /// Creates a factory: empty registries, the deploying caller as its
    /// only operator, and the given quest code stored for deployment.
    pub fn new(
        profiles_contract: String,
        quests_metadata_base_uri: String,
        games_metadata_base_uri: String,
        caller: String,
        quest_contract_code: Vec<u8>,
    ) -> (c: Contract)
        ensures
            c.wf(),
            c@.profiles == profiles_contract@,
            c@.quests_metadata_base_uri == quests_metadata_base_uri@,
            c@.games_metadata_base_uri == games_metadata_base_uri@,
            c@.operators =~= Set::<Seq<char>>::empty().insert(caller@),
            c@.quests =~= Seq::<Seq<char>>::empty(),
            c@.games =~= Seq::<Seq<char>>::empty(),
            c@.quest_contract_code == quest_contract_code@,
    {
        let mut operators: Vec<String> = Vec::new();
        operators.push(caller);
        let c = Contract {
            operators,
            profiles: profiles_contract,
            quests: Vec::new(),
            quests_metadata_base_uri,
            games: Vec::new(),
            games_metadata_base_uri,
            game_id_to_quest_ids: Vec::new(),
            quest_id_to_game_id: Vec::new(),
            quest_contract_code,
        };
        proof {
            let m = c.operators@.map_values(|s: String| s@);
            assert(m.len() == 1);
            assert(m.contains(m[0]));
            assert forall|y: Seq<char>| m.contains(y) implies y == m[0] by {
                let k = choose|k: int| 0 <= k < m.len() && m[k] == y;
                assert(k == 0);
            }
            assert(m.to_set() =~= Set::<Seq<char>>::empty().insert(c.operators@[0]@));
            assert(c.quests@.map_values(|s: String| s@) =~= Seq::<Seq<char>>::empty());
            assert(c.games@.map_values(|s: String| s@) =~= Seq::<Seq<char>>::empty());
        }
        c
    }

    /// Builds one versioned notification record around an event payload.
    pub fn emit_event(&self, event_log_variant: EventLogVariant) -> (log: EventLog)
        ensures
            labeled_log(log),
            log.event == event_log_variant,
    {
        EventLog {
            standard: String::from_str("ggQuests"),
            version: String::from_str("1.0.0"),
            event: event_log_variant,
        }
    }

    /// Whether this identity holds the operator capability.
    pub fn is_operator(&self, account_id: &String) -> (r: bool)
        ensures
            r == self@.is_operator(account_id@),
    {
        let r = contains_string(&self.operators, account_id);
        proof {
            assert(self.operators@.map_values(|s: String| s@).to_set().contains(account_id@)
                == self.operators@.map_values(|s: String| s@).contains(account_id@));
        }
        r
    }

    /// Grants the operator capability. Only an operator may call this.
    pub fn add_operator(&mut self, caller: &String, account_id: String) -> (r: Result<
        EventLog,
        QuestError,
    >)
        requires
            old(self).wf(),
        ensures
            final(self).wf(),
            !old(self)@.is_operator(caller@) ==> r == Err::<EventLog, QuestError>(
                QuestError::AuthorizationError,
            ) && *final(self) == *old(self),
            old(self)@.is_operator(caller@) ==> {
                &&& final(self)@ == (FactoryView {
                    operators: old(self)@.operators.insert(account_id@),
                    ..old(self)@
                })
                &&& r matches Ok(log) && labeled_log(log) && (log.event matches
                EventLogVariant::AddOperator(l) && l.operator@ == account_id@)
            },
    {
        if !self.is_operator(caller) {
            return Err(QuestError::AuthorizationError);
        }
        let ghost pre = self.operators@;
        if !contains_string(&self.operators, &account_id) {
            let ghost a = account_id@;
            self.operators.push(account_id.clone());
            proof {
                assert forall|i: int, j: int| 0 <= i < j < self.operators@.len() implies self
                    .operators@[i]@ != self.operators@[j]@ by {
                    if j < pre.len() {
                        assert(self.operators@[i] == pre[i] && self.operators@[j] == pre[j]);
                    } else {
                        assert(self.operators@[i] == pre[i]);
                        assert(pre.map_values(|s: String| s@)[i] == pre[i]@);
                        assert(self.operators@[j]@ == a);
                    }
                }
                assert(self.operators@.map_values(|s: String| s@) =~= pre.map_values(
                    |s: String| s@,
                ).push(a));
                lemma_to_set_push(pre.map_values(|s: String| s@), a);
                assert(self@ == (FactoryView {
                    operators: old(self)@.operators.insert(account_id@),
                    ..old(self)@
                }));
            }
        } else {
            proof {
                assert(self.operators@.map_values(|s: String| s@).contains(account_id@));
                assert(self.operators@.map_values(|s: String| s@).to_set().insert(account_id@)
                    =~= self.operators@.map_values(|s: String| s@).to_set());
                assert(self@ == (FactoryView {
                    operators: old(self)@.operators.insert(account_id@),
                    ..old(self)@
                }));
            }
        }
        Ok(self.emit_event(EventLogVariant::AddOperator(AddOperatorLog { operator: account_id })))
    }

    /// Revokes the operator capability. Only an operator may call this.
    pub fn remove_operator(&mut self, caller: &String, account_id: String) -> (r: Result<
        EventLog,
        QuestError,
    >)
        requires
            old(self).wf(),
        ensures
            final(self).wf(),
            !old(self)@.is_operator(caller@) ==> r == Err::<EventLog, QuestError>(
                QuestError::AuthorizationError,
            ) && *final(self) == *old(self),
            old(self)@.is_operator(caller@) ==> {
                &&& final(self)@ == (FactoryView {
                    operators: old(self)@.operators.remove(account_id@),
                    ..old(self)@
                })
                &&& r matches Ok(log) && labeled_log(log) && (log.event matches
                EventLogVariant::RemoveOperator(l) && l.operator@ == account_id@)
            },
    {
        if !self.is_operator(caller) {
            return Err(QuestError::AuthorizationError);
        }
        let ghost pre = self.operators@;
        let n = self.operators.len();
        let mut i: usize = 0;
        let mut found = false;
        while i < n && !found
            invariant
                n == self.operators@.len(),
                0 <= i <= n,
                *self == *old(self),
                !found ==> forall|k: int| 0 <= k < i ==> self.operators@[k]@ != account_id@,
                found ==> i < n && self.operators@[i as int]@ == account_id@,
            decreases n - i + (if found { 0int } else { 1int }),
        {
            if self.operators[i].eq(&account_id) {
                found = true;
            } else {
                i = i + 1;
            }
        }
        if found {
            self.operators.remove(i);
            proof {
                lemma_remove_at_unique(pre, i as int, account_id@);
                assert(self@ == (FactoryView {
                    operators: old(self)@.operators.remove(account_id@),
                    ..old(self)@
                }));
            }
        } else {
            proof {
                let m = pre.map_values(|s: String| s@);
                assert(forall|k: int| 0 <= k < m.len() ==> m[k] != account_id@);
                assert(!m.contains(account_id@));
                assert(m.to_set().remove(account_id@) =~= m.to_set());
                assert(self@ == (FactoryView {
                    operators: old(self)@.operators.remove(account_id@),
                    ..old(self)@
                }));
            }
        }
        Ok(
            self.emit_event(
                EventLogVariant::RemoveOperator(RemoveOperatorLog { operator: account_id }),
            ),
        )
    }

    /// Replaces the stored quest-contract code. The host exposes this only
    /// to the factory's own account.
    pub fn update_stored_contract(&mut self, code: Vec<u8>)
        requires
            old(self).wf(),
        ensures
            final(self).wf(),
            final(self)@ == (FactoryView { quest_contract_code: code@, ..old(self)@ }),
    {
        self.quest_contract_code = code;
    }

    /// The stored quest-contract code.
    pub fn get_code(&self) -> (r: &Vec<u8>)
        ensures
            r@ == self@.quest_contract_code,
    {
        &self.quest_contract_code
    }

    /// Decides a provisioning call. The caller must be an operator and
    /// the game id registered; the attached payment must reach the
    /// code-size rent plus the fixed overhead — checked before anything is
    /// dispatched. The returned operation carries the derived child
    /// identity, the immediate refund of any excess payment, the
    /// initializer arguments, and the values echoed to the continuation.
    #[verifier::loop_isolation(false)]
    pub fn create_quest(
        &self,
        caller: &String,
        reputation_reward: u128,
        game_id: usize,
        attached: u128,
        current_account_id: &String,
    ) -> (r: Result<ProvisionRequest, QuestError>)
        requires
            self.wf(),
            valid_account_id(spec_child_account(self@.quests.len(), current_account_id@)),
        ensures
            !self@.is_operator(caller@) ==> r == Err::<ProvisionRequest, QuestError>(
                QuestError::AuthorizationError,
            ),
            self@.is_operator(caller@) && game_id >= self@.games.len() ==> r == Err::<
                ProvisionRequest,
                QuestError,
            >(QuestError::InvalidReference),
            self@.is_operator(caller@) && game_id < self@.games.len() && attached
                < required_provision_deposit(self@.quest_contract_code.len()) ==> r == Err::<
                ProvisionRequest,
                QuestError,
            >(QuestError::InsufficientPayment),
            self@.is_operator(caller@) && game_id < self@.games.len() && attached
                >= required_provision_deposit(self@.quest_contract_code.len()) ==> (r matches Ok(
                req,
            ) && ({
                let required = required_provision_deposit(self@.quest_contract_code.len());
                &&& req.subaccount@ == spec_child_account(self@.quests.len(), current_account_id@)
                &&& req.refund == (if attached > required {
                    Some((attached - required) as u128)
                } else {
                    Option::<u128>::None
                })
                &&& req.transfer_amount == attached
                &&& req.init_args.metadata_url@ == self@.quests_metadata_base_uri
                    + spec_dec_digits(self@.quests.len())
                &&& req.init_args.reputation_reward == reputation_reward
                &&& req.init_args.profiles_contract@ == self@.profiles
                &&& req.game_id == game_id
                &&& req.payer@ == caller@
                &&& req.attached == attached
            })),
    {
        if !self.is_operator(caller) {
            return Err(QuestError::AuthorizationError);
        }
        if game_id >= self.games.len() {
            return Err(QuestError::InvalidReference);
        }
        let code_len = self.quest_contract_code.len();
        proof {
            assert(code_len as int <= u64::MAX as int);
            vstd::arithmetic::mul::lemma_mul_inequality(
                code_len as int,
                u64::MAX as int,
                NEAR_PER_STORAGE as int,
            );
            assert((u64::MAX as int) * (NEAR_PER_STORAGE as int) + DEPLOY_OVERHEAD <= u128::MAX
                as int) by (nonlinear_arith);
        }
        let minimum_needed: u128 = (code_len as u128) * NEAR_PER_STORAGE;
        let required_deposit: u128 = minimum_needed + DEPLOY_OVERHEAD;
        if attached < required_deposit {
            return Err(QuestError::InsufficientPayment);
        }
        let quest_id = self.quests.len();
        let subaccount = make_child_account(quest_id as u64, current_account_id);
        let mut metadata_url = self.quests_metadata_base_uri.clone();
        let digits = u64_to_dec_string(quest_id as u64);
        metadata_url.append(digits.as_str());
        let refund: Option<u128> = if attached > required_deposit {
            Some(attached - required_deposit)
        } else {
            None
        };
        Ok(
            ProvisionRequest {
                subaccount,
                refund,
                transfer_amount: attached,
                init_args: QuestInitArgs {
                    metadata_url,
                    reputation_reward,
                    profiles_contract: self.profiles.clone(),
                },
                game_id,
                payer: caller.clone(),
                attached,
            },
        )
    }

    /// The deployment continuation. On success the quest id is assigned as
    /// the current registry length, the child is appended and indexed
    /// under its game, and the operator grant and `CreateQuest` record are
    /// returned. On failure nothing is registered and the full attached
    /// payment is returned as a refund to the payer, with
    /// `DeploymentFailed`.
    pub fn create_quest_callback(
        &mut self,
        quest: &String,
        game_id: usize,
        user: &String,
        attached: u128,
        success: bool,
    ) -> (r: Result<ProvisionCommit, (ProvisionRefund, QuestError)>)
        requires
            old(self).wf(),
            game_id < old(self)@.games.len(),
        ensures
            final(self).wf(),
            !success ==> *final(self) == *old(self) && (r matches Err(e) && e.1
                == QuestError::DeploymentFailed && e.0.receiver_id@ == user@ && e.0.amount
                == attached),
            success ==> ({
                &&& final(self)@ == (FactoryView {
                    quests: old(self)@.quests.push(quest@),
                    quest_id_to_game_id: old(self)@.quest_id_to_game_id.push(game_id),
                    game_id_to_quest_ids: old(self)@.game_id_to_quest_ids.update(
                        game_id as int,
                        old(self)@.game_id_to_quest_ids[game_id as int].push(
                            old(self)@.quests.len() as usize,
                        ),
                    ),
                    ..old(self)@
                })
                &&& r matches Ok(c) && ({
                    &&& c.quest_id == old(self)@.quests.len()
                    &&& c.grant.gg_profiles@ == old(self)@.profiles
                    &&& c.grant.account_id@ == quest@
                    &&& labeled_log(c.event) && (c.event.event matches
                    EventLogVariant::CreateQuest(l) && l.quest_id == old(self)@.quests.len() + 1
                        && l.game_name@ == old(self)@.games[game_id as int])
                })
            }),
    {
        if !success {
            return Err(
                (
                    ProvisionRefund { receiver_id: user.clone(), amount: attached },
                    QuestError::DeploymentFailed,
                ),
            );
        }
        let ghost pre = self@;
        let quest_id = self.quests.len();
        self.quests.push(quest.clone());
        self.quest_id_to_game_id.push(game_id);
        self.game_id_to_quest_ids[game_id].push(quest_id);
        proof {
            assert(self.quests@.map_values(|s: String| s@) =~= pre.quests.push(quest@));
            assert(self.game_id_to_quest_ids@.map_values(|v: Vec<usize>| v@)
                =~= pre.game_id_to_quest_ids.update(
                game_id as int,
                pre.game_id_to_quest_ids[game_id as int].push(quest_id),
            ));
            assert(self@ == (FactoryView {
                quests: pre.quests.push(quest@),
                quest_id_to_game_id: pre.quest_id_to_game_id.push(game_id),
                game_id_to_quest_ids: pre.game_id_to_quest_ids.update(
                    game_id as int,
                    pre.game_id_to_quest_ids[game_id as int].push(quest_id),
                ),
                ..pre
            }));
            lemma_index_consistent_after_commit(pre, self@, quest@, game_id, quest_id);
        }
        let event = self.emit_event(
            EventLogVariant::CreateQuest(
                CreateQuestLog { quest_id: self.quests.len(), game_name: self.games[game_id].clone() },
            ),
        );
        proof {
            assert(self.games@.map_values(|s: String| s@)[game_id as int] == pre.games[game_id
                as int]);
        }
        Ok(
            ProvisionCommit {
                quest_id,
                grant: ProfilesGrant {
                    gg_profiles: self.profiles.clone(),
                    account_id: quest.clone(),
                },
                event,
            },
        )
    }

    /// Delegates an operator grant to a registered quest instance.
    pub fn add_quest_operator(&self, caller: &String, quest_id: usize, operator: String) -> (r:
        Result<QuestAdminAction, QuestError>)
        ensures
            !self@.is_operator(caller@) ==> r == Err::<QuestAdminAction, QuestError>(
                QuestError::AuthorizationError,
            ),
            self@.is_operator(caller@) && quest_id >= self@.quests.len() ==> r == Err::<
                QuestAdminAction,
                QuestError,
            >(QuestError::InvalidReference),
            self@.is_operator(caller@) && quest_id < self@.quests.len() ==> (r matches Ok(a)
                && a.quest@ == self@.quests[quest_id as int] && a.operator@ == operator@
                && a.grant),
    {
        if !self.is_operator(caller) {
            return Err(QuestError::AuthorizationError);
        }
        if quest_id >= self.quests.len() {
            return Err(QuestError::InvalidReference);
        }
        Ok(QuestAdminAction { quest: self.quests[quest_id].clone(), operator, grant: true })
    }

    /// Delegates an operator revocation to a registered quest instance.
    pub fn remove_quest_operator(&self, caller: &String, quest_id: usize, operator: String) -> (r:
        Result<QuestAdminAction, QuestError>)
        ensures
            !self@.is_operator(caller@) ==> r == Err::<QuestAdminAction, QuestError>(
                QuestError::AuthorizationError,
            ),
            self@.is_operator(caller@) && quest_id >= self@.quests.len() ==> r == Err::<
                QuestAdminAction,
                QuestError,
            >(QuestError::InvalidReference),
            self@.is_operator(caller@) && quest_id < self@.quests.len() ==> (r matches Ok(a)
                && a.quest@ == self@.quests[quest_id as int] && a.operator@ == operator@
                && !a.grant),
    {
        if !self.is_operator(caller) {
            return Err(QuestError::AuthorizationError);
        }
        if quest_id >= self.quests.len() {
            return Err(QuestError::InvalidReference);
        }
        Ok(QuestAdminAction { quest: self.quests[quest_id].clone(), operator, grant: false })
    }

    /// The registered identity of a quest instance.
    pub fn get_quest_address(&self, quest_id: usize) -> (r: Result<String, QuestError>)
        ensures
            quest_id >= self@.quests.len() ==> r == Err::<String, QuestError>(
                QuestError::InvalidReference,
            ),
            quest_id < self@.quests.len() ==> (r matches Ok(s) && s@ == self@.quests[quest_id
                as int]),
    {
        if quest_id >= self.quests.len() {
            return Err(QuestError::InvalidReference);
        }
        Ok(self.quests[quest_id].clone())
    }

    /// The quest instance to query for its metadata address. The host
    /// issues the query and hands the outcome to the continuation.
    pub fn get_quest_uri(&self, quest_id: usize) -> (r: Result<String, QuestError>)
        ensures
            quest_id >= self@.quests.len() ==> r == Err::<String, QuestError>(
                QuestError::InvalidReference,
            ),
            quest_id < self@.quests.len() ==> (r matches Ok(s) && s@ == self@.quests[quest_id
                as int]),
    {
        if quest_id >= self.quests.len() {
            return Err(QuestError::InvalidReference);
        }
        Ok(self.quests[quest_id].clone())
    }

    /// The continuation of a metadata query: the reported address, or a
    /// fixed marker when the external call failed.
    pub fn get_quest_uri_callback(&self, quest_uri: Option<String>) -> (r: String)
        ensures
            quest_uri matches Some(u) ==> r@ == u@,
            quest_uri is None ==> r@ == "Error"@,
    {
        match quest_uri {
            Some(u) => u,
            None => String::from_str("Error"),
        }
    }

    /// The registered quest instances, by quest id.
    pub fn get_quests(&self) -> (r: Vec<String>)
        ensures
            r@.map_values(|s: String| s@) == self@.quests,
    {
        clone_string_vec(&self.quests)
    }

    /// Appends a game name to the registry and returns its id. Only an
    /// operator may call this.
    pub fn add_game(&mut self, caller: &String, game_name: String) -> (r: Result<
        (usize, EventLog),
        QuestError,
    >)
        requires
            old(self).wf(),
        ensures
            final(self).wf(),
            !old(self)@.is_operator(caller@) ==> r == Err::<(usize, EventLog), QuestError>(
                QuestError::AuthorizationError,
            ) && *final(self) == *old(self),
            old(self)@.is_operator(caller@) ==> ({
                &&& final(self)@ == (FactoryView {
                    games: old(self)@.games.push(game_name@),
                    game_id_to_quest_ids: old(self)@.game_id_to_quest_ids.push(
                        Seq::<usize>::empty(),
                    ),
                    ..old(self)@
                })
                &&& r matches Ok(p) && p.0 == old(self)@.games.len() && labeled_log(p.1) && (
                p.1.event matches EventLogVariant::AddGame(l) && l.game_name@ == game_name@
                    && l.game_id == old(self)@.games.len())
            }),
    {
        if !self.is_operator(caller) {
            return Err(QuestError::AuthorizationError);
        }
        let ghost pre = self@;
        let game_id = self.games.len();
        let ev_name = game_name.clone();
        self.games.push(game_name);
        self.game_id_to_quest_ids.push(Vec::new());
        proof {
            assert(self.games@.map_values(|s: String| s@) =~= pre.games.push(ev_name@));
            assert(self.game_id_to_quest_ids@.map_values(|v: Vec<usize>| v@)
                =~= pre.game_id_to_quest_ids.push(Seq::<usize>::empty()));
            assert(self@ == (FactoryView {
                games: pre.games.push(ev_name@),
                game_id_to_quest_ids: pre.game_id_to_quest_ids.push(Seq::<usize>::empty()),
                ..pre
            }));
            lemma_index_consistent_after_add_game(pre, self@, ev_name@);
        }
        let event = self.emit_event(
            EventLogVariant::AddGame(AddGameLog { game_name: ev_name, game_id }),
        );
        Ok((game_id, event))
    }

    /// The metadata address of a registered game: the base address with
    /// the game id appended in decimal.
    pub fn get_url_metadata(&self, game_id: usize) -> (r: Result<String, QuestError>)
        ensures
            game_id >= self@.games.len() ==> r == Err::<String, QuestError>(
                QuestError::InvalidReference,
            ),
            game_id < self@.games.len() ==> (r matches Ok(s) && s@ == self@.games_metadata_base_uri
                + spec_dec_digits(game_id as nat)),
    {
        if game_id >= self.games.len() {
            return Err(QuestError::InvalidReference);
        }
        let mut s = self.games_metadata_base_uri.clone();
        let digits = u64_to_dec_string(game_id as u64);
        s.append(digits.as_str());
        Ok(s)
    }

    /// The registered game names, by game id.
    pub fn get_games(&self) -> (r: Vec<String>)
        ensures
            r@.map_values(|s: String| s@) == self@.games,
    {
        clone_string_vec(&self.games)
    }
}

/// Clones a vector of identities, preserving every view.
fn clone_string_vec(v: &Vec<String>) -> (r: Vec<String>)
    ensures
        r@.map_values(|s: String| s@) == v@.map_values(|s: String| s@),
{
    let mut out: Vec<String> = Vec::new();
    let n = v.len();
    let mut i: usize = 0;
    while i < n
        invariant
            n == v@.len(),
            0 <= i <= n,
            out@.len() == i,
            forall|k: int| 0 <= k < i ==> out@[k]@ == v@[k]@,
        decreases n - i,
    {
        out.push(v[i].clone());
        i = i + 1;
    }
    proof {
        assert(out@.map_values(|s: String| s@) =~= v@.map_values(|s: String| s@));
    }
    out
}

/// A successful deployment commit keeps the two registry indexes
/// consistent.
proof fn lemma_index_consistent_after_commit(
    pre: FactoryView,
    post: FactoryView,
    quest: Seq<char>,
    game_id: usize,
    quest_id: usize,
)
    requires
        pre.index_consistent(),
        game_id < pre.games.len(),
        quest_id == pre.quests.len(),
        post == (FactoryView {
            quests: pre.quests.push(quest),
            quest_id_to_game_id: pre.quest_id_to_game_id.push(game_id),
            game_id_to_quest_ids: pre.game_id_to_quest_ids.update(
                game_id as int,
                pre.game_id_to_quest_ids[game_id as int].push(quest_id),
            ),
            ..pre
        }),
    ensures
        post.index_consistent(),
{
    let old_list = pre.game_id_to_quest_ids[game_id as int];
    assert forall|g: int, k: int|
        0 <= g < post.game_id_to_quest_ids.len() && 0 <= k < post.game_id_to_quest_ids[g].len()
        implies (post.game_id_to_quest_ids[g][k]) < post.quests.len()
        && post.quest_id_to_game_id[post.game_id_to_quest_ids[g][k] as int] == g by {
        if g == game_id {
            if k < old_list.len() {
                assert(post.game_id_to_quest_ids[g][k] == old_list[k]);
            } else {
                assert(post.game_id_to_quest_ids[g][k] == quest_id);
            }
        } else {
            assert(post.game_id_to_quest_ids[g] == pre.game_id_to_quest_ids[g]);
        }
    }
    assert forall|q: int| 0 <= q < post.quest_id_to_game_id.len() implies post.game_id_to_quest_ids[
        post.quest_id_to_game_id[q] as int
    ].contains(q as usize) by {
        if q < pre.quest_id_to_game_id.len() {
            let g = pre.quest_id_to_game_id[q];
            assert(pre.game_id_to_quest_ids[g as int].contains(q as usize));
            let k = choose|k: int|
                0 <= k < pre.game_id_to_quest_ids[g as int].len() && pre.game_id_to_quest_ids[
                    g as int
                ][k] == q as usize;
            if g == game_id {
                assert(post.game_id_to_quest_ids[g as int][k] == q as usize);
            } else {
                assert(post.game_id_to_quest_ids[g as int] == pre.game_id_to_quest_ids[g as int]);
            }
            assert(post.game_id_to_quest_ids[g as int].contains(q as usize));
        } else {
            let list = post.game_id_to_quest_ids[game_id as int];
            assert(list[old_list.len() as int] == quest_id);
            assert(list.contains(quest_id));
        }
    }
}

/// Appending a game with an empty quest list keeps the two registry
/// indexes consistent.
proof fn lemma_index_consistent_after_add_game(pre: FactoryView, post: FactoryView, name: Seq<char>)
    requires
        pre.index_consistent(),
        post == (FactoryView {
            games: pre.games.push(name),
            game_id_to_quest_ids: pre.game_id_to_quest_ids.push(Seq::<usize>::empty()),
            ..pre
        }),
    ensures
        post.index_consistent(),
{
    assert forall|g: int, k: int|
        0 <= g < post.game_id_to_quest_ids.len() && 0 <= k < post.game_id_to_quest_ids[g].len()
        implies (post.game_id_to_quest_ids[g][k]) < post.quests.len()
        && post.quest_id_to_game_id[post.game_id_to_quest_ids[g][k] as int] == g by {
        assert(g < pre.game_id_to_quest_ids.len());
        assert(post.game_id_to_quest_ids[g] == pre.game_id_to_quest_ids[g]);
    }
    assert forall|q: int| 0 <= q < post.quest_id_to_game_id.len() implies post.game_id_to_quest_ids[
        post.quest_id_to_game_id[q] as int
    ].contains(q as usize) by {
        let g = pre.quest_id_to_game_id[q];
        assert(pre.game_id_to_quest_ids[g as int].contains(q as usize));
        assert(post.game_id_to_quest_ids[g as int] == pre.game_id_to_quest_ids[g as int]);
    }
}

} // verus!
