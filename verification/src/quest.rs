//! One quest instance: the reward registry with its custody-verification
//! state machine and the settlement engine.
//!
//! Rewards are submitted while the quest is inactive, become visible only
//! after a successful asynchronous custody check, and are paid out one per
//! completing participant while the quest is active. Every entry point is a
//! pure transition: it takes the caller and the plain values of the call,
//! mutates the state, and returns the external actions for the host to
//! perform.

pub mod events;

use vstd::prelude::*;
use vstd::string::StringExecFns;

use crate::accounts::{contains_string, distinct_views, lemma_remove_at_unique, lemma_to_set_push};
use crate::effects::{CustodyQuery, ReputationCredit, TransferAction, VerificationRequest};
use crate::errors::QuestError;
use crate::quest::events::{
    AddOperatorLog, AddRewardLog, DeactivateQuestLog, EventLog, EventLogVariant, RemoveOperatorLog,
    SendRewardLog, UpdateReputationRewardLog,
};
use crate::reward::{
    bytes_eq, fingerprint, reward_fingerprint, CallbackAction, Reward, RewardType, RewardView,
    Token,
};
use crate::text::{dec_value, parse_u128, parseable_u128};

verus! {

/// The mathematical value of a quest instance.
pub ghost struct QuestView {
    pub metadata_url: Seq<char>,
    pub reputation_reward: u128,
    pub is_active: bool,
    pub gg_profiles: Seq<char>,
    /// Completing participants in settlement order; also the completion
    /// set: a participant has completed the quest exactly when it is
    /// listed here.
    pub players: Seq<Seq<char>>,
    pub operators: Set<Seq<char>>,
    pub additional_rewards: Seq<RewardView>,
}

impl QuestView {
    /// Whether this identity holds the operator capability.
    pub open spec fn is_operator(self, account_id: Seq<char>) -> bool {
        self.operators.contains(account_id)
    }

    /// Whether this participant already completed the quest.
    pub open spec fn has_completed(self, player: Seq<char>) -> bool {
        self.players.contains(player)
    }

    /// Whether a confirmed reward with this fingerprint exists.
    pub open spec fn fingerprint_confirmed(self, fp: Seq<u8>) -> bool {
        exists|i: int|
            0 <= i < self.additional_rewards.len() && fingerprint(self.additional_rewards[i]) == fp
    }

    /// Whether a reward submission by this caller would be accepted:
    /// registration requires the operator capability and an inactive quest.
    pub open spec fn accepts_submission(self, caller: Seq<char>) -> bool {
        self.is_operator(caller) && !self.is_active
    }

    /// Whether a settlement call for this participant would be accepted:
    /// settlement requires an active quest and a participant that has not
    /// completed it yet.
    pub open spec fn accepts_settlement(self, player: Seq<char>) -> bool {
        self.is_active && !self.has_completed(player)
    }
}

/// Whether a notification record carries this quest standard's name and
/// version.
pub open spec fn labeled_log(log: EventLog) -> bool {
    log.standard@ == "ggQuest"@ && log.version@ == "1.0.0"@
}

/// The index of the first reward eligible for the next completing
/// participant: the first entry whose remaining amount strictly exceeds the
/// number of participants that have completed so far.
pub open spec fn first_eligible(rs: Seq<RewardView>, completed: nat) -> Option<int>
    decreases rs.len(),
{
    if rs.len() == 0 {
        None
    } else if rs[0].amount > completed {
        Some(0)
    } else {
        match first_eligible(rs.drop_first(), completed) {
            Some(i) => Some(i + 1),
            None => None,
        }
    }
}

/// What `first_eligible` picks: an in-range entry whose amount exceeds the
/// completion count, with every earlier entry ineligible; or nothing, when
/// no entry qualifies.
pub proof fn lemma_first_eligible(rs: Seq<RewardView>, completed: nat)
    ensures
        match first_eligible(rs, completed) {
            Some(i) => 0 <= i < rs.len() && rs[i].amount > completed && forall|j: int|
                0 <= j < i ==> rs[j].amount <= completed,
            None => forall|j: int| 0 <= j < rs.len() ==> rs[j].amount <= completed,
        },
    decreases rs.len(),
{
    if rs.len() > 0 && !(rs[0].amount > completed) {
        let rest = rs.drop_first();
        lemma_first_eligible(rest, completed);
        assert(forall|j: int| 0 <= j < rest.len() ==> rest[j] == rs[j + 1]);
        if first_eligible(rest, completed) is Some {
            let i = first_eligible(rest, completed)->Some_0;
            assert(rs[i + 1] == rest[i]);
            assert forall|j: int| 0 <= j < i + 1 implies rs[j].amount <= completed by {
                if j > 0 {
                    assert(rs[j] == rest[j - 1]);
                }
            }
        } else {
            assert forall|j: int| 0 <= j < rs.len() implies rs[j].amount <= completed by {
                if j > 0 {
                    assert(rs[j] == rest[j - 1]);
                }
            }
        }
    }
}

/// Law: settlement never selects a reward whose remaining amount is at most
/// the number of completed participants.
pub proof fn lemma_settlement_never_overdraws(rs: Seq<RewardView>, completed: nat)
    ensures
        first_eligible(rs, completed) matches Some(i) ==> rs[i].amount > completed,
{
    lemma_first_eligible(rs, completed);
}

/// Law: in any one state, a reward submission and a settlement cannot both
/// be accepted — submission requires the quest inactive, settlement
/// requires it active.
pub proof fn lemma_register_and_settle_exclusive(q: QuestView, caller: Seq<char>, player: Seq<char>)
    ensures
        !(q.accepts_submission(caller) && q.accepts_settlement(player)),
{
}

/// Law: a participant that stands in the completion set is never accepted
/// for settlement again. A successful settlement records the participant,
/// so repeated completion attempts always fail.
pub proof fn lemma_complete_idempotent_rejecting(q: QuestView, player: Seq<char>)
    requires
        q.has_completed(player),
    ensures
        !q.accepts_settlement(player),
{
}

/// One quest instance.
pub struct Contract {
    pub metadata_url: String,
    pub reputation_reward: u128,
    pub is_active: bool,
    pub gg_profiles: String,
    pub players: Vec<String>,
    pub operators: Vec<String>,
    pub additional_rewards: Vec<Reward>,
}

impl View for Contract {
    type V = QuestView;

    open spec fn view(&self) -> QuestView {
        QuestView {
            metadata_url: self.metadata_url@,
            reputation_reward: self.reputation_reward,
            is_active: self.is_active,
            gg_profiles: self.gg_profiles@,
            players: self.players@.map_values(|s: String| s@),
            operators: self.operators@.map_values(|s: String| s@).to_set(),
            additional_rewards: self.additional_rewards@.map_values(|r: Reward| r@),
        }
    }
}

impl Contract {
    /// Structural well-formedness: operator and participant identities are
    /// listed once each, and every confirmed non-fungible reward names its
    /// token id.
    pub open spec fn wf(&self) -> bool {
        &&& distinct_views(self.operators@)
        &&& distinct_views(self.players@)
        &&& forall|i: int|
            0 <= i < self.additional_rewards@.len()
                ==> (#[trigger] self.additional_rewards@[i]@.reward_type == RewardType::NFT
                ==> self.additional_rewards@[i]@.id is Some)
    }

    /// Creates a quest instance: inactive, with no participants and no
    /// rewards, and the deploying caller as its only operator.
    pub fn new(
        metadata_url: String,
        reputation_reward: u128,
        profiles_contract: String,
        caller: String,
    ) -> (c: Contract)
        ensures
            c.wf(),
            c@.metadata_url == metadata_url@,
            c@.reputation_reward == reputation_reward,
            !c@.is_active,
            c@.gg_profiles == profiles_contract@,
            c@.players =~= Seq::<Seq<char>>::empty(),
            c@.operators =~= Set::<Seq<char>>::empty().insert(caller@),
            c@.additional_rewards =~= Seq::<RewardView>::empty(),
    {
        let mut operators: Vec<String> = Vec::new();
        operators.push(caller);
        let c = Contract {
            metadata_url,
            reputation_reward,
            is_active: false,
            gg_profiles: profiles_contract,
            players: Vec::new(),
            operators,
            additional_rewards: Vec::new(),
        };
        proof {
            assert(c.players@.map_values(|s: String| s@) =~= Seq::<Seq<char>>::empty());
            assert(c.additional_rewards@.map_values(|r: Reward| r@) =~= Seq::<RewardView>::empty());
            let m = c.operators@.map_values(|s: String| s@);
            assert(m.len() == 1);
            assert(m.contains(m[0]));
            assert forall|y: Seq<char>| m.contains(y) implies y == m[0] by {
                let k = choose|k: int| 0 <= k < m.len() && m[k] == y;
                assert(k == 0);
            }
            assert(m.to_set() =~= Set::<Seq<char>>::empty().insert(c.operators@[0]@));
        }
        c
    }

    /// Builds one versioned notification record around an event payload.
    pub fn emit_event(&self, event_log_variant: EventLogVariant) -> (log: EventLog)
        ensures
            log.standard@ == "ggQuest"@,
            log.version@ == "1.0.0"@,
            log.event == event_log_variant,
    {
        EventLog {
            standard: String::from_str("ggQuest"),
            version: String::from_str("1.0.0"),
            event: event_log_variant,
        }
    }

    /// Whether this identity holds the operator capability.
    pub fn is_operator(&self, account_id: &String) -> (r: bool)
        ensures
            r == self@.is_operator(account_id@),
    {
        let r = contains_string(&self.operators, account_id);
        proof {
            assert(self.operators@.map_values(|s: String| s@).to_set().contains(account_id@)
                == self.operators@.map_values(|s: String| s@).contains(account_id@));
        }
        r
    }

    /// Grants the operator capability. Only an operator may call this; the
    /// quest's operator set grows by the given identity and an
    /// `AddOperator` record is returned for the log.
    pub fn add_operator(&mut self, caller: &String, account_id: String) -> (r: Result<
        EventLog,
        QuestError,
    >)
        requires
            old(self).wf(),
        ensures
            final(self).wf(),
            !old(self)@.is_operator(caller@) ==> r == Err::<EventLog, QuestError>(
                QuestError::AuthorizationError,
            ) && *final(self) == *old(self),
            old(self)@.is_operator(caller@) ==> {
                &&& final(self)@ == (QuestView {
                    operators: old(self)@.operators.insert(account_id@),
                    ..old(self)@
                })
                &&& r matches Ok(log) && labeled_log(log) && (log.event matches
                EventLogVariant::AddOperator(l) && l.operator@ == account_id@)
            },
    {
        if !self.is_operator(caller) {
            return Err(QuestError::AuthorizationError);
        }
        let ghost pre = self.operators@;
        if !contains_string(&self.operators, &account_id) {
            let ghost a = account_id@;
            self.operators.push(account_id.clone());
            proof {
                assert forall|i: int, j: int| 0 <= i < j < self.operators@.len() implies self
                    .operators@[i]@ != self.operators@[j]@ by {
                    if j < pre.len() {
                        assert(self.operators@[i] == pre[i] && self.operators@[j] == pre[j]);
                    } else {
                        assert(self.operators@[i] == pre[i]);
                        assert(pre.map_values(|s: String| s@)[i] == pre[i]@);
                        assert(self.operators@[j]@ == a);
                    }
                }
                assert(self.operators@.map_values(|s: String| s@) =~= pre.map_values(
                    |s: String| s@,
                ).push(a));
                lemma_to_set_push(pre.map_values(|s: String| s@), a);
                assert(self@ == (QuestView {
                    operators: old(self)@.operators.insert(account_id@),
                    ..old(self)@
                }));
            }
        } else {
            proof {
                assert(self.operators@.map_values(|s: String| s@).contains(account_id@));
                assert(self.operators@.map_values(|s: String| s@).to_set().insert(account_id@)
                    =~= self.operators@.map_values(|s: String| s@).to_set());
                assert(self@ == (QuestView {
                    operators: old(self)@.operators.insert(account_id@),
                    ..old(self)@
                }));
            }
        }
        Ok(self.emit_event(EventLogVariant::AddOperator(AddOperatorLog { operator: account_id })))
    }

    /// Revokes the operator capability. Only an operator may call this; the
    /// identity leaves the operator set and a `RemoveOperator` record is
    /// returned for the log.
    pub fn remove_operator(&mut self, caller: &String, account_id: String) -> (r: Result<
        EventLog,
        QuestError,
    >)
        requires
            old(self).wf(),
        ensures
            final(self).wf(),
            !old(self)@.is_operator(caller@) ==> r == Err::<EventLog, QuestError>(
                QuestError::AuthorizationError,
            ) && *final(self) == *old(self),
            old(self)@.is_operator(caller@) ==> {
                &&& final(self)@ == (QuestView {
                    operators: old(self)@.operators.remove(account_id@),
                    ..old(self)@
                })
                &&& r matches Ok(log) && labeled_log(log) && (log.event matches
                EventLogVariant::RemoveOperator(l) && l.operator@ == account_id@)
            },
    {
        if !self.is_operator(caller) {
            return Err(QuestError::AuthorizationError);
        }
        let ghost pre = self.operators@;
        let n = self.operators.len();
        let mut i: usize = 0;
        let mut found = false;
        while i < n && !found
            invariant
                n == self.operators@.len(),
                0 <= i <= n,
                *self == *old(self),
                !found ==> forall|k: int| 0 <= k < i ==> self.operators@[k]@ != account_id@,
                found ==> i < n && self.operators@[i as int]@ == account_id@,
            decreases n - i + (if found { 0int } else { 1int }),
        {
            if self.operators[i].eq(&account_id) {
                found = true;
            } else {
                i = i + 1;
            }
        }
        if found {
            self.operators.remove(i);
            proof {
                lemma_remove_at_unique(pre, i as int, account_id@);
                assert(self@ == (QuestView {
                    operators: old(self)@.operators.remove(account_id@),
                    ..old(self)@
                }));
            }
        } else {
            proof {
                let m = pre.map_values(|s: String| s@);
                assert(forall|k: int| 0 <= k < m.len() ==> m[k] != account_id@);
                assert(!m.contains(account_id@));
                assert(m.to_set().remove(account_id@) =~= m.to_set());
                assert(self@ == (QuestView {
                    operators: old(self)@.operators.remove(account_id@),
                    ..old(self)@
                }));
            }
        }
        Ok(
            self.emit_event(
                EventLogVariant::RemoveOperator(RemoveOperatorLog { operator: account_id }),
            ),
        )
    }

    /// The reputation payout credited for each completion.
    pub fn get_reputation_reward(&self) -> (r: u128)
        ensures
            r == self@.reputation_reward,
    {
        self.reputation_reward
    }

    /// The metadata address of this quest.
    pub fn get_quest_uri(&self) -> (r: String)
        ensures
            r@ == self@.metadata_url,
    {
        self.metadata_url.clone()
    }

    /// The completing participants, in settlement order.
    pub fn get_players(&self) -> (r: Vec<String>)
        ensures
            r@.map_values(|s: String| s@) == self@.players,
    {
        let mut out: Vec<String> = Vec::new();
        let n = self.players.len();
        let mut i: usize = 0;
        while i < n
            invariant
                n == self.players@.len(),
                0 <= i <= n,
                out@.len() == i,
                forall|k: int| 0 <= k < i ==> out@[k]@ == self.players@[k]@,
            decreases n - i,
        {
            out.push(self.players[i].clone());
            i = i + 1;
        }
        proof {
            assert(out@.map_values(|s: String| s@) =~= self.players@.map_values(|s: String| s@));
        }
        out
    }

    /// The confirmed rewards, in registration order. A submitted reward is
    /// listed here only after its custody verification succeeded.
    pub fn get_rewards(&self) -> (r: Vec<Reward>)
        ensures
            r@.map_values(|rw: Reward| rw@) == self@.additional_rewards,
    {
        let mut out: Vec<Reward> = Vec::new();
        let n = self.additional_rewards.len();
        let mut i: usize = 0;
        while i < n
            invariant
                n == self.additional_rewards@.len(),
                0 <= i <= n,
                out@.len() == i,
                forall|k: int| 0 <= k < i ==> out@[k]@ == self.additional_rewards@[k]@,
            decreases n - i,
        {
            out.push(self.additional_rewards[i].clone());
            i = i + 1;
        }
        proof {
            assert(out@.map_values(|rw: Reward| rw@) =~= self.additional_rewards@.map_values(
                |rw: Reward| rw@,
            ));
        }
        out
    }

    /// Changes the reputation payout. Only an operator may call this.
    pub fn update_reputation_rewards(&mut self, caller: &String, reputation_reward: u128) -> (r:
        Result<EventLog, QuestError>)
        requires
            old(self).wf(),
        ensures
            final(self).wf(),
            !old(self)@.is_operator(caller@) ==> r == Err::<EventLog, QuestError>(
                QuestError::AuthorizationError,
            ) && *final(self) == *old(self),
            old(self)@.is_operator(caller@) ==> {
                &&& final(self)@ == (QuestView {
                    reputation_reward,
                    ..old(self)@
                })
                &&& r matches Ok(log) && labeled_log(log) && (log.event matches
                EventLogVariant::UpdateReputationReward(l) && l.amount == reputation_reward)
            },
    {
        if !self.is_operator(caller) {
            return Err(QuestError::AuthorizationError);
        }
        self.reputation_reward = reputation_reward;
        Ok(
            self.emit_event(
                EventLogVariant::UpdateReputationReward(
                    UpdateReputationRewardLog { amount: reputation_reward },
                ),
            ),
        )
    }

    /// Activates the quest, opening settlement. Only an operator may call
    /// this, and only while the quest is inactive.
    pub fn activate_quest(&mut self, caller: &String) -> (r: Result<EventLog, QuestError>)
        requires
            old(self).wf(),
        ensures
            final(self).wf(),
            !old(self)@.is_operator(caller@) ==> r == Err::<EventLog, QuestError>(
                QuestError::AuthorizationError,
            ) && *final(self) == *old(self),
            old(self)@.is_operator(caller@) && old(self)@.is_active ==> r == Err::<
                EventLog,
                QuestError,
            >(QuestError::QuestAlreadyActive) && *final(self) == *old(self),
            old(self)@.is_operator(caller@) && !old(self)@.is_active ==> {
                &&& final(self)@ == (QuestView { is_active: true, ..old(self)@ })
                &&& r matches Ok(log) && labeled_log(log) && log.event matches
                    EventLogVariant::ActivateQuest
            },
    {
        if !self.is_operator(caller) {
            return Err(QuestError::AuthorizationError);
        }
        if self.is_active {
            return Err(QuestError::QuestAlreadyActive);
        }
        self.is_active = true;
        Ok(self.emit_event(EventLogVariant::ActivateQuest))
    }
}

/// Whether a custody query interrogates the right ledger for this reward:
/// a balance query against the reward's ledger for fungible rewards, the
/// token's ownership record for non-fungible ones.
pub open spec fn custody_query_matches(q: CustodyQuery, r: RewardView) -> bool {
    match r.reward_type {
        RewardType::FT => q matches CustodyQuery::FtBalanceOf { reward_contract_account_id }
            && reward_contract_account_id@ == r.reward_contract_account_id,
        RewardType::NFT => q matches CustodyQuery::NftToken { reward_contract_account_id, token_id }
            && reward_contract_account_id@ == r.reward_contract_account_id && (r.id matches Some(
            idv,
        ) && token_id@ == idv),
    }
}

/// Whether a transfer pays this reward's unit to this receiver on the
/// reward's ledger.
pub open spec fn transfer_for(t: TransferAction, r: RewardView, receiver: Seq<char>) -> bool {
    match r.reward_type {
        RewardType::FT => t matches TransferAction::Ft {
            reward_contract_account_id,
            receiver_id,
            amount,
        } && reward_contract_account_id@ == r.reward_contract_account_id && receiver_id@ == receiver
            && amount == r.token_amount,
        RewardType::NFT => t matches TransferAction::Nft {
            reward_contract_account_id,
            receiver_id,
            token_id,
        } && reward_contract_account_id@ == r.reward_contract_account_id && receiver_id@ == receiver
            && (r.id matches Some(idv) && token_id@ == idv),
    }
}

/// The index of the first confirmed reward with this fingerprint.
pub open spec fn first_matching(rs: Seq<RewardView>, fp: Seq<u8>) -> Option<int>
    decreases rs.len(),
{
    if rs.len() == 0 {
        None
    } else if fingerprint(rs[0]) == fp {
        Some(0)
    } else {
        match first_matching(rs.drop_first(), fp) {
            Some(i) => Some(i + 1),
            None => None,
        }
    }
}

/// What `first_matching` finds: an in-range entry with the fingerprint and
/// no earlier one; or nothing, when no entry carries it.
pub proof fn lemma_first_matching(rs: Seq<RewardView>, fp: Seq<u8>)
    ensures
        match first_matching(rs, fp) {
            Some(i) => 0 <= i < rs.len() && fingerprint(rs[i]) == fp && forall|j: int|
                0 <= j < i ==> fingerprint(rs[j]) != fp,
            None => forall|j: int| 0 <= j < rs.len() ==> fingerprint(rs[j]) != fp,
        },
    decreases rs.len(),
{
    if rs.len() > 0 && fingerprint(rs[0]) != fp {
        let rest = rs.drop_first();
        lemma_first_matching(rest, fp);
        assert(forall|j: int| 0 <= j < rest.len() ==> rest[j] == rs[j + 1]);
        if first_matching(rest, fp) is Some {
            let i = first_matching(rest, fp)->Some_0;
            assert(rs[i + 1] == rest[i]);
            assert forall|j: int| 0 <= j < i + 1 implies fingerprint(rs[j]) != fp by {
                if j > 0 {
                    assert(rs[j] == rest[j - 1]);
                }
            }
        } else {
            assert forall|j: int| 0 <= j < rs.len() implies fingerprint(rs[j]) != fp by {
                if j > 0 {
                    assert(rs[j] == rest[j - 1]);
                }
            }
        }
    }
}

/// An index that matches the fingerprint, with no earlier match, is the one
/// `first_matching` finds.
proof fn lemma_first_matching_at(rs: Seq<RewardView>, fp: Seq<u8>, i: int)
    requires
        0 <= i < rs.len(),
        fingerprint(rs[i]) == fp,
        forall|j: int| 0 <= j < i ==> fingerprint(rs[j]) != fp,
    ensures
        first_matching(rs, fp) == Some(i),
    decreases i,
{
    if i > 0 {
        let rest = rs.drop_first();
        assert(forall|j: int| 0 <= j < rest.len() ==> rest[j] == rs[j + 1]);
        assert forall|j: int| 0 <= j < i - 1 implies fingerprint(rest[j]) != fp by {
            assert(rest[j] == rs[j + 1]);
        }
        lemma_first_matching_at(rest, fp, i - 1);
    }
}

/// An eligible index with no earlier eligible one is the one
/// `first_eligible` picks.
proof fn lemma_first_eligible_at(rs: Seq<RewardView>, completed: nat, i: int)
    requires
        0 <= i < rs.len(),
        rs[i].amount > completed,
        forall|j: int| 0 <= j < i ==> rs[j].amount <= completed,
    ensures
        first_eligible(rs, completed) == Some(i),
    decreases i,
{
    if i > 0 {
        let rest = rs.drop_first();
        assert(forall|j: int| 0 <= j < rest.len() ==> rest[j] == rs[j + 1]);
        assert forall|j: int| 0 <= j < i - 1 implies rest[j].amount <= completed by {
            assert(rest[j] == rs[j + 1]);
        }
        lemma_first_eligible_at(rest, completed, i - 1);
    }
}

/// Whether every adjustment candidate stays representable: for each
/// confirmed entry matching the fingerprint, the increased amount reaches
/// at least the completion count and at most `u128::MAX`.
pub open spec fn adjustment_bounds_ok(q: QuestView, amount: u128, fp: Seq<u8>) -> bool {
    forall|i: int|
        0 <= i < q.additional_rewards.len() && fingerprint(#[trigger] q.additional_rewards[i])
            == fp ==> q.players.len() <= q.additional_rewards[i].amount + amount <= u128::MAX
}

/// What a reward adjustment returns: rejection without the operator
/// capability; `InvalidReference` when no confirmed entry matches the
/// fingerprint; otherwise a verification request for the first matching
/// entry, tagged for an in-place adjustment at that index, carrying the
/// entry with its amount recomputed by the settlement eligibility formula.
pub open spec fn adjustment_result(
    pre: QuestView,
    caller: Seq<char>,
    amount: u128,
    fp: Seq<u8>,
    r: Result<VerificationRequest, QuestError>,
) -> bool {
    &&& !pre.is_operator(caller) ==> r == Err::<VerificationRequest, QuestError>(
        QuestError::AuthorizationError,
    )
    &&& pre.is_operator(caller) && first_matching(pre.additional_rewards, fp) is None ==> r
        == Err::<VerificationRequest, QuestError>(QuestError::InvalidReference)
    &&& pre.is_operator(caller) ==> (first_matching(pre.additional_rewards, fp) matches Some(i)
        ==> (r matches Ok(req) && ({
        let e = pre.additional_rewards[i];
        &&& req.action == CallbackAction::IncreaseRewardAmount
        &&& req.index matches Some(ix) && ix as int == i
        &&& req.reward@ == (RewardView {
            amount: ((e.amount + amount - pre.players.len()) as u128),
            ..e
        })
        &&& custody_query_matches(req.query, req.reward@)
    })))
}

/// The registry mutation a verified continuation commits: an append for a
/// registration, an overwrite at the echoed index for an adjustment; all
/// other state stays as it was.
pub open spec fn committed_state(
    pre: QuestView,
    post: QuestView,
    action: CallbackAction,
    rv: RewardView,
    index: Option<usize>,
) -> bool {
    match action {
        CallbackAction::AddReward => post == (QuestView {
            additional_rewards: pre.additional_rewards.push(rv),
            ..pre
        }),
        CallbackAction::IncreaseRewardAmount => index matches Some(i) && post == (QuestView {
            additional_rewards: pre.additional_rewards.update(i as int, rv),
            ..pre
        }),
    }
}

/// The outcome of one custody-verification continuation.
#[derive(Debug)]
pub struct VerificationOutcome {
    /// Whether custody was confirmed and the registry mutation committed.
    pub verified: bool,
    /// Whether the caller's attached payment is to be refunded in full
    /// (the soft failure of the fungible path).
    pub refund_attached: bool,
    /// The `AddReward` record to log when a new entry was confirmed.
    pub event: Option<EventLog>,
}

/// The outcome of one successful settlement: the chosen reward snapshot,
/// the transfer to issue, the reputation credit to issue, and the
/// `SendReward` record to log.
#[derive(Debug)]
pub struct SettlementOutcome {
    pub reward: Reward,
    pub transfer: TransferAction,
    pub reputation_credit: ReputationCredit,
    pub event: EventLog,
}

/// The outcome of deactivation: one withdrawal transfer per confirmed
/// reward, in registration order, and the `DeactivateQuest` record.
#[derive(Debug)]
pub struct DeactivationOutcome {
    pub transfers: Vec<TransferAction>,
    pub event: EventLog,
}

impl Contract {
    /// Computes the fingerprint a reward is deduplicated by.
    pub fn internal_reward_hash(&self, reward: Reward) -> (h: Vec<u8>)
        ensures
            h@ == fingerprint(reward@),
    {
        reward_fingerprint(&reward)
    }

    /// Builds the custody check for a reward: a balance query for fungible
    /// rewards, an ownership query for non-fungible ones.
    fn internal_verify_token_ownership(&self, reward: &Reward) -> (q: CustodyQuery)
        requires
            reward@.reward_type == RewardType::NFT ==> reward@.id is Some,
        ensures
            custody_query_matches(q, reward@),
    {
        match reward.reward_type {
            RewardType::FT => CustodyQuery::FtBalanceOf {
                reward_contract_account_id: reward.reward_contract_account_id.clone(),
            },
            RewardType::NFT => {
                let token_id = match &reward.id {
                    Some(s) => s.clone(),
                    None => String::new(),
                };
                CustodyQuery::NftToken {
                    reward_contract_account_id: reward.reward_contract_account_id.clone(),
                    token_id,
                }
            },
        }
    }

    /// Submits a reward definition. Registration needs the operator
    /// capability and an inactive quest, and refuses a fingerprint that a
    /// confirmed entry already carries. Nothing is committed here: the
    /// returned custody check is issued by the host, and the registry is
    /// mutated only by the verification continuation.
    #[verifier::loop_isolation(false)]
    pub fn add_reward(&self, caller: &String, reward: Reward) -> (r: Result<
        VerificationRequest,
        QuestError,
    >)
        requires
            self.wf(),
            reward@.reward_type == RewardType::NFT ==> reward@.id is Some,
        ensures
            !self@.is_operator(caller@) ==> r == Err::<VerificationRequest, QuestError>(
                QuestError::AuthorizationError,
            ),
            self@.is_operator(caller@) && self@.is_active ==> r == Err::<
                VerificationRequest,
                QuestError,
            >(QuestError::QuestAlreadyActive),
            self@.accepts_submission(caller@) && self@.fingerprint_confirmed(fingerprint(reward@))
                ==> r == Err::<VerificationRequest, QuestError>(QuestError::DuplicateReward),
            self@.accepts_submission(caller@) && !self@.fingerprint_confirmed(fingerprint(reward@))
                ==> (r matches Ok(req) && req.action == CallbackAction::AddReward && req.index
                is None && req.reward@ == reward@ && custody_query_matches(req.query, reward@)),
    {
        if !self.is_operator(caller) {
            return Err(QuestError::AuthorizationError);
        }
        if self.is_active {
            return Err(QuestError::QuestAlreadyActive);
        }
        let new_hash = reward_fingerprint(&reward);
        let n = self.additional_rewards.len();
        let mut i: usize = 0;
        while i < n
            invariant
                n == self.additional_rewards@.len(),
                0 <= i <= n,
                new_hash@ == fingerprint(reward@),
                forall|k: int|
                    0 <= k < i ==> fingerprint(#[trigger] self@.additional_rewards[k])
                        != fingerprint(reward@),
            decreases n - i,
        {
            let h = reward_fingerprint(&self.additional_rewards[i]);
            proof {
                assert(self@.additional_rewards[i as int] == self.additional_rewards@[i as int]@);
            }
            if bytes_eq(&h, &new_hash) {
                assert(self@.fingerprint_confirmed(fingerprint(reward@)));
                return Err(QuestError::DuplicateReward);
            }
            i = i + 1;
        }
        let query = self.internal_verify_token_ownership(&reward);
        Ok(
            VerificationRequest {
                action: CallbackAction::AddReward,
                reward,
                index: None,
                query,
            },
        )
    }

    /// Commits a verified custody check: appends the reward for a
    /// registration (returning the `AddReward` record), overwrites the
    /// entry at the echoed index for an adjustment.
    fn commit_verified(&mut self, action: CallbackAction, reward: Reward, index: Option<usize>) -> (
    event: Option<EventLog>)
        requires
            old(self).wf(),
            action == CallbackAction::IncreaseRewardAmount ==> (index matches Some(i) && i < old(
                self,
            )@.additional_rewards.len()),
            reward@.reward_type == RewardType::NFT ==> reward@.id is Some,
        ensures
            final(self).wf(),
            committed_state(old(self)@, final(self)@, action, reward@, index),
            match action {
                CallbackAction::AddReward => event matches Some(log) && labeled_log(log) && (
                log.event matches EventLogVariant::AddReward(l) && l.reward@ == reward@),
                CallbackAction::IncreaseRewardAmount => event is None,
            },
    {
        match action {
            CallbackAction::AddReward => {
                let ev_reward = reward.clone();
                self.additional_rewards.push(reward);
                proof {
                    assert(self.additional_rewards@.map_values(|rw: Reward| rw@) =~= old(
                        self,
                    ).additional_rewards@.map_values(|rw: Reward| rw@).push(ev_reward@));
                }
                Some(
                    self.emit_event(EventLogVariant::AddReward(AddRewardLog { reward: ev_reward })),
                )
            },
            CallbackAction::IncreaseRewardAmount => {
                let i: usize = match index {
                    Some(i) => i,
                    None => 0,
                };
                self.additional_rewards[i] = reward;
                proof {
                    assert(self.additional_rewards@.map_values(|rw: Reward| rw@) =~= old(
                        self,
                    ).additional_rewards@.map_values(|rw: Reward| rw@).update(
                        i as int,
                        self.additional_rewards@[i as int]@,
                    ));
                }
                None
            },
        }
    }

    /// The continuation of a fungible custody check. A failed external
    /// call leaves everything unchanged and reports `false`. A reported
    /// balance that is not a `u128` numeral aborts. A balance below
    /// `unitPrice × count` refunds the caller's attached payment and
    /// reports `false` — the soft failure. A sufficient balance commits
    /// the tagged registry mutation and reports `true`.
    pub fn verify_ft_ownership_callback(
        &mut self,
        action: CallbackAction,
        reward: Reward,
        index: Option<usize>,
        call_result: Option<String>,
    ) -> (r: Result<VerificationOutcome, QuestError>)
        requires
            old(self).wf(),
            action == CallbackAction::IncreaseRewardAmount ==> (index matches Some(i) && i < old(
                self,
            )@.additional_rewards.len()),
            reward@.reward_type == RewardType::NFT ==> reward@.id is Some,
        ensures
            final(self).wf(),
            call_result is None ==> *final(self) == *old(self) && (r matches Ok(o) && !o.verified
                && !o.refund_attached && o.event is None),
            call_result matches Some(b) && !parseable_u128(b@) ==> *final(self) == *old(self) && r
                == Err::<VerificationOutcome, QuestError>(QuestError::VerificationFailed),
            call_result matches Some(b) && parseable_u128(b@) && reward@.token_amount
                * reward@.amount > dec_value(b@) ==> *final(self) == *old(self) && (r matches Ok(o)
                && !o.verified && o.refund_attached && o.event is None),
            call_result matches Some(b) && parseable_u128(b@) && reward@.token_amount
                * reward@.amount <= dec_value(b@) ==> ({
                &&& committed_state(old(self)@, final(self)@, action, reward@, index)
                &&& r matches Ok(o) && o.verified && !o.refund_attached && (match action {
                    CallbackAction::AddReward => o.event matches Some(log) && labeled_log(log) && (
                    log.event matches EventLogVariant::AddReward(l) && l.reward@ == reward@),
                    CallbackAction::IncreaseRewardAmount => o.event is None,
                })
            }),
    {
        let balance_str = match call_result {
            None => {
                return Ok(
                    VerificationOutcome { verified: false, refund_attached: false, event: None },
                );
            },
            Some(b) => b,
        };
        let balance = match parse_u128(balance_str.as_str()) {
            None => {
                return Err(QuestError::VerificationFailed);
            },
            Some(v) => v,
        };
        if !balance_covers(&reward, balance) {
            return Ok(VerificationOutcome { verified: false, refund_attached: true, event: None });
        }
        let event = self.commit_verified(action, reward, index);
        Ok(VerificationOutcome { verified: true, refund_attached: false, event })
    }

    /// The continuation of a non-fungible custody check. A failed external
    /// call leaves everything unchanged and reports `false`. A token owned
    /// by anyone but this instance aborts, as does a reward whose unit
    /// price or count is not exactly one — both hard failures, with no
    /// refund. Otherwise the tagged registry mutation is committed.
    pub fn verify_nft_ownership_callback(
        &mut self,
        action: CallbackAction,
        reward: Reward,
        index: Option<usize>,
        current_account_id: &String,
        call_result: Option<Token>,
    ) -> (r: Result<VerificationOutcome, QuestError>)
        requires
            old(self).wf(),
            action == CallbackAction::IncreaseRewardAmount ==> (index matches Some(i) && i < old(
                self,
            )@.additional_rewards.len()),
            reward@.reward_type == RewardType::NFT ==> reward@.id is Some,
        ensures
            final(self).wf(),
            call_result is None ==> *final(self) == *old(self) && (r matches Ok(o) && !o.verified
                && !o.refund_attached && o.event is None),
            call_result matches Some(t) && t.owner_id@ != current_account_id@ ==> *final(self)
                == *old(self) && r == Err::<VerificationOutcome, QuestError>(
                QuestError::VerificationFailed,
            ),
            call_result matches Some(t) && t.owner_id@ == current_account_id@ && !(
            reward@.token_amount == 1 && reward@.amount == 1) ==> *final(self) == *old(self) && r
                == Err::<VerificationOutcome, QuestError>(QuestError::VerificationFailed),
            call_result matches Some(t) && t.owner_id@ == current_account_id@
                && reward@.token_amount == 1 && reward@.amount == 1 ==> ({
                &&& committed_state(old(self)@, final(self)@, action, reward@, index)
                &&& r matches Ok(o) && o.verified && !o.refund_attached && (match action {
                    CallbackAction::AddReward => o.event matches Some(log) && labeled_log(log) && (
                    log.event matches EventLogVariant::AddReward(l) && l.reward@ == reward@),
                    CallbackAction::IncreaseRewardAmount => o.event is None,
                })
            }),
    {
        let token = match call_result {
            None => {
                return Ok(
                    VerificationOutcome { verified: false, refund_attached: false, event: None },
                );
            },
            Some(t) => t,
        };
        if !token.owner_id.eq(current_account_id) {
            return Err(QuestError::VerificationFailed);
        }
        if !(reward.token_amount == 1 && reward.amount == 1) {
            return Err(QuestError::VerificationFailed);
        }
        let event = self.commit_verified(action, reward, index);
        Ok(VerificationOutcome { verified: true, refund_attached: false, event })
    }

    /// Settles a completion. The quest must be active and the participant
    /// new; the first confirmed reward whose amount strictly exceeds the
    /// count of completed participants is chosen — this coarse global
    /// comparison is the allocation rule. The participant is recorded, and
    /// the reward transfer, reputation credit and `SendReward` record are
    /// returned for the host to issue.
    #[verifier::loop_isolation(false)]
    pub fn send_reward(&mut self, player: String) -> (r: Result<SettlementOutcome, QuestError>)
        requires
            old(self).wf(),
        ensures
            final(self).wf(),
            !old(self)@.is_active ==> *final(self) == *old(self) && r == Err::<
                SettlementOutcome,
                QuestError,
            >(QuestError::QuestNotActive),
            old(self)@.is_active && old(self)@.has_completed(player@) ==> *final(self) == *old(self)
                && r == Err::<SettlementOutcome, QuestError>(QuestError::AlreadyCompleted),
            old(self)@.accepts_settlement(player@) && first_eligible(
                old(self)@.additional_rewards,
                old(self)@.players.len(),
            ) is None ==> *final(self) == *old(self) && r == Err::<SettlementOutcome, QuestError>(
                QuestError::ExhaustedRewards,
            ),
            old(self)@.accepts_settlement(player@) ==> (first_eligible(
                old(self)@.additional_rewards,
                old(self)@.players.len(),
            ) matches Some(i) ==> ({
                &&& final(self)@ == (QuestView {
                    players: old(self)@.players.push(player@),
                    ..old(self)@
                })
                &&& final(self)@.has_completed(player@)
                &&& r matches Ok(o) && ({
                    let chosen = old(self)@.additional_rewards[i];
                    &&& o.reward@ == chosen
                    &&& transfer_for(o.transfer, chosen, player@)
                    &&& o.reputation_credit.gg_profiles@ == old(self)@.gg_profiles
                    &&& o.reputation_credit.account_id@ == player@
                    &&& o.reputation_credit.amount == old(self)@.reputation_reward
                    &&& labeled_log(o.event) && (o.event.event matches EventLogVariant::SendReward(
                        l,
                    ) && l.player@ == player@ && l.reward@ == chosen)
                })
            })),
    {
        if !self.is_active {
            return Err(QuestError::QuestNotActive);
        }
        if contains_string(&self.players, &player) {
            return Err(QuestError::AlreadyCompleted);
        }
        let n = self.additional_rewards.len();
        let plen = self.players.len();
        let mut idx: usize = 0;
        let mut found = false;
        while idx < n && !found
            invariant
                n == self.additional_rewards@.len(),
                plen == self.players@.len(),
                *self == *old(self),
                0 <= idx <= n,
                forall|k: int|
                    0 <= k < idx ==> #[trigger] self@.additional_rewards[k].amount <= plen,
                found ==> idx < n && self@.additional_rewards[idx as int].amount > plen,
            decreases n - idx + (if found { 0int } else { 1int }),
        {
            if self.additional_rewards[idx].amount > plen as u128 {
                found = true;
            } else {
                idx = idx + 1;
            }
        }
        if !found {
            proof {
                lemma_first_eligible(self@.additional_rewards, self@.players.len());
            }
            return Err(QuestError::ExhaustedRewards);
        }
        proof {
            lemma_first_eligible_at(self@.additional_rewards, self@.players.len(), idx as int);
        }
        let chosen = self.additional_rewards[idx].clone();
        proof {
            assert(chosen@ == self@.additional_rewards[idx as int]);
        }
        let transfer = transfer_of(&chosen, &player);
        let reputation_credit = ReputationCredit {
            gg_profiles: self.gg_profiles.clone(),
            account_id: player.clone(),
            amount: self.reputation_reward,
        };
        let event = self.emit_event(
            EventLogVariant::SendReward(
                SendRewardLog { player: player.clone(), reward: chosen.clone() },
            ),
        );
        let ghost pre_players = self.players@;
        self.players.push(player);
        proof {
            assert forall|i: int, j: int| 0 <= i < j < self.players@.len() implies self
                .players@[i]@ != self.players@[j]@ by {
                if j < pre_players.len() {
                    assert(self.players@[i] == pre_players[i] && self.players@[j]
                        == pre_players[j]);
                } else {
                    assert(self.players@[i] == pre_players[i]);
                    assert(pre_players.map_values(|s: String| s@)[i] == pre_players[i]@);
                }
            }
            assert(self.players@.map_values(|s: String| s@) =~= pre_players.map_values(
                |s: String| s@,
            ).push(self.players@[pre_players.len() as int]@));
            assert(self@.players[old(self)@.players.len() as int] == self.players@[pre_players.len()
                as int]@);
        }
        Ok(SettlementOutcome { reward: chosen, transfer, reputation_credit, event })
    }

    /// Deactivates the quest and sweeps its custody: one withdrawal
    /// transfer per confirmed reward, in registration order, to the payout
    /// account. The registry itself is left as it stands — entries are not
    /// cleared or marked withdrawn.
    #[verifier::loop_isolation(false)]
    pub fn deactivate_quest(&mut self, caller: &String, withdrawal_account_id: &String) -> (r:
        Result<DeactivationOutcome, QuestError>)
        requires
            old(self).wf(),
        ensures
            final(self).wf(),
            !old(self)@.is_operator(caller@) ==> *final(self) == *old(self) && r == Err::<
                DeactivationOutcome,
                QuestError,
            >(QuestError::AuthorizationError),
            old(self)@.is_operator(caller@) ==> ({
                &&& final(self)@ == (QuestView { is_active: false, ..old(self)@ })
                &&& r matches Ok(o) && ({
                    &&& o.transfers@.len() == old(self)@.additional_rewards.len()
                    &&& forall|i: int|
                        0 <= i < o.transfers@.len() ==> transfer_for(
                            #[trigger] o.transfers@[i],
                            old(self)@.additional_rewards[i],
                            withdrawal_account_id@,
                        )
                    &&& labeled_log(o.event) && (o.event.event matches
                    EventLogVariant::DeactivateQuest(l) && l.withdrawal_account_id@
                        == withdrawal_account_id@)
                })
            }),
    {
        if !self.is_operator(caller) {
            return Err(QuestError::AuthorizationError);
        }
        let mut transfers: Vec<TransferAction> = Vec::new();
        let n = self.additional_rewards.len();
        let mut i: usize = 0;
        while i < n
            invariant
                n == self.additional_rewards@.len(),
                *self == *old(self),
                old(self).wf(),
                0 <= i <= n,
                transfers@.len() == i,
                forall|k: int|
                    0 <= k < i ==> transfer_for(
                        #[trigger] transfers@[k],
                        self@.additional_rewards[k],
                        withdrawal_account_id@,
                    ),
            decreases n - i,
        {
            let t = transfer_of(&self.additional_rewards[i], withdrawal_account_id);
            transfers.push(t);
            i = i + 1;
        }
        self.is_active = false;
        let event = self.emit_event(
            EventLogVariant::DeactivateQuest(
                DeactivateQuestLog { withdrawal_account_id: withdrawal_account_id.clone() },
            ),
        );
        Ok(DeactivationOutcome { transfers, event })
    }

    /// Adjusts a confirmed reward's amount. The caller must be an
    /// operator and a confirmed entry must match the given reward's
    /// fingerprint. The candidate amount replays the settlement
    /// eligibility formula — existing amount plus the increase minus the
    /// completion count — and the entry is re-verified by the same custody
    /// protocol before the continuation overwrites it in place.
    #[verifier::loop_isolation(false)]
    pub fn increase_reward_amount(&self, caller: &String, amount: u128, reward: &Reward) -> (r:
        Result<VerificationRequest, QuestError>)
        requires
            self.wf(),
            adjustment_bounds_ok(self@, amount, fingerprint(reward@)),
        ensures
            adjustment_result(self@, caller@, amount, fingerprint(reward@), r),
    {
        if !self.is_operator(caller) {
            return Err(QuestError::AuthorizationError);
        }
        let fp = reward_fingerprint(reward);
        let n = self.additional_rewards.len();
        let mut i: usize = 0;
        while i < n
            invariant
                n == self.additional_rewards@.len(),
                fp@ == fingerprint(reward@),
                self.wf(),
                adjustment_bounds_ok(self@, amount, fingerprint(reward@)),
                0 <= i <= n,
                forall|k: int|
                    0 <= k < i ==> fingerprint(#[trigger] self@.additional_rewards[k])
                        != fingerprint(reward@),
            decreases n - i,
        {
            let h = reward_fingerprint(&self.additional_rewards[i]);
            proof {
                assert(self@.additional_rewards[i as int] == self.additional_rewards@[i as int]@);
            }
            if bytes_eq(&h, &fp) {
                proof {
                    assert(fingerprint(self@.additional_rewards[i as int]) == fingerprint(
                        reward@,
                    ));
                    lemma_first_matching_at(
                        self@.additional_rewards,
                        fingerprint(reward@),
                        i as int,
                    );
                    assert(self@.players.len() <= self@.additional_rewards[i as int].amount
                        + amount <= u128::MAX);
                }
                let existing = &self.additional_rewards[i];
                let cand: u128 = existing.amount + amount - (self.players.len() as u128);
                let mut test_reward = existing.clone();
                test_reward.amount = cand;
                let query = self.internal_verify_token_ownership(&test_reward);
                return Ok(
                    VerificationRequest {
                        action: CallbackAction::IncreaseRewardAmount,
                        reward: test_reward,
                        index: Some(i),
                        query,
                    },
                );
            }
            i = i + 1;
        }
        proof {
            lemma_first_matching(self@.additional_rewards, fingerprint(reward@));
        }
        Err(QuestError::InvalidReference)
    }

    /// Tests the adjustment bounds and only then runs the adjustment.
    /// Returns nothing when some matching entry's candidate amount would
    /// fall outside the representable range.
    #[verifier::loop_isolation(false)]
    pub fn checked_increase_reward_amount(&self, caller: &String, amount: u128, reward: &Reward) -> (
    r: Option<Result<VerificationRequest, QuestError>>)
        requires
            self.wf(),
        ensures
            !adjustment_bounds_ok(self@, amount, fingerprint(reward@)) ==> r is None,
            adjustment_bounds_ok(self@, amount, fingerprint(reward@)) ==> (r matches Some(res)
                && adjustment_result(self@, caller@, amount, fingerprint(reward@), res)),
    {
        let fp = reward_fingerprint(reward);
        let n = self.additional_rewards.len();
        let plen: u128 = self.players.len() as u128;
        let mut i: usize = 0;
        while i < n
            invariant
                n == self.additional_rewards@.len(),
                plen == self@.players.len(),
                fp@ == fingerprint(reward@),
                0 <= i <= n,
                forall|k: int|
                    0 <= k < i && fingerprint(#[trigger] self@.additional_rewards[k])
                        == fingerprint(reward@) ==> self@.players.len()
                        <= self@.additional_rewards[k].amount + amount <= u128::MAX,
            decreases n - i,
        {
            let h = reward_fingerprint(&self.additional_rewards[i]);
            proof {
                assert(self@.additional_rewards[i as int] == self.additional_rewards@[i as int]@);
            }
            if bytes_eq(&h, &fp) {
                let existing = &self.additional_rewards[i];
                if existing.amount > u128::MAX - amount {
                    proof {
                        assert(!(self@.players.len() <= self@.additional_rewards[i as int].amount
                            + amount <= u128::MAX));
                        assert(!adjustment_bounds_ok(self@, amount, fingerprint(reward@)));
                    }
                    return None;
                }
                if existing.amount + amount < plen {
                    proof {
                        assert(!(self@.players.len() <= self@.additional_rewards[i as int].amount
                            + amount <= u128::MAX));
                        assert(!adjustment_bounds_ok(self@, amount, fingerprint(reward@)));
                    }
                    return None;
                }
            }
            i = i + 1;
        }
        Some(self.increase_reward_amount(caller, amount, reward))
    }
}

/// Builds the fire-and-forget transfer paying this reward to this
/// receiver.
fn transfer_of(reward: &Reward, receiver_id: &String) -> (t: TransferAction)
    requires
        reward@.reward_type == RewardType::NFT ==> reward@.id is Some,
    ensures
        transfer_for(t, reward@, receiver_id@),
{
    match reward.reward_type {
        RewardType::FT => TransferAction::Ft {
            reward_contract_account_id: reward.reward_contract_account_id.clone(),
            receiver_id: receiver_id.clone(),
            amount: reward.token_amount,
        },
        RewardType::NFT => {
            let token_id = match &reward.id {
                Some(s) => s.clone(),
                None => String::new(),
            };
            TransferAction::Nft {
                reward_contract_account_id: reward.reward_contract_account_id.clone(),
                receiver_id: receiver_id.clone(),
                token_id,
            }
        },
    }
}

/// Whether the reported balance covers `unitPrice × count`, computed
/// without overflowing.
fn balance_covers(reward: &Reward, balance: u128) -> (r: bool)
    ensures
        r == (reward@.token_amount * reward@.amount <= balance),
{
    if reward.amount == 0 {
        return true;
    }
    let limit = u128::MAX / reward.amount;
    if reward.token_amount > limit {
        proof {
            lemma_mul_exceeds_max(reward@.token_amount as int, reward@.amount as int);
        }
        return false;
    }
    proof {
        lemma_mul_within_max(reward@.token_amount as int, reward@.amount as int);
    }
    reward.token_amount * reward.amount <= balance
}

/// A factor above `u128::MAX / a` pushes the product past `u128::MAX`.
proof fn lemma_mul_exceeds_max(t: int, a: int)
    requires
        a >= 1,
        t > u128::MAX as int / a,
    ensures
        t * a > u128::MAX,
{
    let m = u128::MAX as int;
    vstd::arithmetic::div_mod::lemma_fundamental_div_mod(m, a);
    vstd::arithmetic::div_mod::lemma_mod_bound(m, a);
    vstd::arithmetic::mul::lemma_mul_inequality(m / a + 1, t, a);
    assert((m / a + 1) * a == (m / a) * a + a) by (nonlinear_arith);
}

/// A factor at most `u128::MAX / a` keeps the product within `u128::MAX`.
proof fn lemma_mul_within_max(t: int, a: int)
    requires
        a >= 1,
        0 <= t <= u128::MAX as int / a,
    ensures
        t * a <= u128::MAX,
{
    let m = u128::MAX as int;
    vstd::arithmetic::div_mod::lemma_fundamental_div_mod(m, a);
    vstd::arithmetic::div_mod::lemma_mod_bound(m, a);
    vstd::arithmetic::mul::lemma_mul_inequality(t, m / a, a);
}

} // verus!
