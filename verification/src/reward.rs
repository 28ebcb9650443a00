//! Reward definitions and their fingerprints.
//!
//! A reward definition names a token ledger, a unit price, an allocation
//! count and, for non-fungible tokens, the token id. Confirmed rewards are
//! identified by a fingerprint: the Keccak-256 digest of the ledger identity
//! concatenated with the token id (or the sentinel `"0"` when there is
//! none). The registry keeps confirmed entries unique by this fingerprint.

use vstd::prelude::*;
use vstd::string::StrSliceExecFns;
use vstd::utf8::encode_utf8;

verus! {

/// Whether a reward pays out of a fungible or a non-fungible token ledger.
#[derive(Clone, Copy, Debug, PartialEq, Eq, Structural)]
pub enum RewardType {
    FT,
    NFT,
}

/// Which registry mutation a custody-verification continuation commits:
/// appending a new confirmed entry or overwriting one in place.
#[derive(Clone, Copy, Debug, PartialEq, Eq, Structural)]
pub enum CallbackAction {
    AddReward,
    IncreaseRewardAmount,
}

/// A non-fungible token record as the ledger reports it: the token id and
/// the identity that currently owns the token.
#[derive(Debug)]
pub struct Token {
    pub token_id: String,
    pub owner_id: String,
}

/// The mathematical value of a reward definition.
pub ghost struct RewardView {
    pub reward_type: RewardType,
    pub reward_contract_account_id: Seq<char>,
    pub token_amount: u128,
    pub amount: u128,
    pub id: Option<Seq<char>>,
}

/// A reward definition: the payable unit of a quest.
///
/// `token_amount` is the unit price paid per completing participant;
/// `amount` is how many participants the entry is provisioned for; `id`
/// names the token for non-fungible rewards.
#[derive(Debug)]
pub struct Reward {
    pub reward_type: RewardType,
    pub reward_contract_account_id: String,
    pub token_amount: u128,
    pub amount: u128,
    pub id: Option<String>,
}

impl View for Reward {
    type V = RewardView;

    open spec fn view(&self) -> RewardView {
        RewardView {
            reward_type: self.reward_type,
            reward_contract_account_id: self.reward_contract_account_id@,
            token_amount: self.token_amount,
            amount: self.amount,
            id: match self.id {
                Some(s) => Some(s@),
                None => None,
            },
        }
    }
}

impl Clone for Reward {
    fn clone(&self) -> (r: Reward)
        ensures
            r@ == self@,
    {
        Reward {
            reward_type: self.reward_type,
            reward_contract_account_id: self.reward_contract_account_id.clone(),
            token_amount: self.token_amount,
            amount: self.amount,
            id: match &self.id {
                Some(s) => Some(s.clone()),
                None => None,
            },
        }
    }
}

/// The Keccak-256 digest of a byte sequence, as the host computes it.
pub uninterp spec fn keccak_of(bytes: Seq<u8>) -> Seq<u8>;

/// The bytes a reward's fingerprint is computed over: the UTF-8 bytes of
/// the ledger identity followed by those of the token id, with `"0"` as the
/// sentinel when the reward has no token id.
pub open spec fn fingerprint_bytes(r: RewardView) -> Seq<u8> {
    encode_utf8(r.reward_contract_account_id) + encode_utf8(
        match r.id {
            Some(s) => s,
            None => seq!['0'],
        },
    )
}

/// A reward's fingerprint: the Keccak-256 digest of its fingerprint bytes.
pub open spec fn fingerprint(r: RewardView) -> Seq<u8> {
    keccak_of(fingerprint_bytes(r))
}

/// Relies on `near_sdk::env::keccak256`: the 32-byte Keccak-256 digest of
/// the input bytes, a function of the bytes alone.
#[verifier::external_body]
pub(crate) fn keccak256_digest(data: &Vec<u8>) -> (r: Vec<u8>)
    ensures
        r@ == keccak_of(data@),
        r@.len() == 32,
{
    near_sdk::env::keccak256(data.as_slice())
}

/// Computes a reward's fingerprint: the digest of the ledger identity and
/// the token id (or the `"0"` sentinel).
pub fn reward_fingerprint(reward: &Reward) -> (h: Vec<u8>)
    ensures
        h@ == fingerprint(reward@),
{
    let mut data: Vec<u8> = reward.reward_contract_account_id.as_str().as_bytes_vec();
    let mut tail: Vec<u8> = match &reward.id {
        Some(s) => s.as_str().as_bytes_vec(),
        None => {
            proof {
                reveal_strlit("0");
            }
            assert("0"@ =~= seq!['0']);
            "0".as_bytes_vec()
        },
    };
    data.append(&mut tail);
    keccak256_digest(&data)
}

/// Whether two byte vectors hold the same bytes.
pub fn bytes_eq(a: &Vec<u8>, b: &Vec<u8>) -> (r: bool)
    ensures
        r == (a@ == b@),
{
    if a.len() != b.len() {
        assert(a@ != b@) by {
            assert(a@.len() != b@.len());
        }
        return false;
    }
    let n = a.len();
    let mut i: usize = 0;
    while i < n
        invariant
            n == a@.len() == b@.len(),
            0 <= i <= n,
            forall|k: int| 0 <= k < i ==> a@[k] == b@[k],
        decreases n - i,
    {
        if a[i] != b[i] {
            assert(a@ != b@);
            return false;
        }
        i = i + 1;
    }
    assert(a@ =~= b@);
    true
}

/// Whether the rewards of a registry are pairwise distinct by fingerprint.
pub open spec fn unique_fingerprints(rs: Seq<RewardView>) -> bool {
    forall|i: int, j: int|
        0 <= i < rs.len() && 0 <= j < rs.len() && i != j ==> fingerprint(rs[i]) != fingerprint(
            rs[j],
        )
}

/// Law: confirming a reward whose fingerprint differs from every confirmed
/// one keeps the confirmed fingerprints pairwise distinct. Together with the
/// submission contract, which refuses a duplicate fingerprint, no two
/// confirmed rewards of a quest ever share a fingerprint, as long as no two
/// submissions with the same fingerprint are in flight at once.
pub proof fn lemma_register_preserves_uniqueness(rs: Seq<RewardView>, r: RewardView)
    requires
        unique_fingerprints(rs),
        forall|i: int| 0 <= i < rs.len() ==> fingerprint(rs[i]) != fingerprint(r),
    ensures
        unique_fingerprints(rs.push(r)),
{
    let rs2 = rs.push(r);
    assert forall|i: int, j: int|
        0 <= i < rs2.len() && 0 <= j < rs2.len() && i != j implies fingerprint(rs2[i])
        != fingerprint(rs2[j]) by {
        if i < rs.len() && j < rs.len() {
            assert(rs2[i] == rs[i] && rs2[j] == rs[j]);
        } else if i == rs.len() {
            assert(rs2[i] == r && rs2[j] == rs[j]);
        } else {
            assert(rs2[i] == rs[i] && rs2[j] == r);
        }
    }
}

/// Law: overwriting a confirmed reward with one of the same fingerprint —
/// as an amount adjustment does — keeps the confirmed fingerprints
/// pairwise distinct.
pub proof fn lemma_adjust_preserves_uniqueness(rs: Seq<RewardView>, i: int, r: RewardView)
    requires
        unique_fingerprints(rs),
        0 <= i < rs.len(),
        fingerprint(r) == fingerprint(rs[i]),
    ensures
        unique_fingerprints(rs.update(i, r)),
{
    let rs2 = rs.update(i, r);
    assert forall|a: int, b: int|
        0 <= a < rs2.len() && 0 <= b < rs2.len() && a != b implies fingerprint(rs2[a])
        != fingerprint(rs2[b]) by {
        if a == i {
            assert(rs2[a] == r && rs2[b] == rs[b]);
            assert(fingerprint(rs[i]) != fingerprint(rs[b]));
        } else if b == i {
            assert(rs2[a] == rs[a] && rs2[b] == r);
            assert(fingerprint(rs[a]) != fingerprint(rs[i]));
        } else {
            assert(rs2[a] == rs[a] && rs2[b] == rs[b]);
        }
    }
}

} // verus!
