//! Storage-rent accounting, shared by every mutating entry point.
//!
//! After its storage-affecting writes, a mutating call charges rent
//! proportional to the persisted-byte delta against the attached payment:
//! an insufficient payment is fatal and reverts the whole call, and any
//! excess beyond a one-unit dust threshold is refunded to the caller. The
//! host invokes this as the last effect, so that the failure reverts
//! everything the call wrote.

use vstd::prelude::*;

use crate::errors::QuestError;

verus! {

/// The rent owed for a persisted-byte delta at the host's per-byte rate.
pub open spec fn rent_cost(storage_used: u64, storage_byte_cost: u128) -> int {
    (storage_byte_cost as int) * (storage_used as int)
}

/// Charges storage rent. Fails with `InsufficientPayment` exactly when the
/// attached payment is below the cost; otherwise returns the refund to
/// issue — the attached payment minus the cost — when that remainder
/// exceeds one unit, and nothing when it does not.
pub fn refund_deposit(storage_used: u64, attached_deposit: u128, storage_byte_cost: u128) -> (r:
    Result<Option<u128>, QuestError>)
    requires
        rent_cost(storage_used, storage_byte_cost) <= u128::MAX,
    ensures
        attached_deposit < rent_cost(storage_used, storage_byte_cost) ==> r == Err::<
            Option<u128>,
            QuestError,
        >(QuestError::InsufficientPayment),
        attached_deposit >= rent_cost(storage_used, storage_byte_cost) ==> ({
            let refund = attached_deposit - rent_cost(storage_used, storage_byte_cost);
            if refund > 1 {
                r == Ok::<Option<u128>, QuestError>(Some(refund as u128))
            } else {
                r == Ok::<Option<u128>, QuestError>(None)
            }
        }),
{
    let required_cost: u128 = storage_byte_cost * (storage_used as u128);
    if required_cost > attached_deposit {
        return Err(QuestError::InsufficientPayment);
    }
    let refund = attached_deposit - required_cost;
    if refund > 1 {
        Ok(Some(refund))
    } else {
        Ok(None)
    }
}

} // verus!
