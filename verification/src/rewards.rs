//! The accrual engine: how an observed growth of the reward pool becomes a
//! growth of the global index, and how a holder's share is settled, changed
//! and claimed.
//!
//! Each operation is described by a spec function over views that gives its
//! outcome on every input, the rejections included. The executable function
//! returns that outcome, and leaves its arguments untouched when it rejects.

use vstd::prelude::*;
use crate::error::ContractError;
use crate::math::Decimal;
use crate::state::{Holder, HolderView, State, StateView};

verus! {

/// The largest amount that a record can hold.
pub open spec fn max_amount() -> nat {
    u128::MAX as nat
}

/// Outcome of observing the reward pool at `observed`.
///
/// A pool below the last observation is an inconsistency. Otherwise the
/// growth is spread over the tracked balance and the observation becomes the
/// new baseline, also when no balance is tracked and nothing is distributed.
pub open spec fn refresh_outcome(state: StateView, observed: nat) -> Result<
    StateView,
    ContractError,
> {
    if observed < state.prev_reward_balance {
        Err(ContractError::StateInconsistency)
    } else if state.refreshed(observed).global_index > max_amount() {
        Err(ContractError::Overflow)
    } else {
        Ok(state.refreshed(observed))
    }
}

/// Outcome of settling `holder` at `global_index`, as the holder's
/// entitlement: the settled record holds it as pending rewards.
pub open spec fn entitlement_outcome(holder: HolderView, global_index: nat) -> Result<
    nat,
    ContractError,
> {
    if global_index < holder.index {
        Err(ContractError::StateInconsistency)
    } else if holder.entitlement(global_index) > max_amount() {
        Err(ContractError::Overflow)
    } else {
        Ok(holder.entitlement(global_index))
    }
}

/// Outcome of settling `holder` at `global_index`.
pub open spec fn settle_outcome(holder: HolderView, global_index: nat) -> Result<
    HolderView,
    ContractError,
> {
    match entitlement_outcome(holder, global_index) {
        Ok(_) => Ok(holder.settled(global_index)),
        Err(e) => Err(e),
    }
}

/// Outcome of raising the balance of `holder` by `amount`: the holder is
/// settled first, then the balance and the total grow by `amount`.
pub open spec fn increase_outcome(state: StateView, holder: HolderView, amount: nat) -> Result<
    (StateView, HolderView),
    ContractError,
> {
    match settle_outcome(holder, state.global_index) {
        Err(e) => Err(e),
        Ok(settled) => if settled.balance + amount > max_amount() || state.total_balance + amount
            > max_amount() {
            Err(ContractError::Overflow)
        } else {
            Ok(
                (
                    StateView { total_balance: state.total_balance + amount, ..state },
                    HolderView { balance: settled.balance + amount, ..settled },
                ),
            )
        },
    }
}

/// Outcome of lowering the balance of `holder` by `amount`: the holder is
/// settled first, then the balance and the total shrink by `amount`. A
/// holder cannot give more than they have, and the total cannot be less
/// than one holder's part of it.
pub open spec fn decrease_outcome(state: StateView, holder: HolderView, amount: nat) -> Result<
    (StateView, HolderView),
    ContractError,
> {
    match settle_outcome(holder, state.global_index) {
        Err(e) => Err(e),
        Ok(settled) => if settled.balance < amount {
            Err(ContractError::InsufficientBalance)
        } else if state.total_balance < amount {
            Err(ContractError::StateInconsistency)
        } else {
            Ok(
                (
                    StateView { total_balance: (state.total_balance - amount) as nat, ..state },
                    HolderView { balance: (settled.balance - amount) as nat, ..settled },
                ),
            )
        },
    }
}

/// Outcome of a claim by `holder` at `global_index`: the record after the
/// claim, with nothing pending, and the amount to pay out.
pub open spec fn claim_outcome(holder: HolderView, global_index: nat) -> Result<
    (HolderView, nat),
    ContractError,
> {
    match settle_outcome(holder, global_index) {
        Err(e) => Err(e),
        Ok(settled) => Ok(
            (HolderView { pending_rewards: 0, ..settled }, settled.pending_rewards),
        ),
    }
}

/// Observes the reward pool at `observed` and distributes its growth since
/// the last observation over the tracked balance.
pub fn refresh_index(state: &mut State, observed: u128) -> (r: Result<(), ContractError>)
    ensures
        match r {
            Ok(()) => refresh_outcome(old(state)@, observed as nat) == Ok::<
                StateView,
                ContractError,
            >(final(state)@),
            Err(e) => refresh_outcome(old(state)@, observed as nat) == Err::<
                StateView,
                ContractError,
            >(e) && *final(state) == *old(state),
        },
{
    if observed < state.prev_reward_balance {
        return Err(ContractError::StateInconsistency);
    }
    let delta: u128 = observed - state.prev_reward_balance;
    let mut index: Decimal = state.global_index;
    if state.total_balance != 0 {
        let increase: Decimal = match Decimal::from_ratio(delta, state.total_balance) {
            Some(d) => d,
            None => {
                return Err(ContractError::Overflow);
            },
        };
        index =
        match state.global_index.checked_add(increase) {
            Some(d) => d,
            None => {
                return Err(ContractError::Overflow);
            },
        };
    }
    state.global_index = index;
    state.prev_reward_balance = observed;
    Ok(())
}

/// What `holder` could claim at `global_index`: the pending rewards and what
/// accrued since the last settlement. The record is not touched.
pub fn accrued_rewards(holder: &Holder, global_index: Decimal) -> (r: Result<u128, ContractError>)
    ensures
        match r {
            Ok(amount) => entitlement_outcome(holder@, global_index@) == Ok::<nat, ContractError>(
                amount as nat,
            ),
            Err(e) => entitlement_outcome(holder@, global_index@) == Err::<nat, ContractError>(e),
        },
{
    let gap: Decimal = match global_index.checked_sub(holder.index) {
        Some(d) => d,
        None => {
            return Err(ContractError::StateInconsistency);
        },
    };
    let accrued: u128 = match gap.mul_uint(holder.balance) {
        Some(a) => a,
        None => {
            return Err(ContractError::Overflow);
        },
    };
    if accrued > u128::MAX - holder.pending_rewards {
        return Err(ContractError::Overflow);
    }
    Ok(holder.pending_rewards + accrued)
}

/// Settles `holder` at `global_index`: what accrued since the last
/// settlement joins the pending rewards, and the holder's index catches up.
pub fn settle(holder: &mut Holder, global_index: Decimal) -> (r: Result<(), ContractError>)
    ensures
        match r {
            Ok(()) => settle_outcome(old(holder)@, global_index@) == Ok::<
                HolderView,
                ContractError,
            >(final(holder)@),
            Err(e) => settle_outcome(old(holder)@, global_index@) == Err::<
                HolderView,
                ContractError,
            >(e) && *final(holder) == *old(holder),
        },
{
    let pending: u128 = accrued_rewards(holder, global_index)?;
    holder.pending_rewards = pending;
    holder.index = global_index;
    Ok(())
}

/// Records that the balance of `holder` grew by `amount`.
pub fn increase_balance(state: &mut State, holder: &mut Holder, amount: u128) -> (r: Result<
    (),
    ContractError,
>)
    ensures
        match r {
            Ok(()) => increase_outcome(old(state)@, old(holder)@, amount as nat) == Ok::<
                (StateView, HolderView),
                ContractError,
            >((final(state)@, final(holder)@)),
            Err(e) => increase_outcome(old(state)@, old(holder)@, amount as nat) == Err::<
                (StateView, HolderView),
                ContractError,
            >(e) && *final(state) == *old(state) && *final(holder) == *old(holder),
        },
{
    let pending: u128 = accrued_rewards(holder, state.global_index)?;
    if amount > u128::MAX - holder.balance || amount > u128::MAX - state.total_balance {
        return Err(ContractError::Overflow);
    }
    holder.pending_rewards = pending;
    holder.index = state.global_index;
    holder.balance = holder.balance + amount;
    state.total_balance = state.total_balance + amount;
    Ok(())
}

/// Records that the balance of `holder` shrank by `amount`.
pub fn decrease_balance(state: &mut State, holder: &mut Holder, amount: u128) -> (r: Result<
    (),
    ContractError,
>)
    ensures
        match r {
            Ok(()) => decrease_outcome(old(state)@, old(holder)@, amount as nat) == Ok::<
                (StateView, HolderView),
                ContractError,
            >((final(state)@, final(holder)@)),
            Err(e) => decrease_outcome(old(state)@, old(holder)@, amount as nat) == Err::<
                (StateView, HolderView),
                ContractError,
            >(e) && *final(state) == *old(state) && *final(holder) == *old(holder),
        },
{
    let pending: u128 = accrued_rewards(holder, state.global_index)?;
    if holder.balance < amount {
        return Err(ContractError::InsufficientBalance);
    }
    if state.total_balance < amount {
        return Err(ContractError::StateInconsistency);
    }
    holder.pending_rewards = pending;
    holder.index = state.global_index;
    holder.balance = holder.balance - amount;
    state.total_balance = state.total_balance - amount;
    Ok(())
}

/// Settles `holder` at `global_index` and takes out everything that is
/// pending. The amount returned is what has to be paid; it may be zero.
pub fn claim(holder: &mut Holder, global_index: Decimal) -> (r: Result<u128, ContractError>)
    ensures
        match r {
            Ok(amount) => claim_outcome(old(holder)@, global_index@) == Ok::<
                (HolderView, nat),
                ContractError,
            >((final(holder)@, amount as nat)),
            Err(e) => claim_outcome(old(holder)@, global_index@) == Err::<
                (HolderView, nat),
                ContractError,
            >(e) && *final(holder) == *old(holder),
        },
{
    let amount: u128 = accrued_rewards(holder, global_index)?;
    holder.pending_rewards = 0;
    holder.index = global_index;
    Ok(amount)
}

} // verus!
