//! The records of the ledger: the global distribution state and one record
//! per holder, each with its mathematical view.

use vstd::prelude::*;
use crate::math::{ratio_atomics, scaled, Decimal};

verus! {

/// Ghost view of [`State`]: amounts as natural numbers, the index as its
/// number of atomic units.
pub struct StateView {
    pub global_index: nat,
    pub total_balance: nat,
    pub prev_reward_balance: nat,
}

impl StateView {
    /// What the global index grows by when the reward pool is observed at
    /// `observed`: the growth of the pool per unit of tracked balance. With
    /// no balance tracked, nothing is distributed.
    pub open spec fn index_increase(self, observed: nat) -> nat {
        if self.total_balance == 0 {
            0
        } else {
            ratio_atomics((observed - self.prev_reward_balance) as nat, self.total_balance)
        }
    }

    /// The state after the reward pool was observed at `observed`, which is
    /// not below the last observation.
    pub open spec fn refreshed(self, observed: nat) -> StateView {
        StateView {
            global_index: self.global_index + self.index_increase(observed),
            total_balance: self.total_balance,
            prev_reward_balance: observed,
        }
    }
}

/// The global distribution state.
#[derive(Debug, Clone, Copy, PartialEq, Eq, Structural)]
pub struct State {
    /// Cumulative reward per unit of balance.
    pub global_index: Decimal,
    /// Sum of the balances of all holders.
    pub total_balance: u128,
    /// Size of the reward pool when the index was last refreshed.
    pub prev_reward_balance: u128,
}

impl View for State {
    type V = StateView;

    open spec fn view(&self) -> StateView {
        StateView {
            global_index: self.global_index@,
            total_balance: self.total_balance as nat,
            prev_reward_balance: self.prev_reward_balance as nat,
        }
    }
}

impl State {
    /// The state of a fresh ledger: every field zero.
    pub fn new() -> (state: State)
        ensures
            state@ == (StateView { global_index: 0, total_balance: 0, prev_reward_balance: 0 }),
    {
        State { global_index: Decimal::zero(), total_balance: 0, prev_reward_balance: 0 }
    }
}

/// Ghost view of [`Holder`].
pub struct HolderView {
    pub address: Seq<char>,
    pub balance: nat,
    pub index: nat,
    pub pending_rewards: nat,
}

impl HolderView {
    /// The record of an address that the ledger has not seen yet.
    pub open spec fn empty(address: Seq<char>) -> HolderView {
        HolderView { address, balance: 0, index: 0, pending_rewards: 0 }
    }

    /// What the holder earned since the last settlement, at a global index
    /// of `global_index`: the balance times the gap between the two indices,
    /// rounded down.
    pub open spec fn accrued(self, global_index: nat) -> nat {
        scaled(self.balance, (global_index - self.index) as nat)
    }

    /// Everything the holder can claim at a global index of `global_index`.
    pub open spec fn entitlement(self, global_index: nat) -> nat {
        self.pending_rewards + self.accrued(global_index)
    }

    /// The record after settlement at `global_index`: the accrued amount is
    /// folded into the pending rewards and the index catches up.
    pub open spec fn settled(self, global_index: nat) -> HolderView {
        HolderView {
            address: self.address,
            balance: self.balance,
            index: global_index,
            pending_rewards: self.entitlement(global_index),
        }
    }
}

/// The record of one holder.
#[derive(Debug, Clone, PartialEq, Eq)]
pub struct Holder {
    /// The holder's address, the key of the record.
    pub address: String,
    /// The holder's balance of the token.
    pub balance: u128,
    /// The global index at the holder's last settlement.
    pub index: Decimal,
    /// Rewards accrued and not yet claimed.
    pub pending_rewards: u128,
}

impl View for Holder {
    type V = HolderView;

    open spec fn view(&self) -> HolderView {
        HolderView {
            address: self.address@,
            balance: self.balance as nat,
            index: self.index@,
            pending_rewards: self.pending_rewards as nat,
        }
    }
}

impl Holder {
    /// The record of an address that the ledger has not seen yet.
    pub fn new(address: String) -> (holder: Holder)
        ensures
            holder@ == HolderView::empty(address@),
    {
        Holder { address, balance: 0, index: Decimal::zero(), pending_rewards: 0 }
    }

    /// A copy of the record.
    pub fn duplicate(&self) -> (copy: Holder)
        ensures
            copy == *self,
    {
        Holder {
            address: self.address.clone(),
            balance: self.balance,
            index: self.index,
            pending_rewards: self.pending_rewards,
        }
    }
}

} // verus!
