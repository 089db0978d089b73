//! The messages that the ledger takes and the answers that it gives.

use vstd::prelude::*;
use crate::config::Config;
use crate::state::{Holder, State};

verus! {

/// What a ledger is created from.
#[derive(Debug, Clone, PartialEq, Eq)]
pub struct InstantiateMsg {
    pub psi_token_addr: String,
    pub nasset_token_addr: String,
    pub governance_contract_addr: String,
}

/// Operations open to every caller.
#[derive(Debug, Clone, PartialEq, Eq)]
pub enum AnyoneMsg {
    /// Observe the reward pool and distribute its growth.
    UpdateGlobalIndex {  },
    /// Pay the sender's rewards, to `recipient` or else to the sender.
    ClaimRewards { recipient: Option<String> },
    /// Pay the rewards of `address` to that same address.
    ClaimRewardsForSomeone { address: String },
    /// Take office as the governance that was proposed.
    AcceptGovernance {  },
}

/// Ghost view of [`TokenMsg`]: whose balance changes, by how much, and
/// whether it grows.
pub struct BalanceChange {
    pub address: Seq<char>,
    pub amount: nat,
    pub up: bool,
}

/// Notifications from the token contract.
#[derive(Debug, Clone, PartialEq, Eq)]
pub enum TokenMsg {
    IncreaseBalance { address: String, amount: u128 },
    DecreaseBalance { address: String, amount: u128 },
}

impl View for TokenMsg {
    type V = BalanceChange;

    open spec fn view(&self) -> BalanceChange {
        match self {
            TokenMsg::IncreaseBalance { address, amount } => BalanceChange {
                address: address@,
                amount: *amount as nat,
                up: true,
            },
            TokenMsg::DecreaseBalance { address, amount } => BalanceChange {
                address: address@,
                amount: *amount as nat,
                up: false,
            },
        }
    }
}

/// Operations of the governance in office.
#[derive(Debug, Clone, PartialEq, Eq)]
pub enum GovernanceMsg {
    UpdateConfig {
        psi_token_contract_addr: Option<String>,
        nasset_token_contract_addr: Option<String>,
    },
    UpdateGovernanceContract { gov_addr: String, seconds_to_wait_for_accept_gov_tx: u64 },
}

/// Every operation that changes the ledger, by the role that it asks for.
#[derive(Debug, Clone, PartialEq, Eq)]
pub enum ExecuteMsg {
    Anyone { anyone_msg: AnyoneMsg },
    Token { token_msg: TokenMsg },
    Governance { governance_msg: GovernanceMsg },
}

/// What a migration is given: nothing.
#[derive(Debug, Clone, PartialEq, Eq)]
pub struct MigrateMsg {}

/// The questions that the ledger answers without changing.
#[derive(Debug, Clone, PartialEq, Eq)]
pub enum QueryMsg {
    Config {  },
    State {  },
    /// What `address` could claim now.
    AccruedRewards { address: String },
    /// The record of `address`.
    Holder { address: String },
    /// One page of records in the order of their addresses, behind
    /// `start_after` and of at most `limit` records.
    Holders { start_after: Option<String>, limit: u32 },
}

/// The answer to a [`QueryMsg`], one variant for each question.
#[derive(Debug, Clone, PartialEq, Eq)]
pub enum QueryResponse {
    Config(Config),
    State(State),
    AccruedRewards { rewards: u128 },
    Holder(Holder),
    Holders(Vec<Holder>),
}

} // verus!
