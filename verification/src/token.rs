//! What the token contract owes the ledger: for every operation that moves
//! balances, the notifications that keep the ledger's mirror of them true.
//! The token ledger itself is not kept here.

use vstd::prelude::*;
use crate::config::MessageInfo;
use crate::msg::{BalanceChange, TokenMsg};

verus! {

/// An operation of the token, as far as the ledger is concerned: who gives,
/// who receives, and how much.
#[derive(Debug, Clone, PartialEq, Eq)]
pub enum ExecuteMsg {
    /// The sender pays `recipient`.
    Transfer { recipient: String, amount: u128 },
    /// The sender destroys tokens of their own.
    Burn { amount: u128 },
    /// The sender pays `contract` and calls it.
    Send { contract: String, amount: u128 },
    /// New tokens are created for `recipient`.
    Mint { recipient: String, amount: u128 },
    IncreaseAllowance {  },
    DecreaseAllowance {  },
    /// The sender makes `owner` pay `recipient`, within an allowance.
    TransferFrom { owner: String, recipient: String, amount: u128 },
    /// The sender destroys tokens of `owner`, within an allowance.
    BurnFrom { owner: String, amount: u128 },
    /// The sender makes `owner` pay `contract` and calls it, within an
    /// allowance.
    SendFrom { owner: String, contract: String, amount: u128 },
    UpdateMarketing {  },
    UploadLogo {  },
}

/// The balance changes that `msg`, sent by `sender`, brings about: a
/// decrease for who gives, then an increase for who receives. Minting has
/// no giver, burning no receiver; allowances and marketing move nothing.
pub open spec fn balance_changes(sender: Seq<char>, msg: ExecuteMsg) -> Seq<BalanceChange> {
    match msg {
        ExecuteMsg::Transfer { recipient, amount } => moved(sender, recipient@, amount as nat),
        ExecuteMsg::Send { contract, amount } => moved(sender, contract@, amount as nat),
        ExecuteMsg::TransferFrom { owner, recipient, amount } => moved(
            owner@,
            recipient@,
            amount as nat,
        ),
        ExecuteMsg::SendFrom { owner, contract, amount } => moved(
            owner@,
            contract@,
            amount as nat,
        ),
        ExecuteMsg::Burn { amount } => seq![
            BalanceChange { address: sender, amount: amount as nat, up: false },
        ],
        ExecuteMsg::BurnFrom { owner, amount } => seq![
            BalanceChange { address: owner@, amount: amount as nat, up: false },
        ],
        ExecuteMsg::Mint { recipient, amount } => seq![
            BalanceChange { address: recipient@, amount: amount as nat, up: true },
        ],
        _ => Seq::empty(),
    }
}

/// The balance changes of a payment of `amount` from `giver` to `receiver`.
pub open spec fn moved(giver: Seq<char>, receiver: Seq<char>, amount: nat) -> Seq<BalanceChange> {
    seq![
        BalanceChange { address: giver, amount, up: false },
        BalanceChange { address: receiver, amount, up: true },
    ]
}

/// The views of a sequence of notifications.
pub open spec fn notification_views(notifications: Seq<TokenMsg>) -> Seq<BalanceChange> {
    Seq::new(notifications.len(), |i: int| notifications[i]@)
}

fn payment(giver: String, receiver: String, amount: u128) -> (notifications: Vec<TokenMsg>)
    ensures
        notification_views(notifications@) == moved(giver@, receiver@, amount as nat),
{
    let mut notifications: Vec<TokenMsg> = Vec::new();
    notifications.push(TokenMsg::DecreaseBalance { address: giver, amount });
    notifications.push(TokenMsg::IncreaseBalance { address: receiver, amount });
    assert(notification_views(notifications@) =~= moved(giver@, receiver@, amount as nat));
    notifications
}

/// The notifications that the token sends the ledger, in their order, when
/// it carries out `msg` for the sender named in `info`.
pub fn execute(info: &MessageInfo, msg: ExecuteMsg) -> (notifications: Vec<TokenMsg>)
    ensures
        notification_views(notifications@) == balance_changes(info.sender@, msg),
{
    match msg {
        ExecuteMsg::Transfer { recipient, amount } => payment(
            info.sender.clone(),
            recipient,
            amount,
        ),
        ExecuteMsg::Send { contract, amount } => payment(info.sender.clone(), contract, amount),
        ExecuteMsg::TransferFrom { owner, recipient, amount } => payment(owner, recipient, amount),
        ExecuteMsg::SendFrom { owner, contract, amount } => payment(owner, contract, amount),
        ExecuteMsg::Burn { amount } => {
            let mut notifications: Vec<TokenMsg> = Vec::new();
            notifications.push(
                TokenMsg::DecreaseBalance { address: info.sender.clone(), amount },
            );
            assert(notification_views(notifications@) =~= balance_changes(info.sender@, msg));
            notifications
        },
        ExecuteMsg::BurnFrom { owner, amount } => {
            let mut notifications: Vec<TokenMsg> = Vec::new();
            notifications.push(TokenMsg::DecreaseBalance { address: owner, amount });
            assert(notification_views(notifications@) =~= balance_changes(info.sender@, msg));
            notifications
        },
        ExecuteMsg::Mint { recipient, amount } => {
            let mut notifications: Vec<TokenMsg> = Vec::new();
            notifications.push(TokenMsg::IncreaseBalance { address: recipient, amount });
            assert(notification_views(notifications@) =~= balance_changes(info.sender@, msg));
            notifications
        },
        _ => {
            let notifications: Vec<TokenMsg> = Vec::new();
            assert(notification_views(notifications@) =~= balance_changes(info.sender@, msg));
            notifications
        },
    }
}

} // verus!
