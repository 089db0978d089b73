//! What surrounds the ledger: the configured identities, the pending change
//! of governance, what the host tells an operation, and what an operation
//! tells the host.

use vstd::prelude::*;

verus! {

/// Ghost view of [`Config`].
pub struct ConfigView {
    pub psi_token: Seq<char>,
    pub nasset_token: Seq<char>,
    pub governance_contract: Seq<char>,
}

/// The identities that the ledger is configured with.
#[derive(Debug, Clone, PartialEq, Eq)]
pub struct Config {
    /// The token that rewards are paid in.
    pub psi_token: String,
    /// The token contract whose balances the ledger mirrors; the only caller
    /// that may report balance changes.
    pub nasset_token: String,
    /// The authority over the configuration.
    pub governance_contract: String,
}

impl View for Config {
    type V = ConfigView;

    open spec fn view(&self) -> ConfigView {
        ConfigView {
            psi_token: self.psi_token@,
            nasset_token: self.nasset_token@,
            governance_contract: self.governance_contract@,
        }
    }
}

/// Ghost view of [`GovernanceUpdateState`].
pub struct GovernanceUpdateView {
    pub new_governance_contract_addr: Seq<char>,
    pub wait_approve_until: nat,
}

/// A proposed change of governance, open for acceptance by the candidate.
#[derive(Debug, Clone, PartialEq, Eq)]
pub struct GovernanceUpdateState {
    /// The proposed authority.
    pub new_governance_contract_addr: String,
    /// The last second, counted from the epoch, at which the candidate can
    /// accept.
    pub wait_approve_until: u64,
}

impl View for GovernanceUpdateState {
    type V = GovernanceUpdateView;

    open spec fn view(&self) -> GovernanceUpdateView {
        GovernanceUpdateView {
            new_governance_contract_addr: self.new_governance_contract_addr@,
            wait_approve_until: self.wait_approve_until as nat,
        }
    }
}

/// The view of a pending change of governance that may be absent.
pub open spec fn pending_view(pending: Option<GovernanceUpdateState>) -> Option<
    GovernanceUpdateView,
> {
    match pending {
        Some(update) => Some(update@),
        None => None,
    }
}

/// What the host observed when it handed over an operation.
#[derive(Debug, Clone, Copy, PartialEq, Eq, Structural)]
pub struct Env {
    /// The time of the current block, in seconds since the epoch.
    pub block_time: u64,
    /// The size of the reward pool: the ledger's own balance of the reward
    /// token.
    pub reward_balance: u128,
}

/// Who sent the operation.
#[derive(Debug, Clone, PartialEq, Eq)]
pub struct MessageInfo {
    pub sender: String,
}

/// An instruction to the reward token: pay `amount` to `recipient`.
#[derive(Debug, Clone, PartialEq, Eq)]
pub struct Transfer {
    pub recipient: String,
    pub amount: u128,
}

/// One entry of the event that an operation leaves behind.
#[derive(Debug, Clone, PartialEq, Eq)]
pub struct Attribute {
    pub key: String,
    pub value: String,
}

/// Ghost view of [`Response`]: the transfer as recipient and amount, the
/// attributes as pairs of key and value.
pub struct ResponseView {
    pub transfer: Option<(Seq<char>, nat)>,
    pub attributes: Seq<(Seq<char>, Seq<char>)>,
}

impl ResponseView {
    /// The response that asks for nothing and records nothing.
    pub open spec fn empty() -> ResponseView {
        ResponseView { transfer: None, attributes: Seq::empty() }
    }
}

/// What a successful operation asks of the host.
#[derive(Debug, Clone, PartialEq, Eq)]
pub struct Response {
    /// The payment to make, if any. It is part of the operation: where it
    /// fails, the host drops the operation's changes with it.
    pub transfer: Option<Transfer>,
    /// The event to record.
    pub attributes: Vec<Attribute>,
}

impl View for Response {
    type V = ResponseView;

    open spec fn view(&self) -> ResponseView {
        ResponseView {
            transfer: match self.transfer {
                Some(t) => Some((t.recipient@, t.amount as nat)),
                None => None,
            },
            attributes: Seq::new(
                self.attributes@.len(),
                |i: int| (self.attributes@[i].key@, self.attributes@[i].value@),
            ),
        }
    }
}

impl Response {
    /// The response that asks for nothing and records nothing.
    pub fn new() -> (response: Response)
        ensures
            response@ == ResponseView::empty(),
    {
        let response = Response { transfer: None, attributes: Vec::new() };
        assert(response@.attributes =~= Seq::empty());
        response
    }
}

} // verus!
