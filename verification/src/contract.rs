//! The command layer of the ledger: every operation first establishes that
//! its caller holds the role it asks for, then hands over to the accrual
//! engine or to the governance handover. A rejected operation changes
//! nothing.

use vstd::prelude::*;
use crate::config::{
    pending_view, Config, ConfigView, Env, GovernanceUpdateState, GovernanceUpdateView,
    MessageInfo, Response, ResponseView, Transfer,
};
use crate::error::ContractError;
use crate::governance::{
    accept_governance, accept_outcome, governance_changed, propose_outcome,
    update_governance_addr,
};
use crate::holders::{holder_views, holds, listed, lookup, upsert, Holders};
use crate::msg::{
    AnyoneMsg, ExecuteMsg, GovernanceMsg, InstantiateMsg, MigrateMsg, QueryMsg, QueryResponse,
    TokenMsg,
};
use crate::rewards::{
    claim_outcome, decrease_outcome, entitlement_outcome, increase_outcome, refresh_outcome,
};
use crate::state::{Holder, HolderView, State, StateView};

verus! {

/// Ghost view of [`Contract`].
pub struct ContractView {
    pub config: ConfigView,
    pub state: StateView,
    pub holders: Seq<HolderView>,
    pub gov_update: Option<GovernanceUpdateView>,
}

/// The four records of the ledger.
#[derive(Debug, Clone, PartialEq, Eq)]
pub struct Contract {
    pub config: Config,
    pub state: State,
    pub holders: Holders,
    pub gov_update: Option<GovernanceUpdateState>,
}

impl View for Contract {
    type V = ContractView;

    open spec fn view(&self) -> ContractView {
        ContractView {
            config: self.config@,
            state: self.state@,
            holders: self.holders@,
            gov_update: pending_view(self.gov_update),
        }
    }
}

impl Contract {
    /// Whether the holder records are in order.
    pub open spec fn wf(&self) -> bool {
        self.holders.wf()
    }
}

/// The view of an address that may be absent.
pub open spec fn optional_view(address: Option<String>) -> Option<Seq<char>> {
    match address {
        Some(a) => Some(a@),
        None => None,
    }
}

/// The response to a claim of `amount` for `recipient`: a transfer, unless
/// there is nothing to pay.
pub open spec fn claim_response(recipient: Seq<char>, amount: nat) -> ResponseView {
    ResponseView {
        transfer: if amount > 0 {
            Some((recipient, amount))
        } else {
            None
        },
        attributes: Seq::empty(),
    }
}

/// Outcome of an index refresh on the ledger.
pub open spec fn update_global_index_outcome(c: ContractView, env: Env) -> Result<
    (ContractView, ResponseView),
    ContractError,
> {
    match refresh_outcome(c.state, env.reward_balance as nat) {
        Ok(state) => Ok((ContractView { state, ..c }, ResponseView::empty())),
        Err(e) => Err(e),
    }
}

/// Outcome of a claim of the rewards of `holder`, to be paid to `recipient`.
/// An address without a record has nothing to claim, and gets no record.
pub open spec fn claim_rewards_outcome(
    c: ContractView,
    holder: Seq<char>,
    recipient: Seq<char>,
) -> Result<(ContractView, ResponseView), ContractError> {
    if !holds(c.holders, holder) {
        Ok((c, ResponseView::empty()))
    } else {
        match claim_outcome(lookup(c.holders, holder), c.state.global_index) {
            Ok((claimed, amount)) => Ok(
                (
                    ContractView { holders: upsert(c.holders, claimed), ..c },
                    claim_response(recipient, amount),
                ),
            ),
            Err(e) => Err(e),
        }
    }
}

/// Outcome of a reported balance change of `address`: up by `amount` where
/// `up` holds, down otherwise. The first report of an address creates its
/// record.
pub open spec fn balance_change_outcome(
    c: ContractView,
    address: Seq<char>,
    amount: nat,
    up: bool,
) -> Result<(ContractView, ResponseView), ContractError> {
    let changed = if up {
        increase_outcome(c.state, lookup(c.holders, address), amount)
    } else {
        decrease_outcome(c.state, lookup(c.holders, address), amount)
    };
    match changed {
        Ok((state, holder)) => Ok(
            (ContractView { state, holders: upsert(c.holders, holder), ..c }, ResponseView::empty()),
        ),
        Err(e) => Err(e),
    }
}

/// The configuration after an update: each address that is given replaces
/// the one in place.
pub open spec fn updated_config(
    config: ConfigView,
    psi_token: Option<Seq<char>>,
    nasset_token: Option<Seq<char>>,
) -> ConfigView {
    ConfigView {
        psi_token: match psi_token {
            Some(a) => a,
            None => config.psi_token,
        },
        nasset_token: match nasset_token {
            Some(a) => a,
            None => config.nasset_token,
        },
        governance_contract: config.governance_contract,
    }
}

/// Outcome of an operation that is open to every caller.
pub open spec fn anyone_outcome(
    c: ContractView,
    env: Env,
    sender: Seq<char>,
    msg: AnyoneMsg,
) -> Result<(ContractView, ResponseView), ContractError> {
    match msg {
        AnyoneMsg::UpdateGlobalIndex {  } => update_global_index_outcome(c, env),
        AnyoneMsg::ClaimRewards { recipient } => claim_rewards_outcome(
            c,
            sender,
            match recipient {
                Some(r) => r@,
                None => sender,
            },
        ),
        AnyoneMsg::ClaimRewardsForSomeone { address } => claim_rewards_outcome(
            c,
            address@,
            address@,
        ),
        AnyoneMsg::AcceptGovernance {  } => match accept_outcome(
            c.gov_update,
            env.block_time as nat,
            sender,
        ) {
            Ok(governance) => Ok(
                (
                    ContractView {
                        config: ConfigView { governance_contract: governance, ..c.config },
                        gov_update: None,
                        ..c
                    },
                    governance_changed(governance),
                ),
            ),
            Err(e) => Err(e),
        },
    }
}

/// Outcome of a notification, once the token contract is known to be its
/// sender.
pub open spec fn token_outcome(c: ContractView, msg: TokenMsg) -> Result<
    (ContractView, ResponseView),
    ContractError,
> {
    balance_change_outcome(c, msg@.address, msg@.amount, msg@.up)
}

/// Outcome of an operation of governance, once the governance in office is
/// known to be its sender.
pub open spec fn governance_outcome(c: ContractView, env: Env, msg: GovernanceMsg) -> Result<
    (ContractView, ResponseView),
    ContractError,
> {
    match msg {
        GovernanceMsg::UpdateConfig { psi_token_contract_addr, nasset_token_contract_addr } => Ok(
            (
                ContractView {
                    config: updated_config(
                        c.config,
                        optional_view(psi_token_contract_addr),
                        optional_view(nasset_token_contract_addr),
                    ),
                    ..c
                },
                ResponseView::empty(),
            ),
        ),
        GovernanceMsg::UpdateGovernanceContract {
            gov_addr,
            seconds_to_wait_for_accept_gov_tx,
        } => match propose_outcome(
            env.block_time as nat,
            gov_addr@,
            seconds_to_wait_for_accept_gov_tx as nat,
        ) {
            Ok(update) => Ok((ContractView { gov_update: Some(update), ..c }, ResponseView::empty())),
            Err(e) => Err(e),
        },
    }
}

/// Outcome of any operation sent by `sender`: the ledger and the response
/// after it, or the reason why it is rejected. Notifications are taken from
/// the token contract alone, operations of governance from the governance
/// in office alone.
pub open spec fn execute_outcome(
    c: ContractView,
    env: Env,
    sender: Seq<char>,
    msg: ExecuteMsg,
) -> Result<(ContractView, ResponseView), ContractError> {
    match msg {
        ExecuteMsg::Anyone { anyone_msg } => anyone_outcome(c, env, sender, anyone_msg),
        ExecuteMsg::Token { token_msg } => if sender != c.config.nasset_token {
            Err(ContractError::Unauthorized)
        } else {
            token_outcome(c, token_msg)
        },
        ExecuteMsg::Governance { governance_msg } => if sender != c.config.governance_contract {
            Err(ContractError::Unauthorized)
        } else {
            governance_outcome(c, env, governance_msg)
        },
    }
}

/// Creates the ledger: the configured identities, a state of zeros, no
/// holder and no pending change of governance.
pub fn instantiate(msg: InstantiateMsg) -> (contract: Contract)
    ensures
        contract@ == (ContractView {
            config: ConfigView {
                psi_token: msg.psi_token_addr@,
                nasset_token: msg.nasset_token_addr@,
                governance_contract: msg.governance_contract_addr@,
            },
            state: StateView { global_index: 0, total_balance: 0, prev_reward_balance: 0 },
            holders: Seq::empty(),
            gov_update: None,
        }),
        contract.wf(),
{
    Contract {
        config: Config {
            psi_token: msg.psi_token_addr,
            nasset_token: msg.nasset_token_addr,
            governance_contract: msg.governance_contract_addr,
        },
        state: State::new(),
        holders: Holders::new(),
        gov_update: None,
    }
}

/// Replaces the configured token addresses by those that are given. The
/// caller has established that the governance in office is asking.
pub fn update_config(
    config: &mut Config,
    psi_token_contract_addr: Option<String>,
    nasset_token_contract_addr: Option<String>,
) -> (response: Response)
    ensures
        final(config)@ == updated_config(
            old(config)@,
            optional_view(psi_token_contract_addr),
            optional_view(nasset_token_contract_addr),
        ),
        response@ == ResponseView::empty(),
{
    match psi_token_contract_addr {
        Some(address) => {
            config.psi_token = address;
        },
        None => {},
    }
    match nasset_token_contract_addr {
        Some(address) => {
            config.nasset_token = address;
        },
        None => {},
    }
    Response::new()
}

/// Observes the reward pool as the host reports it and distributes its
/// growth.
pub fn update_global_index(contract: &mut Contract, env: &Env) -> (r: Result<
    Response,
    ContractError,
>)
    ensures
        match r {
            Ok(response) => update_global_index_outcome(old(contract)@, *env) == Ok::<
                (ContractView, ResponseView),
                ContractError,
            >((final(contract)@, response@)),
            Err(e) => update_global_index_outcome(old(contract)@, *env) == Err::<
                (ContractView, ResponseView),
                ContractError,
            >(e) && *final(contract) == *old(contract),
        },
        old(contract).wf() ==> final(contract).wf(),
{
    match crate::rewards::refresh_index(&mut contract.state, env.reward_balance) {
        Ok(()) => Ok(Response::new()),
        Err(e) => Err(e),
    }
}

/// Settles the record of `holder` and pays out what is pending to
/// `recipient`.
pub fn claim_rewards(contract: &mut Contract, holder: &String, recipient: String) -> (r: Result<
    Response,
    ContractError,
>)
    ensures
        match r {
            Ok(response) => claim_rewards_outcome(old(contract)@, holder@, recipient@) == Ok::<
                (ContractView, ResponseView),
                ContractError,
            >((final(contract)@, response@)),
            Err(e) => claim_rewards_outcome(old(contract)@, holder@, recipient@) == Err::<
                (ContractView, ResponseView),
                ContractError,
            >(e) && *final(contract) == *old(contract),
        },
        old(contract).wf() ==> final(contract).wf(),
{
    if !contract.holders.contains(holder) {
        return Ok(Response::new());
    }
    let mut record: Holder = contract.holders.get(holder);
    let amount: u128 = match crate::rewards::claim(&mut record, contract.state.global_index) {
        Ok(amount) => amount,
        Err(e) => {
            return Err(e);
        },
    };
    contract.holders.put(record);
    let transfer: Option<Transfer> = if amount > 0 {
        Some(Transfer { recipient, amount })
    } else {
        None
    };
    let response = Response { transfer, attributes: Vec::new() };
    assert(response@.attributes =~= Seq::empty());
    Ok(response)
}

/// Applies a balance change that the token contract reported: up by
/// `amount` where `up` holds, down otherwise. The caller has established
/// that the token contract is reporting.
pub fn change_balance(contract: &mut Contract, address: &String, amount: u128, up: bool) -> (r:
    Result<Response, ContractError>)
    ensures
        match r {
            Ok(response) => balance_change_outcome(old(contract)@, address@, amount as nat, up)
                == Ok::<(ContractView, ResponseView), ContractError>(
                (final(contract)@, response@),
            ),
            Err(e) => balance_change_outcome(old(contract)@, address@, amount as nat, up) == Err::<
                (ContractView, ResponseView),
                ContractError,
            >(e) && *final(contract) == *old(contract),
        },
        old(contract).wf() ==> final(contract).wf(),
{
    let mut record: Holder = contract.holders.get(address);
    let mut state: State = contract.state;
    let changed: Result<(), ContractError> = if up {
        crate::rewards::increase_balance(&mut state, &mut record, amount)
    } else {
        crate::rewards::decrease_balance(&mut state, &mut record, amount)
    };
    match changed {
        Ok(()) => {
            contract.state = state;
            contract.holders.put(record);
            Ok(Response::new())
        },
        Err(e) => Err(e),
    }
}

/// Carries out `msg` for the sender named in `info`, at the time and with
/// the reward pool that `env` reports.
pub fn execute(contract: &mut Contract, env: &Env, info: &MessageInfo, msg: ExecuteMsg) -> (r:
    Result<Response, ContractError>)
    ensures
        match r {
            Ok(response) => execute_outcome(old(contract)@, *env, info.sender@, msg) == Ok::<
                (ContractView, ResponseView),
                ContractError,
            >((final(contract)@, response@)),
            Err(e) => execute_outcome(old(contract)@, *env, info.sender@, msg) == Err::<
                (ContractView, ResponseView),
                ContractError,
            >(e) && *final(contract) == *old(contract),
        },
        old(contract).wf() ==> final(contract).wf(),
{
    match msg {
        ExecuteMsg::Anyone { anyone_msg } => match anyone_msg {
            AnyoneMsg::UpdateGlobalIndex {  } => update_global_index(contract, env),
            AnyoneMsg::ClaimRewards { recipient } => {
                let recipient: String = match recipient {
                    Some(address) => address,
                    None => info.sender.clone(),
                };
                claim_rewards(contract, &info.sender, recipient)
            },
            AnyoneMsg::ClaimRewardsForSomeone { address } => {
                let recipient: String = address.clone();
                claim_rewards(contract, &address, recipient)
            },
            AnyoneMsg::AcceptGovernance {  } => accept_governance(
                &mut contract.config.governance_contract,
                &mut contract.gov_update,
                env,
                info,
            ),
        },
        ExecuteMsg::Token { token_msg } => {
            if !(info.sender == contract.config.nasset_token) {
                return Err(ContractError::Unauthorized);
            }
            match token_msg {
                TokenMsg::IncreaseBalance { address, amount } => change_balance(
                    contract,
                    &address,
                    amount,
                    true,
                ),
                TokenMsg::DecreaseBalance { address, amount } => change_balance(
                    contract,
                    &address,
                    amount,
                    false,
                ),
            }
        },
        ExecuteMsg::Governance { governance_msg } => {
            if !(info.sender == contract.config.governance_contract) {
                return Err(ContractError::Unauthorized);
            }
            match governance_msg {
                GovernanceMsg::UpdateConfig {
                    psi_token_contract_addr,
                    nasset_token_contract_addr,
                } => Ok(
                    update_config(
                        &mut contract.config,
                        psi_token_contract_addr,
                        nasset_token_contract_addr,
                    ),
                ),
                GovernanceMsg::UpdateGovernanceContract {
                    gov_addr,
                    seconds_to_wait_for_accept_gov_tx,
                } => update_governance_addr(
                    &mut contract.gov_update,
                    env,
                    gov_addr,
                    seconds_to_wait_for_accept_gov_tx,
                ),
            }
        },
    }
}

/// Carries a ledger over to a new version of the code. There is nothing to
/// carry over: the records stay as they are.
pub fn migrate(msg: MigrateMsg) -> (response: Response)
    ensures
        response@ == ResponseView::empty(),
{
    Response::new()
}

/// Whether `answer` is the answer of the ledger `c` to the question `msg`.
///
/// The accrued rewards of an address are projected as a settlement at the
/// current global index would find them; the projection is rejected where
/// that settlement would be. Every other question has an answer.
pub open spec fn answers(c: ContractView, msg: QueryMsg, answer: Result<
    QueryResponse,
    ContractError,
>) -> bool {
    match msg {
        QueryMsg::Config {  } => answer matches Ok(QueryResponse::Config(config)) && config@
            == c.config,
        QueryMsg::State {  } => answer matches Ok(QueryResponse::State(state)) && state@
            == c.state,
        QueryMsg::AccruedRewards { address } => match entitlement_outcome(
            lookup(c.holders, address@),
            c.state.global_index,
        ) {
            Ok(amount) => answer matches Ok(QueryResponse::AccruedRewards { rewards }) && rewards
                == amount,
            Err(e) => answer == Err::<QueryResponse, ContractError>(e),
        },
        QueryMsg::Holder { address } => answer matches Ok(QueryResponse::Holder(holder))
            && holder@ == lookup(c.holders, address@),
        QueryMsg::Holders { start_after, limit } => answer matches Ok(
            QueryResponse::Holders(page),
        ) && holder_views(page@) == listed(c.holders, optional_view(start_after), limit as nat),
    }
}

/// Answers the question `msg` from the ledger as it stands.
pub fn query(contract: &Contract, msg: QueryMsg) -> (answer: Result<QueryResponse, ContractError>)
    ensures
        answers(contract@, msg, answer),
{
    match msg {
        QueryMsg::Config {  } => Ok(
            QueryResponse::Config(
                Config {
                    psi_token: contract.config.psi_token.clone(),
                    nasset_token: contract.config.nasset_token.clone(),
                    governance_contract: contract.config.governance_contract.clone(),
                },
            ),
        ),
        QueryMsg::State {  } => Ok(QueryResponse::State(contract.state)),
        QueryMsg::AccruedRewards { address } => {
            let record: Holder = contract.holders.get(&address);
            match crate::rewards::accrued_rewards(&record, contract.state.global_index) {
                Ok(rewards) => Ok(QueryResponse::AccruedRewards { rewards }),
                Err(e) => Err(e),
            }
        },
        QueryMsg::Holder { address } => Ok(QueryResponse::Holder(contract.holders.get(&address))),
        QueryMsg::Holders { start_after, limit } => {
            let page: Vec<Holder> = match &start_after {
                Some(cursor) => contract.holders.list(Some(cursor), limit),
                None => contract.holders.list(None, limit),
            };
            Ok(QueryResponse::Holders(page))
        },
    }
}

} // verus!
