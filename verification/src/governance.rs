//! The handover of governance in two steps: the authority in office proposes
//! a candidate with a deadline, and the candidate accepts in time.
//!
//! The machine has two states, no proposal pending and one pending. A new
//! proposal replaces the pending one. Acceptance puts the candidate in
//! office and clears the proposal. A proposal that has expired stays where
//! it is until the next proposal replaces it.

use vstd::prelude::*;
use crate::config::{
    pending_view, Attribute, Env, GovernanceUpdateState, GovernanceUpdateView, MessageInfo,
    Response, ResponseView,
};
use crate::error::ContractError;

verus! {

/// Outcome of a proposal made at `now`: the pending record, whose deadline
/// lies `wait` seconds ahead. A wait of zero, or any other that leaves the
/// candidate no time, is accepted as it is.
pub open spec fn propose_outcome(now: nat, candidate: Seq<char>, wait: nat) -> Result<
    GovernanceUpdateView,
    ContractError,
> {
    if now + wait > u64::MAX {
        Err(ContractError::Overflow)
    } else {
        Ok(
            GovernanceUpdateView {
                new_governance_contract_addr: candidate,
                wait_approve_until: now + wait,
            },
        )
    }
}

/// Outcome of an acceptance by `sender` at `now`: the address that takes
/// office. No proposal and an expired proposal are the same rejection; a
/// proposal in time can be accepted by its candidate alone.
pub open spec fn accept_outcome(
    pending: Option<GovernanceUpdateView>,
    now: nat,
    sender: Seq<char>,
) -> Result<Seq<char>, ContractError> {
    match pending {
        None => Err(ContractError::StateInconsistency),
        Some(update) => if update.wait_approve_until < now {
            Err(ContractError::StateInconsistency)
        } else if sender != update.new_governance_contract_addr {
            Err(ContractError::Unauthorized)
        } else {
            Ok(update.new_governance_contract_addr)
        },
    }
}

/// The response that records a change of governance to `new_address`.
pub open spec fn governance_changed(new_address: Seq<char>) -> ResponseView {
    ResponseView {
        transfer: None,
        attributes: seq![
            ("action"@, "change_governance_contract"@),
            ("new_address"@, new_address),
        ],
    }
}

/// Proposes `gov_addr` as the next governance. The candidate can accept
/// until `seconds_to_wait_for_accept_gov_tx` seconds from now. The caller
/// has established that the authority in office is asking.
pub fn update_governance_addr(
    gov_update: &mut Option<GovernanceUpdateState>,
    env: &Env,
    gov_addr: String,
    seconds_to_wait_for_accept_gov_tx: u64,
) -> (r: Result<Response, ContractError>)
    ensures
        match r {
            Ok(response) => propose_outcome(
                env.block_time as nat,
                gov_addr@,
                seconds_to_wait_for_accept_gov_tx as nat,
            ) == Ok::<GovernanceUpdateView, ContractError>((*final(gov_update))->0@)
                && *final(gov_update) is Some && response@ == ResponseView::empty(),
            Err(e) => propose_outcome(
                env.block_time as nat,
                gov_addr@,
                seconds_to_wait_for_accept_gov_tx as nat,
            ) == Err::<GovernanceUpdateView, ContractError>(e) && *final(gov_update) == *old(
                gov_update,
            ),
        },
{
    if seconds_to_wait_for_accept_gov_tx > u64::MAX - env.block_time {
        return Err(ContractError::Overflow);
    }
    *gov_update =
    Some(
        GovernanceUpdateState {
            new_governance_contract_addr: gov_addr,
            wait_approve_until: env.block_time + seconds_to_wait_for_accept_gov_tx,
        },
    );
    Ok(Response::new())
}

/// Accepts the pending proposal on behalf of the sender, who thereby takes
/// office as `governance_contract`.
pub fn accept_governance(
    governance_contract: &mut String,
    gov_update: &mut Option<GovernanceUpdateState>,
    env: &Env,
    info: &MessageInfo,
) -> (r: Result<Response, ContractError>)
    ensures
        match r {
            Ok(response) => accept_outcome(
                pending_view(*old(gov_update)),
                env.block_time as nat,
                info.sender@,
            ) == Ok::<Seq<char>, ContractError>(final(governance_contract)@) && *final(gov_update)
                is None && response@ == governance_changed(final(governance_contract)@),
            Err(e) => accept_outcome(
                pending_view(*old(gov_update)),
                env.block_time as nat,
                info.sender@,
            ) == Err::<Seq<char>, ContractError>(e) && *final(gov_update) == *old(gov_update)
                && *final(governance_contract) == *old(governance_contract),
        },
{
    let candidate: String = match &*gov_update {
        None => {
            return Err(ContractError::StateInconsistency);
        },
        Some(update) => {
            if update.wait_approve_until < env.block_time {
                return Err(ContractError::StateInconsistency);
            }
            if !(info.sender == update.new_governance_contract_addr) {
                return Err(ContractError::Unauthorized);
            }
            update.new_governance_contract_addr.clone()
        },
    };
    let mut attributes: Vec<Attribute> = Vec::new();
    attributes.push(
        Attribute { key: "action".to_owned(), value: "change_governance_contract".to_owned() },
    );
    attributes.push(Attribute { key: "new_address".to_owned(), value: candidate.clone() });
    let response = Response { transfer: None, attributes };
    assert(response@.attributes =~= governance_changed(candidate@).attributes);
    *governance_contract = candidate;
    *gov_update = None;
    Ok(response)
}

} // verus!
