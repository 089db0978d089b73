//! What holds of the ledger whatever happens to it. Each law is proved of
//! the outcome functions that the operations are held to, so it holds of
//! every run of the executable code.

use vstd::prelude::*;
use crate::config::{Env, ResponseView};
use crate::contract::{
    balance_change_outcome, claim_response, claim_rewards_outcome, execute_outcome, ContractView,
};
use crate::error::ContractError;
use crate::holders::{
    holds, lemma_holds_iff_present, lemma_lookup_upsert, lemma_rank_bounds, lemma_sum_upsert,
    lemma_upsert_sorted, lookup, rank, sorted, sum_balances, upsert,
};
use crate::math::{
    lemma_div_superadditive, lemma_ratio_bounds, lemma_scaled_by_zero, lemma_scaled_lower,
    ratio_atomics, scaled, DECIMAL_FRACTIONAL,
};
use crate::msg::{AnyoneMsg, ExecuteMsg, TokenMsg};
use crate::rewards::{
    claim_outcome, decrease_outcome, increase_outcome, refresh_outcome, settle_outcome,
};
use crate::state::{HolderView, StateView};

verus! {

/// Whether the total that the ledger tracks is the sum of the balances of
/// its holders.
pub open spec fn conserved(c: ContractView) -> bool {
    c.state.total_balance == sum_balances(c.holders)
}

/// One operation as it reaches the ledger.
pub struct Step {
    pub env: Env,
    pub sender: Seq<char>,
    pub msg: ExecuteMsg,
}

/// The ledger after `step`: as the operation leaves it, or as it was where
/// the operation is rejected.
pub open spec fn after(c: ContractView, step: Step) -> ContractView {
    match execute_outcome(c, step.env, step.sender, step.msg) {
        Ok((next, _)) => next,
        Err(_) => c,
    }
}

/// The ledger after all of `steps`, in their order.
pub open spec fn after_all(c: ContractView, steps: Seq<Step>) -> ContractView
    decreases steps.len(),
{
    if steps.len() == 0 {
        c
    } else {
        after(after_all(c, steps.drop_last()), steps.last())
    }
}

/// The record that an accepted operation puts, if it puts one. The total
/// moves as that record's balance does.
proof fn lemma_touched_record(c: ContractView, step: Step) -> (put: Option<HolderView>)
    requires
        execute_outcome(c, step.env, step.sender, step.msg) is Ok,
    ensures
        match put {
            None => after(c, step).holders == c.holders && after(c, step).state.total_balance
                == c.state.total_balance,
            Some(h) => {
                &&& after(c, step).holders == upsert(c.holders, h)
                &&& h.balance + c.state.total_balance == after(c, step).state.total_balance
                    + lookup(c.holders, h.address).balance
                &&& h.index == c.state.global_index
                &&& after(c, step).state.global_index == c.state.global_index
                &&& step.msg is Token ==> lookup(c.holders, h.address).pending_rewards
                    <= h.pending_rewards
            },
        },
{
    match step.msg {
        ExecuteMsg::Anyone { anyone_msg } => {
            let holder: Seq<char> = match anyone_msg {
                AnyoneMsg::ClaimRewardsForSomeone { address } => address@,
                _ => step.sender,
            };
            if (anyone_msg is ClaimRewards || anyone_msg is ClaimRewardsForSomeone) && holds(
                c.holders,
                holder,
            ) {
                let (claimed, _) = claim_outcome(
                    lookup(c.holders, holder),
                    c.state.global_index,
                )->Ok_0;
                Some(claimed)
            } else {
                None
            }
        },
        ExecuteMsg::Token { token_msg } => {
            let before = lookup(c.holders, token_msg@.address);
            let changed = if token_msg@.up {
                increase_outcome(c.state, before, token_msg@.amount)
            } else {
                decrease_outcome(c.state, before, token_msg@.amount)
            };
            let (_, holder) = changed->Ok_0;
            Some(holder)
        },
        ExecuteMsg::Governance { governance_msg } => None,
    }
}

/// Conservation, one step: an operation leaves a conserved ledger
/// conserved.
pub proof fn lemma_step_conserves(c: ContractView, step: Step)
    requires
        conserved(c),
    ensures
        conserved(after(c, step)),
{
    if execute_outcome(c, step.env, step.sender, step.msg) is Ok {
        match lemma_touched_record(c, step) {
            Some(h) => {
                lemma_sum_upsert(c.holders, h);
            },
            None => {},
        }
    }
}

/// Conservation: whatever operations reach a conserved ledger, in whatever
/// order, taken or rejected, the total that it tracks remains the sum of
/// the balances of its holders. The ledger starts conserved, with a total
/// of zero and no holder.
pub proof fn lemma_conservation(c: ContractView, steps: Seq<Step>)
    requires
        conserved(c),
    ensures
        conserved(after_all(c, steps)),
    decreases steps.len(),
{
    if steps.len() > 0 {
        lemma_conservation(c, steps.drop_last());
        lemma_step_conserves(after_all(c, steps.drop_last()), steps.last());
    }
}

/// The records stay in the order of their addresses, and so no address
/// comes to have two records, whatever operations reach the ledger.
pub proof fn lemma_order_kept(c: ContractView, steps: Seq<Step>)
    requires
        sorted(c.holders),
    ensures
        sorted(after_all(c, steps).holders),
    decreases steps.len(),
{
    if steps.len() > 0 {
        lemma_order_kept(c, steps.drop_last());
        let before = after_all(c, steps.drop_last());
        let step = steps.last();
        if execute_outcome(before, step.env, step.sender, step.msg) is Ok {
            match lemma_touched_record(before, step) {
                Some(h) => {
                    lemma_upsert_sorted(before.holders, h);
                },
                None => {},
            }
        }
    }
}

/// Whether no record stands ahead of the global index. In such a ledger a
/// settlement is rejected for want of room alone.
pub open spec fn indices_behind(c: ContractView) -> bool {
    forall|i: int| 0 <= i < c.holders.len() ==> (#[trigger] c.holders[i]).index
        <= c.state.global_index
}

/// The global index never falls, and no record ever comes to stand ahead
/// of it.
pub proof fn lemma_index_monotone(c: ContractView, step: Step)
    requires
        sorted(c.holders),
        indices_behind(c),
    ensures
        c.state.global_index <= after(c, step).state.global_index,
        indices_behind(after(c, step)),
{
    let next = after(c, step);
    if execute_outcome(c, step.env, step.sender, step.msg) is Ok {
        match lemma_touched_record(c, step) {
            Some(h) => {
                assert(h.index == c.state.global_index);
                assert(next.state.global_index == c.state.global_index);
                lemma_upsert_sorted(c.holders, h);
                lemma_holds_iff_present(c.holders, h.address);
                assert forall|i: int| 0 <= i < next.holders.len() implies (
                #[trigger] next.holders[i]).index <= next.state.global_index by {
                    let k = rank(c.holders, h.address);
                    lemma_rank_bounds(c.holders, h.address);
                    if i != k {
                        let j = if i < k || holds(c.holders, h.address) {
                            i
                        } else {
                            i - 1
                        };
                        assert(next.holders[i] == c.holders[j]);
                    }
                }
            },
            None => {
                assert forall|i: int| 0 <= i < next.holders.len() implies (
                #[trigger] next.holders[i]).index <= next.state.global_index by {
                    assert(next.holders[i] == c.holders[i]);
                }
            },
        }
    }
}

/// Pending rewards grow until they are claimed: an operation other than a
/// claim takes nothing from what is pending for any address.
pub proof fn lemma_pending_monotone(c: ContractView, step: Step, address: Seq<char>)
    requires
        sorted(c.holders),
        !(step.msg matches ExecuteMsg::Anyone { anyone_msg } && (anyone_msg is ClaimRewards
            || anyone_msg is ClaimRewardsForSomeone)),
    ensures
        lookup(c.holders, address).pending_rewards <= lookup(
            after(c, step).holders,
            address,
        ).pending_rewards,
{
    if execute_outcome(c, step.env, step.sender, step.msg) is Ok {
        match lemma_touched_record(c, step) {
            Some(h) => {
                lemma_lookup_upsert(c.holders, h, address);
            },
            None => {},
        }
    }
}

/// A payment between two holders, reported as a decrease for who gives
/// and an increase for who receives, leaves the total where it was.
pub proof fn lemma_payment_keeps_total(
    c: ContractView,
    giver: Seq<char>,
    receiver: Seq<char>,
    amount: nat,
)
    requires
        balance_change_outcome(c, giver, amount, false) is Ok,
        balance_change_outcome(
            balance_change_outcome(c, giver, amount, false)->Ok_0.0,
            receiver,
            amount,
            true,
        ) is Ok,
    ensures
        balance_change_outcome(
            balance_change_outcome(c, giver, amount, false)->Ok_0.0,
            receiver,
            amount,
            true,
        )->Ok_0.0.state.total_balance == c.state.total_balance,
{
}

/// Idempotent settlement: a record that was settled at an index is left as
/// it is by a second settlement at that index.
pub proof fn lemma_settle_idempotent(holder: HolderView, global_index: nat)
    requires
        settle_outcome(holder, global_index) is Ok,
    ensures
        settle_outcome(settle_outcome(holder, global_index)->Ok_0, global_index)
            == settle_outcome(holder, global_index),
{
    lemma_scaled_by_zero(holder.balance, 0);
}

/// Claim zeroing, on one record: a claim pays the whole entitlement and
/// leaves nothing pending, so that a second claim at the same index pays
/// nothing and leaves the record as it is.
pub proof fn lemma_claim_zeroes(holder: HolderView, global_index: nat)
    requires
        claim_outcome(holder, global_index) is Ok,
    ensures
        claim_outcome(holder, global_index)->Ok_0.0.pending_rewards == 0,
        claim_outcome(holder, global_index)->Ok_0.1 == holder.entitlement(global_index),
        claim_outcome(claim_outcome(holder, global_index)->Ok_0.0, global_index) == Ok::<
            (HolderView, nat),
            ContractError,
        >((claim_outcome(holder, global_index)->Ok_0.0, 0)),
{
    lemma_scaled_by_zero(holder.balance, 0);
}

/// Claim zeroing, on the ledger: a claim is answered with a transfer of the
/// holder's whole entitlement, or with no transfer where that is nothing;
/// the same claim made again changes nothing and is answered with no
/// transfer.
pub proof fn lemma_claim_twice(c: ContractView, holder: Seq<char>, recipient: Seq<char>)
    requires
        sorted(c.holders),
        claim_rewards_outcome(c, holder, recipient) is Ok,
    ensures
        holds(c.holders, holder) ==> claim_rewards_outcome(c, holder, recipient)->Ok_0.1
            == claim_response(
            recipient,
            lookup(c.holders, holder).entitlement(c.state.global_index),
        ),
        lookup(
            claim_rewards_outcome(c, holder, recipient)->Ok_0.0.holders,
            holder,
        ).pending_rewards == 0,
        claim_rewards_outcome(claim_rewards_outcome(c, holder, recipient)->Ok_0.0, holder, recipient)
            == Ok::<(ContractView, ResponseView), ContractError>(
            (claim_rewards_outcome(c, holder, recipient)->Ok_0.0, ResponseView::empty()),
        ),
{
    if holds(c.holders, holder) {
        let before = lookup(c.holders, holder);
        let (claimed, amount) = claim_outcome(before, c.state.global_index)->Ok_0;
        let next = claim_rewards_outcome(c, holder, recipient)->Ok_0.0;
        lemma_claim_zeroes(before, c.state.global_index);
        lemma_lookup_upsert(c.holders, claimed, holder);
        lemma_upsert_same(c.holders, claimed);
        assert(next.holders == upsert(c.holders, claimed));
        assert(upsert(next.holders, claimed) == next.holders);
    }
}

/// Putting the same record a second time changes nothing.
proof fn lemma_upsert_same(s: Seq<HolderView>, holder: HolderView)
    requires
        sorted(s),
    ensures
        upsert(upsert(s, holder), holder) == upsert(s, holder),
{
    let t = upsert(s, holder);
    lemma_upsert_sorted(s, holder);
    lemma_lookup_upsert(s, holder, holder.address);
    lemma_rank_bounds(t, holder.address);
    assert(t.update(rank(t, holder.address), holder) =~= t);
}

/// Unauthorized balance mutation: a balance change that anyone but the
/// configured token contract reports is rejected, whatever it says. The
/// ledger stays as it was, as it does after every rejection.
pub proof fn lemma_balance_change_needs_token(
    c: ContractView,
    env: Env,
    sender: Seq<char>,
    token_msg: TokenMsg,
)
    requires
        sender != c.config.nasset_token,
    ensures
        execute_outcome(c, env, sender, ExecuteMsg::Token { token_msg }) == Err::<
            (ContractView, ResponseView),
            ContractError,
        >(ContractError::Unauthorized),
        after(c, Step { env, sender, msg: ExecuteMsg::Token { token_msg } }) == c,
{
}

/// The gap without balance: while no balance is tracked, a growth of the
/// reward pool moves the baseline and not the index, so that no holder's
/// entitlement changes.
pub proof fn lemma_gap_not_distributed(state: StateView, observed: nat, holder: HolderView)
    requires
        state.total_balance == 0,
        state.prev_reward_balance <= observed,
        state.global_index <= u128::MAX,
    ensures
        refresh_outcome(state, observed) == Ok::<StateView, ContractError>(
            StateView { prev_reward_balance: observed, ..state },
        ),
        holder.entitlement(refresh_outcome(state, observed)->Ok_0.global_index)
            == holder.entitlement(state.global_index),
{
}

/// What a settlement of every record at `global_index` adds to the pending
/// rewards, all records together.
pub open spec fn sum_accrued(s: Seq<HolderView>, global_index: nat) -> nat
    decreases s.len(),
{
    if s.len() == 0 {
        0
    } else {
        sum_accrued(s.drop_last(), global_index) + s.last().accrued(global_index)
    }
}

/// Whether every record with a balance was last settled at `index`.
pub open spec fn all_settled_at(s: Seq<HolderView>, index: nat) -> bool {
    forall|i: int| 0 <= i < s.len() && (#[trigger] s[i]).balance > 0 ==> s[i].index == index
}

proof fn lemma_sum_accrued_bounds(s: Seq<HolderView>, index: nat, increase: nat)
    requires
        all_settled_at(s, index),
    ensures
        sum_balances(s) * (increase / DECIMAL_FRACTIONAL as nat) <= sum_accrued(
            s,
            index + increase,
        ),
        sum_accrued(s, index + increase) <= scaled(sum_balances(s), increase),
    decreases s.len(),
{
    let whole = increase / DECIMAL_FRACTIONAL as nat;
    if s.len() == 0 {
        lemma_scaled_by_zero(0, increase);
        assert(0 * whole == 0) by (nonlinear_arith);
    } else {
        let rest = s.drop_last();
        let last = s.last();
        assert(all_settled_at(rest, index)) by {
            assert forall|i: int| 0 <= i < rest.len() && (#[trigger] rest[i]).balance
                > 0 implies rest[i].index == index by {
                assert(rest[i] == s[i]);
            }
        }
        lemma_sum_accrued_bounds(rest, index, increase);
        assert(last.accrued(index + increase) == scaled(last.balance, increase)) by {
            if last.balance == 0 {
                lemma_scaled_by_zero(0, increase);
                lemma_scaled_by_zero(0, (index + increase - last.index) as nat);
            }
        }
        lemma_scaled_lower(last.balance, increase);
        lemma_div_superadditive(
            sum_balances(rest) * increase,
            last.balance * increase,
            DECIMAL_FRACTIONAL as nat,
        );
        assert((sum_balances(rest) + last.balance) * increase == sum_balances(rest) * increase
            + last.balance * increase) by (nonlinear_arith);
        assert((sum_balances(rest) + last.balance) * whole == sum_balances(rest) * whole
            + last.balance * whole) by (nonlinear_arith);
    }
}

/// Accrual correctness: when the reward pool of a ledger with balance grows
/// and every holder is then settled, the holders together gain the growth,
/// less what rounding down keeps back. Rounding never adds, and it keeps
/// back less than one unit for each unit of tracked balance.
///
/// The gain of a record is counted from its settlement at the index before
/// the growth, which is where a record with a balance has to stand.
pub proof fn lemma_accrual_bounds(state: StateView, holders: Seq<HolderView>, observed: nat)
    requires
        state.total_balance == sum_balances(holders),
        state.total_balance > 0,
        state.prev_reward_balance <= observed,
        all_settled_at(holders, state.global_index),
    ensures
        sum_accrued(holders, state.refreshed(observed).global_index) <= observed
            - state.prev_reward_balance,
        observed - state.prev_reward_balance - sum_accrued(
            holders,
            state.refreshed(observed).global_index,
        ) <= state.total_balance - 1,
{
    let growth = (observed - state.prev_reward_balance) as nat;
    let increase = ratio_atomics(growth, state.total_balance);
    lemma_sum_accrued_bounds(holders, state.global_index, increase);
    lemma_ratio_bounds(growth, state.total_balance);
}

/// The gap without balance, seen from the holder who ends it: of a pool
/// that grew while no balance was tracked, the first holder to have a
/// balance again accrues nothing. What that holder accrues by the next
/// refresh is no more than the growth since the gap was observed.
pub proof fn lemma_joiner_accrues_later_growth(
    state: StateView,
    holder: HolderView,
    amount: nat,
    gap_observed: nat,
    later_observed: nat,
)
    requires
        state.total_balance == 0,
        holder.balance == 0,
        amount > 0,
        state.prev_reward_balance <= gap_observed <= later_observed,
        refresh_outcome(state, gap_observed) is Ok,
        increase_outcome(refresh_outcome(state, gap_observed)->Ok_0, holder, amount) is Ok,
    ensures
        ({
            let (joined_state, joined) = increase_outcome(
                refresh_outcome(state, gap_observed)->Ok_0,
                holder,
                amount,
            )->Ok_0;
            &&& joined.pending_rewards == holder.pending_rewards
            &&& joined.accrued(joined_state.refreshed(later_observed).global_index)
                <= later_observed - gap_observed
        }),
{
    let observed_state = refresh_outcome(state, gap_observed)->Ok_0;
    let (joined_state, joined) = increase_outcome(observed_state, holder, amount)->Ok_0;
    lemma_scaled_by_zero(0, (observed_state.global_index - holder.index) as nat);
    let growth = (later_observed - gap_observed) as nat;
    lemma_ratio_bounds(growth, amount);
}

} // verus!
