use nasset_token_rewards::error::ContractError;
use nasset_token_rewards::math::Decimal;
use nasset_token_rewards::rewards::{
    accrued_rewards, claim, decrease_balance, increase_balance, refresh_index, settle,
};
use nasset_token_rewards::state::{Holder, State};

const ONE: u128 = 1_000_000_000_000_000_000;

fn holder(balance: u128, index: u128, pending_rewards: u128) -> Holder {
    Holder {
        address: "holder".to_string(),
        balance,
        index: Decimal::from_atomics(index),
        pending_rewards,
    }
}

fn state(global_index: u128, total_balance: u128, prev_reward_balance: u128) -> State {
    State { global_index: Decimal::from_atomics(global_index), total_balance, prev_reward_balance }
}

#[test]
fn fresh_records_are_zero() {
    assert_eq!(State::new(), state(0, 0, 0));
    let fresh = Holder::new("holder".to_string());
    assert_eq!(fresh, holder(0, 0, 0));
    assert_eq!(fresh.duplicate(), fresh);
}

#[test]
fn refresh_spreads_the_growth_over_the_total() {
    let mut s = state(0, 400, 0);
    assert_eq!(refresh_index(&mut s, 1000), Ok(()));
    assert_eq!(s, state(2_500_000_000_000_000_000, 400, 1000));
    assert_eq!(refresh_index(&mut s, 1100), Ok(()));
    assert_eq!(s, state(2_750_000_000_000_000_000, 400, 1100));
}

#[test]
fn refresh_rounds_the_increase_down() {
    let mut s = state(5, 3, 10);
    assert_eq!(refresh_index(&mut s, 12), Ok(()));
    assert_eq!(s, state(666_666_666_666_666_671, 3, 12));
}

#[test]
fn refresh_without_growth_keeps_the_index() {
    let mut s = state(7 * ONE, 400, 1000);
    assert_eq!(refresh_index(&mut s, 1000), Ok(()));
    assert_eq!(s, state(7 * ONE, 400, 1000));
}

#[test]
fn refresh_without_balance_moves_the_baseline_only() {
    let mut s = state(3 * ONE, 0, 100);
    assert_eq!(refresh_index(&mut s, 600), Ok(()));
    assert_eq!(s, state(3 * ONE, 0, 600));
}

#[test]
fn refresh_rejects_a_shrunken_pool() {
    let mut s = state(ONE, 400, 1000);
    assert_eq!(refresh_index(&mut s, 999), Err(ContractError::StateInconsistency));
    assert_eq!(s, state(ONE, 400, 1000));
    let mut empty = state(ONE, 0, 1000);
    assert_eq!(refresh_index(&mut empty, 0), Err(ContractError::StateInconsistency));
    assert_eq!(empty, state(ONE, 0, 1000));
}

#[test]
fn refresh_rejects_an_index_beyond_its_range() {
    let mut s = state(0, 1, 0);
    assert_eq!(refresh_index(&mut s, u128::MAX), Err(ContractError::Overflow));
    assert_eq!(s, state(0, 1, 0));
    let mut near = state(u128::MAX - ONE + 1, 1, 0);
    assert_eq!(refresh_index(&mut near, 1), Err(ContractError::Overflow));
    assert_eq!(near, state(u128::MAX - ONE + 1, 1, 0));
    let mut fits = state(u128::MAX - ONE, 1, 0);
    assert_eq!(refresh_index(&mut fits, 1), Ok(()));
    assert_eq!(fits, state(u128::MAX, 1, 1));
}

#[test]
fn entitlement_is_pending_plus_balance_times_gap() {
    let h = holder(7, ONE / 10, 3);
    assert_eq!(accrued_rewards(&h, Decimal::from_atomics(6 * ONE / 10)), Ok(6));
    assert_eq!(accrued_rewards(&h, Decimal::from_atomics(ONE / 10)), Ok(3));
    assert_eq!(accrued_rewards(&holder(100, 0, 0), Decimal::from_atomics(5 * ONE / 2)), Ok(250));
    assert_eq!(accrued_rewards(&holder(0, 0, 9), Decimal::from_atomics(5 * ONE)), Ok(9));
}

#[test]
fn entitlement_rejects_an_index_behind_the_holder() {
    let h = holder(7, ONE, 3);
    assert_eq!(
        accrued_rewards(&h, Decimal::from_atomics(ONE - 1)),
        Err(ContractError::StateInconsistency)
    );
}

#[test]
fn entitlement_rejects_an_amount_beyond_its_range() {
    let rich = holder(u128::MAX, 0, 0);
    assert_eq!(accrued_rewards(&rich, Decimal::from_atomics(2 * ONE)), Err(ContractError::Overflow));
    assert_eq!(accrued_rewards(&rich, Decimal::from_atomics(ONE)), Ok(u128::MAX));
    let full = holder(1, 0, u128::MAX);
    assert_eq!(accrued_rewards(&full, Decimal::from_atomics(ONE)), Err(ContractError::Overflow));
    assert_eq!(accrued_rewards(&full, Decimal::from_atomics(ONE - 1)), Ok(u128::MAX));
}

#[test]
fn settle_folds_the_accrual_into_pending() {
    let mut h = holder(100, ONE, 5);
    assert_eq!(settle(&mut h, Decimal::from_atomics(5 * ONE / 2)), Ok(()));
    assert_eq!(h, holder(100, 5 * ONE / 2, 155));
}

#[test]
fn settle_twice_is_settle_once() {
    let mut h = holder(100, ONE, 5);
    let g = Decimal::from_atomics(5 * ONE / 2);
    settle(&mut h, g).unwrap();
    let once = h.clone();
    assert_eq!(settle(&mut h, g), Ok(()));
    assert_eq!(h, once);
}

#[test]
fn settle_rejects_and_leaves_the_record() {
    let mut h = holder(100, ONE, 5);
    assert_eq!(settle(&mut h, Decimal::zero()), Err(ContractError::StateInconsistency));
    assert_eq!(h, holder(100, ONE, 5));
    let mut rich = holder(u128::MAX, 0, 1);
    assert_eq!(settle(&mut rich, Decimal::one()), Err(ContractError::Overflow));
    assert_eq!(rich, holder(u128::MAX, 0, 1));
}

#[test]
fn increase_settles_then_adds() {
    let mut s = state(2 * ONE, 100, 0);
    let mut h = holder(100, ONE, 5);
    assert_eq!(increase_balance(&mut s, &mut h, 50), Ok(()));
    assert_eq!(h, holder(150, 2 * ONE, 105));
    assert_eq!(s, state(2 * ONE, 150, 0));
}

#[test]
fn increase_rejects_what_does_not_fit() {
    let mut s = state(0, u128::MAX - 10, 0);
    let mut h = holder(5, 0, 0);
    assert_eq!(increase_balance(&mut s, &mut h, 11), Err(ContractError::Overflow));
    assert_eq!(s, state(0, u128::MAX - 10, 0));
    assert_eq!(h, holder(5, 0, 0));
    assert_eq!(increase_balance(&mut s, &mut h, 10), Ok(()));
    assert_eq!(s.total_balance, u128::MAX);
    let mut small = state(0, 0, 0);
    let mut full = holder(u128::MAX, 0, 0);
    assert_eq!(increase_balance(&mut small, &mut full, 1), Err(ContractError::Overflow));
    assert_eq!(full, holder(u128::MAX, 0, 0));
    assert_eq!(small, state(0, 0, 0));
}

#[test]
fn increase_rejects_a_holder_ahead_of_the_index() {
    let mut s = state(ONE, 100, 0);
    let mut h = holder(100, 2 * ONE, 5);
    assert_eq!(increase_balance(&mut s, &mut h, 1), Err(ContractError::StateInconsistency));
    assert_eq!(h, holder(100, 2 * ONE, 5));
    assert_eq!(s, state(ONE, 100, 0));
}

#[test]
fn decrease_settles_then_subtracts() {
    let mut s = state(ONE, 100, 100);
    let mut h = holder(100, 0, 0);
    assert_eq!(decrease_balance(&mut s, &mut h, 40), Ok(()));
    assert_eq!(h, holder(60, ONE, 100));
    assert_eq!(s, state(ONE, 60, 100));
    assert_eq!(decrease_balance(&mut s, &mut h, 60), Ok(()));
    assert_eq!(h, holder(0, ONE, 100));
    assert_eq!(s, state(ONE, 0, 100));
}

#[test]
fn decrease_rejects_more_than_the_balance() {
    let mut s = state(ONE, 100, 100);
    let mut h = holder(40, 0, 0);
    assert_eq!(decrease_balance(&mut s, &mut h, 41), Err(ContractError::InsufficientBalance));
    assert_eq!(h, holder(40, 0, 0));
    assert_eq!(s, state(ONE, 100, 100));
}

#[test]
fn decrease_rejects_a_total_below_the_amount() {
    let mut s = state(0, 10, 0);
    let mut h = holder(40, 0, 0);
    assert_eq!(decrease_balance(&mut s, &mut h, 20), Err(ContractError::StateInconsistency));
    assert_eq!(h, holder(40, 0, 0));
    assert_eq!(s, state(0, 10, 0));
}

#[test]
fn decrease_reports_the_settlement_first() {
    let mut s = state(0, 100, 0);
    let mut h = holder(40, ONE, 0);
    assert_eq!(decrease_balance(&mut s, &mut h, 41), Err(ContractError::StateInconsistency));
    let mut t = state(2 * ONE, u128::MAX, 0);
    let mut rich = holder(u128::MAX, 0, 0);
    assert_eq!(decrease_balance(&mut t, &mut rich, 1), Err(ContractError::Overflow));
}

#[test]
fn claim_pays_everything_and_zeroes() {
    let mut h = holder(100, ONE, 5);
    let g = Decimal::from_atomics(5 * ONE / 2);
    assert_eq!(claim(&mut h, g), Ok(155));
    assert_eq!(h, holder(100, 5 * ONE / 2, 0));
    assert_eq!(claim(&mut h, g), Ok(0));
    assert_eq!(h, holder(100, 5 * ONE / 2, 0));
}

#[test]
fn claim_rejects_and_leaves_the_record() {
    let mut h = holder(100, ONE, 5);
    assert_eq!(claim(&mut h, Decimal::zero()), Err(ContractError::StateInconsistency));
    assert_eq!(h, holder(100, ONE, 5));
}

#[test]
fn error_messages() {
    assert_eq!(ContractError::Unauthorized.message(), "unauthorized");
    assert_eq!(ContractError::InsufficientBalance.message(), "insufficient balance");
    assert_eq!(ContractError::StateInconsistency.message(), "inconsistent state");
    assert_eq!(ContractError::Overflow.message(), "arithmetic overflow");
}
