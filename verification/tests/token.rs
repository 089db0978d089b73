use nasset_token_rewards::config::{Env, MessageInfo};
use nasset_token_rewards::contract::{execute as ledger_execute, instantiate};
use nasset_token_rewards::msg::{ExecuteMsg as LedgerMsg, InstantiateMsg, TokenMsg};
use nasset_token_rewards::token::{execute, ExecuteMsg};

fn from(sender: &str) -> MessageInfo {
    MessageInfo { sender: sender.to_string() }
}

fn up(address: &str, amount: u128) -> TokenMsg {
    TokenMsg::IncreaseBalance { address: address.to_string(), amount }
}

fn down(address: &str, amount: u128) -> TokenMsg {
    TokenMsg::DecreaseBalance { address: address.to_string(), amount }
}

#[test]
fn payment_is_a_decrease_then_an_increase() {
    let transfer = ExecuteMsg::Transfer { recipient: "bob".to_string(), amount: 5 };
    assert_eq!(execute(&from("alice"), transfer), vec![down("alice", 5), up("bob", 5)]);
    let send = ExecuteMsg::Send { contract: "vault".to_string(), amount: 7 };
    assert_eq!(execute(&from("alice"), send), vec![down("alice", 7), up("vault", 7)]);
}

#[test]
fn payment_within_an_allowance_moves_the_balance_of_the_owner() {
    let transfer = ExecuteMsg::TransferFrom {
        owner: "alice".to_string(),
        recipient: "bob".to_string(),
        amount: 5,
    };
    assert_eq!(execute(&from("spender"), transfer), vec![down("alice", 5), up("bob", 5)]);
    let send = ExecuteMsg::SendFrom {
        owner: "alice".to_string(),
        contract: "vault".to_string(),
        amount: 7,
    };
    assert_eq!(execute(&from("spender"), send), vec![down("alice", 7), up("vault", 7)]);
}

#[test]
fn mint_and_burn_have_one_side() {
    let mint = ExecuteMsg::Mint { recipient: "bob".to_string(), amount: 9 };
    assert_eq!(execute(&from("minter"), mint), vec![up("bob", 9)]);
    assert_eq!(execute(&from("alice"), ExecuteMsg::Burn { amount: 3 }), vec![down("alice", 3)]);
    let burn_from = ExecuteMsg::BurnFrom { owner: "alice".to_string(), amount: 4 };
    assert_eq!(execute(&from("spender"), burn_from), vec![down("alice", 4)]);
}

#[test]
fn allowances_and_marketing_move_nothing() {
    for msg in [
        ExecuteMsg::IncreaseAllowance {},
        ExecuteMsg::DecreaseAllowance {},
        ExecuteMsg::UpdateMarketing {},
        ExecuteMsg::UploadLogo {},
    ] {
        assert!(execute(&from("alice"), msg).is_empty());
    }
}

#[test]
fn payment_to_oneself_is_reported_both_ways() {
    let transfer = ExecuteMsg::Transfer { recipient: "alice".to_string(), amount: 5 };
    assert_eq!(execute(&from("alice"), transfer), vec![down("alice", 5), up("alice", 5)]);
}

#[test]
fn reported_payment_keeps_the_total() {
    let mut ledger = instantiate(InstantiateMsg {
        psi_token_addr: "psi".to_string(),
        nasset_token_addr: "nasset".to_string(),
        governance_contract_addr: "gov".to_string(),
    });
    let env = Env { block_time: 0, reward_balance: 0 };
    let token = from("nasset");
    let mint = ExecuteMsg::Mint { recipient: "alice".to_string(), amount: 10 };
    let transfer = ExecuteMsg::Transfer { recipient: "bob".to_string(), amount: 4 };
    let burn = ExecuteMsg::Burn { amount: 1 };
    let mut reports = execute(&from("minter"), mint);
    reports.extend(execute(&from("alice"), transfer));
    reports.extend(execute(&from("bob"), burn));
    let mut totals = vec![];
    for token_msg in reports {
        ledger_execute(&mut ledger, &env, &token, LedgerMsg::Token { token_msg }).unwrap();
        totals.push(ledger.state.total_balance);
    }
    assert_eq!(totals, vec![10, 6, 10, 9]);
    assert_eq!(ledger.holders.get(&"alice".to_string()).balance, 6);
    assert_eq!(ledger.holders.get(&"bob".to_string()).balance, 3);
}
