use nasset_token_rewards::config::{Env, MessageInfo};
use nasset_token_rewards::contract::{execute, instantiate, Contract};
use nasset_token_rewards::error::ContractError;
use nasset_token_rewards::msg::{ExecuteMsg, GovernanceMsg, InstantiateMsg};

const PSI_TOKEN_ADDR: &str = "addr0001";
const NASSET_TOKEN_ADDR: &str = "addr0002";
const GOVERNANCE_CONTRACT_ADDR: &str = "addr0003";

fn init() -> Contract {
    instantiate(InstantiateMsg {
        psi_token_addr: PSI_TOKEN_ADDR.to_string(),
        nasset_token_addr: NASSET_TOKEN_ADDR.to_string(),
        governance_contract_addr: GOVERNANCE_CONTRACT_ADDR.to_string(),
    })
}

fn mock_env() -> Env {
    Env { block_time: 1_571_797_419, reward_balance: 0 }
}

fn mock_info(sender: &str) -> MessageInfo {
    MessageInfo { sender: sender.to_string() }
}

#[test]
fn fail_to_change_config_if_sender_is_not_governance() {
    let mut contract = init();

    let change_config_msg = ExecuteMsg::Governance {
        governance_msg: GovernanceMsg::UpdateConfig {
            psi_token_contract_addr: Some("addr9999".to_string()),
            nasset_token_contract_addr: Some("addr9998".to_string()),
        },
    };

    let env = mock_env();
    let info = mock_info("addr0010");
    let res = execute(&mut contract, &env, &info, change_config_msg);
    assert!(res.is_err());
    assert_eq!(ContractError::Unauthorized, res.err().unwrap());
}

#[test]
fn success_to_change_config_if_sender_governance() {
    let mut contract = init();

    let new_psi_token_contract_addr = "addr9999".to_string();
    let new_nasset_token_contract_addr = "addr9998".to_string();

    let change_config_msg = ExecuteMsg::Governance {
        governance_msg: GovernanceMsg::UpdateConfig {
            psi_token_contract_addr: Some(new_psi_token_contract_addr.clone()),
            nasset_token_contract_addr: Some(new_nasset_token_contract_addr.clone()),
        },
    };

    let env = mock_env();
    let info = mock_info(GOVERNANCE_CONTRACT_ADDR);
    execute(&mut contract, &env, &info, change_config_msg).unwrap();

    let config = contract.config;
    assert_eq!(new_psi_token_contract_addr, config.psi_token);
    assert_eq!(new_nasset_token_contract_addr, config.nasset_token);
}
