use staking_ledger::contract::execute;
use staking_ledger::contract::instantiate;
use staking_ledger::contract::query;
use staking_ledger::contract::Env;
use staking_ledger::contract::MessageInfo;
use staking_ledger::error::ContractError;
use staking_ledger::msg::Cw20HookMsg;
use staking_ledger::msg::ExecuteMsg;
use staking_ledger::msg::InstantiateMsg;
use staking_ledger::msg::QueryAnswer;
use staking_ledger::msg::QueryMsg;
use staking_ledger::msg::ReceiveMsg;
use staking_ledger::numeral::to_dec_string;
use staking_ledger::state::Ledger;

fn info(sender: &str) -> MessageInfo {
    MessageInfo { sender: sender.to_string() }
}

fn env(time: u64) -> Env {
    Env { time }
}

fn init(penalty_percentage: u64) -> Ledger {
    let msg = InstantiateMsg {
        staking_token: "luna".to_string(),
        activity_interval: 3600,
        penalty_percentage,
        unbond_period: 7200,
    };
    let (ledger, _res) = instantiate(info("creator"), msg);
    ledger
}

fn receive(sender: &str, amount: u128, backup: &str) -> ExecuteMsg {
    ExecuteMsg::Receive(ReceiveMsg {
        sender: sender.to_string(),
        amount,
        msg: Some(Cw20HookMsg::Bond { backup_addr: backup.to_string() }),
    })
}

#[test]
fn zero_bond_is_invalid() {
    let mut ledger = init(2);
    let err = execute(&mut ledger, env(1000), info("luna"), receive("alice", 0, "bob"))
        .unwrap_err();
    assert!(matches!(err, ContractError::InvalidAmount));
}

#[test]
fn zero_unbond_is_invalid() {
    let mut ledger = init(2);
    execute(&mut ledger, env(1000), info("luna"), receive("alice", 1000, "bob")).unwrap();
    let err = execute(&mut ledger, env(2000), info("alice"), ExecuteMsg::Unbond { amount: 0 })
        .unwrap_err();
    assert!(matches!(err, ContractError::InvalidAmount));
}

#[test]
fn undecoded_receive_payload() {
    let mut ledger = init(2);
    let err = execute(
        &mut ledger,
        env(1000),
        info("luna"),
        ExecuteMsg::Receive(ReceiveMsg { sender: "alice".to_string(), amount: 1000, msg: None }),
    )
    .unwrap_err();
    assert!(matches!(err, ContractError::Decode));
}

#[test]
fn unbond_more_than_held() {
    let mut ledger = init(2);
    execute(&mut ledger, env(1000), info("luna"), receive("alice", 1000, "bob")).unwrap();
    let err = execute(&mut ledger, env(2000), info("alice"), ExecuteMsg::Unbond { amount: 1001 })
        .unwrap_err();
    assert!(matches!(err, ContractError::InsufficientFunds));
    assert_eq!(1000, match query(&ledger, QueryMsg::State).unwrap() {
        QueryAnswer::State(s) => s.total_bound_amount,
        _ => panic!("wrong answer kind"),
    });
}

#[test]
fn unbond_without_stake_row() {
    let mut ledger = init(2);
    let err = execute(&mut ledger, env(1000), info("alice"), ExecuteMsg::Unbond { amount: 10 })
        .unwrap_err();
    assert!(matches!(err, ContractError::NotFound));
}

#[test]
fn keep_alive_without_stake_row() {
    let mut ledger = init(2);
    let err = execute(&mut ledger, env(1000), info("alice"), ExecuteMsg::KeepAlive).unwrap_err();
    assert!(matches!(err, ContractError::NotFound));
}

#[test]
fn deadman_without_stake_row() {
    let mut ledger = init(2);
    let err = execute(
        &mut ledger,
        env(1000),
        info("bob"),
        ExecuteMsg::DeadmanDelay { addr: "alice".to_string() },
    )
    .unwrap_err();
    assert!(matches!(err, ContractError::NotFound));
}

#[test]
fn deadman_by_non_backup() {
    let mut ledger = init(2);
    execute(&mut ledger, env(1000), info("luna"), receive("alice", 1000, "bob")).unwrap();
    let err = execute(
        &mut ledger,
        env(9000),
        info("mallory"),
        ExecuteMsg::DeadmanDelay { addr: "alice".to_string() },
    )
    .unwrap_err();
    assert!(matches!(err, ContractError::Unauthorized));
}

#[test]
fn update_config_by_non_owner() {
    let mut ledger = init(2);
    let err = execute(
        &mut ledger,
        env(1000),
        info("mallory"),
        ExecuteMsg::UpdateConfig {
            staking_period: Some(1),
            activity_interval: None,
            penalty_percentage: None,
        },
    )
    .unwrap_err();
    match err {
        ContractError::PermissionDenied(who) => assert_eq!("mallory", who),
        _ => panic!("wrong error kind"),
    }
    let c = match query(&ledger, QueryMsg::Config).unwrap() {
        QueryAnswer::Config(c) => c,
        _ => panic!("wrong answer kind"),
    };
    assert_eq!(7200, c.unbond_period);
}

#[test]
fn update_config_by_owner() {
    let mut ledger = init(2);
    execute(
        &mut ledger,
        env(1000),
        info("creator"),
        ExecuteMsg::UpdateConfig {
            staking_period: Some(100),
            activity_interval: None,
            penalty_percentage: Some(50),
        },
    )
    .unwrap();
    let c = match query(&ledger, QueryMsg::Config).unwrap() {
        QueryAnswer::Config(c) => c,
        _ => panic!("wrong answer kind"),
    };
    assert_eq!(100, c.unbond_period);
    assert_eq!(3600, c.activity_interval);
    assert_eq!(50, c.penalty_percentage);
}

#[test]
fn claim_is_not_implemented() {
    let mut ledger = init(2);
    let err = execute(&mut ledger, env(1000), info("alice"), ExecuteMsg::Claim).unwrap_err();
    match err {
        ContractError::Std(m) => assert_eq!("reward claim is not implemented", m),
        _ => panic!("wrong error kind"),
    }
}

#[test]
fn staker_info_missing_row() {
    let ledger = init(2);
    let err = query(&ledger, QueryMsg::StakerInfo { staker: "alice".to_string() }).unwrap_err();
    assert!(matches!(err, ContractError::NotFound));
}

#[test]
fn zero_percent_penalty_single_transfer() {
    let mut ledger = init(0);
    execute(&mut ledger, env(1000), info("luna"), receive("alice", 1000, "bob")).unwrap();
    let res = execute(&mut ledger, env(1001), info("alice"), ExecuteMsg::Unbond { amount: 600 })
        .unwrap();
    assert_eq!(1, res.messages.len());
    assert_eq!("alice", res.messages[0].recipient);
    assert_eq!(600, res.messages[0].amount);
}

#[test]
fn full_percent_penalty_all_to_owner() {
    let mut ledger = init(100);
    execute(&mut ledger, env(1000), info("luna"), receive("alice", 1000, "bob")).unwrap();
    let res = execute(&mut ledger, env(1001), info("alice"), ExecuteMsg::Unbond { amount: 600 })
        .unwrap();
    assert_eq!(1, res.messages.len());
    assert_eq!("creator", res.messages[0].recipient);
    assert_eq!(600, res.messages[0].amount);
}

#[test]
fn penalty_rounds_down() {
    // floor(999 * 10 / 100) == 99
    let mut ledger = init(10);
    execute(&mut ledger, env(1000), info("luna"), receive("alice", 999, "bob")).unwrap();
    let res = execute(&mut ledger, env(1001), info("alice"), ExecuteMsg::Unbond { amount: 999 })
        .unwrap();
    assert_eq!(2, res.messages.len());
    assert_eq!(99, res.messages[0].amount);
    assert_eq!(900, res.messages[1].amount);
}

#[test]
fn decimal_rendering() {
    assert_eq!("0", to_dec_string(0));
    assert_eq!("7", to_dec_string(7));
    assert_eq!("10", to_dec_string(10));
    assert_eq!("1500", to_dec_string(1500));
    assert_eq!("340282366920938463463374607431768211455", to_dec_string(u128::MAX));
}
