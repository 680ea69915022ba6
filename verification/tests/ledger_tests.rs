use staking_ledger::contract::execute;
use staking_ledger::contract::instantiate;
use staking_ledger::contract::query;
use staking_ledger::contract::Env;
use staking_ledger::contract::MessageInfo;
use staking_ledger::error::ContractError;
use staking_ledger::msg::Cw20HookMsg;
use staking_ledger::msg::ExecuteMsg;
use staking_ledger::msg::InstantiateMsg;
use staking_ledger::msg::QueryAnswer;
use staking_ledger::msg::QueryMsg;
use staking_ledger::msg::ReceiveMsg;
use staking_ledger::state::Ledger;

fn info(sender: &str) -> MessageInfo {
    MessageInfo { sender: sender.to_string() }
}

fn env(time: u64) -> Env {
    Env { time }
}

fn init(penalty_percentage: u64) -> Ledger {
    let msg = InstantiateMsg {
        staking_token: "luna".to_string(),
        activity_interval: 3600,
        penalty_percentage,
        unbond_period: 7200,
    };
    let (ledger, _res) = instantiate(info("creator"), msg);
    ledger
}

fn receive(sender: &str, amount: u128, backup: &str) -> ExecuteMsg {
    ExecuteMsg::Receive(ReceiveMsg {
        sender: sender.to_string(),
        amount,
        msg: Some(Cw20HookMsg::Bond { backup_addr: backup.to_string() }),
    })
}

fn staker_info(
    ledger: &Ledger,
    staker: &str,
) -> Result<staking_ledger::msg::StakerInfoResponse, ContractError> {
    match query(ledger, QueryMsg::StakerInfo { staker: staker.to_string() }) {
        Ok(QueryAnswer::StakerInfo(s)) => Ok(s),
        Ok(_) => panic!("wrong answer kind"),
        Err(e) => Err(e),
    }
}

fn total(ledger: &Ledger) -> u128 {
    match query(ledger, QueryMsg::State) {
        Ok(QueryAnswer::State(s)) => s.total_bound_amount,
        _ => panic!("wrong answer kind"),
    }
}

#[test]
fn proper_initialization() {
    let deps = init(2);

    let res = query(&deps, QueryMsg::Config).unwrap();
    let value = match res {
        QueryAnswer::Config(c) => c,
        _ => panic!("wrong answer kind"),
    };
    assert_eq!("luna", value.staking_token);
    assert_eq!(3600, value.activity_interval);
    assert_eq!(2, value.penalty_percentage);
    assert_eq!(7200, value.unbond_period);
}

#[test]
fn bond() {
    let _deps = init(2);
}

#[test]
fn init_config_round_trip() {
    let ledger = init(2);
    let value = match query(&ledger, QueryMsg::Config).unwrap() {
        QueryAnswer::Config(c) => c,
        _ => panic!("wrong answer kind"),
    };
    assert_eq!("creator", value.owner);
    assert_eq!("luna", value.staking_token);
    assert_eq!(7200, value.unbond_period);
    assert_eq!(3600, value.activity_interval);
    assert_eq!(2, value.penalty_percentage);
    assert_eq!(0, total(&ledger));
}

#[test]
fn bond_accumulates() {
    let mut ledger = init(2);
    execute(&mut ledger, env(1000), info("luna"), receive("alice", 1000, "bob")).unwrap();
    let res = execute(&mut ledger, env(2000), info("luna"), receive("alice", 500, "bob")).unwrap();

    let s = staker_info(&ledger, "alice").unwrap();
    assert_eq!(1500, s.amount);
    assert_eq!("bob", s.backup_addr);
    assert_eq!(5600, s.time_until);
    assert_eq!(2000, s.last_time_active);
    assert_eq!(1500, total(&ledger));

    assert!(res.messages.is_empty());
    let attrs: Vec<(&str, &str)> = res
        .attributes
        .iter()
        .map(|a| (a.key.as_str(), a.value.as_str()))
        .collect();
    assert_eq!(
        vec![
            ("action", "bond"),
            ("owner", "alice"),
            ("amount", "500"),
            ("new_amount", "1500"),
        ],
        attrs
    );
}

#[test]
fn early_unbond_applies_penalty() {
    let mut ledger = init(10);
    execute(&mut ledger, env(1000), info("luna"), receive("alice", 1000, "bob")).unwrap();
    execute(&mut ledger, env(2000), info("luna"), receive("alice", 500, "bob")).unwrap();

    let res = execute(
        &mut ledger,
        env(3000),
        info("alice"),
        ExecuteMsg::Unbond { amount: 1000 },
    )
    .unwrap();

    assert_eq!(2, res.messages.len());
    assert_eq!("creator", res.messages[0].recipient);
    assert_eq!(100, res.messages[0].amount);
    assert_eq!("alice", res.messages[1].recipient);
    assert_eq!(900, res.messages[1].amount);

    let s = staker_info(&ledger, "alice").unwrap();
    assert_eq!(500, s.amount);
    assert_eq!(3000, s.last_time_active);
    assert_eq!(500, total(&ledger));

    let attrs: Vec<(&str, &str)> = res
        .attributes
        .iter()
        .map(|a| (a.key.as_str(), a.value.as_str()))
        .collect();
    assert_eq!(
        vec![("action", "withdraw"), ("owner", "alice"), ("withdrawed_amount", "1000")],
        attrs
    );
}

#[test]
fn matured_unbond_no_penalty() {
    let mut ledger = init(10);
    execute(&mut ledger, env(1000), info("luna"), receive("alice", 1000, "bob")).unwrap();
    execute(&mut ledger, env(2000), info("luna"), receive("alice", 500, "bob")).unwrap();

    let res = execute(
        &mut ledger,
        env(6000),
        info("alice"),
        ExecuteMsg::Unbond { amount: 500 },
    )
    .unwrap();

    assert_eq!(1, res.messages.len());
    assert_eq!("alice", res.messages[0].recipient);
    assert_eq!(500, res.messages[0].amount);

    let s = staker_info(&ledger, "alice").unwrap();
    assert_eq!(1000, s.amount);
    assert_eq!(6000, s.last_time_active);
    assert_eq!(1000, total(&ledger));
}

#[test]
fn unauthorized_bond_changes_nothing() {
    let mut ledger = init(2);
    execute(&mut ledger, env(1000), info("luna"), receive("alice", 1000, "bob")).unwrap();

    let err = execute(&mut ledger, env(2000), info("mallory"), receive("alice", 500, "bob"))
        .unwrap_err();
    assert!(matches!(err, ContractError::Unauthorized));

    let s = staker_info(&ledger, "alice").unwrap();
    assert_eq!(1000, s.amount);
    assert_eq!(1000, s.last_time_active);
    assert_eq!(1000, total(&ledger));
}

#[test]
fn deadman_takeover() {
    let mut ledger = init(2);
    execute(&mut ledger, env(1000), info("luna"), receive("alice", 1000, "bob")).unwrap();

    let res = execute(
        &mut ledger,
        env(5000),
        info("bob"),
        ExecuteMsg::DeadmanDelay { addr: "alice".to_string() },
    )
    .unwrap();
    assert_eq!(1, res.messages.len());
    assert_eq!("bob", res.messages[0].recipient);
    assert_eq!(1000, res.messages[0].amount);

    let s = staker_info(&ledger, "alice").unwrap();
    assert_eq!(0, s.amount);
    assert_eq!("bob", s.backup_addr);
    assert_eq!(0, total(&ledger));

    // A second attempt seizes nothing.
    let res = execute(
        &mut ledger,
        env(6000),
        info("bob"),
        ExecuteMsg::DeadmanDelay { addr: "alice".to_string() },
    )
    .unwrap();
    assert_eq!(1, res.messages.len());
    assert_eq!(0, res.messages[0].amount);
    assert_eq!(0, total(&ledger));
}

#[test]
fn keep_alive_defeats_deadman() {
    let mut ledger = init(2);
    execute(&mut ledger, env(1000), info("luna"), receive("alice", 1000, "bob")).unwrap();
    execute(&mut ledger, env(4000), info("alice"), ExecuteMsg::KeepAlive).unwrap();

    let err = execute(
        &mut ledger,
        env(5000),
        info("bob"),
        ExecuteMsg::DeadmanDelay { addr: "alice".to_string() },
    )
    .unwrap_err();
    assert!(matches!(err, ContractError::Unauthorized));

    let s = staker_info(&ledger, "alice").unwrap();
    assert_eq!(1000, s.amount);
    assert_eq!(4000, s.last_time_active);
    assert_eq!(1000, total(&ledger));
}

#[test]
fn bond_unbond_round_trip() {
    let mut ledger = init(10);
    execute(&mut ledger, env(0), info("luna"), receive("alice", 1000, "bob")).unwrap();

    let res = execute(
        &mut ledger,
        env(3600),
        info("alice"),
        ExecuteMsg::Unbond { amount: 1000 },
    )
    .unwrap();
    assert_eq!(1, res.messages.len());
    assert_eq!("alice", res.messages[0].recipient);
    assert_eq!(1000, res.messages[0].amount);
    assert_eq!(0, total(&ledger));
    assert_eq!(0, staker_info(&ledger, "alice").unwrap().amount);
}
