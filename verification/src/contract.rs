//! The stake-accounting state machine: bond, unbond with penalty, keep-alive,
//! deadman takeover, config update, and the read-only query surface.
//!
//! Every transition takes the ledger under the ambient transaction, the block
//! time, and the authenticated caller, and returns either a [`Response`] (the
//! outbound transfers and event attributes to commit along with the new
//! ledger) or a [`ContractError`], in which case the ledger is left exactly
//! as it was (discard-on-error).
//!
//! Each transition's contract ties the executable code to a spec-level
//! transition on the ghost ledger [`LedgerV`]: on success the new ledger
//! equals the spec transition's result and the response equals the spec
//! response; on failure the error is the spec error and the ledger is
//! unchanged.

use vstd::prelude::*;
use vstd::string::StringExecFns;

use crate::error::ContractError;
use crate::error::ErrV;
use crate::msg::Attribute;
use crate::msg::AttrV;
use crate::msg::ConfigResponse;
use crate::msg::Cw20HookMsg;
use crate::msg::ExecuteMsg;
use crate::msg::HookV;
use crate::msg::InstantiateMsg;
use crate::msg::MsgV;
use crate::msg::QueryAnswer;
use crate::msg::QueryMsg;
use crate::msg::ReceiveMsg;
use crate::msg::ReceiveV;
use crate::msg::Response;
use crate::msg::ResponseV;
use crate::msg::StakerInfoResponse;
use crate::msg::StateResponse;
use crate::msg::TransferMsg;
use crate::msg::TransferV;
use crate::numeral::dec_str;
use crate::numeral::to_dec_string;
use crate::state::has_addr;
use crate::state::idx_of;
use crate::state::lemma_stake_le_sum;
use crate::state::stake_of;
use crate::state::unique_addrs;
use crate::state::Config;
use crate::state::ConfigV;
use crate::state::Ledger;
use crate::state::LedgerV;
use crate::state::StakeEntry;
use crate::state::StakeEntryV;
use crate::state::StakeInfo;
use crate::state::StakeV;
use crate::state::State;

verus! {

/// Block-provided execution context: the block timestamp in seconds.
#[derive(Debug, Clone, Copy)]
pub struct Env {
    /// The block time, as a second count.
    pub time: u64,
}

/// The authenticated caller of an invocation.
#[derive(Debug, Clone)]
pub struct MessageInfo {
    /// The caller's address.
    pub sender: String,
}

// ---------------------------------------------------------------------------
// Spec-level transitions
// ---------------------------------------------------------------------------

/// The ledger instantiation writes: the given config, a zero total, and an
/// empty stake map.
pub open spec fn init_next(
    owner: Seq<char>,
    staking_token: Seq<char>,
    unbond_period: int,
    activity_interval: int,
    penalty_percentage: int,
) -> LedgerV {
    LedgerV {
        config: ConfigV { owner, staking_token, unbond_period, activity_interval, penalty_percentage },
        total_bond_amount: 0,
        stakes: Seq::empty(),
    }
}

/// A bond of a positive amount is accepted (the identity gate is the
/// enclosing receive envelope's).
pub open spec fn bond_ok(amount: int) -> bool {
    amount > 0
}

/// The staker's bonded principal before the bond (zero where no row exists).
pub open spec fn prior_amount(l: LedgerV, staker: Seq<char>) -> int {
    if has_addr(l.stakes, staker) {
        stake_of(l.stakes, staker).amount
    } else {
        0
    }
}

/// The staker's record after a bond: principal grown by `amount`, backup
/// overwritten, maturity reset to `now + activity_interval`, activity
/// refreshed.
pub open spec fn bond_stake(
    l: LedgerV,
    staker: Seq<char>,
    amount: int,
    backup_addr: Seq<char>,
    now: int,
) -> StakeV {
    StakeV {
        amount: prior_amount(l, staker) + amount,
        backup_addr,
        time_until: now + l.config.activity_interval,
        last_time_active: now,
    }
}

/// The ledger after a successful bond.
pub open spec fn bond_next(
    l: LedgerV,
    staker: Seq<char>,
    amount: int,
    backup_addr: Seq<char>,
    now: int,
) -> LedgerV {
    let entry = StakeEntryV { addr: staker, info: bond_stake(l, staker, amount, backup_addr, now) };
    LedgerV {
        config: l.config,
        total_bond_amount: l.total_bond_amount + amount,
        stakes: if has_addr(l.stakes, staker) {
            l.stakes.update(idx_of(l.stakes, staker), entry)
        } else {
            l.stakes.push(entry)
        },
    }
}

/// The response of a successful bond: no transfer (the tokens arrived with
/// the envelope), and the bond event attributes.
pub open spec fn bond_resp(l: LedgerV, staker: Seq<char>, amount: int) -> ResponseV {
    ResponseV {
        messages: Seq::empty(),
        attributes: seq![
            AttrV { key: "action"@, value: "bond"@ },
            AttrV { key: "owner"@, value: staker },
            AttrV { key: "amount"@, value: dec_str(amount) },
            AttrV { key: "new_amount"@, value: dec_str(prior_amount(l, staker) + amount) },
        ],
    }
}

/// A receive envelope is accepted when its payload decoded, the enclosing
/// sender is the staking token contract, and the amount is positive.
pub open spec fn receive_ok(l: LedgerV, caller: Seq<char>, rv: ReceiveV) -> bool {
    &&& rv.hook is Some
    &&& caller == l.config.staking_token
    &&& bond_ok(rv.amount)
}

/// Why a receive envelope was rejected, checked in this order: an undecoded
/// payload, then the identity gate, then the zero amount.
pub open spec fn receive_err(l: LedgerV, caller: Seq<char>, rv: ReceiveV) -> ErrV {
    if rv.hook is None {
        ErrV::Decode
    } else if caller != l.config.staking_token {
        ErrV::Unauthorized
    } else {
        ErrV::InvalidAmount
    }
}

/// The ledger after a successful receive: the bond of its envelope.
pub open spec fn receive_next(l: LedgerV, rv: ReceiveV, now: int) -> LedgerV {
    bond_next(l, rv.sender, rv.amount, rv.backup_addr(), now)
}

/// The machine limits a successful receive needs: the grown total still fits
/// in its cell, and the new maturity timestamp fits in its field.
pub open spec fn receive_fits(l: LedgerV, caller: Seq<char>, rv: ReceiveV, now: int) -> bool {
    receive_ok(l, caller, rv) ==> {
        &&& l.total_bond_amount + rv.amount <= u128::MAX
        &&& now + l.config.activity_interval <= u64::MAX
    }
}

/// An unbond is accepted when the amount is positive, the caller has a stake
/// row, and holds at least that amount.
pub open spec fn withdraw_ok(l: LedgerV, caller: Seq<char>, amount: int) -> bool {
    &&& amount > 0
    &&& has_addr(l.stakes, caller)
    &&& stake_of(l.stakes, caller).amount >= amount
}

/// Why an unbond was rejected, checked in this order: the zero amount, then
/// the missing row, then the short balance.
pub open spec fn withdraw_err(l: LedgerV, caller: Seq<char>, amount: int) -> ErrV {
    if amount <= 0 {
        ErrV::InvalidAmount
    } else if !has_addr(l.stakes, caller) {
        ErrV::NotFound
    } else {
        ErrV::InsufficientFunds
    }
}

/// The early-withdrawal penalty on an unbond of `amount` at percentage
/// `percentage`: `floor(amount * percentage / 100)`, saturated at `amount`.
pub open spec fn penalty_amount(amount: int, percentage: int) -> int {
    let p = amount * percentage / 100;
    if p > amount {
        amount
    } else {
        p
    }
}

/// The penalty an unbond of `amount` at time `now` incurs: the percentage cut
/// before maturity, nothing at or after it.
pub open spec fn withdraw_penalty(l: LedgerV, caller: Seq<char>, amount: int, now: int) -> int {
    if now < stake_of(l.stakes, caller).time_until {
        penalty_amount(amount, l.config.penalty_percentage)
    } else {
        0
    }
}

/// The ledger after a successful unbond: the caller's principal and the
/// global total shrink by `amount`, and the caller's activity is refreshed.
pub open spec fn withdraw_next(l: LedgerV, caller: Seq<char>, amount: int, now: int) -> LedgerV {
    let s = stake_of(l.stakes, caller);
    let entry = StakeEntryV {
        addr: caller,
        info: StakeV {
            amount: s.amount - amount,
            backup_addr: s.backup_addr,
            time_until: s.time_until,
            last_time_active: now,
        },
    };
    LedgerV {
        config: l.config,
        total_bond_amount: l.total_bond_amount - amount,
        stakes: l.stakes.update(idx_of(l.stakes, caller), entry),
    }
}

/// The transfers of a successful unbond: the penalty to the owner and the
/// rest to the caller, zero-valued transfers skipped. At or after maturity
/// the penalty is zero and the whole amount goes to the caller in one
/// transfer.
pub open spec fn withdraw_msgs(l: LedgerV, caller: Seq<char>, amount: int, now: int) -> Seq<
    TransferV,
> {
    let pen = withdraw_penalty(l, caller, amount, now);
    let to_owner: Seq<TransferV> = if pen > 0 {
        seq![TransferV { recipient: l.config.owner, amount: pen }]
    } else {
        Seq::empty()
    };
    let to_caller: Seq<TransferV> = if amount - pen > 0 {
        seq![TransferV { recipient: caller, amount: amount - pen }]
    } else {
        Seq::empty()
    };
    to_owner + to_caller
}

/// The response of a successful unbond.
pub open spec fn withdraw_resp(l: LedgerV, caller: Seq<char>, amount: int, now: int) -> ResponseV {
    ResponseV {
        messages: withdraw_msgs(l, caller, amount, now),
        attributes: seq![
            AttrV { key: "action"@, value: "withdraw"@ },
            AttrV { key: "owner"@, value: caller },
            AttrV { key: "withdrawed_amount"@, value: dec_str(amount) },
        ],
    }
}

/// A keep-alive is accepted when the caller has a stake row.
pub open spec fn keep_alive_ok(l: LedgerV, caller: Seq<char>) -> bool {
    has_addr(l.stakes, caller)
}

/// The ledger after a successful keep-alive: only the caller's activity is
/// refreshed.
pub open spec fn keep_alive_next(l: LedgerV, caller: Seq<char>, now: int) -> LedgerV {
    let s = stake_of(l.stakes, caller);
    let entry = StakeEntryV {
        addr: caller,
        info: StakeV {
            amount: s.amount,
            backup_addr: s.backup_addr,
            time_until: s.time_until,
            last_time_active: now,
        },
    };
    LedgerV {
        config: l.config,
        total_bond_amount: l.total_bond_amount,
        stakes: l.stakes.update(idx_of(l.stakes, caller), entry),
    }
}

/// A deadman takeover is accepted when the target has a stake row, the
/// caller is the target's backup address, and the target has been inactive
/// for the full activity interval.
pub open spec fn deadman_ok(l: LedgerV, caller: Seq<char>, target: Seq<char>, now: int) -> bool {
    &&& has_addr(l.stakes, target)
    &&& stake_of(l.stakes, target).backup_addr == caller
    &&& stake_of(l.stakes, target).last_time_active + l.config.activity_interval <= now
}

/// Why a deadman takeover was rejected: the missing row, then the identity
/// and liveness gates (both surface as an authorization failure).
pub open spec fn deadman_err(l: LedgerV, target: Seq<char>) -> ErrV {
    if !has_addr(l.stakes, target) {
        ErrV::NotFound
    } else {
        ErrV::Unauthorized
    }
}

/// The ledger after a successful deadman takeover: the target's principal is
/// zeroed (the row itself is retained) and leaves the global total.
pub open spec fn deadman_next(l: LedgerV, target: Seq<char>) -> LedgerV {
    let s = stake_of(l.stakes, target);
    let entry = StakeEntryV {
        addr: target,
        info: StakeV {
            amount: 0,
            backup_addr: s.backup_addr,
            time_until: s.time_until,
            last_time_active: s.last_time_active,
        },
    };
    LedgerV {
        config: l.config,
        total_bond_amount: l.total_bond_amount - s.amount,
        stakes: l.stakes.update(idx_of(l.stakes, target), entry),
    }
}

/// The response of a successful deadman takeover: the seized amount goes to
/// the backup address.
pub open spec fn deadman_resp(l: LedgerV, target: Seq<char>) -> ResponseV {
    ResponseV {
        messages: seq![
            TransferV {
                recipient: stake_of(l.stakes, target).backup_addr,
                amount: stake_of(l.stakes, target).amount,
            },
        ],
        attributes: Seq::empty(),
    }
}

/// A config update is accepted only from the owner.
pub open spec fn update_config_ok(l: LedgerV, caller: Seq<char>) -> bool {
    caller == l.config.owner
}

/// The ledger after a successful config update: given fields overwritten,
/// absent fields kept. The `staking_period` input maps to the
/// `unbond_period` field.
pub open spec fn update_config_next(
    l: LedgerV,
    staking_period: Option<int>,
    activity_interval: Option<int>,
    penalty_percentage: Option<int>,
) -> LedgerV {
    LedgerV {
        config: ConfigV {
            owner: l.config.owner,
            staking_token: l.config.staking_token,
            unbond_period: match staking_period {
                Some(v) => v,
                None => l.config.unbond_period,
            },
            activity_interval: match activity_interval {
                Some(v) => v,
                None => l.config.activity_interval,
            },
            penalty_percentage: match penalty_percentage {
                Some(v) => v,
                None => l.config.penalty_percentage,
            },
        },
        total_bond_amount: l.total_bond_amount,
        stakes: l.stakes,
    }
}

/// The response of a successful config update.
pub open spec fn update_config_resp() -> ResponseV {
    ResponseV {
        messages: Seq::empty(),
        attributes: seq![AttrV { key: "action"@, value: "update_config"@ }],
    }
}

/// The empty response.
pub open spec fn empty_resp() -> ResponseV {
    ResponseV { messages: Seq::empty(), attributes: Seq::empty() }
}

/// Whether the full step accepts the message.
pub open spec fn step_ok(l: LedgerV, now: int, caller: Seq<char>, m: MsgV) -> bool {
    match m {
        MsgV::Receive(rv) => receive_ok(l, caller, rv),
        MsgV::Unbond { amount } => withdraw_ok(l, caller, amount),
        MsgV::Claim => false,
        MsgV::KeepAlive => keep_alive_ok(l, caller),
        MsgV::DeadmanDelay { addr } => deadman_ok(l, caller, addr, now),
        MsgV::UpdateConfig { .. } => update_config_ok(l, caller),
    }
}

/// The ledger after a full accepted step.
pub open spec fn step_next(l: LedgerV, now: int, caller: Seq<char>, m: MsgV) -> LedgerV {
    match m {
        MsgV::Receive(rv) => receive_next(l, rv, now),
        MsgV::Unbond { amount } => withdraw_next(l, caller, amount, now),
        MsgV::Claim => l,
        MsgV::KeepAlive => keep_alive_next(l, caller, now),
        MsgV::DeadmanDelay { addr } => deadman_next(l, addr),
        MsgV::UpdateConfig { staking_period, activity_interval, penalty_percentage } => (
        update_config_next(l, staking_period, activity_interval, penalty_percentage)),
    }
}

/// The response of a full accepted step.
pub open spec fn step_resp(l: LedgerV, now: int, caller: Seq<char>, m: MsgV) -> ResponseV {
    match m {
        MsgV::Receive(rv) => bond_resp(l, rv.sender, rv.amount),
        MsgV::Unbond { amount } => withdraw_resp(l, caller, amount, now),
        MsgV::Claim => empty_resp(),
        MsgV::KeepAlive => empty_resp(),
        MsgV::DeadmanDelay { addr } => deadman_resp(l, addr),
        MsgV::UpdateConfig { .. } => update_config_resp(),
    }
}

/// Why a rejected step was rejected.
pub open spec fn step_err(l: LedgerV, now: int, caller: Seq<char>, m: MsgV) -> ErrV {
    match m {
        MsgV::Receive(rv) => receive_err(l, caller, rv),
        MsgV::Unbond { amount } => withdraw_err(l, caller, amount),
        MsgV::Claim => ErrV::Std("reward claim is not implemented"@),
        MsgV::KeepAlive => ErrV::NotFound,
        MsgV::DeadmanDelay { addr } => deadman_err(l, addr),
        MsgV::UpdateConfig { .. } => ErrV::PermissionDenied(caller),
    }
}

/// The machine limits an accepted step needs (only the bond path grows
/// values).
pub open spec fn step_fits(l: LedgerV, now: int, caller: Seq<char>, m: MsgV) -> bool {
    match m {
        MsgV::Receive(rv) => receive_fits(l, caller, rv, now),
        _ => true,
    }
}

// ---------------------------------------------------------------------------
// Executable transitions
// ---------------------------------------------------------------------------

/// The index of the row keyed by `addr`, where there is one.
fn find_stake(stakes: &Vec<StakeEntry>, addr: &String) -> (r: Option<usize>)
    requires
        unique_addrs(stakes.deep_view()),
    ensures
        (match r {
            Some(i) => has_addr(stakes.deep_view(), addr@) && 0 <= (i as int)
                < stakes.deep_view().len() && i as int == idx_of(stakes.deep_view(), addr@),
            None => !has_addr(stakes.deep_view(), addr@),
        }),
{
    let ghost sv = stakes.deep_view();
    let n = stakes.len();
    for i in 0..n
        invariant
            n == stakes.len(),
            sv == stakes.deep_view(),
            unique_addrs(sv),
            forall|j: int| 0 <= j < i ==> (#[trigger] sv[j]).addr != addr@,
    {
        if stakes[i].addr == *addr {
            proof {
                assert(sv[i as int].addr == addr@);
                assert(has_addr(sv, addr@));
                let k = idx_of(sv, addr@);
                assert(0 <= k < sv.len() && sv[k].addr == addr@);
                if k != i as int {
                    assert(sv[k].addr != sv[i as int].addr);
                }
            }
            return Some(i);
        }
    }
    None
}

/// Writes the initial ledger: the caller becomes the owner, the total starts
/// at zero, and the stake map starts empty. Returns the ledger and the empty
/// response.
pub fn instantiate(info: MessageInfo, msg: InstantiateMsg) -> (r: (Ledger, Response))
    ensures
        r.0@ == init_next(
            info.sender@,
            msg.staking_token@,
            msg.unbond_period as int,
            msg.activity_interval as int,
            msg.penalty_percentage as int,
        ),
        r.0@.wf(),
        r.1@ == empty_resp(),
{
    let ledger = Ledger {
        config: Config {
            owner: info.sender,
            staking_token: msg.staking_token,
            unbond_period: msg.unbond_period,
            activity_interval: msg.activity_interval,
            penalty_percentage: msg.penalty_percentage,
        },
        state: State { total_bond_amount: 0 },
        stakes: Vec::new(),
    };
    let resp = Response::new_empty();
    proof {
        assert(ledger@.stakes =~= Seq::<StakeEntryV>::empty());
        assert(ledger@ =~= init_next(
            info.sender@,
            msg.staking_token@,
            msg.unbond_period as int,
            msg.activity_interval as int,
            msg.penalty_percentage as int,
        ));
        assert(resp@ =~= empty_resp());
    }
    (ledger, resp)
}

/// Refreshes the caller's activity timestamp; nothing else changes.
pub fn keep_alive(ledger: &mut Ledger, env: Env, info: MessageInfo) -> (r: Result<
    Response,
    ContractError,
>)
    requires
        old(ledger)@.wf(),
    ensures
        (r matches Ok(resp) ==> keep_alive_ok(old(ledger)@, info.sender@) && final(ledger)@
            == keep_alive_next(old(ledger)@, info.sender@, env.time as int) && resp@
            == empty_resp()),
        (r matches Err(e) ==> !keep_alive_ok(old(ledger)@, info.sender@) && e@ == ErrV::NotFound
            && *final(ledger) == *old(ledger)),
{
    let ghost l0 = ledger@;
    let i = match find_stake(&ledger.stakes, &info.sender) {
        Some(i) => i,
        None => {
            return Err(ContractError::NotFound);
        },
    };
    let new_entry = {
        let e = &ledger.stakes[i];
        StakeEntry {
            addr: e.addr.clone(),
            info: StakeInfo {
                time_until: e.info.time_until,
                backup_addr: e.info.backup_addr.clone(),
                amount: e.info.amount,
                last_time_active: env.time,
            },
        }
    };
    ledger.stakes[i] = new_entry;
    proof {
        assert(ledger@.stakes =~= keep_alive_next(l0, info.sender@, env.time as int).stakes);
        assert(ledger@ =~= keep_alive_next(l0, info.sender@, env.time as int));
    }
    Ok(Response::new_empty())
}

/// Updates the config fields the owner supplied; any other caller is turned
/// away before anything is written.
pub fn update_config(
    ledger: &mut Ledger,
    info: MessageInfo,
    staking_period: Option<u64>,
    activity_interval: Option<u64>,
    penalty_percentage: Option<u64>,
) -> (r: Result<Response, ContractError>)
    requires
        old(ledger)@.wf(),
    ensures
        (r matches Ok(resp) ==> update_config_ok(old(ledger)@, info.sender@) && final(ledger)@
            == update_config_next(
            old(ledger)@,
            (match staking_period {
                Some(v) => Some(v as int),
                None => None,
            }),
            (match activity_interval {
                Some(v) => Some(v as int),
                None => None,
            }),
            (match penalty_percentage {
                Some(v) => Some(v as int),
                None => None,
            }),
        ) && resp@ == update_config_resp()),
        (r matches Err(e) ==> !update_config_ok(old(ledger)@, info.sender@) && e@
            == ErrV::PermissionDenied(info.sender@) && *final(ledger) == *old(ledger)),
{
    let ghost l0 = ledger@;
    if !(info.sender == ledger.config.owner) {
        return Err(ContractError::PermissionDenied(info.sender));
    }
    match staking_period {
        Some(v) => {
            ledger.config.unbond_period = v;
        },
        None => {},
    }
    match activity_interval {
        Some(v) => {
            ledger.config.activity_interval = v;
        },
        None => {},
    }
    match penalty_percentage {
        Some(v) => {
            ledger.config.penalty_percentage = v;
        },
        None => {},
    }
    let mut attributes: Vec<Attribute> = Vec::new();
    attributes.push(
        Attribute { key: String::from_str("action"), value: String::from_str("update_config") },
    );
    let resp = Response { messages: Vec::new(), attributes };
    proof {
        assert(ledger@ =~= update_config_next(
            l0,
            (match staking_period {
                Some(v) => Some(v as int),
                None => None,
            }),
            (match activity_interval {
                Some(v) => Some(v as int),
                None => None,
            }),
            (match penalty_percentage {
                Some(v) => Some(v as int),
                None => None,
            }),
        ));
        assert(resp@.messages =~= update_config_resp().messages);
        assert(resp@.attributes =~= update_config_resp().attributes);
        assert(resp@ =~= update_config_resp());
    }
    Ok(resp)
}

/// Grows the staker's bond by `amount` (creating the row on first bond),
/// overwrites the backup address, resets the maturity timestamp, refreshes
/// the activity timestamp, and grows the global total. The identity gate is
/// [`receive_cw20`]'s; here only the zero amount is rejected.
pub fn bond(
    ledger: &mut Ledger,
    env: Env,
    sender: String,
    amount: u128,
    backup_addr: String,
) -> (r: Result<Response, ContractError>)
    requires
        old(ledger)@.wf(),
        bond_ok(amount as int) ==> old(ledger)@.total_bond_amount + amount <= u128::MAX && env.time
            + old(ledger)@.config.activity_interval <= u64::MAX,
    ensures
        (r matches Ok(resp) ==> bond_ok(amount as int) && final(ledger)@ == bond_next(
            old(ledger)@,
            sender@,
            amount as int,
            backup_addr@,
            env.time as int,
        ) && resp@ == bond_resp(old(ledger)@, sender@, amount as int)),
        (r matches Err(e) ==> !bond_ok(amount as int) && e@ == ErrV::InvalidAmount && *final(ledger)
            == *old(ledger)),
{
    if amount == 0 {
        return Err(ContractError::InvalidAmount);
    }
    let ghost l0 = ledger@;
    let now = env.time;
    let time_until = now + ledger.config.activity_interval;
    let new_amount: u128;
    match find_stake(&ledger.stakes, &sender) {
        Some(i) => {
            let prior = ledger.stakes[i].info.amount;
            proof {
                lemma_stake_le_sum(l0.stakes, i as int);
            }
            new_amount = prior + amount;
            let entry = StakeEntry {
                addr: sender.clone(),
                info: StakeInfo {
                    time_until,
                    backup_addr,
                    amount: new_amount,
                    last_time_active: now,
                },
            };
            ledger.stakes[i] = entry;
        },
        None => {
            new_amount = amount;
            let entry = StakeEntry {
                addr: sender.clone(),
                info: StakeInfo {
                    time_until,
                    backup_addr,
                    amount: new_amount,
                    last_time_active: now,
                },
            };
            ledger.stakes.push(entry);
        },
    }
    ledger.state.total_bond_amount = ledger.state.total_bond_amount + amount;
    proof {
        assert(ledger@.stakes =~= bond_next(
            l0,
            sender@,
            amount as int,
            backup_addr@,
            now as int,
        ).stakes);
        assert(ledger@ =~= bond_next(l0, sender@, amount as int, backup_addr@, now as int));
    }
    let mut attributes: Vec<Attribute> = Vec::new();
    attributes.push(Attribute { key: String::from_str("action"), value: String::from_str("bond") });
    attributes.push(Attribute { key: String::from_str("owner"), value: sender });
    attributes.push(Attribute { key: String::from_str("amount"), value: to_dec_string(amount) });
    attributes.push(
        Attribute { key: String::from_str("new_amount"), value: to_dec_string(new_amount) },
    );
    let resp = Response { messages: Vec::new(), attributes };
    proof {
        assert(resp@.messages =~= bond_resp(l0, sender@, amount as int).messages);
        assert(resp@.attributes =~= bond_resp(l0, sender@, amount as int).attributes);
        assert(resp@ =~= bond_resp(l0, sender@, amount as int));
    }
    Ok(resp)
}

/// Accepts the token contract's receive envelope: only the staking token
/// contract may deliver it, its payload must have decoded, and the delivered
/// amount becomes the sender's bond.
pub fn receive_cw20(
    ledger: &mut Ledger,
    env: Env,
    info: MessageInfo,
    cw20_msg: ReceiveMsg,
) -> (r: Result<Response, ContractError>)
    requires
        old(ledger)@.wf(),
        receive_fits(old(ledger)@, info.sender@, cw20_msg@, env.time as int),
    ensures
        (r matches Ok(resp) ==> receive_ok(old(ledger)@, info.sender@, cw20_msg@) && final(ledger)@
            == receive_next(old(ledger)@, cw20_msg@, env.time as int) && resp@ == bond_resp(
            old(ledger)@,
            cw20_msg@.sender,
            cw20_msg@.amount,
        )),
        (r matches Err(e) ==> !receive_ok(old(ledger)@, info.sender@, cw20_msg@) && e@
            == receive_err(old(ledger)@, info.sender@, cw20_msg@) && *final(ledger)
            == *old(ledger)),
{
    match cw20_msg.msg {
        Some(Cw20HookMsg::Bond { backup_addr }) => {
            if !(ledger.config.staking_token == info.sender) {
                return Err(ContractError::Unauthorized);
            }
            bond(ledger, env, cw20_msg.sender, cw20_msg.amount, backup_addr)
        },
        None => Err(ContractError::Decode),
    }
}

/// Below one hundred percent the penalty needs no saturation and splits into
/// hundreds: with `a == 100 q + r` the floor of `a p / 100` is
/// `q p + floor(r p / 100)`, and stays within `a`.
pub proof fn lemma_penalty_split(a: int, p: int)
    requires
        a >= 0,
        0 <= p < 100,
    ensures
        a * p / 100 == (a / 100) * p + (a % 100) * p / 100,
        penalty_amount(a, p) == a * p / 100,
        (a / 100) * p <= a,
        a * p / 100 <= a,
{
    let q = a / 100;
    let r = a % 100;
    vstd::arithmetic::div_mod::lemma_fundamental_div_mod(a, 100);
    vstd::arithmetic::div_mod::lemma_mod_bound(a, 100);
    vstd::arithmetic::div_mod::lemma_div_pos_is_pos(a, 100);
    assert(a == 100 * q + r);
    assert(a * p == (r * p) + (q * p) * 100) by (nonlinear_arith)
        requires
            a == 100 * q + r,
    ;
    vstd::arithmetic::div_mod::lemma_hoist_over_denominator(r * p, q * p, 100nat);
    assert(a * p / 100 == q * p + r * p / 100);
    assert(q * p <= q * 100 && 0 <= q * p && 0 <= r * p && r * p <= r * 100) by (nonlinear_arith)
        requires
            0 <= q && 0 <= p < 100 && 0 <= r < 100,
    ;
    vstd::arithmetic::div_mod::lemma_div_is_ordered(r * p, r * 100, 100);
    vstd::arithmetic::div_mod::lemma_div_by_multiple(r, 100);
    vstd::arithmetic::div_mod::lemma_div_pos_is_pos(r * p, 100);
    assert(q * p <= a);
    assert(a * p / 100 <= q * 100 + r);
}

/// At or above one hundred percent the saturated penalty is the whole
/// amount.
pub proof fn lemma_penalty_saturates(a: int, p: int)
    requires
        a >= 0,
        p >= 100,
    ensures
        penalty_amount(a, p) == a,
{
    assert(a * 100 <= a * p) by (nonlinear_arith)
        requires
            0 <= a && 100 <= p,
    ;
    vstd::arithmetic::div_mod::lemma_div_is_ordered(a * 100, a * p, 100);
    vstd::arithmetic::div_mod::lemma_div_by_multiple(a, 100);
}

/// Computes the early-withdrawal penalty, never exceeding `amount`.
fn compute_penalty(amount: u128, percentage: u64) -> (r: u128)
    ensures
        r as int == penalty_amount(amount as int, percentage as int),
        r <= amount,
{
    if percentage >= 100 {
        proof {
            lemma_penalty_saturates(amount as int, percentage as int);
        }
        amount
    } else {
        let q = amount / 100;
        let rem = amount % 100;
        let p = percentage as u128;
        proof {
            lemma_penalty_split(amount as int, percentage as int);
            vstd::arithmetic::div_mod::lemma_mod_bound(amount as int, 100);
            assert((rem as int) * (p as int) < 10000) by (nonlinear_arith)
                requires
                    0 <= rem < 100 && 0 <= p < 100,
            ;
        }
        q * p + rem * p / 100
    }
}

/// Withdraws `amount` of the caller's bonded tokens: the principal and the
/// global total shrink by `amount`, the caller's activity is refreshed, and
/// the tokens go out — before maturity the penalty cut goes to the owner and
/// the rest to the caller, at or after maturity the whole amount goes to the
/// caller.
pub fn withdraw(ledger: &mut Ledger, env: Env, info: MessageInfo, amount: u128) -> (r: Result<
    Response,
    ContractError,
>)
    requires
        old(ledger)@.wf(),
    ensures
        (r matches Ok(resp) ==> withdraw_ok(old(ledger)@, info.sender@, amount as int)
            && final(ledger)@ == withdraw_next(
            old(ledger)@,
            info.sender@,
            amount as int,
            env.time as int,
        ) && resp@ == withdraw_resp(old(ledger)@, info.sender@, amount as int, env.time as int)),
        (r matches Err(e) ==> !withdraw_ok(old(ledger)@, info.sender@, amount as int) && e@
            == withdraw_err(old(ledger)@, info.sender@, amount as int) && *final(ledger)
            == *old(ledger)),
{
    if amount == 0 {
        return Err(ContractError::InvalidAmount);
    }
    let ghost l0 = ledger@;
    let i = match find_stake(&ledger.stakes, &info.sender) {
        Some(i) => i,
        None => {
            return Err(ContractError::NotFound);
        },
    };
    let held = ledger.stakes[i].info.amount;
    if held < amount {
        return Err(ContractError::InsufficientFunds);
    }
    proof {
        lemma_stake_le_sum(l0.stakes, i as int);
    }
    let now = env.time;
    let time_until = ledger.stakes[i].info.time_until;
    let new_entry = {
        let e = &ledger.stakes[i];
        StakeEntry {
            addr: e.addr.clone(),
            info: StakeInfo {
                time_until: e.info.time_until,
                backup_addr: e.info.backup_addr.clone(),
                amount: held - amount,
                last_time_active: now,
            },
        }
    };
    ledger.stakes[i] = new_entry;
    ledger.state.total_bond_amount = ledger.state.total_bond_amount - amount;
    proof {
        assert(ledger@.stakes =~= withdraw_next(l0, info.sender@, amount as int, now as int).stakes);
        assert(ledger@ =~= withdraw_next(l0, info.sender@, amount as int, now as int));
    }
    let penalty: u128 = if now < time_until {
        compute_penalty(amount, ledger.config.penalty_percentage)
    } else {
        0
    };
    let mut messages: Vec<TransferMsg> = Vec::new();
    if penalty > 0 {
        messages.push(TransferMsg { recipient: ledger.config.owner.clone(), amount: penalty });
    }
    if amount - penalty > 0 {
        messages.push(TransferMsg { recipient: info.sender.clone(), amount: amount - penalty });
    }
    let mut attributes: Vec<Attribute> = Vec::new();
    attributes.push(
        Attribute { key: String::from_str("action"), value: String::from_str("withdraw") },
    );
    attributes.push(Attribute { key: String::from_str("owner"), value: info.sender });
    attributes.push(
        Attribute { key: String::from_str("withdrawed_amount"), value: to_dec_string(amount) },
    );
    let resp = Response { messages, attributes };
    proof {
        assert(penalty as int == withdraw_penalty(l0, info.sender@, amount as int, now as int));
        assert(resp@.messages =~= withdraw_msgs(l0, info.sender@, amount as int, now as int));
        assert(resp@.attributes =~= withdraw_resp(
            l0,
            info.sender@,
            amount as int,
            now as int,
        ).attributes);
        assert(resp@ =~= withdraw_resp(l0, info.sender@, amount as int, now as int));
    }
    Ok(resp)
}

/// Seizes an inactive staker's balance for their backup address: only the
/// backup may call, only once the staker has been inactive for the full
/// activity interval. The row is retained with a zero amount.
pub fn deadman_delay(ledger: &mut Ledger, env: Env, info: MessageInfo, addr: String) -> (r: Result<
    Response,
    ContractError,
>)
    requires
        old(ledger)@.wf(),
    ensures
        (r matches Ok(resp) ==> deadman_ok(old(ledger)@, info.sender@, addr@, env.time as int)
            && final(ledger)@ == deadman_next(old(ledger)@, addr@) && resp@ == deadman_resp(
            old(ledger)@,
            addr@,
        )),
        (r matches Err(e) ==> !deadman_ok(old(ledger)@, info.sender@, addr@, env.time as int) && e@
            == deadman_err(old(ledger)@, addr@) && *final(ledger) == *old(ledger)),
{
    let ghost l0 = ledger@;
    let i = match find_stake(&ledger.stakes, &addr) {
        Some(i) => i,
        None => {
            return Err(ContractError::NotFound);
        },
    };
    if !(ledger.stakes[i].info.backup_addr == info.sender) {
        return Err(ContractError::Unauthorized);
    }
    // The staker is active iff now < last_time_active + activity_interval,
    // tested without overflowing the sum.
    let now = env.time;
    let last = ledger.stakes[i].info.last_time_active;
    let interval = ledger.config.activity_interval;
    if now < last || now - last < interval {
        return Err(ContractError::Unauthorized);
    }
    let seized = ledger.stakes[i].info.amount;
    proof {
        lemma_stake_le_sum(l0.stakes, i as int);
    }
    let backup = ledger.stakes[i].info.backup_addr.clone();
    let new_entry = {
        let e = &ledger.stakes[i];
        StakeEntry {
            addr: e.addr.clone(),
            info: StakeInfo {
                time_until: e.info.time_until,
                backup_addr: e.info.backup_addr.clone(),
                amount: 0,
                last_time_active: e.info.last_time_active,
            },
        }
    };
    ledger.stakes[i] = new_entry;
    ledger.state.total_bond_amount = ledger.state.total_bond_amount - seized;
    proof {
        assert(ledger@.stakes =~= deadman_next(l0, addr@).stakes);
        assert(ledger@ =~= deadman_next(l0, addr@));
    }
    let mut messages: Vec<TransferMsg> = Vec::new();
    messages.push(TransferMsg { recipient: backup, amount: seized });
    let resp = Response { messages, attributes: Vec::new() };
    proof {
        assert(resp@.messages =~= deadman_resp(l0, addr@).messages);
        assert(resp@.attributes =~= deadman_resp(l0, addr@).attributes);
        assert(resp@ =~= deadman_resp(l0, addr@));
    }
    Ok(resp)
}

/// Rejects the reserved reward claim: no reward policy is defined.
pub fn claim_rewards(ledger: &mut Ledger, _env: Env, _info: MessageInfo) -> (r: Result<
    Response,
    ContractError,
>)
    ensures
        r matches Err(e) && e@ == ErrV::Std("reward claim is not implemented"@) && *final(ledger)
            == *old(ledger),
{
    Err(ContractError::Std(String::from_str("reward claim is not implemented")))
}

/// Routes an inbound execute message to its transition. On success the new
/// ledger and the response are exactly the spec step's; on failure the error
/// is the spec step's and the ledger is unchanged (all-or-nothing).
pub fn execute(ledger: &mut Ledger, env: Env, info: MessageInfo, msg: ExecuteMsg) -> (r: Result<
    Response,
    ContractError,
>)
    requires
        old(ledger)@.wf(),
        step_fits(old(ledger)@, env.time as int, info.sender@, msg@),
    ensures
        (r matches Ok(resp) ==> step_ok(old(ledger)@, env.time as int, info.sender@, msg@)
            && final(ledger)@ == step_next(old(ledger)@, env.time as int, info.sender@, msg@)
            && resp@ == step_resp(old(ledger)@, env.time as int, info.sender@, msg@)),
        (r matches Err(e) ==> !step_ok(old(ledger)@, env.time as int, info.sender@, msg@) && e@
            == step_err(old(ledger)@, env.time as int, info.sender@, msg@) && *final(ledger)
            == *old(ledger)),
        (r matches Ok(resp) ==> final(ledger)@.wf()),
{
    let ghost l0 = ledger@;
    let ghost now = env.time as int;
    let ghost caller = info.sender@;
    let ghost m = msg@;
    let r = match msg {
        ExecuteMsg::Receive(cw20_msg) => receive_cw20(ledger, env, info, cw20_msg),
        ExecuteMsg::Unbond { amount } => withdraw(ledger, env, info, amount),
        ExecuteMsg::Claim => claim_rewards(ledger, env, info),
        ExecuteMsg::UpdateConfig { staking_period, activity_interval, penalty_percentage } => (
        update_config(ledger, info, staking_period, activity_interval, penalty_percentage)),
        ExecuteMsg::KeepAlive => keep_alive(ledger, env, info),
        ExecuteMsg::DeadmanDelay { addr } => deadman_delay(ledger, env, info, addr),
    };
    proof {
        if r is Ok && step_ok(l0, now, caller, m) {
            assert(m.wf());
            crate::laws::lemma_step_preserves_wf(l0, now, caller, m);
        }
    }
    r
}

/// Reads the full config.
pub fn query_config(ledger: &Ledger) -> (c: ConfigResponse)
    ensures
        c.owner@ == ledger@.config.owner,
        c.staking_token@ == ledger@.config.staking_token,
        c.unbond_period == ledger@.config.unbond_period,
        c.activity_interval == ledger@.config.activity_interval,
        c.penalty_percentage == ledger@.config.penalty_percentage,
{
    ConfigResponse {
        owner: ledger.config.owner.clone(),
        staking_token: ledger.config.staking_token.clone(),
        unbond_period: ledger.config.unbond_period,
        activity_interval: ledger.config.activity_interval,
        penalty_percentage: ledger.config.penalty_percentage,
    }
}

/// Reads the global bonded total.
pub fn query_state(ledger: &Ledger) -> (s: StateResponse)
    ensures
        s.total_bound_amount == ledger@.total_bond_amount,
{
    StateResponse { total_bound_amount: ledger.state.total_bond_amount }
}

/// Reads the full stake record of `staker`; fails where there is none.
pub fn query_staker_info(ledger: &Ledger, staker: String) -> (r: Result<
    StakerInfoResponse,
    ContractError,
>)
    requires
        ledger@.wf(),
    ensures
        (r matches Ok(s) ==> has_addr(ledger@.stakes, staker@) && s.staker@ == staker@ && s.amount
            == stake_of(ledger@.stakes, staker@).amount && s.backup_addr@ == stake_of(
            ledger@.stakes,
            staker@,
        ).backup_addr && s.time_until == stake_of(ledger@.stakes, staker@).time_until
            && s.last_time_active == stake_of(ledger@.stakes, staker@).last_time_active),
        (r matches Err(e) ==> !has_addr(ledger@.stakes, staker@) && e@ == ErrV::NotFound),
{
    let i = match find_stake(&ledger.stakes, &staker) {
        Some(i) => i,
        None => {
            return Err(ContractError::NotFound);
        },
    };
    let e = &ledger.stakes[i];
    Ok(
        StakerInfoResponse {
            staker,
            time_until: e.info.time_until,
            backup_addr: e.info.backup_addr.clone(),
            amount: e.info.amount,
            last_time_active: e.info.last_time_active,
        },
    )
}

/// Routes an inbound query to its read-only projection; no query writes.
pub fn query(ledger: &Ledger, msg: QueryMsg) -> (r: Result<QueryAnswer, ContractError>)
    requires
        ledger@.wf(),
    ensures
        (msg matches QueryMsg::Config ==> r matches Ok(a) && a matches QueryAnswer::Config(c)
            && c.owner@ == ledger@.config.owner && c.staking_token@ == ledger@.config.staking_token
            && c.unbond_period == ledger@.config.unbond_period && c.activity_interval
            == ledger@.config.activity_interval && c.penalty_percentage
            == ledger@.config.penalty_percentage),
        (msg matches QueryMsg::State ==> r matches Ok(a) && a matches QueryAnswer::State(s)
            && s.total_bound_amount == ledger@.total_bond_amount),
        (msg matches QueryMsg::StakerInfo { staker } ==> (match r {
            Ok(a) => a matches QueryAnswer::StakerInfo(s) && has_addr(ledger@.stakes, staker@)
                && s.staker@ == staker@ && s.amount == stake_of(ledger@.stakes, staker@).amount
                && s.backup_addr@ == stake_of(ledger@.stakes, staker@).backup_addr && s.time_until
                == stake_of(ledger@.stakes, staker@).time_until && s.last_time_active == stake_of(
                ledger@.stakes,
                staker@,
            ).last_time_active,
            Err(e) => !has_addr(ledger@.stakes, staker@) && e@ == ErrV::NotFound,
        })),
{
    match msg {
        QueryMsg::Config => Ok(QueryAnswer::Config(query_config(ledger))),
        QueryMsg::State => Ok(QueryAnswer::State(query_state(ledger))),
        QueryMsg::StakerInfo { staker } => {
            match query_staker_info(ledger, staker) {
                Ok(s) => Ok(QueryAnswer::StakerInfo(s)),
                Err(e) => Err(e),
            }
        },
    }
}

} // verus!
