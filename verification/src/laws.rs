//! The laws of the staking ledger, proved over the spec-level transitions
//! that the executable transitions are tied to by their contracts.

use vstd::prelude::*;

use crate::contract::bond_next;
use crate::contract::bond_stake;
use crate::contract::lemma_penalty_saturates;
use crate::contract::lemma_penalty_split;
use crate::contract::prior_amount;
use crate::contract::step_fits;
use crate::contract::step_next;
use crate::contract::step_ok;
use crate::contract::withdraw_msgs;
use crate::contract::withdraw_next;
use crate::contract::withdraw_ok;
use crate::contract::withdraw_penalty;
use crate::msg::HookV;
use crate::msg::MsgV;
use crate::msg::TransferV;
use crate::state::has_addr;
use crate::state::idx_of;
use crate::state::lemma_idx_of;
use crate::state::lemma_push_preserves;
use crate::state::lemma_stake_le_sum;
use crate::state::lemma_sum_push;
use crate::state::lemma_sum_update;
use crate::state::lemma_update_preserves;
use crate::state::stake_of;
use crate::state::LedgerV;
use crate::state::StakeEntryV;
use crate::state::StakeV;

verus! {

/// Every accepted step preserves well-formedness; in particular the global
/// total equals the sum of all bonded amounts after every committed
/// transition, and stays within its cell.
pub proof fn lemma_step_preserves_wf(l: LedgerV, now: int, caller: Seq<char>, m: MsgV)
    requires
        l.wf(),
        m.wf(),
        0 <= now <= u64::MAX,
        step_fits(l, now, caller, m),
        step_ok(l, now, caller, m),
    ensures
        step_next(l, now, caller, m).wf(),
{
    let l2 = step_next(l, now, caller, m);
    match m {
        MsgV::Receive(rv) => {
            let staker = rv.sender;
            let amount = rv.amount;
            let entry = StakeEntryV {
                addr: staker,
                info: bond_stake(l, staker, amount, rv.backup_addr(), now),
            };
            if has_addr(l.stakes, staker) {
                let i = idx_of(l.stakes, staker);
                lemma_idx_of(l.stakes, staker);
                lemma_stake_le_sum(l.stakes, i);
                lemma_update_preserves(l.stakes, i, entry);
                lemma_sum_update(l.stakes, i, entry);
                assert forall|j: int| 0 <= j < l2.stakes.len() implies (#[trigger] l2.stakes[j])
                    .info
                    .wf() by {
                    if j != i {
                        assert(l2.stakes[j] == l.stakes[j]);
                    }
                }
            } else {
                lemma_push_preserves(l.stakes, entry);
                lemma_sum_push(l.stakes, entry);
                assert forall|j: int| 0 <= j < l2.stakes.len() implies (#[trigger] l2.stakes[j])
                    .info
                    .wf() by {
                    if j < l.stakes.len() {
                        assert(l2.stakes[j] == l.stakes[j]);
                    }
                }
            }
        },
        MsgV::Unbond { amount } => {
            let i = idx_of(l.stakes, caller);
            lemma_idx_of(l.stakes, caller);
            lemma_stake_le_sum(l.stakes, i);
            let s = stake_of(l.stakes, caller);
            let entry = StakeEntryV {
                addr: caller,
                info: StakeV {
                    amount: s.amount - amount,
                    backup_addr: s.backup_addr,
                    time_until: s.time_until,
                    last_time_active: now,
                },
            };
            lemma_update_preserves(l.stakes, i, entry);
            lemma_sum_update(l.stakes, i, entry);
            assert forall|j: int| 0 <= j < l2.stakes.len() implies (#[trigger] l2.stakes[j])
                .info
                .wf() by {
                if j != i {
                    assert(l2.stakes[j] == l.stakes[j]);
                }
            }
        },
        MsgV::Claim => {
            assert(false);
        },
        MsgV::KeepAlive => {
            let i = idx_of(l.stakes, caller);
            lemma_idx_of(l.stakes, caller);
            let s = stake_of(l.stakes, caller);
            let entry = StakeEntryV {
                addr: caller,
                info: StakeV {
                    amount: s.amount,
                    backup_addr: s.backup_addr,
                    time_until: s.time_until,
                    last_time_active: now,
                },
            };
            lemma_update_preserves(l.stakes, i, entry);
            lemma_sum_update(l.stakes, i, entry);
            assert forall|j: int| 0 <= j < l2.stakes.len() implies (#[trigger] l2.stakes[j])
                .info
                .wf() by {
                if j != i {
                    assert(l2.stakes[j] == l.stakes[j]);
                }
            }
        },
        MsgV::DeadmanDelay { addr } => {
            let i = idx_of(l.stakes, addr);
            lemma_idx_of(l.stakes, addr);
            lemma_stake_le_sum(l.stakes, i);
            let s = stake_of(l.stakes, addr);
            let entry = StakeEntryV {
                addr,
                info: StakeV {
                    amount: 0,
                    backup_addr: s.backup_addr,
                    time_until: s.time_until,
                    last_time_active: s.last_time_active,
                },
            };
            lemma_update_preserves(l.stakes, i, entry);
            lemma_sum_update(l.stakes, i, entry);
            assert forall|j: int| 0 <= j < l2.stakes.len() implies (#[trigger] l2.stakes[j])
                .info
                .wf() by {
                if j != i {
                    assert(l2.stakes[j] == l.stakes[j]);
                }
            }
        },
        MsgV::UpdateConfig { .. } => {
            assert(l2.stakes == l.stakes);
        },
    }
}

/// The global total never underflows: an unbond of more than the caller
/// holds — in particular of more than the whole total — is rejected, and
/// every accepted step leaves the total non-negative.
pub proof fn lemma_total_never_underflows(l: LedgerV, now: int, caller: Seq<char>, m: MsgV)
    requires
        l.wf(),
        m.wf(),
        0 <= now <= u64::MAX,
        step_fits(l, now, caller, m),
    ensures
        forall|amount: int|
            amount > l.total_bond_amount ==> !withdraw_ok(l, caller, amount),
        step_ok(l, now, caller, m) ==> 0 <= step_next(l, now, caller, m).total_bond_amount,
{
    assert forall|amount: int| amount > l.total_bond_amount implies !withdraw_ok(
        l,
        caller,
        amount,
    ) by {
        if has_addr(l.stakes, caller) {
            lemma_idx_of(l.stakes, caller);
            lemma_stake_le_sum(l.stakes, idx_of(l.stakes, caller));
        }
    }
    if step_ok(l, now, caller, m) {
        lemma_step_preserves_wf(l, now, caller, m);
    }
}

/// A staker's activity timestamp never goes backwards under any accepted
/// step, as long as the block time itself does not: steps by the staker
/// refresh it to `now`, and no step by anyone else changes it (a deadman
/// takeover leaves even the seized row's timestamp in place).
pub proof fn lemma_last_time_active_monotone(
    l: LedgerV,
    now: int,
    caller: Seq<char>,
    m: MsgV,
    addr: Seq<char>,
)
    requires
        l.wf(),
        m.wf(),
        0 <= now <= u64::MAX,
        step_fits(l, now, caller, m),
        step_ok(l, now, caller, m),
        has_addr(l.stakes, addr),
        stake_of(l.stakes, addr).last_time_active <= now,
    ensures
        has_addr(step_next(l, now, caller, m).stakes, addr),
        stake_of(step_next(l, now, caller, m).stakes, addr).last_time_active >= stake_of(
            l.stakes,
            addr,
        ).last_time_active,
{
    let l2 = step_next(l, now, caller, m);
    match m {
        MsgV::Receive(rv) => {
            let entry = StakeEntryV {
                addr: rv.sender,
                info: bond_stake(l, rv.sender, rv.amount, rv.backup_addr(), now),
            };
            if has_addr(l.stakes, rv.sender) {
                lemma_idx_of(l.stakes, rv.sender);
                lemma_update_preserves(l.stakes, idx_of(l.stakes, rv.sender), entry);
            } else {
                lemma_push_preserves(l.stakes, entry);
            }
        },
        MsgV::Unbond { amount } => {
            let s = stake_of(l.stakes, caller);
            let entry = StakeEntryV {
                addr: caller,
                info: StakeV {
                    amount: s.amount - amount,
                    backup_addr: s.backup_addr,
                    time_until: s.time_until,
                    last_time_active: now,
                },
            };
            lemma_idx_of(l.stakes, caller);
            lemma_update_preserves(l.stakes, idx_of(l.stakes, caller), entry);
        },
        MsgV::Claim => {},
        MsgV::KeepAlive => {
            let s = stake_of(l.stakes, caller);
            let entry = StakeEntryV {
                addr: caller,
                info: StakeV {
                    amount: s.amount,
                    backup_addr: s.backup_addr,
                    time_until: s.time_until,
                    last_time_active: now,
                },
            };
            lemma_idx_of(l.stakes, caller);
            lemma_update_preserves(l.stakes, idx_of(l.stakes, caller), entry);
        },
        MsgV::DeadmanDelay { addr: target } => {
            let s = stake_of(l.stakes, target);
            let entry = StakeEntryV {
                addr: target,
                info: StakeV {
                    amount: 0,
                    backup_addr: s.backup_addr,
                    time_until: s.time_until,
                    last_time_active: s.last_time_active,
                },
            };
            lemma_idx_of(l.stakes, target);
            lemma_update_preserves(l.stakes, idx_of(l.stakes, target), entry);
        },
        MsgV::UpdateConfig { .. } => {},
    }
}

/// An accepted bond leaves the staker's maturity timestamp at exactly
/// `now + activity_interval`, the activity timestamp at `now`, the backup
/// overwritten, and the principal grown by the bonded amount.
pub proof fn lemma_bond_row(l: LedgerV, staker: Seq<char>, amount: int, backup: Seq<char>, now: int)
    requires
        l.wf(),
    ensures
        has_addr(bond_next(l, staker, amount, backup, now).stakes, staker),
        stake_of(bond_next(l, staker, amount, backup, now).stakes, staker) == (StakeV {
            amount: prior_amount(l, staker) + amount,
            backup_addr: backup,
            time_until: now + l.config.activity_interval,
            last_time_active: now,
        }),
{
    let entry = StakeEntryV { addr: staker, info: bond_stake(l, staker, amount, backup, now) };
    if has_addr(l.stakes, staker) {
        lemma_idx_of(l.stakes, staker);
        lemma_update_preserves(l.stakes, idx_of(l.stakes, staker), entry);
    } else {
        lemma_push_preserves(l.stakes, entry);
    }
}

/// No step but a bond by the staker moves the staker's maturity timestamp.
pub proof fn lemma_maturity_only_from_bond(
    l: LedgerV,
    now: int,
    caller: Seq<char>,
    m: MsgV,
    addr: Seq<char>,
)
    requires
        l.wf(),
        step_ok(l, now, caller, m),
        has_addr(l.stakes, addr),
        !(m matches MsgV::Receive(rv) && rv.sender == addr),
    ensures
        has_addr(step_next(l, now, caller, m).stakes, addr),
        stake_of(step_next(l, now, caller, m).stakes, addr).time_until == stake_of(
            l.stakes,
            addr,
        ).time_until,
{
    match m {
        MsgV::Receive(rv) => {
            let entry = StakeEntryV {
                addr: rv.sender,
                info: bond_stake(l, rv.sender, rv.amount, rv.backup_addr(), now),
            };
            if has_addr(l.stakes, rv.sender) {
                lemma_idx_of(l.stakes, rv.sender);
                lemma_update_preserves(l.stakes, idx_of(l.stakes, rv.sender), entry);
            } else {
                lemma_push_preserves(l.stakes, entry);
            }
        },
        MsgV::Unbond { amount } => {
            let s = stake_of(l.stakes, caller);
            let entry = StakeEntryV {
                addr: caller,
                info: StakeV {
                    amount: s.amount - amount,
                    backup_addr: s.backup_addr,
                    time_until: s.time_until,
                    last_time_active: now,
                },
            };
            lemma_idx_of(l.stakes, caller);
            lemma_update_preserves(l.stakes, idx_of(l.stakes, caller), entry);
        },
        MsgV::Claim => {},
        MsgV::KeepAlive => {
            let s = stake_of(l.stakes, caller);
            let entry = StakeEntryV {
                addr: caller,
                info: StakeV {
                    amount: s.amount,
                    backup_addr: s.backup_addr,
                    time_until: s.time_until,
                    last_time_active: now,
                },
            };
            lemma_idx_of(l.stakes, caller);
            lemma_update_preserves(l.stakes, idx_of(l.stakes, caller), entry);
        },
        MsgV::DeadmanDelay { addr: target } => {
            let s = stake_of(l.stakes, target);
            let entry = StakeEntryV {
                addr: target,
                info: StakeV {
                    amount: 0,
                    backup_addr: s.backup_addr,
                    time_until: s.time_until,
                    last_time_active: s.last_time_active,
                },
            };
            lemma_idx_of(l.stakes, target);
            lemma_update_preserves(l.stakes, idx_of(l.stakes, target), entry);
        },
        MsgV::UpdateConfig { .. } => {},
    }
}

/// With the percentage within a hundred, the penalty on an unbond of
/// `amount` is exactly `floor(amount * percentage / 100)` before maturity
/// and zero at or after it.
pub proof fn lemma_penalty_formula(l: LedgerV, caller: Seq<char>, amount: int, now: int)
    requires
        0 <= l.config.penalty_percentage <= 100,
        amount >= 0,
    ensures
        withdraw_penalty(l, caller, amount, now) == if now < stake_of(
            l.stakes,
            caller,
        ).time_until {
            amount * l.config.penalty_percentage / 100
        } else {
            0
        },
{
    let p = l.config.penalty_percentage;
    if p < 100 {
        lemma_penalty_split(amount, p);
    } else {
        lemma_penalty_saturates(amount, p);
        vstd::arithmetic::div_mod::lemma_div_by_multiple(amount, 100);
        assert(amount * 100 / 100 == amount);
    }
}

/// A deadman takeover is accepted exactly when the caller is the target's
/// backup address and the target has been inactive for the full activity
/// interval (a missing target row is rejected outright).
pub proof fn lemma_deadman_gate(l: LedgerV, now: int, caller: Seq<char>, target: Seq<char>)
    ensures
        step_ok(l, now, caller, MsgV::DeadmanDelay { addr: target }) <==> (has_addr(
            l.stakes,
            target,
        ) && caller == stake_of(l.stakes, target).backup_addr && now >= stake_of(
            l.stakes,
            target,
        ).last_time_active + l.config.activity_interval),
{
}

/// Round trip: a bond of `amount` followed, at or after its maturity, by an
/// unbond of `amount` returns exactly `amount` to the staker in a single
/// transfer and restores both the global total and the staker's principal.
pub proof fn lemma_bond_unbond_round_trip(
    l: LedgerV,
    staker: Seq<char>,
    amount: int,
    backup: Seq<char>,
    now1: int,
    now2: int,
)
    requires
        l.wf(),
        0 < amount,
        0 <= now1,
        l.total_bond_amount + amount <= u128::MAX,
        now1 + l.config.activity_interval <= u64::MAX,
        now2 >= now1 + l.config.activity_interval,
    ensures
        withdraw_ok(bond_next(l, staker, amount, backup, now1), staker, amount),
        withdraw_msgs(bond_next(l, staker, amount, backup, now1), staker, amount, now2)
            == seq![TransferV { recipient: staker, amount }],
        withdraw_next(
            bond_next(l, staker, amount, backup, now1),
            staker,
            amount,
            now2,
        ).total_bond_amount == l.total_bond_amount,
        stake_of(
            withdraw_next(bond_next(l, staker, amount, backup, now1), staker, amount, now2).stakes,
            staker,
        ).amount == prior_amount(l, staker),
{
    let l1 = bond_next(l, staker, amount, backup, now1);
    lemma_bond_row(l, staker, amount, backup, now1);
    if has_addr(l.stakes, staker) {
        lemma_idx_of(l.stakes, staker);
        lemma_stake_le_sum(l.stakes, idx_of(l.stakes, staker));
    }
    let hook = Some(HookV::Bond { backup_addr: backup });
    lemma_step_preserves_wf(
        l,
        now1,
        l.config.staking_token,
        MsgV::Receive(crate::msg::ReceiveV { sender: staker, amount, hook }),
    );
    assert(l1.wf());
    let s1 = stake_of(l1.stakes, staker);
    assert(s1.amount == prior_amount(l, staker) + amount);
    assert(s1.time_until == now1 + l.config.activity_interval);
    assert(withdraw_penalty(l1, staker, amount, now2) == 0);
    assert(withdraw_msgs(l1, staker, amount, now2) =~= seq![
        TransferV { recipient: staker, amount },
    ]);
    let i1 = idx_of(l1.stakes, staker);
    lemma_idx_of(l1.stakes, staker);
    let entry = StakeEntryV {
        addr: staker,
        info: StakeV {
            amount: s1.amount - amount,
            backup_addr: s1.backup_addr,
            time_until: s1.time_until,
            last_time_active: now2,
        },
    };
    lemma_update_preserves(l1.stakes, i1, entry);
}

} // verus!
