//! The persisted records of the staking ledger and their mathematical model.
//!
//! The ledger holds three cells: the singleton [`Config`], the singleton
//! [`State`] carrying the global bonded total, and the address-keyed stake
//! map, held here as a vector of [`StakeEntry`] rows with pairwise distinct
//! addresses. The ghost view [`LedgerV`] models the three cells with
//! unbounded integers and character sequences; [`LedgerV::wf`] is the
//! well-formedness invariant every committed transition preserves, chief
//! among its clauses that the global total equals the sum of all bonded
//! amounts.

use vstd::prelude::*;

verus! {

/// Contract configuration, written at instantiation and mutated only by the
/// owner.
#[derive(Debug, Clone)]
pub struct Config {
    /// Recipient of penalties and sole mutator of the config.
    pub owner: String,
    /// Address of the external fungible-token ledger; the only sender
    /// permitted to invoke the deposit path.
    pub staking_token: String,
    /// Duration in seconds after which tokens unbond without penalty.
    pub unbond_period: u64,
    /// Window in seconds within which a staker must show activity to block
    /// backup takeover; also the maturity offset applied on bond.
    pub activity_interval: u64,
    /// Integer percentage of an early withdrawal diverted to the owner.
    pub penalty_percentage: u64,
}

/// Ghost mirror of [`Config`].
#[verifier::ext_equal]
pub struct ConfigV {
    pub owner: Seq<char>,
    pub staking_token: Seq<char>,
    pub unbond_period: int,
    pub activity_interval: int,
    pub penalty_percentage: int,
}

impl View for Config {
    type V = ConfigV;

    open spec fn view(&self) -> ConfigV {
        ConfigV {
            owner: self.owner@,
            staking_token: self.staking_token@,
            unbond_period: self.unbond_period as int,
            activity_interval: self.activity_interval as int,
            penalty_percentage: self.penalty_percentage as int,
        }
    }
}

/// Global state: the sum of all live bonded amounts.
#[derive(Debug, Clone)]
pub struct State {
    /// Total number of tokens staked in the contract.
    pub total_bond_amount: u128,
}

/// Per-staker record.
#[derive(Debug, Clone)]
pub struct StakeInfo {
    /// Timestamp before which any unbond is penalized.
    pub time_until: u64,
    /// Backup address authorized to seize the balance once the staker is
    /// inactive.
    pub backup_addr: String,
    /// Currently bonded principal.
    pub amount: u128,
    /// Timestamp of the staker's most recent bond, unbond, or keep-alive.
    pub last_time_active: u64,
}

/// Ghost mirror of [`StakeInfo`].
#[verifier::ext_equal]
pub struct StakeV {
    pub time_until: int,
    pub backup_addr: Seq<char>,
    pub amount: int,
    pub last_time_active: int,
}

impl View for StakeInfo {
    type V = StakeV;

    open spec fn view(&self) -> StakeV {
        StakeV {
            time_until: self.time_until as int,
            backup_addr: self.backup_addr@,
            amount: self.amount as int,
            last_time_active: self.last_time_active as int,
        }
    }
}

impl DeepView for StakeInfo {
    type V = StakeV;

    open spec fn deep_view(&self) -> StakeV {
        self.view()
    }
}

/// One row of the stake map: a staker address and its record.
#[derive(Debug, Clone)]
pub struct StakeEntry {
    /// The staker address keying this row.
    pub addr: String,
    /// The staker's record.
    pub info: StakeInfo,
}

/// Ghost mirror of [`StakeEntry`].
#[verifier::ext_equal]
pub struct StakeEntryV {
    pub addr: Seq<char>,
    pub info: StakeV,
}

impl View for StakeEntry {
    type V = StakeEntryV;

    open spec fn view(&self) -> StakeEntryV {
        StakeEntryV { addr: self.addr@, info: self.info@ }
    }
}

impl DeepView for StakeEntry {
    type V = StakeEntryV;

    open spec fn deep_view(&self) -> StakeEntryV {
        self.view()
    }
}

/// The three persisted cells under one transactional handle.
#[derive(Debug, Clone)]
pub struct Ledger {
    /// The singleton config cell.
    pub config: Config,
    /// The singleton global-state cell.
    pub state: State,
    /// The address-keyed stake map; addresses are pairwise distinct.
    pub stakes: Vec<StakeEntry>,
}

/// Ghost mirror of [`Ledger`].
#[verifier::ext_equal]
pub struct LedgerV {
    pub config: ConfigV,
    pub total_bond_amount: int,
    pub stakes: Seq<StakeEntryV>,
}

impl View for Ledger {
    type V = LedgerV;

    open spec fn view(&self) -> LedgerV {
        LedgerV {
            config: self.config@,
            total_bond_amount: self.state.total_bond_amount as int,
            stakes: self.stakes.deep_view(),
        }
    }
}

/// Whether some row of `stakes` is keyed by `addr`.
pub open spec fn has_addr(stakes: Seq<StakeEntryV>, addr: Seq<char>) -> bool {
    exists|i: int| 0 <= i < stakes.len() && (#[trigger] stakes[i]).addr == addr
}

/// The index of the row keyed by `addr`; meaningful when `has_addr` holds and
/// the addresses are pairwise distinct.
pub open spec fn idx_of(stakes: Seq<StakeEntryV>, addr: Seq<char>) -> int {
    choose|i: int| 0 <= i < stakes.len() && (#[trigger] stakes[i]).addr == addr
}

/// The record of the row keyed by `addr`; meaningful when `has_addr` holds.
pub open spec fn stake_of(stakes: Seq<StakeEntryV>, addr: Seq<char>) -> StakeV {
    stakes[idx_of(stakes, addr)].info
}

/// The row addresses are pairwise distinct.
pub open spec fn unique_addrs(stakes: Seq<StakeEntryV>) -> bool {
    forall|i: int, j: int|
        0 <= i < j < stakes.len() ==> (#[trigger] stakes[i]).addr != (#[trigger] stakes[j]).addr
}

impl StakeV {
    /// Field ranges of a record that a [`StakeInfo`] can hold.
    pub open spec fn wf(self) -> bool {
        &&& 0 <= self.amount <= u128::MAX
        &&& 0 <= self.time_until <= u64::MAX
        &&& 0 <= self.last_time_active <= u64::MAX
    }
}

impl ConfigV {
    /// Field ranges of a config that a [`Config`] can hold.
    pub open spec fn wf(self) -> bool {
        &&& 0 <= self.unbond_period <= u64::MAX
        &&& 0 <= self.activity_interval <= u64::MAX
        &&& 0 <= self.penalty_percentage <= u64::MAX
    }
}

/// All rows are within the ranges a [`StakeInfo`] can hold.
pub open spec fn stakes_wf(stakes: Seq<StakeEntryV>) -> bool {
    forall|i: int| 0 <= i < stakes.len() ==> (#[trigger] stakes[i]).info.wf()
}

/// The sum of the bonded amounts of all rows.
pub open spec fn sum_amounts(stakes: Seq<StakeEntryV>) -> int
    decreases stakes.len(),
{
    if stakes.len() == 0 {
        0
    } else {
        sum_amounts(stakes.drop_last()) + stakes.last().info.amount
    }
}

impl LedgerV {
    /// Well-formedness: distinct row addresses, all fields in range, and the
    /// global total equal to the sum of all bonded amounts.
    pub open spec fn wf(self) -> bool {
        &&& unique_addrs(self.stakes)
        &&& stakes_wf(self.stakes)
        &&& self.config.wf()
        &&& 0 <= self.total_bond_amount <= u128::MAX
        &&& self.total_bond_amount == sum_amounts(self.stakes)
    }
}

/// Where a row with `addr` exists, `idx_of` names it.
pub proof fn lemma_idx_of(stakes: Seq<StakeEntryV>, addr: Seq<char>)
    requires
        has_addr(stakes, addr),
    ensures
        0 <= idx_of(stakes, addr) < stakes.len(),
        stakes[idx_of(stakes, addr)].addr == addr,
{
}

/// With distinct addresses, a row keyed by `addr` is the one `idx_of` names.
pub proof fn lemma_idx_of_unique(stakes: Seq<StakeEntryV>, addr: Seq<char>, i: int)
    requires
        unique_addrs(stakes),
        0 <= i < stakes.len(),
        stakes[i].addr == addr,
    ensures
        has_addr(stakes, addr),
        idx_of(stakes, addr) == i,
{
    assert(has_addr(stakes, addr));
    let k = idx_of(stakes, addr);
    lemma_idx_of(stakes, addr);
    if k != i {
        assert(stakes[k].addr != stakes[i].addr);
    }
}

/// Replacing row `i` by a row with the same address leaves every lookup
/// outside that address unchanged, and makes the new row the lookup at it.
pub proof fn lemma_update_preserves(stakes: Seq<StakeEntryV>, i: int, e: StakeEntryV)
    requires
        unique_addrs(stakes),
        0 <= i < stakes.len(),
        e.addr == stakes[i].addr,
    ensures
        unique_addrs(stakes.update(i, e)),
        forall|a: Seq<char>| #[trigger] has_addr(stakes.update(i, e), a) == has_addr(stakes, a),
        forall|a: Seq<char>|
            has_addr(stakes, a) && a != e.addr ==> #[trigger] stake_of(stakes.update(i, e), a)
                == stake_of(stakes, a),
        has_addr(stakes, e.addr) && stake_of(stakes.update(i, e), e.addr) == e.info,
{
    let s2 = stakes.update(i, e);
    assert forall|j: int| 0 <= j < stakes.len() implies (#[trigger] s2[j]).addr
        == stakes[j].addr by {}
    assert forall|a: Seq<char>| #[trigger] has_addr(s2, a) == has_addr(stakes, a) by {
        if has_addr(s2, a) {
            let k = choose|k: int| 0 <= k < s2.len() && (#[trigger] s2[k]).addr == a;
            assert(stakes[k].addr == a);
        }
        if has_addr(stakes, a) {
            let k = choose|k: int| 0 <= k < stakes.len() && (#[trigger] stakes[k]).addr == a;
            assert(s2[k].addr == a);
        }
    }
    assert forall|a: Seq<char>| has_addr(stakes, a) && a != e.addr implies #[trigger] stake_of(
        s2,
        a,
    ) == stake_of(stakes, a) by {
        let k = idx_of(stakes, a);
        lemma_idx_of(stakes, a);
        assert(k != i);
        assert(s2[k].addr == a);
        lemma_idx_of_unique(s2, a, k);
    }
    lemma_idx_of_unique(stakes, e.addr, i);
    lemma_idx_of_unique(s2, e.addr, i);
}

/// Appending a row with a fresh address leaves every other lookup unchanged
/// and makes the new row the lookup at its address.
pub proof fn lemma_push_preserves(stakes: Seq<StakeEntryV>, e: StakeEntryV)
    requires
        unique_addrs(stakes),
        !has_addr(stakes, e.addr),
    ensures
        unique_addrs(stakes.push(e)),
        forall|a: Seq<char>|
            a != e.addr ==> #[trigger] has_addr(stakes.push(e), a) == has_addr(stakes, a),
        forall|a: Seq<char>|
            has_addr(stakes, a) && a != e.addr ==> #[trigger] stake_of(stakes.push(e), a)
                == stake_of(stakes, a),
        has_addr(stakes.push(e), e.addr) && stake_of(stakes.push(e), e.addr) == e.info,
{
    let s2 = stakes.push(e);
    assert(s2[stakes.len() as int] == e);
    assert forall|i: int, j: int| 0 <= i < j < s2.len() implies (#[trigger] s2[i]).addr
        != (#[trigger] s2[j]).addr by {
        if j == stakes.len() {
            assert(s2[i] == stakes[i]);
            if s2[i].addr == e.addr {
                assert(has_addr(stakes, e.addr));
            }
        }
    }
    assert forall|a: Seq<char>| a != e.addr implies #[trigger] has_addr(s2, a) == has_addr(
        stakes,
        a,
    ) by {
        if has_addr(s2, a) {
            let k = choose|k: int| 0 <= k < s2.len() && (#[trigger] s2[k]).addr == a;
            assert(k < stakes.len());
            assert(stakes[k].addr == a);
        }
        if has_addr(stakes, a) {
            let k = choose|k: int| 0 <= k < stakes.len() && (#[trigger] stakes[k]).addr == a;
            assert(s2[k].addr == a);
        }
    }
    assert forall|a: Seq<char>| has_addr(stakes, a) && a != e.addr implies #[trigger] stake_of(
        s2,
        a,
    ) == stake_of(stakes, a) by {
        let k = idx_of(stakes, a);
        lemma_idx_of(stakes, a);
        assert(s2[k].addr == a);
        lemma_idx_of_unique(s2, a, k);
    }
    lemma_idx_of_unique(s2, e.addr, stakes.len() as int);
}

/// The sum over all rows is unchanged outside an updated row: replacing row
/// `i` changes the sum by the difference of the amounts.
pub proof fn lemma_sum_update(stakes: Seq<StakeEntryV>, i: int, e: StakeEntryV)
    requires
        0 <= i < stakes.len(),
    ensures
        sum_amounts(stakes.update(i, e)) == sum_amounts(stakes) - stakes[i].info.amount
            + e.info.amount,
    decreases stakes.len(),
{
    let updated = stakes.update(i, e);
    if i == stakes.len() - 1 {
        assert(updated.drop_last() =~= stakes.drop_last());
    } else {
        assert(updated.drop_last() =~= stakes.drop_last().update(i, e));
        lemma_sum_update(stakes.drop_last(), i, e);
    }
}

/// Appending a row adds its amount to the sum.
pub proof fn lemma_sum_push(stakes: Seq<StakeEntryV>, e: StakeEntryV)
    ensures
        sum_amounts(stakes.push(e)) == sum_amounts(stakes) + e.info.amount,
{
    assert(stakes.push(e).drop_last() =~= stakes);
}

/// With no negative amounts the sum is non-negative.
pub proof fn lemma_sum_nonneg(stakes: Seq<StakeEntryV>)
    requires
        stakes_wf(stakes),
    ensures
        sum_amounts(stakes) >= 0,
    decreases stakes.len(),
{
    if stakes.len() > 0 {
        assert(stakes_wf(stakes.drop_last()));
        lemma_sum_nonneg(stakes.drop_last());
    }
}

/// With no negative amounts each row's amount is bounded by the sum.
pub proof fn lemma_stake_le_sum(stakes: Seq<StakeEntryV>, i: int)
    requires
        stakes_wf(stakes),
        0 <= i < stakes.len(),
    ensures
        stakes[i].info.amount <= sum_amounts(stakes),
    decreases stakes.len(),
{
    if i == stakes.len() - 1 {
        assert(stakes_wf(stakes.drop_last()));
        lemma_sum_nonneg(stakes.drop_last());
    } else {
        assert(stakes_wf(stakes.drop_last()));
        lemma_stake_le_sum(stakes.drop_last(), i);
    }
}

} // verus!
