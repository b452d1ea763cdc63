//! The liquidity pool: staking positions, the yield they accrue, and the
//! bookkeeping of invoices funded from the pool and repaid to it.

use crate::error::Error;
use crate::money::basis_points_of;
use crate::money::bp_of;
use crate::money::fits_i128;
use crate::money::trunc_div;
use crate::money::SECONDS_PER_DAY;
use crate::money::SECONDS_PER_YEAR;
use crate::principal::Principal;
use std::collections::HashMap;
use vstd::prelude::*;

verus! {

broadcast use vstd::std_specs::hash::group_hash_axioms;

/// Where a staking position stands. A position starts active; once it is
/// withdrawn its status changes no more.
#[derive(Clone, Copy, Debug, PartialEq, Eq, Structural)]
pub enum StakeStatus {
    Active,
    Matured,
    Withdrawn,
    EarlyWithdrawn,
}

/// The terms of the pool.
#[derive(Clone, Copy, Debug, PartialEq, Eq, Structural)]
pub struct PoolSettings {
    /// In basis points.
    pub base_apr: u32,
    /// In basis points.
    pub early_withdrawal_penalty: u32,
    pub min_stake_amount: i128,
    /// In days.
    pub max_stake_duration: u64,
    /// In days.
    pub min_stake_duration: u64,
    pub admin: Principal,
}

/// One stake of one user. It matures `duration_days` days after it was
/// staked.
#[derive(Clone, Copy, Debug, PartialEq, Eq, Structural)]
pub struct StakePosition {
    pub id: u64,
    pub user: Principal,
    pub amount: i128,
    pub stake_date: u64,
    pub maturity_date: u64,
    pub duration_days: u64,
    /// In basis points.
    pub apr: u32,
    pub status: StakeStatus,
    pub accrued_yield: i128,
    pub last_yield_calculation: u64,
}

/// What the pool advanced on an invoice, and what came back once it was
/// repaid.
#[derive(Clone, Copy, Debug, PartialEq, Eq, Structural)]
pub struct InvoiceFunding {
    pub invoice_id: u64,
    pub funded_amount: i128,
    pub funding_date: u64,
    pub expected_return: i128,
    pub return_date: Option<u64>,
    pub actual_return: Option<i128>,
}

/// The totals of the pool.
#[derive(Clone, Copy, Debug, PartialEq, Eq, Structural)]
pub struct PoolStats {
    pub total_liquidity: i128,
    pub total_stakers: u32,
    pub total_funded_invoices: u64,
    pub total_yield_distributed: i128,
    pub pool_utilization: u32,
}

/// What the pool reports of an operation that took effect.
#[derive(Clone, Copy, Debug, PartialEq, Eq, Structural)]
pub enum PoolEvent {
    Initialized { admin: Principal, base_apr: u32 },
    Staked { user: Principal, position_id: u64, amount: i128, duration_days: u64 },
    Withdrawn {
        user: Principal,
        position_id: u64,
        principal: i128,
        accrued_yield: i128,
        is_early: bool,
    },
    Funded { invoice_id: u64, amount: i128, expected_return: i128 },
    Repaid { invoice_id: u64, repayment_amount: i128, yield_earned: i128 },
    SettingsUpdated { admin: Principal },
    YieldDistributed { yield_reserve: i128 },
}

/// What the pool keeps for one staker: the sum it holds for the user and
/// the user's positions, the one numbered `n` being the `n`-th.
pub struct StakerAccount {
    pub user: Principal,
    pub total_stake: i128,
    pub positions: Vec<StakePosition>,
}

/// The pool: its terms, its totals, one account per staker and the fundings
/// recorded by invoice.
pub struct LiquidityPoolContract {
    pub settings: PoolSettings,
    pub total_liquidity: i128,
    pub total_stakers: u32,
    pub yield_reserve: i128,
    pub accounts: Vec<StakerAccount>,
    pub fundings: HashMap<u64, InvoiceFunding>,
    pub events: Vec<PoolEvent>,
}

/// Whether the account at position `i` belongs to `user`.
pub open spec fn is_account_of(accounts: Seq<StakerAccount>, user: Principal, i: int) -> bool {
    0 <= i < accounts.len() && accounts[i].user == user
}

/// No user has two accounts.
pub open spec fn distinct_users(accounts: Seq<StakerAccount>) -> bool {
    forall|i: int, j: int|
        0 <= i < accounts.len() && 0 <= j < accounts.len() && i != j ==> accounts[i].user
            != accounts[j].user
}

/// The account of `user`, if it has one.
pub open spec fn account_of(accounts: Seq<StakerAccount>, user: Principal) -> Option<
    StakerAccount,
> {
    if exists|i: int| is_account_of(accounts, user, i) {
        Some(accounts[choose|i: int| is_account_of(accounts, user, i)])
    } else {
        None
    }
}

/// Whether `position` is the position of `user` kept at index `k`: it is
/// numbered `k + 1`, belongs to `user`, and matures its duration after it
/// was staked.
pub open spec fn position_in_place(position: StakePosition, user: Principal, k: int) -> bool {
    &&& position.id == k + 1
    &&& position.user == user
    &&& position.maturity_date == position.stake_date + position.duration_days * 86400
}

/// Whether one of `positions` holds an amount other than zero.
pub open spec fn has_staked(positions: Seq<StakePosition>) -> bool {
    exists|k: int| 0 <= k < positions.len() && (#[trigger] positions[k]).amount != 0
}

/// Whether a stake of `amount` is the first of its user that is not zero,
/// which is when the pool counts one staker more.
pub open spec fn is_first_stake(positions: Seq<StakePosition>, amount: i128) -> bool {
    amount != 0 && !has_staked(positions)
}

/// Whether one of `positions` holds an amount other than zero.
fn holds_a_stake(positions: &Vec<StakePosition>) -> (found: bool)
    ensures
        found == has_staked(positions@),
{
    let mut k: usize = 0;
    while k < positions.len()
        invariant
            k <= positions@.len(),
            forall|j: int| 0 <= j < k ==> (#[trigger] positions@[j]).amount == 0,
        decreases positions@.len() - k,
    {
        if positions[k].amount != 0 {
            return true;
        }
        k += 1;
    }
    false
}

/// What `position` adds to the sum held for its user: its amount while it
/// is active, nothing once it is withdrawn.
pub open spec fn staked_in(position: StakePosition) -> int {
    if position.status == StakeStatus::Active {
        position.amount as int
    } else {
        0
    }
}

/// The sum of the amounts of the active positions among `positions`.
pub open spec fn active_total(positions: Seq<StakePosition>) -> int
    decreases positions.len(),
{
    if positions.len() == 0 {
        0
    } else {
        active_total(positions.drop_last()) + staked_in(positions.last())
    }
}

/// A further position adds what it holds to the sum.
pub proof fn lemma_active_total_push(positions: Seq<StakePosition>, position: StakePosition)
    ensures
        active_total(positions.push(position)) == active_total(positions) + staked_in(position),
{
    assert(positions.push(position).drop_last() =~= positions);
}

/// Replacing a position changes the sum by the difference of what the two
/// hold.
pub proof fn lemma_active_total_update(
    positions: Seq<StakePosition>,
    i: int,
    position: StakePosition,
)
    requires
        0 <= i < positions.len(),
    ensures
        active_total(positions.update(i, position)) == active_total(positions) - staked_in(
            positions[i],
        ) + staked_in(position),
    decreases positions.len(),
{
    let updated = positions.update(i, position);
    if i == positions.len() - 1 {
        assert(updated.drop_last() =~= positions.drop_last());
    } else {
        assert(updated.drop_last() =~= positions.drop_last().update(i, position));
        lemma_active_total_update(positions.drop_last(), i, position);
    }
}

/// The annual rate, in basis points, of a stake of `duration_days` days:
/// the base rate plus five basis points for each day beyond the minimum.
pub open spec fn effective_apr(settings: PoolSettings, duration_days: u64) -> int {
    settings.base_apr + (duration_days - settings.min_stake_duration) * 5
}

/// The position that a stake opens.
pub open spec fn opened_position(
    settings: PoolSettings,
    id: u64,
    user: Principal,
    amount: i128,
    duration_days: u64,
    now: u64,
) -> StakePosition {
    StakePosition {
        id,
        user,
        amount,
        stake_date: now,
        maturity_date: (now + duration_days * 86400) as u64,
        duration_days,
        apr: effective_apr(settings, duration_days) as u32,
        status: StakeStatus::Active,
        accrued_yield: 0,
        last_yield_calculation: now,
    }
}

/// The yield of `amount` at `apr` basis points a year over `elapsed`
/// seconds: the year's yield, prorated linearly, each step rounded toward
/// zero.
pub open spec fn accrued_over(amount: int, apr: int, elapsed: int) -> int {
    trunc_div(bp_of(amount, apr) * elapsed, 31536000)
}

/// The yield that `position` has accrued at time `now` since it was last
/// computed.
pub open spec fn yield_of(position: StakePosition, now: u64) -> int {
    accrued_over(
        position.amount as int,
        position.apr as int,
        now - position.last_yield_calculation,
    )
}

/// Whether a withdrawal at `now` comes before the position matures.
pub open spec fn is_early(position: StakePosition, now: u64) -> bool {
    now < position.maturity_date
}

/// The principal handed back on withdrawal: all of it from maturity on,
/// and before that the amount less the penalty.
pub open spec fn returned_principal(position: StakePosition, penalty_bp: u32, now: u64) -> int {
    if is_early(position, now) {
        position.amount - bp_of(position.amount as int, penalty_bp as int)
    } else {
        position.amount as int
    }
}

/// The position after its withdrawal at `now`.
pub open spec fn closed_position(position: StakePosition, now: u64) -> StakePosition {
    StakePosition {
        status: if is_early(position, now) {
            StakeStatus::EarlyWithdrawn
        } else {
            StakeStatus::Withdrawn
        },
        accrued_yield: (position.accrued_yield + yield_of(position, now)) as i128,
        ..position
    }
}

/// The error, if any, that refuses a stake.
pub open spec fn stake_refusal(
    settings: PoolSettings,
    amount: i128,
    duration_days: u64,
    authorized: bool,
) -> Option<Error> {
    if !authorized {
        Some(Error::Unauthorized)
    } else if amount < settings.min_stake_amount {
        Some(Error::BelowMinimum)
    } else if duration_days < settings.min_stake_duration || duration_days
        > settings.max_stake_duration {
        Some(Error::InvalidDuration)
    } else {
        None
    }
}

/// The error, if any, that refuses the withdrawal of `position`.
pub open spec fn withdrawal_refusal(position: Option<StakePosition>, authorized: bool) -> Option<
    Error,
> {
    if !authorized {
        Some(Error::Unauthorized)
    } else {
        match position {
            None => Some(Error::NotFound),
            Some(p) => if p.status == StakeStatus::Active {
                None
            } else {
                Some(Error::InvalidState)
            },
        }
    }
}

/// The record of a repaid funding.
pub open spec fn repaid(funding: InvoiceFunding, repayment_amount: i128, now: u64) -> InvoiceFunding {
    InvoiceFunding { return_date: Some(now), actual_return: Some(repayment_amount), ..funding }
}

/// The position of the account of `user`, if it has one.
fn find_account(accounts: &Vec<StakerAccount>, user: Principal) -> (slot: Option<usize>)
    ensures
        match slot {
            Some(i) => is_account_of(accounts@, user, i as int),
            None => forall|i: int| !is_account_of(accounts@, user, i),
        },
{
    let mut i: usize = 0;
    while i < accounts.len()
        invariant
            i <= accounts@.len(),
            forall|j: int| 0 <= j < i ==> accounts@[j].user != user,
        decreases accounts@.len() - i,
    {
        if accounts[i].user.same(&user) {
            return Some(i);
        }
        i += 1;
    }
    None
}

/// Whether no user has two accounts.
fn has_distinct_users(accounts: &Vec<StakerAccount>) -> (distinct: bool)
    ensures
        distinct == distinct_users(accounts@),
{
    let mut i: usize = 0;
    while i < accounts.len()
        invariant
            i <= accounts@.len(),
            forall|a: int, b: int|
                0 <= a < i && 0 <= b < accounts@.len() && a != b ==> accounts@[a].user
                    != accounts@[b].user,
        decreases accounts@.len() - i,
    {
        let mut j: usize = 0;
        while j < accounts.len()
            invariant
                i < accounts@.len(),
                j <= accounts@.len(),
                forall|b: int| 0 <= b < j && b != i ==> accounts@[i as int].user != accounts@[b].user,
            decreases accounts@.len() - j,
        {
            if j != i && accounts[i].user.same(&accounts[j].user) {
                return false;
            }
            j += 1;
        }
        i += 1;
    }
    true
}

/// Where users are distinct, the account found for a user is the one that
/// `account_of` reads.
pub proof fn lemma_account_at(accounts: Seq<StakerAccount>, user: Principal, i: int)
    requires
        distinct_users(accounts),
        is_account_of(accounts, user, i),
    ensures
        account_of(accounts, user) == Some(accounts[i]),
{
    let k = choose|k: int| is_account_of(accounts, user, k);
    assert(k == i);
}

/// Rewriting the account of one user leaves the accounts of all others.
pub proof fn lemma_account_rewritten(
    before: Seq<StakerAccount>,
    after: Seq<StakerAccount>,
    user: Principal,
    i: int,
)
    requires
        distinct_users(before),
        is_account_of(before, user, i),
        after.len() == before.len(),
        after[i].user == user,
        forall|k: int| 0 <= k < before.len() && k != i ==> after[k] == before[k],
    ensures
        distinct_users(after),
        account_of(after, user) == Some(after[i]),
        forall|other: Principal|
            other != user ==> #[trigger] account_of(after, other) == account_of(before, other),
{
    assert forall|a: int, b: int|
        0 <= a < after.len() && 0 <= b < after.len() && a != b implies after[a].user
        != after[b].user by {
        assert(after[a].user == before[a].user);
        assert(after[b].user == before[b].user);
    }
    assert(is_account_of(after, user, i));
    lemma_account_at(after, user, i);
    assert forall|other: Principal| other != user implies #[trigger] account_of(after, other)
        == account_of(before, other) by {
        if exists|k: int| is_account_of(before, other, k) {
            let k = choose|k: int| is_account_of(before, other, k);
            assert(after[k] == before[k]);
            assert(is_account_of(after, other, k));
            lemma_account_at(before, other, k);
            lemma_account_at(after, other, k);
        } else {
            assert forall|k: int| !is_account_of(after, other, k) by {
                if is_account_of(after, other, k) {
                    assert(after[k] == before[k]);
                    assert(is_account_of(before, other, k));
                }
            }
        }
    }
}

/// Opening an account for a user that has none leaves the accounts of all
/// others.
pub proof fn lemma_account_opened(before: Seq<StakerAccount>, account: StakerAccount)
    requires
        distinct_users(before),
        forall|i: int| !is_account_of(before, account.user, i),
    ensures
        distinct_users(before.push(account)),
        account_of(before, account.user).is_none(),
        account_of(before.push(account), account.user) == Some(account),
        forall|other: Principal|
            other != account.user ==> #[trigger] account_of(before.push(account), other)
                == account_of(before, other),
{
    let after = before.push(account);
    let last = before.len() as int;
    assert forall|a: int, b: int|
        0 <= a < after.len() && 0 <= b < after.len() && a != b implies after[a].user
        != after[b].user by {
        if a == last {
            assert(!is_account_of(before, account.user, b));
        } else if b == last {
            assert(!is_account_of(before, account.user, a));
        } else {
            assert(after[a] == before[a]);
            assert(after[b] == before[b]);
        }
    }
    assert(is_account_of(after, account.user, last));
    lemma_account_at(after, account.user, last);
    assert forall|other: Principal| other != account.user implies #[trigger] account_of(
        after,
        other,
    ) == account_of(before, other) by {
        if exists|k: int| is_account_of(before, other, k) {
            let k = choose|k: int| is_account_of(before, other, k);
            assert(after[k] == before[k]);
            assert(is_account_of(after, other, k));
            lemma_account_at(before, other, k);
            lemma_account_at(after, other, k);
        } else {
            assert forall|k: int| !is_account_of(after, other, k) by {
                if is_account_of(after, other, k) {
                    assert(k != last);
                    assert(after[k] == before[k]);
                    assert(is_account_of(before, other, k));
                }
            }
        }
    }
}

impl LiquidityPoolContract {
    /// The sum that the pool holds for `user`.
    pub open spec fn user_stake(&self, user: Principal) -> i128 {
        match account_of(self.accounts@, user) {
            Some(account) => account.total_stake,
            None => 0,
        }
    }

    /// The positions of `user`, oldest first.
    pub open spec fn positions_of(&self, user: Principal) -> Seq<StakePosition> {
        match account_of(self.accounts@, user) {
            Some(account) => account.positions@,
            None => Seq::empty(),
        }
    }

    /// The position of `user` numbered `position_id`, if there is one.
    pub open spec fn position(&self, user: Principal, position_id: u64) -> Option<StakePosition> {
        if 1 <= position_id <= self.positions_of(user).len() {
            Some(self.positions_of(user)[position_id - 1])
        } else {
            None
        }
    }

    /// The funding recorded for `invoice_id`, if there is one.
    pub open spec fn funding(&self, invoice_id: u64) -> Option<InvoiceFunding> {
        if self.fundings@.contains_key(invoice_id) {
            Some(self.fundings@[invoice_id])
        } else {
            None
        }
    }

    /// The pool is well formed: one account per user, and in each account
    /// the positions of that user, numbered from 1 in their order, each
    /// maturing its duration after it was staked.
    pub open spec fn wf(&self) -> bool {
        &&& distinct_users(self.accounts@)
        &&& forall|i: int, k: int|
            0 <= i < self.accounts@.len() && 0 <= k < self.accounts@[i].positions@.len()
                ==> position_in_place(
                #[trigger] self.accounts@[i].positions@[k],
                self.accounts@[i].user,
                k,
            )
    }

    /// The sum held for each user is the sum of the amounts of the user's
    /// active positions.
    pub open spec fn stakes_add_up(&self) -> bool {
        forall|i: int|
            0 <= i < self.accounts@.len() ==> (#[trigger] self.accounts@[i]).total_stake
                == active_total(self.accounts@[i].positions@)
    }

    /// Whether the pool is well formed.
    pub fn is_well_formed(&self) -> (ok: bool)
        ensures
            ok == self.wf(),
    {
        if !has_distinct_users(&self.accounts) {
            return false;
        }
        let mut i: usize = 0;
        while i < self.accounts.len()
            invariant
                i <= self.accounts@.len(),
                forall|a: int, k: int|
                    0 <= a < i && 0 <= k < self.accounts@[a].positions@.len()
                        ==> position_in_place(
                        #[trigger] self.accounts@[a].positions@[k],
                        self.accounts@[a].user,
                        k,
                    ),
            decreases self.accounts@.len() - i,
        {
            let account = &self.accounts[i];
            let mut k: usize = 0;
            while k < account.positions.len()
                invariant
                    i < self.accounts@.len(),
                    *account == self.accounts@[i as int],
                    k <= account.positions@.len(),
                    forall|b: int|
                        0 <= b < k ==> position_in_place(
                            #[trigger] account.positions@[b],
                            account.user,
                            b,
                        ),
                decreases account.positions@.len() - k,
            {
                let position = &account.positions[k];
                let matures: Option<u64> = match position.duration_days.checked_mul(
                    SECONDS_PER_DAY,
                ) {
                    Some(term) => position.stake_date.checked_add(term),
                    None => None,
                };
                if position.id != k as u64 + 1 || !position.user.same(&account.user) || matures
                    != Some(position.maturity_date) {
                    assert(!self.wf()) by {
                        if self.wf() {
                            assert(position_in_place(
                                self.accounts@[i as int].positions@[k as int],
                                self.accounts@[i as int].user,
                                k as int,
                            ));
                        }
                    }
                    return false;
                }
                k += 1;
            }
            i += 1;
        }
        true
    }

    /// The machine can carry out a stake that is not refused: the maturity
    /// date, the rate, the position's number and the new sums all fit their
    /// types.
    pub open spec fn stake_fits(
        &self,
        user: Principal,
        amount: i128,
        duration_days: u64,
        now: u64,
    ) -> bool {
        stake_refusal(self.settings, amount, duration_days, true).is_none() ==> {
            &&& now + duration_days * 86400 <= u64::MAX
            &&& effective_apr(self.settings, duration_days) <= u32::MAX
            &&& self.positions_of(user).len() < u64::MAX
            &&& fits_i128(self.user_stake(user) + amount)
            &&& fits_i128(self.total_liquidity + amount)
            &&& self.total_stakers < u32::MAX
        }
    }

    /// Whether the machine can carry out a stake that is not refused.
    pub fn can_stake(&self, user: Principal, amount: i128, duration_days: u64, now: u64) -> (fits:
        bool)
        requires
            self.wf(),
        ensures
            fits == self.stake_fits(user, amount, duration_days, now),
    {
        if amount < self.settings.min_stake_amount {
            return true;
        }
        if duration_days < self.settings.min_stake_duration || duration_days
            > self.settings.max_stake_duration {
            return true;
        }
        let term: u64 = match duration_days.checked_mul(SECONDS_PER_DAY) {
            Some(seconds) => seconds,
            None => {
                return false;
            },
        };
        if now.checked_add(term).is_none() {
            return false;
        }
        let extra: u64 = duration_days - self.settings.min_stake_duration;
        let bonus: u64 = match extra.checked_mul(5) {
            Some(points) => points,
            None => {
                return false;
            },
        };
        let room: u64 = (u32::MAX - self.settings.base_apr) as u64;
        if bonus > room {
            return false;
        }
        let mut stake_before: i128 = 0;
        match find_account(&self.accounts, user) {
            Some(i) => {
                proof {
                    lemma_account_at(self.accounts@, user, i as int);
                }
                stake_before = self.accounts[i].total_stake;
                if self.accounts[i].positions.len() as u64 == u64::MAX {
                    return false;
                }
            },
            None => {},
        }
        if stake_before.checked_add(amount).is_none() {
            return false;
        }
        if self.total_liquidity.checked_add(amount).is_none() {
            return false;
        }
        self.total_stakers < u32::MAX
    }

    /// The machine can compute the yield of `position` at time `now`.
    pub open spec fn yield_fits(position: StakePosition, now: u64) -> bool {
        &&& position.last_yield_calculation <= now
        &&& fits_i128(position.amount * position.apr)
        &&& fits_i128(
            bp_of(position.amount as int, position.apr as int) * (now
                - position.last_yield_calculation),
        )
    }

    /// The machine can carry out a withdrawal that is not refused.
    pub open spec fn withdrawal_fits(&self, user: Principal, position_id: u64, now: u64) -> bool {
        withdrawal_refusal(self.position(user, position_id), true).is_none() ==> {
            let p = self.position(user, position_id).unwrap();
            &&& Self::yield_fits(p, now)
            &&& fits_i128(p.accrued_yield + yield_of(p, now))
            &&& fits_i128(p.amount * self.settings.early_withdrawal_penalty)
            &&& fits_i128(returned_principal(p, self.settings.early_withdrawal_penalty, now))
            &&& fits_i128(self.user_stake(user) - p.amount)
            &&& fits_i128(self.total_liquidity - p.amount)
        }
    }

    /// Whether the machine can compute the yield of `position` at `now`.
    pub fn can_calculate_yield(position: &StakePosition, now: u64) -> (fits: bool)
        ensures
            fits == Self::yield_fits(*position, now),
    {
        if position.last_yield_calculation > now {
            return false;
        }
        let annual: i128 = match position.amount.checked_mul(position.apr as i128) {
            Some(product) => product / 10000,
            None => {
                return false;
            },
        };
        let elapsed: i128 = (now - position.last_yield_calculation) as i128;
        annual.checked_mul(elapsed).is_some()
    }

    /// Whether the machine can carry out a withdrawal that is not refused.
    pub fn can_withdraw(&self, user: Principal, position_id: u64, now: u64) -> (fits: bool)
        requires
            self.wf(),
        ensures
            fits == self.withdrawal_fits(user, position_id, now),
    {
        let i = match find_account(&self.accounts, user) {
            Some(i) => i,
            None => {
                return true;
            },
        };
        proof {
            lemma_account_at(self.accounts@, user, i as int);
        }
        let held: usize = self.accounts[i].positions.len();
        if position_id < 1 || position_id > held as u64 {
            return true;
        }
        let slot: usize = (position_id - 1) as usize;
        let position: StakePosition = self.accounts[i].positions[slot];
        if position.status != StakeStatus::Active {
            return true;
        }
        if !Self::can_calculate_yield(&position, now) {
            return false;
        }
        let accrued = Self::calculate_yield(&position, now);
        if position.accrued_yield.checked_add(accrued).is_none() {
            return false;
        }
        let penalty: i128 = match position.amount.checked_mul(
            self.settings.early_withdrawal_penalty as i128,
        ) {
            Some(product) => product / 10000,
            None => {
                return false;
            },
        };
        if now < position.maturity_date && position.amount.checked_sub(penalty).is_none() {
            return false;
        }
        if self.accounts[i].total_stake.checked_sub(position.amount).is_none() {
            return false;
        }
        self.total_liquidity.checked_sub(position.amount).is_some()
    }

    /// Whether the pool's liquidity less `amount` can be held.
    pub fn can_fund_invoice(&self, amount: i128) -> (fits: bool)
        ensures
            fits == fits_i128(self.total_liquidity - amount),
    {
        self.total_liquidity.checked_sub(amount).is_some()
    }

    /// Whether the machine can carry out a repayment that is not refused.
    pub fn can_process_repayment(&self, invoice_id: u64, repayment_amount: i128) -> (fits: bool)
        ensures
            fits == self.repayment_fits(invoice_id, repayment_amount),
    {
        let funded_amount: i128 = match self.fundings.get(&invoice_id) {
            Some(found) => found.funded_amount,
            None => {
                return true;
            },
        };
        if self.total_liquidity.checked_add(repayment_amount).is_none() {
            return false;
        }
        match repayment_amount.checked_sub(funded_amount) {
            Some(earned) => self.yield_reserve.checked_add(earned).is_some(),
            None => false,
        }
    }

    /// A pool without liquidity, stakers or reserve, run by `admin`. Stakes
    /// last from 7 to 365 days, and leaving early costs ten percent.
    pub fn initialize(admin: Principal, base_apr: u32, min_stake_amount: i128, authorized: bool) -> (result:
        Result<Self, Error>)
        ensures
            match result {
                Ok(pool) => {
                    &&& authorized
                    &&& pool.wf()
                    &&& pool.stakes_add_up()
                    &&& pool.settings == (PoolSettings {
                        base_apr,
                        early_withdrawal_penalty: 1000,
                        min_stake_amount,
                        max_stake_duration: 365,
                        min_stake_duration: 7,
                        admin,
                    })
                    &&& pool.total_liquidity == 0
                    &&& pool.total_stakers == 0
                    &&& pool.yield_reserve == 0
                    &&& pool.accounts@.len() == 0
                    &&& pool.fundings@ == Map::<u64, InvoiceFunding>::empty()
                    &&& pool.events@ == seq![PoolEvent::Initialized { admin, base_apr }]
                },
                Err(e) => !authorized && e == Error::Unauthorized,
            },
    {
        if !authorized {
            return Err(Error::Unauthorized);
        }
        let settings = PoolSettings {
            base_apr,
            early_withdrawal_penalty: 1000,
            min_stake_amount,
            max_stake_duration: 365,
            min_stake_duration: 7,
            admin,
        };
        let mut events: Vec<PoolEvent> = Vec::new();
        events.push(PoolEvent::Initialized { admin, base_apr });
        let pool = LiquidityPoolContract {
            settings,
            total_liquidity: 0,
            total_stakers: 0,
            yield_reserve: 0,
            accounts: Vec::new(),
            fundings: HashMap::new(),
            events,
        };
        assert(pool.events@ =~= seq![PoolEvent::Initialized { admin, base_apr }]);
        Ok(pool)
    }

    /// Whether `after` and `result` are what a stake of `amount` for
    /// `duration_days` days by `user` at time `now` makes of the pool `before`.
    pub open spec fn stakes(
        before: Self,
        after: Self,
        user: Principal,
        amount: i128,
        duration_days: u64,
        now: u64,
        authorized: bool,
        result: Result<u64, Error>,
    ) -> bool {
        match result {
            Ok(id) => {
                &&& stake_refusal(before.settings, amount, duration_days, authorized).is_none()
                &&& id == before.positions_of(user).len() + 1
                &&& after.positions_of(user) == before.positions_of(user).push(
                    opened_position(before.settings, id, user, amount, duration_days, now),
                )
                &&& after.user_stake(user) == before.user_stake(user) + amount
                &&& forall|other: Principal|
                    other != user ==> #[trigger] account_of(after.accounts@, other)
                        == account_of(before.accounts@, other)
                &&& after.total_liquidity == before.total_liquidity + amount
                &&& after.total_stakers == before.total_stakers + if is_first_stake(
                    before.positions_of(user),
                    amount,
                ) {
                    1int
                } else {
                    0int
                }
                &&& after.settings == before.settings
                &&& after.yield_reserve == before.yield_reserve
                &&& after.fundings == before.fundings
                &&& after.events@ == before.events@.push(
                    PoolEvent::Staked { user, position_id: id, amount, duration_days },
                )
            },
            Err(e) => {
                &&& stake_refusal(before.settings, amount, duration_days, authorized)
                    == Some(e)
                &&& after == before
            },
        }
    }

    /// Stakes `amount` for `duration_days` days on behalf of `user` and
    /// returns the number of the new position, the user's next. The pool
    /// counts one staker more when this is the user's first stake that is
    /// not zero.
    pub fn stake(
        &mut self,
        user: Principal,
        amount: i128,
        duration_days: u64,
        now: u64,
        authorized: bool,
    ) -> (result: Result<u64, Error>)
        requires
            old(self).wf(),
            old(self).stake_fits(user, amount, duration_days, now),
        ensures
            final(self).wf(),
            old(self).stakes_add_up() ==> final(self).stakes_add_up(),
            Self::stakes(
                *old(self),
                *final(self),
                user,
                amount,
                duration_days,
                now,
                authorized,
                result,
            ),
    {
        if !authorized {
            return Err(Error::Unauthorized);
        }
        if amount < self.settings.min_stake_amount {
            return Err(Error::BelowMinimum);
        }
        if duration_days < self.settings.min_stake_duration || duration_days
            > self.settings.max_stake_duration {
            return Err(Error::InvalidDuration);
        }
        let maturity_date: u64 = now + duration_days * SECONDS_PER_DAY;
        let duration_bonus: u64 = (duration_days - self.settings.min_stake_duration) * 5;
        let effective: u32 = self.settings.base_apr + duration_bonus as u32;

        let before: i128;
        let staked_before: bool;
        let id: u64;
        match find_account(&self.accounts, user) {
            Some(i) => {
                proof {
                    lemma_account_at(self.accounts@, user, i as int);
                }
                before = self.accounts[i].total_stake;
                staked_before = holds_a_stake(&self.accounts[i].positions);
                id = self.accounts[i].positions.len() as u64 + 1;
                let position = StakePosition {
                    id,
                    user,
                    amount,
                    stake_date: now,
                    maturity_date,
                    duration_days,
                    apr: effective,
                    status: StakeStatus::Active,
                    accrued_yield: 0,
                    last_yield_calculation: now,
                };
                let account = &mut self.accounts[i];
                account.positions.push(position);
                account.total_stake = before + amount;
                proof {
                    lemma_account_rewritten(old(self).accounts@, self.accounts@, user, i as int);
                    lemma_active_total_push(old(self).accounts@[i as int].positions@, position);
                    if old(self).stakes_add_up() {
                        assert forall|k: int| 0 <= k < self.accounts@.len() implies (
                        #[trigger] self.accounts@[k]).total_stake == active_total(
                            self.accounts@[k].positions@,
                        ) by {
                            if k != i {
                                assert(self.accounts@[k] == old(self).accounts@[k]);
                            }
                        }
                    }
                }
            },
            None => {
                before = 0;
                staked_before = false;
                id = 1;
                let position = StakePosition {
                    id,
                    user,
                    amount,
                    stake_date: now,
                    maturity_date,
                    duration_days,
                    apr: effective,
                    status: StakeStatus::Active,
                    accrued_yield: 0,
                    last_yield_calculation: now,
                };
                let mut positions: Vec<StakePosition> = Vec::new();
                positions.push(position);
                let account = StakerAccount { user, total_stake: amount, positions };
                proof {
                    lemma_account_opened(self.accounts@, account);
                    assert(account.positions@ =~= Seq::<StakePosition>::empty().push(position));
                    lemma_active_total_push(Seq::<StakePosition>::empty(), position);
                }
                self.accounts.push(account);
                proof {
                    if old(self).stakes_add_up() {
                        assert forall|k: int| 0 <= k < self.accounts@.len() implies (
                        #[trigger] self.accounts@[k]).total_stake == active_total(
                            self.accounts@[k].positions@,
                        ) by {
                            if k < old(self).accounts@.len() {
                                assert(self.accounts@[k] == old(self).accounts@[k]);
                            }
                        }
                    }
                }
            },
        }
        self.total_liquidity = self.total_liquidity + amount;
        if amount != 0 && !staked_before {
            self.total_stakers = self.total_stakers + 1;
        }
        self.events.push(PoolEvent::Staked { user, position_id: id, amount, duration_days });
        Ok(id)
    }

    /// The yield that `position` has accrued at `current_time` since it was
    /// last computed.
    pub fn calculate_yield(position: &StakePosition, current_time: u64) -> (accrued: i128)
        requires
            Self::yield_fits(*position, current_time),
        ensures
            accrued == yield_of(*position, current_time),
    {
        let time_elapsed: u64 = current_time - position.last_yield_calculation;
        let annual_yield = basis_points_of(position.amount, position.apr);
        let elapsed: i128 = time_elapsed as i128;
        let year: i128 = SECONDS_PER_YEAR as i128;
        (annual_yield * elapsed) / year
    }

    /// Stakes as `stake` does, on every input: where the machine cannot carry
    /// the stake out, nothing is returned and the pool stays as it is.
    pub fn checked_stake(
        &mut self,
        user: Principal,
        amount: i128,
        duration_days: u64,
        now: u64,
        authorized: bool,
    ) -> (outcome: Option<Result<u64, Error>>)
        requires
            old(self).wf(),
        ensures
            final(self).wf(),
            old(self).stakes_add_up() ==> final(self).stakes_add_up(),
            match outcome {
                Some(result) => {
                    &&& old(self).stake_fits(user, amount, duration_days, now)
                    &&& Self::stakes(
                        *old(self),
                        *final(self),
                        user,
                        amount,
                        duration_days,
                        now,
                        authorized,
                        result,
                    )
                },
                None => {
                    &&& !(old(self).stake_fits(user, amount, duration_days, now))
                    &&& *final(self) == *old(self)
                },
            },
    {
        if self.can_stake(user, amount, duration_days, now) {
            Some(self.stake(user, amount, duration_days, now, authorized))
        } else {
            None
        }
    }

    /// Whether `after` and `result` are what the withdrawal of the position
    /// `position_id` of `user` at time `now` makes of the pool `before`.
    pub open spec fn withdraws(
        before: Self,
        after: Self,
        user: Principal,
        position_id: u64,
        now: u64,
        authorized: bool,
        result: Result<(i128, i128), Error>,
    ) -> bool {
        match result {
            Ok((principal, accrued)) => {
                let p = before.position(user, position_id).unwrap();
                &&& withdrawal_refusal(before.position(user, position_id), authorized).is_none()
                &&& principal == returned_principal(
                    p,
                    before.settings.early_withdrawal_penalty,
                    now,
                )
                &&& accrued == p.accrued_yield + yield_of(p, now)
                &&& after.positions_of(user) == before.positions_of(user).update(
                    position_id - 1,
                    closed_position(p, now),
                )
                &&& after.user_stake(user) == before.user_stake(user) - p.amount
                &&& forall|other: Principal|
                    other != user ==> #[trigger] account_of(after.accounts@, other)
                        == account_of(before.accounts@, other)
                &&& after.total_liquidity == before.total_liquidity - p.amount
                &&& after.total_stakers == before.total_stakers
                &&& after.settings == before.settings
                &&& after.yield_reserve == before.yield_reserve
                &&& after.fundings == before.fundings
                &&& after.events@ == before.events@.push(
                    PoolEvent::Withdrawn {
                        user,
                        position_id,
                        principal,
                        accrued_yield: accrued,
                        is_early: is_early(p, now),
                    },
                )
            },
            Err(e) => {
                &&& withdrawal_refusal(before.position(user, position_id), authorized)
                    == Some(e)
                &&& after == before
            },
        }
    }

    /// Closes the active position `position_id` of `user` and returns the
    /// principal handed back and the yield accrued. Before maturity the
    /// penalty is kept back from the principal. The user's stake and the
    /// pool's liquidity go down by the whole amount staked.
    pub fn withdraw(&mut self, user: Principal, position_id: u64, now: u64, authorized: bool) -> (result:
        Result<(i128, i128), Error>)
        requires
            old(self).wf(),
            old(self).withdrawal_fits(user, position_id, now),
        ensures
            final(self).wf(),
            old(self).stakes_add_up() ==> final(self).stakes_add_up(),
            Self::withdraws(
                *old(self),
                *final(self),
                user,
                position_id,
                now,
                authorized,
                result,
            ),
    {
        if !authorized {
            return Err(Error::Unauthorized);
        }
        let i = match find_account(&self.accounts, user) {
            Some(i) => i,
            None => {
                return Err(Error::NotFound);
            },
        };
        proof {
            lemma_account_at(self.accounts@, user, i as int);
        }
        let held: usize = self.accounts[i].positions.len();
        if position_id < 1 || position_id > held as u64 {
            return Err(Error::NotFound);
        }
        let slot: usize = (position_id - 1) as usize;
        let position: StakePosition = self.accounts[i].positions[slot];
        if position.status != StakeStatus::Active {
            return Err(Error::InvalidState);
        }
        let yield_amount = Self::calculate_yield(&position, now);
        let accrued: i128 = position.accrued_yield + yield_amount;
        let early = now < position.maturity_date;
        let mut final_principal: i128 = position.amount;
        let mut status = StakeStatus::Withdrawn;
        if early {
            let penalty = basis_points_of(position.amount, self.settings.early_withdrawal_penalty);
            final_principal = position.amount - penalty;
            status = StakeStatus::EarlyWithdrawn;
        }
        let closed = StakePosition { status, accrued_yield: accrued, ..position };
        let stake_before: i128 = self.accounts[i].total_stake;
        let account = &mut self.accounts[i];
        account.positions.set(slot, closed);
        account.total_stake = stake_before - position.amount;
        proof {
            lemma_account_rewritten(old(self).accounts@, self.accounts@, user, i as int);
            lemma_active_total_update(
                old(self).accounts@[i as int].positions@,
                slot as int,
                closed,
            );
            if old(self).stakes_add_up() {
                assert forall|k: int| 0 <= k < self.accounts@.len() implies (
                #[trigger] self.accounts@[k]).total_stake == active_total(
                    self.accounts@[k].positions@,
                ) by {
                    if k != i {
                        assert(self.accounts@[k] == old(self).accounts@[k]);
                    }
                }
            }
        }
        self.total_liquidity = self.total_liquidity - position.amount;
        self.events.push(
            PoolEvent::Withdrawn {
                user,
                position_id,
                principal: final_principal,
                accrued_yield: accrued,
                is_early: early,
            },
        );
        Ok((final_principal, accrued))
    }

    /// The error, if any, that refuses the funding of an invoice.
    pub open spec fn funding_refusal(&self, caller: Principal, amount: i128, authorized: bool) -> Option<
        Error,
    > {
        if !authorized || caller != self.settings.admin {
            Some(Error::Unauthorized)
        } else if amount > self.total_liquidity {
            Some(Error::InsufficientLiquidity)
        } else {
            None
        }
    }

    /// Whether `after` and `result` are what the funding of `invoice_id` with
    /// `amount` by `caller` at time `now` makes of the pool `before`.
    pub open spec fn funds(
        before: Self,
        after: Self,
        caller: Principal,
        invoice_id: u64,
        amount: i128,
        expected_return: i128,
        now: u64,
        authorized: bool,
        result: Result<bool, Error>,
    ) -> bool {
        match result {
            Ok(done) => {
                &&& done
                &&& before.funding_refusal(caller, amount, authorized).is_none()
                &&& after.fundings@ == before.fundings@.insert(
                    invoice_id,
                    InvoiceFunding {
                        invoice_id,
                        funded_amount: amount,
                        funding_date: now,
                        expected_return,
                        return_date: None,
                        actual_return: None,
                    },
                )
                &&& after.total_liquidity == before.total_liquidity - amount
                &&& after.settings == before.settings
                &&& after.total_stakers == before.total_stakers
                &&& after.yield_reserve == before.yield_reserve
                &&& after.accounts == before.accounts
                &&& after.events@ == before.events@.push(
                    PoolEvent::Funded { invoice_id, amount, expected_return },
                )
            },
            Err(e) => {
                &&& before.funding_refusal(caller, amount, authorized) == Some(e)
                &&& after == before
            },
        }
    }

    /// Records that `amount` left the pool to fund `invoice_id`. Only the
    /// pool's administrator may do so, and only within the liquidity at
    /// hand.
    pub fn fund_invoice(
        &mut self,
        caller: Principal,
        invoice_id: u64,
        amount: i128,
        expected_return: i128,
        now: u64,
        authorized: bool,
    ) -> (result: Result<bool, Error>)
        requires
            fits_i128(old(self).total_liquidity - amount),
        ensures
            old(self).wf() ==> final(self).wf(),
            old(self).stakes_add_up() ==> final(self).stakes_add_up(),
            Self::funds(
                *old(self),
                *final(self),
                caller,
                invoice_id,
                amount,
                expected_return,
                now,
                authorized,
                result,
            ),
    {
        if !authorized || !caller.same(&self.settings.admin) {
            return Err(Error::Unauthorized);
        }
        if amount > self.total_liquidity {
            return Err(Error::InsufficientLiquidity);
        }
        let funding = InvoiceFunding {
            invoice_id,
            funded_amount: amount,
            funding_date: now,
            expected_return,
            return_date: None,
            actual_return: None,
        };
        self.fundings.insert(invoice_id, funding);
        self.total_liquidity = self.total_liquidity - amount;
        self.events.push(PoolEvent::Funded { invoice_id, amount, expected_return });
        Ok(true)
    }

    /// Withdraws as `withdraw` does, on every input: where the machine cannot
    /// carry the withdrawal out, nothing is returned and the pool stays as it
    /// is.
    pub fn checked_withdraw(
        &mut self,
        user: Principal,
        position_id: u64,
        now: u64,
        authorized: bool,
    ) -> (outcome: Option<Result<(i128, i128), Error>>)
        requires
            old(self).wf(),
        ensures
            final(self).wf(),
            old(self).stakes_add_up() ==> final(self).stakes_add_up(),
            match outcome {
                Some(result) => {
                    &&& old(self).withdrawal_fits(user, position_id, now)
                    &&& Self::withdraws(
                        *old(self),
                        *final(self),
                        user,
                        position_id,
                        now,
                        authorized,
                        result,
                    )
                },
                None => {
                    &&& !(old(self).withdrawal_fits(user, position_id, now))
                    &&& *final(self) == *old(self)
                },
            },
    {
        if self.can_withdraw(user, position_id, now) {
            Some(self.withdraw(user, position_id, now, authorized))
        } else {
            None
        }
    }

    /// Funds an invoice as `fund_invoice` does, on every input: where the
    /// liquidity that is left cannot be held, nothing is returned and the pool
    /// stays as it is.
    pub fn checked_fund_invoice(
        &mut self,
        caller: Principal,
        invoice_id: u64,
        amount: i128,
        expected_return: i128,
        now: u64,
        authorized: bool,
    ) -> (outcome: Option<Result<bool, Error>>)
        ensures
            old(self).wf() ==> final(self).wf(),
            old(self).stakes_add_up() ==> final(self).stakes_add_up(),
            match outcome {
                Some(result) => {
                    &&& fits_i128(old(self).total_liquidity - amount)
                    &&& Self::funds(
                        *old(self),
                        *final(self),
                        caller,
                        invoice_id,
                        amount,
                        expected_return,
                        now,
                        authorized,
                        result,
                    )
                },
                None => {
                    &&& !(fits_i128(old(self).total_liquidity - amount))
                    &&& *final(self) == *old(self)
                },
            },
    {
        if self.can_fund_invoice(amount) {
            Some(self.fund_invoice(caller, invoice_id, amount, expected_return, now, authorized))
        } else {
            None
        }
    }

    /// The error, if any, that refuses a repayment.
    pub open spec fn repayment_refusal(&self, caller: Principal, invoice_id: u64, authorized: bool) -> Option<
        Error,
    > {
        if !authorized || caller != self.settings.admin {
            Some(Error::Unauthorized)
        } else if self.funding(invoice_id).is_none() {
            Some(Error::NotFound)
        } else {
            None
        }
    }

    /// What a repayment of `repayment_amount` earns over the amount that
    /// funded `invoice_id`.
    pub open spec fn yield_earned(&self, invoice_id: u64, repayment_amount: i128) -> int {
        repayment_amount - self.fundings@[invoice_id].funded_amount
    }

    /// The machine can carry out a repayment that is not refused.
    pub open spec fn repayment_fits(&self, invoice_id: u64, repayment_amount: i128) -> bool {
        self.funding(invoice_id).is_some() ==> {
            &&& fits_i128(self.total_liquidity + repayment_amount)
            &&& fits_i128(self.yield_earned(invoice_id, repayment_amount))
            &&& fits_i128(self.yield_reserve + self.yield_earned(invoice_id, repayment_amount))
        }
    }

    /// Whether `after` and `result` are what the repayment of
    /// `repayment_amount` for `invoice_id` by `caller` at time `now` makes of
    /// the pool `before`.
    pub open spec fn repays(
        before: Self,
        after: Self,
        caller: Principal,
        invoice_id: u64,
        repayment_amount: i128,
        now: u64,
        authorized: bool,
        result: Result<bool, Error>,
    ) -> bool {
        match result {
            Ok(done) => {
                &&& done
                &&& before.repayment_refusal(caller, invoice_id, authorized).is_none()
                &&& after.fundings@ == before.fundings@.insert(
                    invoice_id,
                    repaid(before.fundings@[invoice_id], repayment_amount, now),
                )
                &&& after.total_liquidity == before.total_liquidity + repayment_amount
                &&& after.yield_reserve == if before.yield_earned(
                    invoice_id,
                    repayment_amount,
                ) > 0 {
                    before.yield_reserve + before.yield_earned(
                        invoice_id,
                        repayment_amount,
                    )
                } else {
                    before.yield_reserve as int
                }
                &&& after.settings == before.settings
                &&& after.total_stakers == before.total_stakers
                &&& after.accounts == before.accounts
                &&& after.events@ == before.events@.push(
                    PoolEvent::Repaid {
                        invoice_id,
                        repayment_amount,
                        yield_earned: before.yield_earned(invoice_id, repayment_amount) as i128,
                    },
                )
            },
            Err(e) => {
                &&& before.repayment_refusal(caller, invoice_id, authorized) == Some(e)
                &&& after == before
            },
        }
    }

    /// Records that `repayment_amount` came back for `invoice_id`: the
    /// funding is stamped, the liquidity grows by the repayment, and what
    /// was repaid beyond the funded amount joins the yield reserve.
    pub fn process_repayment(
        &mut self,
        caller: Principal,
        invoice_id: u64,
        repayment_amount: i128,
        now: u64,
        authorized: bool,
    ) -> (result: Result<bool, Error>)
        requires
            old(self).repayment_fits(invoice_id, repayment_amount),
        ensures
            old(self).wf() ==> final(self).wf(),
            old(self).stakes_add_up() ==> final(self).stakes_add_up(),
            Self::repays(
                *old(self),
                *final(self),
                caller,
                invoice_id,
                repayment_amount,
                now,
                authorized,
                result,
            ),
    {
        if !authorized || !caller.same(&self.settings.admin) {
            return Err(Error::Unauthorized);
        }
        let funding: InvoiceFunding = match self.fundings.get(&invoice_id) {
            Some(found) => *found,
            None => {
                return Err(Error::NotFound);
            },
        };
        let stamped = InvoiceFunding {
            return_date: Some(now),
            actual_return: Some(repayment_amount),
            ..funding
        };
        self.fundings.insert(invoice_id, stamped);
        self.total_liquidity = self.total_liquidity + repayment_amount;
        let yield_earned: i128 = repayment_amount - funding.funded_amount;
        if yield_earned > 0 {
            self.yield_reserve = self.yield_reserve + yield_earned;
        }
        self.events.push(PoolEvent::Repaid { invoice_id, repayment_amount, yield_earned });
        Ok(true)
    }

    /// The positions of `user`, oldest first.
    pub fn get_user_stakes(&self, user: Principal) -> (positions: Vec<StakePosition>)
        requires
            self.wf(),
        ensures
            positions@ == self.positions_of(user),
    {
        let mut positions: Vec<StakePosition> = Vec::new();
        match find_account(&self.accounts, user) {
            Some(i) => {
                proof {
                    lemma_account_at(self.accounts@, user, i as int);
                }
                let held = &self.accounts[i].positions;
                let mut k: usize = 0;
                while k < held.len()
                    invariant
                        k <= held@.len(),
                        positions@ == held@.take(k as int),
                    decreases held@.len() - k,
                {
                    positions.push(held[k]);
                    assert(held@.take(k as int).push(held@[k as int]) == held@.take(k + 1));
                    k += 1;
                }
                assert(held@.take(k as int) == held@);
            },
            None => {},
        }
        positions
    }

    /// Records a repayment as `process_repayment` does, on every input: where
    /// the machine cannot carry it out, nothing is returned and the pool stays
    /// as it is.
    pub fn checked_process_repayment(
        &mut self,
        caller: Principal,
        invoice_id: u64,
        repayment_amount: i128,
        now: u64,
        authorized: bool,
    ) -> (outcome: Option<Result<bool, Error>>)
        ensures
            old(self).wf() ==> final(self).wf(),
            old(self).stakes_add_up() ==> final(self).stakes_add_up(),
            match outcome {
                Some(result) => {
                    &&& old(self).repayment_fits(invoice_id, repayment_amount)
                    &&& Self::repays(
                        *old(self),
                        *final(self),
                        caller,
                        invoice_id,
                        repayment_amount,
                        now,
                        authorized,
                        result,
                    )
                },
                None => {
                    &&& !(old(self).repayment_fits(invoice_id, repayment_amount))
                    &&& *final(self) == *old(self)
                },
            },
    {
        if self.can_process_repayment(invoice_id, repayment_amount) {
            Some(self.process_repayment(caller, invoice_id, repayment_amount, now, authorized))
        } else {
            None
        }
    }

    /// The pool's totals. The yield reserve is reported as the yield
    /// distributed; funded invoices and utilization are not tracked and
    /// reported as zero.
    pub fn get_pool_stats(&self) -> (stats: PoolStats)
        ensures
            stats == (PoolStats {
                total_liquidity: self.total_liquidity,
                total_stakers: self.total_stakers,
                total_funded_invoices: 0,
                total_yield_distributed: self.yield_reserve,
                pool_utilization: 0,
            }),
    {
        PoolStats {
            total_liquidity: self.total_liquidity,
            total_stakers: self.total_stakers,
            total_funded_invoices: 0,
            total_yield_distributed: self.yield_reserve,
            pool_utilization: 0,
        }
    }

    /// The sum that the pool holds for `user`.
    pub fn get_user_stake(&self, user: Principal) -> (stake: i128)
        requires
            self.wf(),
        ensures
            stake == self.user_stake(user),
    {
        match find_account(&self.accounts, user) {
            Some(i) => {
                proof {
                    lemma_account_at(self.accounts@, user, i as int);
                }
                self.accounts[i].total_stake
            },
            None => 0,
        }
    }

    /// The liquidity at hand for funding.
    pub fn get_available_liquidity(&self) -> (liquidity: i128)
        ensures
            liquidity == self.total_liquidity,
    {
        self.total_liquidity
    }

    /// The funding recorded for `invoice_id`.
    pub fn get_invoice_funding(&self, invoice_id: u64) -> (funding: Option<InvoiceFunding>)
        ensures
            funding == self.funding(invoice_id),
    {
        match self.fundings.get(&invoice_id) {
            Some(found) => Some(*found),
            None => None,
        }
    }

    /// The settings in force.
    pub fn get_settings(&self) -> (settings: PoolSettings)
        ensures
            settings == self.settings,
    {
        self.settings
    }

    /// The settings after an update in which each given value replaces the
    /// one in force.
    pub open spec fn updated_settings(
        settings: PoolSettings,
        base_apr: Option<u32>,
        early_withdrawal_penalty: Option<u32>,
        min_stake_amount: Option<i128>,
    ) -> PoolSettings {
        PoolSettings {
            base_apr: match base_apr {
                Some(apr) => apr,
                None => settings.base_apr,
            },
            early_withdrawal_penalty: match early_withdrawal_penalty {
                Some(penalty) => penalty,
                None => settings.early_withdrawal_penalty,
            },
            min_stake_amount: match min_stake_amount {
                Some(min_amount) => min_amount,
                None => settings.min_stake_amount,
            },
            ..settings
        }
    }

    /// Replaces the settings for which a value is given. Only the pool's
    /// administrator may do so.
    pub fn update_settings(
        &mut self,
        admin: Principal,
        base_apr: Option<u32>,
        early_withdrawal_penalty: Option<u32>,
        min_stake_amount: Option<i128>,
        authorized: bool,
    ) -> (result: Result<(), Error>)
        ensures
            old(self).wf() ==> final(self).wf(),
            old(self).stakes_add_up() ==> final(self).stakes_add_up(),
            match result {
                Ok(_) => {
                    &&& authorized
                    &&& admin == old(self).settings.admin
                    &&& final(self).settings == Self::updated_settings(
                        old(self).settings,
                        base_apr,
                        early_withdrawal_penalty,
                        min_stake_amount,
                    )
                    &&& final(self).total_liquidity == old(self).total_liquidity
                    &&& final(self).total_stakers == old(self).total_stakers
                    &&& final(self).yield_reserve == old(self).yield_reserve
                    &&& final(self).accounts == old(self).accounts
                    &&& final(self).fundings == old(self).fundings
                    &&& final(self).events@ == old(self).events@.push(
                        PoolEvent::SettingsUpdated { admin },
                    )
                },
                Err(e) => {
                    &&& e == Error::Unauthorized
                    &&& !authorized || admin != old(self).settings.admin
                    &&& *final(self) == *old(self)
                },
            },
    {
        if !authorized || !admin.same(&self.settings.admin) {
            return Err(Error::Unauthorized);
        }
        if let Some(apr) = base_apr {
            self.settings.base_apr = apr;
        }
        if let Some(penalty) = early_withdrawal_penalty {
            self.settings.early_withdrawal_penalty = penalty;
        }
        if let Some(min_amount) = min_stake_amount {
            self.settings.min_stake_amount = min_amount;
        }
        self.events.push(PoolEvent::SettingsUpdated { admin });
        Ok(())
    }

    /// Announces the yield reserve, where there is one. Nothing is moved to
    /// any position and the reserve stays as it is.
    pub fn distribute_yield(&mut self, admin: Principal, authorized: bool) -> (result: Result<
        (),
        Error,
    >)
        ensures
            old(self).wf() ==> final(self).wf(),
            old(self).stakes_add_up() ==> final(self).stakes_add_up(),
            match result {
                Ok(_) => {
                    &&& authorized
                    &&& admin == old(self).settings.admin
                    &&& final(self).settings == old(self).settings
                    &&& final(self).total_liquidity == old(self).total_liquidity
                    &&& final(self).total_stakers == old(self).total_stakers
                    &&& final(self).yield_reserve == old(self).yield_reserve
                    &&& final(self).accounts == old(self).accounts
                    &&& final(self).fundings == old(self).fundings
                    &&& final(self).events@ == if old(self).yield_reserve > 0 {
                        old(self).events@.push(
                            PoolEvent::YieldDistributed { yield_reserve: old(self).yield_reserve },
                        )
                    } else {
                        old(self).events@
                    }
                },
                Err(e) => {
                    &&& e == Error::Unauthorized
                    &&& !authorized || admin != old(self).settings.admin
                    &&& *final(self) == *old(self)
                },
            },
    {
        if !authorized || !admin.same(&self.settings.admin) {
            return Err(Error::Unauthorized);
        }
        if self.yield_reserve <= 0 {
            return Ok(());
        }
        self.events.push(PoolEvent::YieldDistributed { yield_reserve: self.yield_reserve });
        Ok(())
    }

    /// Hands out the events emitted since the last call and empties the log.
    pub fn take_events(&mut self) -> (events: Vec<PoolEvent>)
        ensures
            events@ == old(self).events@,
            final(self).events@.len() == 0,
            final(self).settings == old(self).settings,
            final(self).total_liquidity == old(self).total_liquidity,
            final(self).total_stakers == old(self).total_stakers,
            final(self).yield_reserve == old(self).yield_reserve,
            final(self).accounts == old(self).accounts,
            final(self).fundings == old(self).fundings,
    {
        let mut events: Vec<PoolEvent> = Vec::new();
        std::mem::swap(&mut events, &mut self.events);
        events
    }
}

/// A stake of the minimum duration earns the base rate, and each further
/// day adds five basis points.
pub proof fn law_apr_grows_with_duration(settings: PoolSettings, duration_days: u64)
    requires
        duration_days < u64::MAX,
    ensures
        effective_apr(settings, settings.min_stake_duration) == settings.base_apr,
        effective_apr(settings, (duration_days + 1) as u64) == effective_apr(
            settings,
            duration_days,
        ) + 5,
{
}

/// From maturity on a withdrawal hands back the whole amount. Before
/// maturity it hands back the amount less the penalty; with a penalty of at
/// most one hundred percent on an amount that is not negative, that is
/// between nothing and the amount.
pub proof fn law_withdrawal_principal(position: StakePosition, penalty_bp: u32, now: u64)
    ensures
        now >= position.maturity_date ==> returned_principal(position, penalty_bp, now)
            == position.amount,
        now < position.maturity_date ==> returned_principal(position, penalty_bp, now)
            == position.amount - bp_of(position.amount as int, penalty_bp as int),
        position.amount >= 0 && penalty_bp <= 10000 ==> 0 <= returned_principal(
            position,
            penalty_bp,
            now,
        ) <= position.amount,
{
    if position.amount >= 0 && penalty_bp <= 10000 {
        let product = position.amount * penalty_bp;
        assert(0 <= product <= position.amount * 10000) by (nonlinear_arith)
            requires
                position.amount >= 0,
                0 <= penalty_bp <= 10000,
                product == position.amount * penalty_bp,
        ;
        assert(0 <= product / 10000 <= position.amount) by (nonlinear_arith)
            requires
                0 <= product <= position.amount * 10000,
        ;
    }
}

impl LiquidityPoolContract {
    /// A withdrawal that succeeds closes an active position of the user.
    /// Before maturity it hands back the amount less the penalty in force
    /// and the position ends as withdrawn early; from maturity on it hands
    /// back the whole amount and the position ends as withdrawn. The
    /// amount, the rate and the maturity of the position stay.
    pub proof fn law_withdrawal_outcome(
        before: Self,
        after: Self,
        user: Principal,
        position_id: u64,
        now: u64,
        authorized: bool,
        result: Result<(i128, i128), Error>,
    )
        requires
            Self::withdraws(before, after, user, position_id, now, authorized, result),
            result.is_ok(),
        ensures
            authorized,
            before.position(user, position_id).is_some(),
            after.position(user, position_id).is_some(),
            ({
                let p = before.position(user, position_id).unwrap();
                let q = after.position(user, position_id).unwrap();
                let penalty_bp = before.settings.early_withdrawal_penalty;
                &&& p.status == StakeStatus::Active
                &&& now < p.maturity_date ==> result.unwrap().0 == p.amount - bp_of(
                    p.amount as int,
                    penalty_bp as int,
                ) && q.status == StakeStatus::EarlyWithdrawn
                &&& now >= p.maturity_date ==> result.unwrap().0 == p.amount && q.status
                    == StakeStatus::Withdrawn
                &&& q.amount == p.amount
                &&& q.apr == p.apr
                &&& q.maturity_date == p.maturity_date
                &&& q.id == p.id
            }),
    {
        let p = before.position(user, position_id).unwrap();
        assert(after.positions_of(user) == before.positions_of(user).update(
            position_id - 1,
            closed_position(p, now),
        ));
        assert(after.positions_of(user)[position_id - 1] == closed_position(p, now));
    }
}

/// A position that has been withdrawn is never active again: its status is
/// final, and a further withdrawal is refused.
pub proof fn law_closed_position_is_final(position: StakePosition, now: u64)
    ensures
        closed_position(position, now).status != StakeStatus::Active,
        withdrawal_refusal(Some(closed_position(position, now)), true) == Some(
            Error::InvalidState,
        ),
        position.status != StakeStatus::Active ==> withdrawal_refusal(Some(position), true)
            == Some(Error::InvalidState),
{
}

/// The yield of an amount that is not negative is not negative, and none
/// accrues in no time.
pub proof fn law_yield_is_not_negative(amount: int, apr: int, elapsed: int)
    requires
        amount >= 0,
        apr >= 0,
        elapsed >= 0,
    ensures
        accrued_over(amount, apr, elapsed) >= 0,
        accrued_over(amount, apr, 0) == 0,
{
    let product = amount * apr;
    assert(product >= 0) by (nonlinear_arith)
        requires
            amount >= 0,
            apr >= 0,
            product == amount * apr,
    ;
    let annual = product / 10000;
    assert(annual >= 0) by (nonlinear_arith)
        requires
            product >= 0,
            annual == product / 10000,
    ;
    let prorated = annual * elapsed;
    assert(prorated >= 0) by (nonlinear_arith)
        requires
            annual >= 0,
            elapsed >= 0,
            prorated == annual * elapsed,
    ;
    assert(prorated / 31536000 >= 0) by (nonlinear_arith)
        requires
            prorated >= 0,
    ;
    assert(annual * 0 == 0);
}

} // verus!
