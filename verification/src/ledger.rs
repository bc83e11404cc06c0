//! The ledger engine: contributor records, point accrual, and the
//! proportional pool-distribution algorithm.

use crate::scoring::{score_of, valid_impact, ContributionType};
use crate::CustomError;
use vstd::arithmetic::div_mod::{
    lemma_div_is_ordered, lemma_div_multiples_vanish, lemma_div_pos_is_pos,
    lemma_fundamental_div_mod, lemma_mod_division_less_than_divisor, lemma_multiply_divide_le,
};
use vstd::arithmetic::mul::{
    lemma_mul_inequality, lemma_mul_is_distributive_add, lemma_mul_is_distributive_add_other_way,
    lemma_mul_nonnegative, lemma_mul_upper_bound,
};
use vstd::prelude::*;

verus! {

/// Points below this aggregate total halve the pool before distribution.
pub const PARTICIPATION_THRESHOLD: u64 = 500;

/// One recorded action: immutable once created.
#[derive(Clone, Copy, Debug, PartialEq, Eq, Structural)]
pub struct Contribution {
    pub category: ContributionType,
    pub impact: u8,
    /// Seconds since the epoch, supplied by the caller's clock source.
    pub timestamp: i64,
}

impl Contribution {
    /// A record is valid when its impact lies in its category's sub-ranges.
    pub open spec fn valid(self) -> bool {
        valid_impact(self.category, self.impact)
    }

    /// The points the scoring table implies for this record.
    pub open spec fn points(self) -> u64 {
        score_of(self.category, self.impact)
    }
}

/// The points implied by a whole contribution history.
pub open spec fn history_points(h: Seq<Contribution>) -> int
    decreases h.len(),
{
    if h.len() == 0 {
        0
    } else {
        history_points(h.drop_last()) + h.last().points()
    }
}

/// One contributor's record: an opaque identity, a cached point total, and
/// the append-only history that the total is derived from.
#[derive(Clone, Debug)]
pub struct Contributor {
    /// Opaque unique key; the hosting environment maps it to a real account.
    pub wallet: u64,
    pub total_points: u64,
    pub contributions: Vec<Contribution>,
}

impl Contributor {
    /// The ledger invariant for one record: every logged contribution is
    /// valid, and the cached `total_points` equals the sum of the points of
    /// the whole history.
    pub open spec fn wf(self) -> bool {
        &&& forall|i: int|
            0 <= i < self.contributions@.len() ==> (#[trigger] self.contributions@[i]).valid()
        &&& self.total_points == history_points(self.contributions@)
    }

    /// A fresh record for `wallet`: no history, no points.
    pub fn new(wallet: u64) -> (c: Contributor)
        ensures
            c.wf(),
            c.wallet == wallet,
            c.total_points == 0,
            c.contributions@.len() == 0,
    {
        Contributor { wallet, total_points: 0, contributions: Vec::new() }
    }
}

/// The shared ledger aggregate: every contributor record, plus the opaque
/// identifier of the asset rewards are paid in.
#[derive(Clone, Debug)]
pub struct GlobalState {
    pub contributors: Vec<Contributor>,
    pub reward_mint: u64,
}

impl GlobalState {
    /// The ledger invariant: every contributor record is well formed, and
    /// no two records share an identity. Creating and resolving records is
    /// the hosting environment's responsibility, so this is the shape that
    /// environment must hand over; neither accrual nor distribution
    /// disturbs it.
    pub open spec fn wf(self) -> bool {
        &&& forall|i: int|
            0 <= i < self.contributors@.len() ==> (#[trigger] self.contributors@[i]).wf()
        &&& forall|i: int, j: int|
            0 <= i < j < self.contributors@.len() ==> self.contributors@[i].wallet
                != self.contributors@[j].wallet
    }
}

/// The aggregate point total over a sequence of contributor records.
pub open spec fn total_points_of(s: Seq<Contributor>) -> int
    decreases s.len(),
{
    if s.len() == 0 {
        0
    } else {
        total_points_of(s.drop_last()) + s.last().total_points
    }
}

/// The portion of `monthly_pool` paid out when the aggregate total is
/// `total`: half below the participation threshold, all of it otherwise.
pub open spec fn distributed_pool_of(monthly_pool: u64, total: int) -> int {
    if total < PARTICIPATION_THRESHOLD {
        monthly_pool as int / 2
    } else {
        monthly_pool as int
    }
}

/// One contributor's floor-division share of the distributed pool.
pub open spec fn reward_of(points: u64, monthly_pool: u64, total: int) -> int {
    (points * distributed_pool_of(monthly_pool, total)) / total
}

/// The sum of every contributor's computed reward.
pub open spec fn rewards_total(s: Seq<Contributor>, monthly_pool: u64, total: int) -> int
    decreases s.len(),
{
    if s.len() == 0 {
        0
    } else {
        rewards_total(s.drop_last(), monthly_pool, total)
            + reward_of(s.last().total_points, monthly_pool, total)
    }
}

/// The sum of the amounts in a reward plan.
pub open spec fn amounts_total(plan: Seq<(u64, u64)>) -> int
    decreases plan.len(),
{
    if plan.len() == 0 {
        0
    } else {
        amounts_total(plan.drop_last()) + plan.last().1
    }
}

/// Records one contribution atomically: on a valid impact the record is
/// appended and the cached total grows by the table's score; on an invalid
/// impact the error is returned and the record is left untouched.
pub fn log_contribution(
    contributor: &mut Contributor,
    category: ContributionType,
    impact: u8,
    now: i64,
) -> (r: Result<(), CustomError>)
    requires
        valid_impact(category, impact) ==> old(contributor).total_points + score_of(
            category,
            impact,
        ) <= u64::MAX,
    ensures
        match r {
            Ok(()) => {
                &&& valid_impact(category, impact)
                &&& final(contributor).wallet == old(contributor).wallet
                &&& final(contributor).total_points == old(contributor).total_points + score_of(
                    category,
                    impact,
                )
                &&& final(contributor).contributions@ == old(contributor).contributions@.push(
                    (Contribution { category, impact, timestamp: now }),
                )
            },
            Err(e) => {
                &&& e == CustomError::InvalidImpact
                &&& !valid_impact(category, impact)
                &&& *final(contributor) == *old(contributor)
            },
        },
        old(contributor).wf() ==> final(contributor).wf(),
{
    if impact > 10 {
        return Err(CustomError::InvalidImpact);
    }
    let points = match category.assign_points(impact) {
        Ok(p) => p,
        Err(e) => { return Err(e) },
    };
    contributor.total_points = contributor.total_points + points;
    let record = Contribution { category, impact, timestamp: now };
    contributor.contributions.push(record);
    proof {
        let h0 = old(contributor).contributions@;
        let h1 = contributor.contributions@;
        assert(h1.drop_last() =~= h0);
        assert(h1.last() == record);
    }
    Ok(())
}

impl GlobalState {
    /// The aggregate point total over every contributor record.
    pub fn total_points(&self) -> (t: u64)
        requires
            total_points_of(self.contributors@) <= u64::MAX,
        ensures
            t == total_points_of(self.contributors@),
    {
        let s = &self.contributors;
        let ghost full = s@;
        let n = s.len();
        let mut total: u64 = 0;
        let mut i: usize = 0;
        while i < n
            invariant
                i <= n == full.len(),
                s@ == full,
                total_points_of(full) <= u64::MAX,
                total == total_points_of(full.take(i as int)),
            decreases n - i,
        {
            proof {
                lemma_total_points_prefix_step(full, i as int);
                lemma_total_points_prefix_bounded(full, i + 1);
                lemma_total_points_nonneg(full.take(i as int));
            }
            total = total + s[i].total_points;
            i = i + 1;
        }
        proof {
            assert(full.take(n as int) =~= full);
        }
        total
    }
}

/// Computes the reward plan for one distribution cycle: one
/// `(wallet, amount)` entry per contributor, in ledger order, each amount
/// the contributor's floor-division share of the distributed pool. Fails
/// with `NoContributions`, and plans no transfer, exactly when no points
/// have been accrued. Point totals and histories are left untouched: the
/// caller pays each entry through its transfer primitive.
pub fn distribute_rewards(global_state: &GlobalState, monthly_pool: u64) -> (r: Result<
    Vec<(u64, u64)>,
    CustomError,
>)
    requires
        total_points_of(global_state.contributors@) <= u64::MAX,
    ensures
        match r {
            Ok(plan) => ({
                let s = global_state.contributors@;
                let total = total_points_of(s);
                &&& total > 0
                &&& plan@.len() == s.len()
                &&& forall|i: int|
                    0 <= i < plan@.len() ==> (#[trigger] plan@[i]).0 == s[i].wallet
                &&& forall|i: int|
                    0 <= i < plan@.len() ==> (#[trigger] plan@[i]).1 == reward_of(
                        s[i].total_points,
                        monthly_pool,
                        total,
                    )
                &&& amounts_total(plan@) <= distributed_pool_of(monthly_pool, total)
            }),
            Err(e) => {
                &&& e == CustomError::NoContributions
                &&& total_points_of(global_state.contributors@) == 0
            },
        },
{
    let s = &global_state.contributors;
    let ghost full = s@;
    let total = global_state.total_points();
    if total == 0 {
        proof {
            lemma_total_points_nonneg(full);
        }
        return Err(CustomError::NoContributions);
    }
    let distributed_pool: u64 = if total < PARTICIPATION_THRESHOLD {
        monthly_pool / 2
    } else {
        monthly_pool
    };
    let n = s.len();
    let mut plan: Vec<(u64, u64)> = Vec::new();
    let mut i: usize = 0;
    while i < n
        invariant
            i <= n == full.len(),
            s@ == full,
            total == total_points_of(full),
            total > 0,
            distributed_pool == distributed_pool_of(monthly_pool, total as int),
            plan@.len() == i,
            forall|j: int| 0 <= j < i ==> (#[trigger] plan@[j]).0 == full[j].wallet,
            forall|j: int|
                0 <= j < i ==> (#[trigger] plan@[j]).1 == reward_of(
                    full[j].total_points,
                    monthly_pool,
                    total as int,
                ),
            amounts_total(plan@) == rewards_total(
                full.take(i as int),
                monthly_pool,
                total as int,
            ),
        decreases n - i,
    {
        let p = s[i].total_points;
        proof {
            lemma_element_le_total(full, i as int);
            lemma_mul_upper_bound(
                p as int,
                u64::MAX as int,
                distributed_pool as int,
                u64::MAX as int,
            );
            lemma_mul_inequality(p as int, total as int, distributed_pool as int);
            lemma_multiply_divide_le(
                p as int * distributed_pool as int,
                total as int,
                distributed_pool as int,
            );
            lemma_div_pos_is_pos(p as int * distributed_pool as int, total as int);
            lemma_mul_nonnegative(p as int, distributed_pool as int);
        }
        let wide: u128 = (p as u128) * (distributed_pool as u128) / (total as u128);
        let amount: u64 = wide as u64;
        let ghost plan0 = plan@;
        plan.push((s[i].wallet, amount));
        proof {
            assert(plan@.drop_last() =~= plan0);
            lemma_rewards_total_prefix_step(full, monthly_pool, total as int, i as int);
        }
        i = i + 1;
    }
    proof {
        assert(full.take(n as int) =~= full);
        lemma_rewards_le_distributed_pool(full, monthly_pool);
    }
    Ok(plan)
}

/// Every aggregate point total is non-negative.
pub proof fn lemma_total_points_nonneg(s: Seq<Contributor>)
    ensures
        total_points_of(s) >= 0,
    decreases s.len(),
{
    if s.len() > 0 {
        lemma_total_points_nonneg(s.drop_last());
    }
}

/// Extending a prefix by one record adds that record's points.
proof fn lemma_total_points_prefix_step(s: Seq<Contributor>, i: int)
    requires
        0 <= i < s.len(),
    ensures
        total_points_of(s.take(i + 1)) == total_points_of(s.take(i)) + s[i].total_points,
{
    assert(s.take(i + 1).drop_last() =~= s.take(i));
    assert(s.take(i + 1).last() == s[i]);
}

/// A prefix's aggregate total never exceeds the whole sequence's.
proof fn lemma_total_points_prefix_bounded(s: Seq<Contributor>, i: int)
    requires
        0 <= i <= s.len(),
    ensures
        total_points_of(s.take(i)) <= total_points_of(s),
    decreases s.len() - i,
{
    if i == s.len() {
        assert(s.take(i) =~= s);
    } else {
        lemma_total_points_prefix_step(s, i);
        lemma_total_points_prefix_bounded(s, i + 1);
    }
}

/// One record's points never exceed the aggregate total it is part of.
pub proof fn lemma_element_le_total(s: Seq<Contributor>, i: int)
    requires
        0 <= i < s.len(),
    ensures
        s[i].total_points <= total_points_of(s),
{
    lemma_total_points_prefix_step(s, i);
    lemma_total_points_prefix_bounded(s, i + 1);
    lemma_total_points_nonneg(s.take(i));
}

/// Extending a prefix by one record adds that record's reward.
proof fn lemma_rewards_total_prefix_step(s: Seq<Contributor>, monthly_pool: u64, total: int, i: int)
    requires
        0 <= i < s.len(),
    ensures
        rewards_total(s.take(i + 1), monthly_pool, total) == rewards_total(
            s.take(i),
            monthly_pool,
            total,
        ) + reward_of(s[i].total_points, monthly_pool, total),
{
    assert(s.take(i + 1).drop_last() =~= s.take(i));
    assert(s.take(i + 1).last() == s[i]);
}

/// Floor division distributes sub-additively over a sum of non-negative
/// numerators.
proof fn lemma_div_subadditive(a: int, b: int, t: int)
    requires
        a >= 0,
        b >= 0,
        t > 0,
    ensures
        a / t + b / t <= (a + b) / t,
{
    lemma_fundamental_div_mod(a, t);
    lemma_fundamental_div_mod(b, t);
    lemma_mod_division_less_than_divisor(a, t);
    lemma_mod_division_less_than_divisor(b, t);
    let q = a / t + b / t;
    lemma_mul_is_distributive_add(t, a / t, b / t);
    assert(t * q <= a + b);
    lemma_div_is_ordered(t * q, a + b, t);
    lemma_div_multiples_vanish(q, t);
}

/// The summed rewards of any record sequence are at most the whole
/// sequence's points' share of the distributed pool.
proof fn lemma_rewards_total_le(s: Seq<Contributor>, monthly_pool: u64, total: int)
    requires
        total > 0,
    ensures
        rewards_total(s, monthly_pool, total) <= (total_points_of(s) * distributed_pool_of(
            monthly_pool,
            total,
        )) / total,
    decreases s.len(),
{
    let d = distributed_pool_of(monthly_pool, total);
    lemma_div_pos_is_pos(monthly_pool as int, 2);
    if s.len() == 0 {
        lemma_div_pos_is_pos(0, total);
        assert(total_points_of(s) * d == 0) by (nonlinear_arith)
            requires
                total_points_of(s) == 0,
        ;
        lemma_div_pos_is_pos(total_points_of(s) * d, total);
    } else {
        let rest = s.drop_last();
        let p = s.last().total_points;
        lemma_rewards_total_le(rest, monthly_pool, total);
        lemma_total_points_nonneg(rest);
        lemma_mul_nonnegative(total_points_of(rest), d);
        lemma_mul_nonnegative(p as int, d);
        lemma_div_subadditive(total_points_of(rest) * d, p as int * d, total);
        lemma_mul_is_distributive_add_other_way(d, total_points_of(rest), p as int);
    }
}

/// Law: for every valid distribution the summed rewards never exceed the
/// distributed pool; the floor-division dust is lost, never overspent.
pub proof fn lemma_rewards_le_distributed_pool(s: Seq<Contributor>, monthly_pool: u64)
    requires
        total_points_of(s) > 0,
    ensures
        rewards_total(s, monthly_pool, total_points_of(s)) <= distributed_pool_of(
            monthly_pool,
            total_points_of(s),
        ),
{
    let t = total_points_of(s);
    let d = distributed_pool_of(monthly_pool, t);
    lemma_rewards_total_le(s, monthly_pool, t);
    lemma_div_multiples_vanish(d, t);
    assert(t * d == total_points_of(s) * d);
}

} // verus!
