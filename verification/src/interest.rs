//! Interest rate model and the per-pool accrual engine.
//!
//! Rates and utilization are fixed-point fractions scaled by [`PRECISION`].
//! The borrow rate is a two-segment piecewise-linear ("kink") function of
//! utilization; the supply rate is the borrow rate earned on the utilized
//! share, less the reserve cut.

use crate::errors::Error;
use crate::kv::KvMap;
use crate::pool::{spec_utilization, PoolStorage};
use vstd::arithmetic::div_mod::{
    lemma_div_by_multiple, lemma_div_is_ordered, lemma_div_pos_is_pos,
    lemma_hoist_over_denominator, lemma_multiply_divide_le,
};
use vstd::arithmetic::mul::lemma_mul_inequality;
use vstd::prelude::*;

verus! {

/// Fixed-point scale: 18 decimals, so `PRECISION` stands for 1.0.
pub const PRECISION: i128 = 1_000_000_000_000_000_000;

/// Seconds in a 365-day year, the denominator of per-second rates.
pub const SECONDS_PER_YEAR: u64 = 31_536_000;

/// Parameters of the two-segment interest rate curve.
///
/// All four fields are fixed-point fractions. Below `optimal_utilization`
/// the rate climbs from `base_rate` with slope `slope1`; above it, with the
/// steeper `slope2`, to pull utilization back toward the target.
#[derive(Clone, Copy, Debug, PartialEq, Eq, Structural)]
pub struct InterestRateModel {
    /// Rate charged at zero utilization.
    pub base_rate: i128,
    /// Rate added across the segment below `optimal_utilization`.
    pub slope1: i128,
    /// Rate added across the segment above `optimal_utilization`.
    pub slope2: i128,
    /// The kink: target share of deposits out on loan.
    pub optimal_utilization: i128,
}

/// A fixed-point fraction in `[0, 1]`.
pub open spec fn valid_fraction(x: i128) -> bool {
    0 <= x <= PRECISION
}

impl InterestRateModel {
    /// Rates are fractions and the kink lies strictly inside `(0, 1)`,
    /// so both segment denominators are positive.
    pub open spec fn wf(self) -> bool {
        &&& valid_fraction(self.base_rate)
        &&& valid_fraction(self.slope1)
        &&& valid_fraction(self.slope2)
        &&& 0 < self.optimal_utilization < PRECISION
    }

    /// The borrow rate as a mathematical function of utilization.
    pub open spec fn spec_borrow_rate(self, utilization: int) -> int {
        if utilization <= self.optimal_utilization {
            self.base_rate + utilization * self.slope1 / (self.optimal_utilization as int)
        } else {
            self.base_rate + self.slope1 + (utilization - self.optimal_utilization) * self.slope2
                / (PRECISION - self.optimal_utilization)
        }
    }

    /// The supply rate as a mathematical function: the borrow rate earned on
    /// the utilized share of deposits, less the reserve factor's cut.
    pub open spec fn spec_supply_rate(borrow_rate: int, utilization: int, reserve_factor: int) -> int {
        borrow_rate * utilization / (PRECISION as int) * (PRECISION - reserve_factor)
            / (PRECISION as int)
    }

    /// The stock model: base 2%, slope 4% below the kink, 75% above it,
    /// kink at 80% utilization.
    pub open spec fn spec_default_model() -> InterestRateModel {
        InterestRateModel {
            base_rate: 20_000_000_000_000_000,
            slope1: 40_000_000_000_000_000,
            slope2: 750_000_000_000_000_000,
            optimal_utilization: 800_000_000_000_000_000,
        }
    }

    /// Create the stock interest rate model.
    pub fn default() -> (model: InterestRateModel)
        ensures
            model == Self::spec_default_model(),
            model.wf(),
    {
        InterestRateModel {
            base_rate: 20_000_000_000_000_000,
            slope1: 40_000_000_000_000_000,
            slope2: 750_000_000_000_000_000,
            optimal_utilization: 800_000_000_000_000_000,
        }
    }

    /// Borrow rate at the given utilization.
    ///
    /// Exactly `base_rate + slope1` at the kink, never below `base_rate`,
    /// never above `base_rate + slope1 + slope2`. Callers must clamp
    /// utilization into `[0, PRECISION]` first.
    pub fn calculate_borrow_rate(&self, utilization: i128) -> (rate: i128)
        requires
            self.wf(),
            0 <= utilization <= PRECISION,
        ensures
            rate == self.spec_borrow_rate(utilization as int),
            self.base_rate <= rate <= self.base_rate + self.slope1 + self.slope2,
            utilization == self.optimal_utilization ==> rate == self.base_rate + self.slope1,
    {
        if utilization <= self.optimal_utilization {
            proof {
                let u = utilization as int;
                let s1 = self.slope1 as int;
                let opt = self.optimal_utilization as int;
                assert(0 <= u * s1 <= opt * s1 <= PRECISION * PRECISION) by (nonlinear_arith)
                    requires
                        0 <= u <= opt <= PRECISION,
                        0 <= s1 <= PRECISION,
                ;
                lemma_div_pos_is_pos(u * s1, opt);
                lemma_multiply_divide_le(u * s1, opt, s1);
                if u == opt {
                    assert(u * s1 == s1 * opt) by (nonlinear_arith)
                        requires u == opt,
                    ;
                    lemma_div_by_multiple(s1, opt);
                }
            }
            self.base_rate + (utilization * self.slope1) / self.optimal_utilization
        } else {
            let excess = utilization - self.optimal_utilization;
            let remaining = PRECISION - self.optimal_utilization;
            proof {
                let e = excess as int;
                let s2 = self.slope2 as int;
                let r = remaining as int;
                assert(0 <= e * s2 <= r * s2 <= PRECISION * PRECISION) by (nonlinear_arith)
                    requires
                        0 < e <= r <= PRECISION,
                        0 <= s2 <= PRECISION,
                ;
                lemma_div_pos_is_pos(e * s2, r);
                lemma_multiply_divide_le(e * s2, r, s2);
            }
            self.base_rate + self.slope1 + (excess * self.slope2) / remaining
        }
    }

    /// Supply rate derived from a borrow rate: the rate earned on the
    /// utilized share, with `reserve_factor` (a fixed-point fraction) of it
    /// withheld for reserves. Never exceeds the borrow rate.
    pub fn calculate_supply_rate(
        &self,
        borrow_rate: i128,
        utilization: i128,
        reserve_factor: i128,
    ) -> (rate: i128)
        requires
            0 <= borrow_rate <= i128::MAX / PRECISION,
            0 <= utilization <= PRECISION,
            valid_fraction(reserve_factor),
        ensures
            rate == Self::spec_supply_rate(borrow_rate as int, utilization as int, reserve_factor as int),
            0 <= rate <= borrow_rate,
    {
        proof {
            let br = borrow_rate as int;
            let u = utilization as int;
            let p = PRECISION as int;
            assert(0 <= br * u <= br * p <= (i128::MAX / PRECISION) * p <= i128::MAX)
                by (nonlinear_arith)
                requires
                    0 <= br <= i128::MAX / PRECISION,
                    0 <= u <= p,
                    p == PRECISION as int,
            ;
            lemma_div_pos_is_pos(br * u, p);
            lemma_multiply_divide_le(br * u, p, br);
        }
        let effective_rate = (borrow_rate * utilization) / PRECISION;
        proof {
            let e = effective_rate as int;
            let keep = (PRECISION - reserve_factor) as int;
            let p = PRECISION as int;
            assert(0 <= e * keep <= e * p <= (i128::MAX / PRECISION) * p <= i128::MAX)
                by (nonlinear_arith)
                requires
                    0 <= e <= i128::MAX / PRECISION,
                    0 <= keep <= p,
                    p == PRECISION as int,
            ;
            lemma_div_pos_is_pos(e * keep, p);
            lemma_multiply_divide_le(e * keep, p, e);
        }
        (effective_rate * (PRECISION - reserve_factor)) / PRECISION
    }
}

/// The borrow rate never falls as utilization rises, on either side of the
/// kink and across it. (Truncating fixed-point division lets two nearby
/// utilizations share a rate, so the climb is not strict step by step.)
pub proof fn lemma_borrow_rate_monotone(m: InterestRateModel, u1: int, u2: int)
    requires
        m.wf(),
        0 <= u1 <= u2 <= PRECISION,
    ensures
        m.spec_borrow_rate(u1) <= m.spec_borrow_rate(u2),
{
    let opt = m.optimal_utilization as int;
    let s1 = m.slope1 as int;
    let s2 = m.slope2 as int;
    let p = PRECISION as int;
    if u2 <= opt {
        lemma_mul_inequality(u1, u2, s1);
        lemma_div_is_ordered(u1 * s1, u2 * s1, opt);
    } else if u1 <= opt {
        lemma_mul_inequality(u1, opt, s1);
        lemma_multiply_divide_le(u1 * s1, opt, s1);
        assert((u2 - opt) * s2 >= 0) by (nonlinear_arith)
            requires
                u2 >= opt,
                s2 >= 0,
        ;
        lemma_div_pos_is_pos((u2 - opt) * s2, p - opt);
    } else {
        lemma_mul_inequality(u1 - opt, u2 - opt, s2);
        lemma_div_is_ordered((u1 - opt) * s2, (u2 - opt) * s2, p - opt);
    }
}

/// Below the kink the rate strictly climbs with utilization once the step is
/// wide enough for the truncated division to register: a gain of at least
/// one quantum, `(u2 - u1) * slope1 >= optimal_utilization`.
pub proof fn lemma_borrow_rate_strict_below_kink(m: InterestRateModel, u1: int, u2: int)
    requires
        m.wf(),
        0 <= u1 < u2 <= m.optimal_utilization,
        (u2 - u1) * m.slope1 >= m.optimal_utilization,
    ensures
        m.spec_borrow_rate(u1) < m.spec_borrow_rate(u2),
{
    let opt = m.optimal_utilization as int;
    let s1 = m.slope1 as int;
    assert(u1 * s1 + opt <= u2 * s1) by (nonlinear_arith)
        requires
            (u2 - u1) * s1 >= opt,
    ;
    lemma_hoist_over_denominator(u1 * s1, 1, opt as nat);
    lemma_div_is_ordered(u1 * s1 + opt, u2 * s1, opt);
}

/// Above the kink the rate strictly climbs with utilization once the step is
/// wide enough for the truncated division to register: a gain of at least
/// one quantum, `(u2 - u1) * slope2 >= PRECISION - optimal_utilization`.
pub proof fn lemma_borrow_rate_strict_above_kink(m: InterestRateModel, u1: int, u2: int)
    requires
        m.wf(),
        m.optimal_utilization < u1 < u2 <= PRECISION,
        (u2 - u1) * m.slope2 >= PRECISION - m.optimal_utilization,
    ensures
        m.spec_borrow_rate(u1) < m.spec_borrow_rate(u2),
{
    let opt = m.optimal_utilization as int;
    let s2 = m.slope2 as int;
    let rem = PRECISION - opt;
    assert((u1 - opt) * s2 + rem <= (u2 - opt) * s2) by (nonlinear_arith)
        requires
            (u2 - u1) * s2 >= rem,
    ;
    lemma_hoist_over_denominator((u1 - opt) * s2, 1, rem as nat);
    lemma_div_is_ordered((u1 - opt) * s2 + rem, (u2 - opt) * s2, rem);
}

/// Mathematical shape of the accrual state: per pool, the rate model, the
/// interest index and the time of the last accrual.
pub struct InterestStorageView {
    /// Rate model per pool.
    pub models: Map<Seq<char>, InterestRateModel>,
    /// Interest index per pool.
    pub indexes: Map<Seq<char>, i128>,
    /// Timestamp of the last accrual per pool.
    pub last_accruals: Map<Seq<char>, u64>,
}

/// The model configured for `k`, or the stock model before the first write.
pub open spec fn model_of(v: InterestStorageView, k: Seq<char>) -> InterestRateModel {
    if v.models.contains_key(k) {
        v.models[k]
    } else {
        InterestRateModel::spec_default_model()
    }
}

/// The interest index of `k`; `PRECISION` (1.0) before the first accrual.
pub open spec fn index_of(v: InterestStorageView, k: Seq<char>) -> i128 {
    if v.indexes.contains_key(k) {
        v.indexes[k]
    } else {
        PRECISION
    }
}

/// The last accrual timestamp of `k`; zero before the first accrual.
pub open spec fn last_accrual_of(v: InterestStorageView, k: Seq<char>) -> u64 {
    if v.last_accruals.contains_key(k) {
        v.last_accruals[k]
    } else {
        0
    }
}

/// A yearly rate turned into a per-second rate by truncating division: a
/// deliberate, bounded under-approximation of continuous compounding.
pub open spec fn spec_rate_per_second(borrow_rate: int) -> int {
    borrow_rate / (SECONDS_PER_YEAR as int)
}

/// The index after `time_elapsed` seconds of simple interest at
/// `borrow_rate`: `index * (1 + rate_per_second * elapsed)`, in fixed point.
pub open spec fn spec_new_index(current_index: int, borrow_rate: int, time_elapsed: int) -> int {
    if time_elapsed <= 0 {
        current_index
    } else {
        current_index * (PRECISION + spec_rate_per_second(borrow_rate) * time_elapsed)
            / (PRECISION as int)
    }
}

/// A utilization clamped into `[0, PRECISION]`, as the rate curve requires.
pub open spec fn clamped(utilization: int) -> int {
    if utilization > PRECISION {
        PRECISION as int
    } else {
        utilization
    }
}

/// The index an accrual at `now` must produce for pool `k`, given the
/// pool's aggregates: unchanged unless time passed, else advanced by the
/// borrow rate at the pool's current (clamped) utilization.
pub open spec fn spec_accrued_index(
    v: InterestStorageView,
    k: Seq<char>,
    total_deposits: int,
    total_borrows: int,
    now: int,
) -> int {
    let last = last_accrual_of(v, k) as int;
    if now <= last {
        index_of(v, k) as int
    } else {
        let rate = model_of(v, k).spec_borrow_rate(
            clamped(spec_utilization(total_deposits, total_borrows)),
        );
        spec_new_index(index_of(v, k) as int, rate, now - last)
    }
}

/// Whether the accrual arithmetic for pool `k` at `now` would leave `i128`:
/// either the simple-interest factor or the scaled index would not fit.
pub open spec fn spec_accrue_overflows(
    v: InterestStorageView,
    k: Seq<char>,
    total_deposits: int,
    total_borrows: int,
    now: int,
) -> bool {
    let last = last_accrual_of(v, k) as int;
    if now <= last {
        false
    } else {
        let rate = model_of(v, k).spec_borrow_rate(
            clamped(spec_utilization(total_deposits, total_borrows)),
        );
        let term = spec_rate_per_second(rate) * (now - last);
        term > i128::MAX - PRECISION || index_of(v, k) * (PRECISION + term) > i128::MAX
    }
}

/// The index never moves backward: advancing it by a non-negative rate over
/// non-negative elapsed time can only grow it.
pub proof fn lemma_index_monotonic(current_index: int, borrow_rate: int, time_elapsed: int)
    requires
        current_index >= 0,
        borrow_rate >= 0,
    ensures
        spec_new_index(current_index, borrow_rate, time_elapsed) >= current_index,
{
    if time_elapsed > 0 {
        let p = PRECISION as int;
        lemma_div_pos_is_pos(borrow_rate, SECONDS_PER_YEAR as int);
        let rps = spec_rate_per_second(borrow_rate);
        lemma_mul_inequality(0, rps, time_elapsed);
        let factor = p + rps * time_elapsed;
        assert(current_index * p <= current_index * factor) by (nonlinear_arith)
            requires
                current_index >= 0,
                p <= factor,
        ;
        lemma_div_is_ordered(current_index * p, current_index * factor, p);
        lemma_div_by_multiple(current_index, p);
    }
}

/// Accrual state: per pool, a rate model, the monotonically non-decreasing
/// interest index, and the timestamp of the last accrual.
pub struct InterestStorage {
    models: KvMap<InterestRateModel>,
    indexes: KvMap<i128>,
    last_accruals: KvMap<u64>,
}

impl View for InterestStorage {
    type V = InterestStorageView;

    closed spec fn view(&self) -> InterestStorageView {
        InterestStorageView {
            models: self.models@,
            indexes: self.indexes@,
            last_accruals: self.last_accruals@,
        }
    }
}

impl InterestStorage {
    /// Internal maps are well formed, every stored model is well formed,
    /// and no stored index is below its starting value `PRECISION`.
    pub closed spec fn wf(self) -> bool {
        &&& self.models.wf()
        &&& self.indexes.wf()
        &&& self.last_accruals.wf()
        &&& forall|k: Seq<char>| #[trigger] self.models@.contains_key(k) ==> self.models@[k].wf()
        &&& forall|k: Seq<char>|
            #[trigger] self.indexes@.contains_key(k) ==> self.indexes@[k] >= PRECISION
    }

    /// Empty accrual state: every pool reads the stock model, index
    /// `PRECISION` and last accrual zero.
    pub fn new() -> (r: Self)
        ensures
            r.wf(),
            r@.models == Map::<Seq<char>, InterestRateModel>::empty(),
            r@.indexes == Map::<Seq<char>, i128>::empty(),
            r@.last_accruals == Map::<Seq<char>, u64>::empty(),
    {
        InterestStorage { models: KvMap::new(), indexes: KvMap::new(), last_accruals: KvMap::new() }
    }

    /// Configure the rate model of a pool.
    pub fn set_model(&mut self, pool_id: &String, model: InterestRateModel)
        requires
            old(self).wf(),
            model.wf(),
        ensures
            final(self).wf(),
            final(self)@ == (InterestStorageView {
                models: old(self)@.models.insert(pool_id@, model),
                ..old(self)@
            }),
    {
        self.models.set(pool_id.clone(), model);
    }

    /// The pool's rate model; the stock model before the first write.
    pub fn get_model(&self, pool_id: &String) -> (r: InterestRateModel)
        requires
            self.wf(),
        ensures
            r == model_of(self@, pool_id@),
            r.wf(),
    {
        match self.models.get(pool_id) {
            Some(m) => *m,
            None => InterestRateModel::default(),
        }
    }

    /// The pool's interest index; `PRECISION` before the first accrual.
    pub fn get_interest_index(&self, pool_id: &String) -> (r: i128)
        requires
            self.wf(),
        ensures
            r == index_of(self@, pool_id@),
            r >= PRECISION,
    {
        match self.indexes.get(pool_id) {
            Some(v) => *v,
            None => PRECISION,
        }
    }

    /// Overwrite the pool's interest index. The index starts at `PRECISION`
    /// and never decreases, so no smaller value may be stored.
    pub fn set_interest_index(&mut self, pool_id: &String, index: i128)
        requires
            old(self).wf(),
            index >= PRECISION,
        ensures
            final(self).wf(),
            final(self)@ == (InterestStorageView {
                indexes: old(self)@.indexes.insert(pool_id@, index),
                ..old(self)@
            }),
    {
        self.indexes.set(pool_id.clone(), index);
    }

    /// The pool's last accrual timestamp; zero before the first accrual.
    pub fn get_last_accrual(&self, pool_id: &String) -> (r: u64)
        requires
            self.wf(),
        ensures
            r == last_accrual_of(self@, pool_id@),
    {
        match self.last_accruals.get(pool_id) {
            Some(v) => *v,
            None => 0,
        }
    }

    /// Overwrite the pool's last accrual timestamp.
    pub fn set_last_accrual(&mut self, pool_id: &String, timestamp: u64)
        requires
            old(self).wf(),
        ensures
            final(self).wf(),
            final(self)@ == (InterestStorageView {
                last_accruals: old(self)@.last_accruals.insert(pool_id@, timestamp),
                ..old(self)@
            }),
    {
        self.last_accruals.set(pool_id.clone(), timestamp);
    }

    /// The index after `time_elapsed` seconds of simple interest at
    /// `borrow_rate`: unchanged when no time passed, never smaller than
    /// before. Callers must keep the fixed-point products inside `i128`.
    pub fn calculate_new_index(current_index: i128, borrow_rate: i128, time_elapsed: u64) -> (r:
        i128)
        requires
            current_index >= 0,
            borrow_rate >= 0,
            spec_rate_per_second(borrow_rate as int) * (time_elapsed as int) <= i128::MAX
                - PRECISION,
            current_index * (PRECISION + spec_rate_per_second(borrow_rate as int) * (
            time_elapsed as int)) <= i128::MAX,
        ensures
            r == spec_new_index(current_index as int, borrow_rate as int, time_elapsed as int),
            r >= current_index,
            time_elapsed == 0 ==> r == current_index,
    {
        if time_elapsed == 0 {
            return current_index;
        }
        proof {
            lemma_div_pos_is_pos(borrow_rate as int, SECONDS_PER_YEAR as int);
            lemma_mul_inequality(0, spec_rate_per_second(borrow_rate as int), time_elapsed as int);
            lemma_index_monotonic(current_index as int, borrow_rate as int, time_elapsed as int);
            assert(current_index * (PRECISION + spec_rate_per_second(borrow_rate as int) * (
            time_elapsed as int)) >= 0) by (nonlinear_arith)
                requires
                    current_index >= 0,
                    PRECISION + spec_rate_per_second(borrow_rate as int) * (time_elapsed as int)
                        >= 0,
            ;
        }
        let rate_per_second = borrow_rate / (SECONDS_PER_YEAR as i128);
        let interest_factor = PRECISION + rate_per_second * (time_elapsed as i128);
        (current_index * interest_factor) / PRECISION
    }

    /// Advance the pool's index to `now`, compounding at the borrow rate of
    /// the pool's current utilization, and record `now` as the last accrual.
    ///
    /// Within one timestamp the call is an idempotent no-op, so repeating an
    /// accrual adds nothing; across timestamps the index never decreases.
    /// Fails, changing nothing, exactly when the fixed-point arithmetic
    /// would leave `i128`.
    pub fn accrue(
        &mut self,
        pool_id: &String,
        total_deposits: i128,
        total_borrows: i128,
        now: u64,
    ) -> (r: Result<i128, Error>)
        requires
            old(self).wf(),
            total_deposits >= 0,
            0 <= total_borrows <= i128::MAX / PRECISION,
        ensures
            final(self).wf(),
            match r {
                Ok(idx) => !spec_accrue_overflows(
                    old(self)@,
                    pool_id@,
                    total_deposits as int,
                    total_borrows as int,
                    now as int,
                ) && idx == spec_accrued_index(
                    old(self)@,
                    pool_id@,
                    total_deposits as int,
                    total_borrows as int,
                    now as int,
                ) && idx >= index_of(old(self)@, pool_id@) && final(self)@ == (if now
                    <= last_accrual_of(old(self)@, pool_id@) {
                    old(self)@
                } else {
                    InterestStorageView {
                        indexes: old(self)@.indexes.insert(pool_id@, idx),
                        last_accruals: old(self)@.last_accruals.insert(pool_id@, now),
                        ..old(self)@
                    }
                }),
                Err(e) => e == Error::ArithmeticOverflow && spec_accrue_overflows(
                    old(self)@,
                    pool_id@,
                    total_deposits as int,
                    total_borrows as int,
                    now as int,
                ) && final(self)@ == old(self)@,
            },
            index_of(final(self)@, pool_id@) >= index_of(old(self)@, pool_id@),
    {
        let last = self.get_last_accrual(pool_id);
        let current_index = self.get_interest_index(pool_id);
        if now <= last {
            return Ok(current_index);
        }
        let elapsed = now - last;
        let model = self.get_model(pool_id);
        let utilization_raw = PoolStorage::calculate_utilization(total_deposits, total_borrows);
        let utilization = if utilization_raw > PRECISION {
            PRECISION
        } else {
            utilization_raw
        };
        let borrow_rate = model.calculate_borrow_rate(utilization);
        let rate_per_second = borrow_rate / (SECONDS_PER_YEAR as i128);
        proof {
            lemma_div_pos_is_pos(borrow_rate as int, SECONDS_PER_YEAR as int);
        }
        let term = match rate_per_second.checked_mul(elapsed as i128) {
            Some(t) => t,
            None => {
                return Err(Error::ArithmeticOverflow);
            },
        };
        proof {
            lemma_mul_inequality(0, rate_per_second as int, elapsed as int);
        }
        let interest_factor = match PRECISION.checked_add(term) {
            Some(f) => f,
            None => {
                return Err(Error::ArithmeticOverflow);
            },
        };
        let scaled = match current_index.checked_mul(interest_factor) {
            Some(s) => s,
            None => {
                return Err(Error::ArithmeticOverflow);
            },
        };
        proof {
            assert(scaled >= 0) by (nonlinear_arith)
                requires
                    scaled == current_index * interest_factor,
                    current_index >= 0,
                    interest_factor >= 0,
            ;
            lemma_index_monotonic(current_index as int, borrow_rate as int, elapsed as int);
        }
        let new_index = scaled / PRECISION;
        self.set_interest_index(pool_id, new_index);
        self.set_last_accrual(pool_id, now);
        Ok(new_index)
    }
}

} // verus!
