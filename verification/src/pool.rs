//! The pool ledger: per-pool configuration, aggregates and pause state.
//!
//! One [`LendingPool`] record exists per listed asset. Aggregate deposits,
//! borrows and reserves are kept under the pool id and mutated by every
//! state-changing operation; utilization and available liquidity are derived
//! from them.

use crate::errors::Error;
use crate::interest::PRECISION;
use crate::kv::KvMap;
use vstd::arithmetic::div_mod::{lemma_div_of0, lemma_div_pos_is_pos, lemma_multiply_divide_le};
use vstd::prelude::*;

verus! {

/// Configuration and lifecycle of one lending pool.
pub struct LendingPool {
    /// Unique pool identifier.
    pub id: String,
    /// Display name.
    pub name: String,
    /// Asset symbol.
    pub asset: String,
    /// Identifier of the asset's contract.
    pub asset_address: String,
    /// Share of collateral value usable to back new debt (fixed-point).
    pub collateral_factor: i128,
    /// Collateral-to-debt ratio below which liquidation opens (fixed-point).
    pub liquidation_threshold: i128,
    /// Premium charged on seized collateral (fixed-point).
    pub liquidation_penalty: i128,
    /// Share of borrower interest kept as reserves, in basis points.
    pub reserve_factor: u32,
    /// Whether the pool accepts operations.
    pub is_active: bool,
    /// Creation timestamp.
    pub created_at: u64,
}

/// Mathematical shape of the pool ledger: each entity kind keyed by the
/// pool id's view.
pub struct PoolStorageView {
    /// Pool records.
    pub pools: Map<Seq<char>, LendingPool>,
    /// Aggregate deposits per pool.
    pub total_deposits: Map<Seq<char>, i128>,
    /// Aggregate borrows per pool.
    pub total_borrows: Map<Seq<char>, i128>,
    /// Protocol reserves per pool.
    pub reserves: Map<Seq<char>, i128>,
    /// Pause flag per pool.
    pub paused: Map<Seq<char>, bool>,
    /// Ids of all registered pools, in creation order.
    pub pool_list: Seq<Seq<char>>,
}

/// The aggregate stored under `k`, or zero before the first write.
pub open spec fn stored_or_zero(m: Map<Seq<char>, i128>, k: Seq<char>) -> i128 {
    if m.contains_key(k) {
        m[k]
    } else {
        0
    }
}

/// The flag stored under `k`, or false before the first write.
pub open spec fn stored_or_false(m: Map<Seq<char>, bool>, k: Seq<char>) -> bool {
    if m.contains_key(k) {
        m[k]
    } else {
        false
    }
}

/// Utilization as a mathematical function: the borrowed share of deposits,
/// as a fixed-point fraction, zero for an empty pool.
pub open spec fn spec_utilization(total_deposits: int, total_borrows: int) -> int {
    if total_deposits == 0 {
        0
    } else {
        total_borrows * PRECISION / total_deposits
    }
}

/// Available liquidity as a mathematical function: what remains of deposits
/// after borrows, floored at zero.
pub open spec fn spec_available_liquidity(total_deposits: int, total_borrows: int) -> int {
    if total_deposits <= total_borrows {
        0
    } else {
        total_deposits - total_borrows
    }
}

/// The pool ledger.
pub struct PoolStorage {
    pools: KvMap<LendingPool>,
    total_deposits: KvMap<i128>,
    total_borrows: KvMap<i128>,
    reserves: KvMap<i128>,
    paused: KvMap<bool>,
    pool_list: Vec<String>,
}

impl View for PoolStorage {
    type V = PoolStorageView;

    closed spec fn view(&self) -> PoolStorageView {
        PoolStorageView {
            pools: self.pools@,
            total_deposits: self.total_deposits@,
            total_borrows: self.total_borrows@,
            reserves: self.reserves@,
            paused: self.paused@,
            pool_list: self.pool_list.deep_view(),
        }
    }
}

impl PoolStorage {
    /// Internal maps are well formed and no stored aggregate is negative.
    pub closed spec fn wf(self) -> bool {
        &&& self.pools.wf()
        &&& self.total_deposits.wf()
        &&& self.total_borrows.wf()
        &&& self.reserves.wf()
        &&& self.paused.wf()
        &&& forall|k: Seq<char>|
            #[trigger] self.total_deposits@.contains_key(k) ==> self.total_deposits@[k] >= 0
        &&& forall|k: Seq<char>|
            #[trigger] self.total_borrows@.contains_key(k) ==> self.total_borrows@[k] >= 0
        &&& forall|k: Seq<char>|
            #[trigger] self.reserves@.contains_key(k) ==> self.reserves@[k] >= 0
    }

    /// An empty ledger: no pools, no aggregates.
    pub fn new() -> (r: Self)
        ensures
            r.wf(),
            r@.pools == Map::<Seq<char>, LendingPool>::empty(),
            r@.total_deposits == Map::<Seq<char>, i128>::empty(),
            r@.total_borrows == Map::<Seq<char>, i128>::empty(),
            r@.reserves == Map::<Seq<char>, i128>::empty(),
            r@.paused == Map::<Seq<char>, bool>::empty(),
            r@.pool_list == Seq::<Seq<char>>::empty(),
    {
        let r = PoolStorage {
            pools: KvMap::new(),
            total_deposits: KvMap::new(),
            total_borrows: KvMap::new(),
            reserves: KvMap::new(),
            paused: KvMap::new(),
            pool_list: Vec::new(),
        };
        proof {
            assert(r.pool_list.deep_view() =~= Seq::<Seq<char>>::empty());
        }
        r
    }

    /// Store `pool` under its id, replacing any previous record.
    pub fn set(&mut self, pool: LendingPool)
        requires
            old(self).wf(),
        ensures
            final(self).wf(),
            final(self)@ == (PoolStorageView {
                pools: old(self)@.pools.insert(pool.id@, pool),
                ..old(self)@
            }),
    {
        let key = pool.id.clone();
        self.pools.set(key, pool);
    }

    /// Register a new pool: stores the record and appends its id to the
    /// pool list. Rejects an id that is already taken.
    pub fn create(&mut self, pool: LendingPool) -> (r: Result<(), Error>)
        requires
            old(self).wf(),
        ensures
            final(self).wf(),
            match r {
                Ok(()) => !old(self)@.pools.contains_key(pool.id@) && final(self)@
                    == (PoolStorageView {
                    pools: old(self)@.pools.insert(pool.id@, pool),
                    pool_list: old(self)@.pool_list.push(pool.id@),
                    ..old(self)@
                }),
                Err(e) => e == Error::PoolAlreadyExists && old(self)@.pools.contains_key(pool.id@)
                    && final(self)@ == old(self)@,
            },
    {
        if self.pools.has(&pool.id) {
            return Err(Error::PoolAlreadyExists);
        }
        let key = pool.id.clone();
        let id = pool.id.clone();
        self.pools.set(key, pool);
        self.pool_list.push(id);
        proof {
            assert(self.pool_list.deep_view() =~= old(self).pool_list.deep_view().push(
                self.pool_list@.last()@,
            ));
        }
        Ok(())
    }

    /// The pool stored under `pool_id`, if any.
    pub fn get(&self, pool_id: &String) -> (r: Option<&LendingPool>)
        requires
            self.wf(),
        ensures
            match r {
                Some(p) => self@.pools.contains_key(pool_id@) && *p == self@.pools[pool_id@],
                None => !self@.pools.contains_key(pool_id@),
            },
    {
        self.pools.get(pool_id)
    }

    /// Whether a pool is registered under `pool_id`.
    pub fn has_pool(&self, pool_id: &String) -> (r: bool)
        requires
            self.wf(),
        ensures
            r == self@.pools.contains_key(pool_id@),
    {
        self.pools.has(pool_id)
    }

    /// Aggregate deposits of the pool; zero before the first write.
    pub fn get_total_deposits(&self, pool_id: &String) -> (r: i128)
        requires
            self.wf(),
        ensures
            r == stored_or_zero(self@.total_deposits, pool_id@),
            r >= 0,
    {
        match self.total_deposits.get(pool_id) {
            Some(v) => *v,
            None => 0,
        }
    }

    /// Overwrite the pool's aggregate deposits.
    pub fn set_total_deposits(&mut self, pool_id: &String, amount: i128)
        requires
            old(self).wf(),
            amount >= 0,
        ensures
            final(self).wf(),
            final(self)@ == (PoolStorageView {
                total_deposits: old(self)@.total_deposits.insert(pool_id@, amount),
                ..old(self)@
            }),
    {
        self.total_deposits.set(pool_id.clone(), amount);
    }

    /// Aggregate borrows of the pool; zero before the first write.
    pub fn get_total_borrows(&self, pool_id: &String) -> (r: i128)
        requires
            self.wf(),
        ensures
            r == stored_or_zero(self@.total_borrows, pool_id@),
            r >= 0,
    {
        match self.total_borrows.get(pool_id) {
            Some(v) => *v,
            None => 0,
        }
    }

    /// Overwrite the pool's aggregate borrows.
    pub fn set_total_borrows(&mut self, pool_id: &String, amount: i128)
        requires
            old(self).wf(),
            amount >= 0,
        ensures
            final(self).wf(),
            final(self)@ == (PoolStorageView {
                total_borrows: old(self)@.total_borrows.insert(pool_id@, amount),
                ..old(self)@
            }),
    {
        self.total_borrows.set(pool_id.clone(), amount);
    }

    /// Reserves of the pool; zero before the first write.
    pub fn get_reserves(&self, pool_id: &String) -> (r: i128)
        requires
            self.wf(),
        ensures
            r == stored_or_zero(self@.reserves, pool_id@),
            r >= 0,
    {
        match self.reserves.get(pool_id) {
            Some(v) => *v,
            None => 0,
        }
    }

    /// Grow the pool's reserves by `amount`. Fails, changing nothing, only
    /// if the sum would not fit in an `i128`.
    pub fn add_reserves(&mut self, pool_id: &String, amount: i128) -> (r: Result<(), Error>)
        requires
            old(self).wf(),
            amount >= 0,
        ensures
            final(self).wf(),
            match r {
                Ok(()) => stored_or_zero(old(self)@.reserves, pool_id@) + amount <= i128::MAX
                    && final(self)@ == (PoolStorageView {
                    reserves: old(self)@.reserves.insert(
                        pool_id@,
                        (stored_or_zero(old(self)@.reserves, pool_id@) + amount) as i128,
                    ),
                    ..old(self)@
                }),
                Err(e) => e == Error::ArithmeticOverflow && stored_or_zero(
                    old(self)@.reserves,
                    pool_id@,
                ) + amount > i128::MAX && final(self)@ == old(self)@,
            },
    {
        let current = self.get_reserves(pool_id);
        match current.checked_add(amount) {
            Some(sum) => {
                self.reserves.set(pool_id.clone(), sum);
                Ok(())
            },
            None => Err(Error::ArithmeticOverflow),
        }
    }

    /// Utilization: the borrowed share of deposits as a fixed-point
    /// fraction. Zero when the pool holds no deposits; at most `PRECISION`
    /// whenever borrows do not exceed deposits.
    pub fn calculate_utilization(total_deposits: i128, total_borrows: i128) -> (r: i128)
        requires
            total_deposits >= 0,
            0 <= total_borrows <= i128::MAX / PRECISION,
        ensures
            r == spec_utilization(total_deposits as int, total_borrows as int),
            r >= 0,
            total_borrows == 0 ==> r == 0,
            total_borrows <= total_deposits && total_deposits > 0 ==> r <= PRECISION,
    {
        if total_deposits == 0 {
            return 0;
        }
        proof {
            let b = total_borrows as int;
            let d = total_deposits as int;
            let p = PRECISION as int;
            assert(0 <= b * p <= (i128::MAX / PRECISION) * p <= i128::MAX) by (nonlinear_arith)
                requires
                    0 <= b <= i128::MAX / PRECISION,
                    p == PRECISION as int,
            ;
            lemma_div_pos_is_pos(b * p, d);
            if total_borrows == 0 {
                assert(b * p == 0);
                lemma_div_of0(d);
            }
            if b <= d {
                assert(b * p <= d * p) by (nonlinear_arith)
                    requires
                        0 <= b <= d,
                        p > 0,
                ;
                lemma_multiply_divide_le(b * p, d, p);
            }
        }
        (total_borrows * PRECISION) / total_deposits
    }

    /// Liquidity still available for withdrawal or new borrows: deposits
    /// less borrows, floored at zero so a pool never reports negative
    /// liquidity.
    pub fn calculate_available_liquidity(total_deposits: i128, total_borrows: i128) -> (r: i128)
        requires
            total_deposits >= 0,
            total_borrows >= 0,
        ensures
            r == spec_available_liquidity(total_deposits as int, total_borrows as int),
            r >= 0,
            total_borrows >= total_deposits ==> r == 0,
            r <= total_deposits,
    {
        if total_deposits <= total_borrows {
            return 0;
        }
        total_deposits - total_borrows
    }

    /// Ids of all registered pools, in creation order.
    pub fn get_list(&self) -> (r: Vec<String>)
        requires
            self.wf(),
        ensures
            r.deep_view() == self@.pool_list,
    {
        let r = self.pool_list.clone();
        proof {
            assert forall|i: int| 0 <= i < r@.len() implies r@[i]@ == self.pool_list@[i]@ by {
                assert(cloned::<String>(self.pool_list@[i], r@[i]));
            }
            assert(r.deep_view() =~= self.pool_list.deep_view());
        }
        r
    }

    /// Append `pool_id` to the pool list.
    pub fn add_to_list(&mut self, pool_id: &String)
        requires
            old(self).wf(),
        ensures
            final(self).wf(),
            final(self)@ == (PoolStorageView {
                pool_list: old(self)@.pool_list.push(pool_id@),
                ..old(self)@
            }),
    {
        self.pool_list.push(pool_id.clone());
        proof {
            assert(self.pool_list.deep_view() =~= old(self).pool_list.deep_view().push(pool_id@));
        }
    }

    /// Succeed only if a pool is registered under `pool_id`, as every
    /// operation on a pool must check first.
    pub fn require_pool(&self, pool_id: &String) -> (r: Result<(), Error>)
        requires
            self.wf(),
        ensures
            r is Ok <==> self@.pools.contains_key(pool_id@),
            r is Err ==> r == Err::<(), Error>(Error::PoolNotFound),
    {
        if self.pools.has(pool_id) {
            Ok(())
        } else {
            Err(Error::PoolNotFound)
        }
    }

    /// Succeed only if the pool is not paused, as every pool mutation must
    /// check first.
    pub fn require_not_paused(&self, pool_id: &String) -> (r: Result<(), Error>)
        requires
            self.wf(),
        ensures
            r is Ok <==> !stored_or_false(self@.paused, pool_id@),
            r is Err ==> r == Err::<(), Error>(Error::PoolPaused),
    {
        if self.is_paused(pool_id) {
            Err(Error::PoolPaused)
        } else {
            Ok(())
        }
    }

    /// Whether the pool is paused; false before the first write.
    pub fn is_paused(&self, pool_id: &String) -> (r: bool)
        requires
            self.wf(),
        ensures
            r == stored_or_false(self@.paused, pool_id@),
    {
        match self.paused.get(pool_id) {
            Some(v) => *v,
            None => false,
        }
    }

    /// Set the pool's pause flag.
    pub fn set_paused(&mut self, pool_id: &String, paused: bool)
        requires
            old(self).wf(),
        ensures
            final(self).wf(),
            final(self)@ == (PoolStorageView {
                paused: old(self)@.paused.insert(pool_id@, paused),
                ..old(self)@
            }),
    {
        self.paused.set(pool_id.clone(), paused);
    }
}

} // verus!
