//! Per-user position accounting.
//!
//! A deposit position's live balance and a borrow position's live debt are
//! recovered lazily, by comparing the index snapshot taken when the position
//! was last touched against the pool's current index. Re-snapshotting folds
//! the accrued difference into the stored amount, so interest is realized
//! incrementally and realizing it twice at one index adds nothing.

use crate::errors::Error;
use crate::interest::PRECISION;
use crate::kv::{KvMap, KvPairMap};
use vstd::arithmetic::div_mod::{
    lemma_div_by_multiple, lemma_div_is_ordered, lemma_div_multiples_vanish, lemma_div_pos_is_pos,
};
use vstd::arithmetic::mul::lemma_mul_inequality;
use vstd::prelude::*;

verus! {

/// One user's deposit into one pool.
pub struct DepositPosition {
    /// Pool the deposit sits in.
    pub pool_id: String,
    /// The depositor.
    pub depositor: String,
    /// Principal plus all interest realized so far, in asset units.
    pub amount: i128,
    /// Proportional claim on the pool.
    pub shares: i128,
    /// The pool's interest index when the position was last touched.
    pub index_at_deposit: i128,
    /// When the deposit was opened.
    pub deposited_at: u64,
}

/// One user's borrow from one pool.
pub struct BorrowPosition {
    /// Pool the debt is owed to.
    pub pool_id: String,
    /// The borrower.
    pub borrower: String,
    /// Debt as of the last snapshot, in asset units.
    pub principal: i128,
    /// The pool's interest index when the position was last touched.
    pub index_at_borrow: i128,
    /// Collateral backing the debt.
    pub collateral_amount: i128,
    /// Asset the collateral is held in.
    pub collateral_asset: String,
    /// When the borrow was opened.
    pub borrowed_at: u64,
}

impl DepositPosition {
    /// Amounts are non-negative and the snapshot is a valid index value.
    pub open spec fn valid(self) -> bool {
        self.amount >= 0 && self.shares >= 0 && self.index_at_deposit >= 0
    }
}

impl BorrowPosition {
    /// Amounts are non-negative and the snapshot is a valid index value.
    pub open spec fn valid(self) -> bool {
        self.principal >= 0 && self.index_at_borrow >= 0 && self.collateral_amount >= 0
    }
}

/// Interest a deposit has earned since its snapshot: the amount scaled by
/// the index's relative growth, zero if the snapshot is unset or the index
/// has not advanced past it.
pub open spec fn spec_deposit_interest(p: DepositPosition, current_index: int) -> int {
    if p.index_at_deposit == 0 || current_index <= p.index_at_deposit {
        0
    } else {
        p.amount * (current_index * PRECISION / (p.index_at_deposit as int) - PRECISION)
            / (PRECISION as int)
    }
}

/// Whether computing the deposit interest would leave `i128`.
pub open spec fn spec_deposit_interest_overflows(p: DepositPosition, current_index: int) -> bool {
    if p.index_at_deposit == 0 || current_index <= p.index_at_deposit {
        false
    } else {
        current_index * PRECISION > i128::MAX || p.amount * (current_index * PRECISION / (
        p.index_at_deposit as int) - PRECISION) > i128::MAX
    }
}

/// A borrow's live debt: the principal scaled by the index's growth since
/// the snapshot, or unscaled if the snapshot was never set.
pub open spec fn spec_current_debt(p: BorrowPosition, current_index: int) -> int {
    if p.index_at_borrow == 0 {
        p.principal as int
    } else {
        p.principal * current_index / (p.index_at_borrow as int)
    }
}

/// Whether computing the live debt would leave `i128`.
pub open spec fn spec_current_debt_overflows(p: BorrowPosition, current_index: int) -> bool {
    if p.index_at_borrow == 0 {
        false
    } else {
        p.principal * current_index > i128::MAX
    }
}

/// The solvency ratio: collateral discounted by the liquidation threshold,
/// over debt; the maximum `i128` when there is no debt to be unsafe
/// against. At or above `PRECISION` (1.0) the position is safe.
pub open spec fn spec_health_factor(
    collateral_value: int,
    debt_value: int,
    liquidation_threshold: int,
) -> int {
    if debt_value == 0 {
        i128::MAX as int
    } else {
        collateral_value * liquidation_threshold / (debt_value * PRECISION)
    }
}

impl DepositPosition {
    /// Fold the interest accrued since the snapshot into `amount` and
    /// re-snapshot at `current_index`, so that realizing again at the same
    /// index yields zero. Returns the interest realized. Fails, changing
    /// nothing, exactly when the arithmetic would leave `i128`.
    pub fn realize_interest(&mut self, current_index: i128) -> (r: Result<i128, Error>)
        requires
            old(self).valid(),
            current_index >= 0,
        ensures
            match r {
                Ok(interest) => {
                    &&& interest == spec_deposit_interest(*old(self), current_index as int)
                    &&& interest >= 0
                    &&& final(self).amount == old(self).amount + interest
                    &&& final(self).index_at_deposit == current_index
                    &&& final(self).shares == old(self).shares
                    &&& final(self).pool_id == old(self).pool_id
                    &&& final(self).depositor == old(self).depositor
                    &&& final(self).deposited_at == old(self).deposited_at
                    &&& final(self).valid()
                    &&& spec_deposit_interest(*final(self), current_index as int) == 0
                },
                Err(e) => {
                    &&& e == Error::ArithmeticOverflow
                    &&& *final(self) == *old(self)
                    &&& (spec_deposit_interest_overflows(*old(self), current_index as int)
                        || old(self).amount + spec_deposit_interest(
                        *old(self),
                        current_index as int,
                    ) > i128::MAX)
                },
            },
            r is Err <==> (spec_deposit_interest_overflows(*old(self), current_index as int)
                || old(self).amount + spec_deposit_interest(*old(self), current_index as int)
                > i128::MAX),
    {
        let interest = match PositionStorage::calculate_deposit_interest(self, current_index) {
            Ok(v) => v,
            Err(e) => {
                return Err(e);
            },
        };
        let new_amount = match self.amount.checked_add(interest) {
            Some(v) => v,
            None => {
                return Err(Error::ArithmeticOverflow);
            },
        };
        self.amount = new_amount;
        self.index_at_deposit = current_index;
        Ok(interest)
    }
}

impl BorrowPosition {
    /// Replace `principal` with the live debt as of `current_index` and
    /// re-snapshot there, so the position again reads exactly its stored
    /// principal. Returns the refreshed debt. Fails, changing nothing,
    /// exactly when the arithmetic would leave `i128`.
    pub fn refresh_debt(&mut self, current_index: i128) -> (r: Result<i128, Error>)
        requires
            old(self).valid(),
            current_index >= 0,
        ensures
            match r {
                Ok(debt) => {
                    &&& debt == spec_current_debt(*old(self), current_index as int)
                    &&& debt >= 0
                    &&& final(self).principal == debt
                    &&& final(self).index_at_borrow == current_index
                    &&& final(self).collateral_amount == old(self).collateral_amount
                    &&& final(self).pool_id == old(self).pool_id
                    &&& final(self).borrower == old(self).borrower
                    &&& final(self).collateral_asset == old(self).collateral_asset
                    &&& final(self).borrowed_at == old(self).borrowed_at
                    &&& final(self).valid()
                    &&& current_index > 0 ==> spec_current_debt(
                        *final(self),
                        current_index as int,
                    ) == final(self).principal
                },
                Err(e) => e == Error::ArithmeticOverflow && *final(self) == *old(self),
            },
            r is Err <==> spec_current_debt_overflows(*old(self), current_index as int),
    {
        let debt = match PositionStorage::calculate_current_debt(self, current_index) {
            Ok(v) => v,
            Err(e) => {
                return Err(e);
            },
        };
        self.principal = debt;
        self.index_at_borrow = current_index;
        proof {
            if current_index > 0 {
                assert(debt * current_index == current_index * debt);
                lemma_div_multiples_vanish(debt as int, current_index as int);
            }
        }
        Ok(debt)
    }
}

/// Per-user position records, keyed by (user, pool id), with per-user
/// membership lists of the pools they participate in.
pub struct PositionStorage {
    deposits: KvPairMap<DepositPosition>,
    borrows: KvPairMap<BorrowPosition>,
    user_deposits: KvMap<Vec<String>>,
    user_borrows: KvMap<Vec<String>>,
}

/// Mathematical shape of the position store: position records keyed by
/// (user, pool id), and each user's membership lists.
pub struct PositionStorageView {
    /// Deposit positions by (depositor, pool id).
    pub deposits: Map<(Seq<char>, Seq<char>), DepositPosition>,
    /// Borrow positions by (borrower, pool id).
    pub borrows: Map<(Seq<char>, Seq<char>), BorrowPosition>,
    /// Pools each user deposits into.
    pub user_deposits: Map<Seq<char>, Vec<String>>,
    /// Pools each user borrows from.
    pub user_borrows: Map<Seq<char>, Vec<String>>,
}

/// The id `id` occurs in `list`.
pub open spec fn contains_id(list: Seq<Seq<char>>, id: Seq<char>) -> bool {
    exists|i: int| 0 <= i < list.len() && list[i] == id
}

/// The pools `user` deposits into; empty before the first deposit.
pub open spec fn user_deposit_list(v: PositionStorageView, user: Seq<char>) -> Seq<Seq<char>> {
    if v.user_deposits.contains_key(user) {
        v.user_deposits[user].deep_view()
    } else {
        Seq::empty()
    }
}

/// The pools `user` borrows from; empty before the first borrow.
pub open spec fn user_borrow_list(v: PositionStorageView, user: Seq<char>) -> Seq<Seq<char>> {
    if v.user_borrows.contains_key(user) {
        v.user_borrows[user].deep_view()
    } else {
        Seq::empty()
    }
}

/// A membership list after an idempotent insert of `id`.
pub open spec fn list_with(list: Seq<Seq<char>>, id: Seq<char>) -> Seq<Seq<char>> {
    if contains_id(list, id) {
        list
    } else {
        list.push(id)
    }
}

/// Keeps everything but `id`.
pub open spec fn keeps(id: Seq<char>) -> spec_fn(Seq<char>) -> bool {
    |x: Seq<char>| x != id
}

/// A membership list after every occurrence of `id` is dropped.
pub open spec fn list_without(list: Seq<Seq<char>>, id: Seq<char>) -> Seq<Seq<char>> {
    list.filter(keeps(id))
}

/// Whether `id` occurs in `list`.
fn contains_str(list: &Vec<String>, id: &String) -> (r: bool)
    ensures
        r == contains_id(list.deep_view(), id@),
{
    let mut j: usize = 0;
    while j < list.len()
        invariant
            j <= list@.len(),
            forall|jj: int| 0 <= jj < j ==> list@[jj]@ != id@,
        decreases list@.len() - j,
    {
        if list[j] == *id {
            proof {
                assert(list.deep_view()[j as int] == list@[j as int]@);
            }
            return true;
        }
        j = j + 1;
    }
    proof {
        assert forall|i: int| 0 <= i < list.deep_view().len() implies list.deep_view()[i] != id@ by {
            assert(list.deep_view()[i] == list@[i]@);
        }
    }
    false
}

/// An owned copy of an id list, equal element by element.
fn clone_id_list(list: &Vec<String>) -> (r: Vec<String>)
    ensures
        r@.len() == list@.len(),
        forall|i: int| 0 <= i < list@.len() ==> r@[i] == list@[i],
        r.deep_view() == list.deep_view(),
{
    let r = list.clone();
    proof {
        assert forall|i: int| 0 <= i < list@.len() implies r@[i] == list@[i] by {
            assert(cloned::<String>(list@[i], r@[i]));
        }
        assert(r.deep_view() =~= list.deep_view());
    }
    r
}

/// Every id of `list` except `id`, in order.
fn without_id(list: &Vec<String>, id: &String) -> (r: Vec<String>)
    ensures
        r.deep_view() == list_without(list.deep_view(), id@),
{
    let ghost s = list.deep_view();
    let ghost pred = keeps(id@);
    let mut r: Vec<String> = Vec::new();
    proof {
        reveal_with_fuel(Seq::<_>::filter, 2);
        assert(r.deep_view() =~= s.subrange(0, 0).filter(pred));
    }
    let mut j: usize = 0;
    while j < list.len()
        invariant
            j <= list@.len(),
            s == list.deep_view(),
            pred == keeps(id@),
            r.deep_view() == s.subrange(0, j as int).filter(pred),
        decreases list@.len() - j,
    {
        let ghost r_before = r.deep_view();
        if !(list[j] == *id) {
            r.push(list[j].clone());
            proof {
                assert(cloned::<String>(list@[j as int], r@[r@.len() - 1]));
                assert(r.deep_view() =~= r_before.push(s[j as int]));
            }
        }
        proof {
            reveal_with_fuel(Seq::<_>::filter, 2);
            assert(s.subrange(0, j as int + 1) =~= s.subrange(0, j as int) + seq![s[j as int]]);
            Seq::<Seq<char>>::filter_distributes_over_add(
                s.subrange(0, j as int),
                seq![s[j as int]],
                pred,
            );
            if pred(s[j as int]) {
                assert(seq![s[j as int]].filter(pred) =~= seq![s[j as int]]);
                assert(r.deep_view() =~= s.subrange(0, j as int).filter(pred) + seq![s[j as int]]);
            } else {
                assert(seq![s[j as int]].filter(pred) =~= Seq::<Seq<char>>::empty());
                assert(r.deep_view() =~= s.subrange(0, j as int).filter(pred)
                    + Seq::<Seq<char>>::empty());
            }
        }
        j = j + 1;
    }
    proof {
        assert(s.subrange(0, s.len() as int) =~= s);
    }
    r
}

impl View for PositionStorage {
    type V = PositionStorageView;

    closed spec fn view(&self) -> PositionStorageView {
        PositionStorageView {
            deposits: self.deposits@,
            borrows: self.borrows@,
            user_deposits: self.user_deposits@,
            user_borrows: self.user_borrows@,
        }
    }
}

impl PositionStorage {
    /// Internal maps are well formed and every stored position is valid and
    /// filed under its own (user, pool id) key.
    pub closed spec fn wf(self) -> bool {
        &&& self.deposits.wf()
        &&& self.borrows.wf()
        &&& self.user_deposits.wf()
        &&& self.user_borrows.wf()
        &&& forall|k: (Seq<char>, Seq<char>)|
            #[trigger] self.deposits@.contains_key(k) ==> self.deposits@[k].valid()
                && self.deposits@[k].depositor@ == k.0 && self.deposits@[k].pool_id@ == k.1
        &&& forall|k: (Seq<char>, Seq<char>)|
            #[trigger] self.borrows@.contains_key(k) ==> self.borrows@[k].valid()
                && self.borrows@[k].borrower@ == k.0 && self.borrows@[k].pool_id@ == k.1
    }

    /// An empty position store.
    pub fn new() -> (r: Self)
        ensures
            r.wf(),
            r@.deposits == Map::<(Seq<char>, Seq<char>), DepositPosition>::empty(),
            r@.borrows == Map::<(Seq<char>, Seq<char>), BorrowPosition>::empty(),
            r@.user_deposits == Map::<Seq<char>, Vec<String>>::empty(),
            r@.user_borrows == Map::<Seq<char>, Vec<String>>::empty(),
    {
        PositionStorage {
            deposits: KvPairMap::new(),
            borrows: KvPairMap::new(),
            user_deposits: KvMap::new(),
            user_borrows: KvMap::new(),
        }
    }

    /// Store a deposit position under its (depositor, pool id) key and
    /// enter the pool into the depositor's membership list exactly once.
    pub fn set_deposit(&mut self, position: DepositPosition)
        requires
            old(self).wf(),
            position.valid(),
        ensures
            final(self).wf(),
            final(self)@.deposits == old(self)@.deposits.insert(
                (position.depositor@, position.pool_id@),
                position,
            ),
            final(self)@.borrows == old(self)@.borrows,
            final(self)@.user_borrows == old(self)@.user_borrows,
            user_deposit_list(final(self)@, position.depositor@) == list_with(
                user_deposit_list(old(self)@, position.depositor@),
                position.pool_id@,
            ),
            forall|u: Seq<char>|
                u != position.depositor@ ==> user_deposit_list(final(self)@, u)
                    == user_deposit_list(old(self)@, u),
    {
        self.add_to_user_deposits(&position.depositor, &position.pool_id);
        let user = position.depositor.clone();
        let pool = position.pool_id.clone();
        self.deposits.set(user, pool, position);
    }

    /// The deposit position of `depositor` in `pool_id`, if any.
    pub fn get_deposit(&self, depositor: &String, pool_id: &String) -> (r: Option<
        &DepositPosition,
    >)
        requires
            self.wf(),
        ensures
            match r {
                Some(p) => self@.deposits.contains_key((depositor@, pool_id@)) && *p
                    == self@.deposits[(depositor@, pool_id@)] && p.valid(),
                None => !self@.deposits.contains_key((depositor@, pool_id@)),
            },
    {
        self.deposits.get(depositor, pool_id)
    }

    /// Succeed only if `depositor` holds a deposit position in `pool_id`,
    /// as every operation on a position must check first.
    pub fn require_deposit(&self, depositor: &String, pool_id: &String) -> (r: Result<(), Error>)
        requires
            self.wf(),
        ensures
            r is Ok <==> self@.deposits.contains_key((depositor@, pool_id@)),
            r is Err ==> r == Err::<(), Error>(Error::PositionNotFound),
    {
        if self.deposits.has(depositor, pool_id) {
            Ok(())
        } else {
            Err(Error::PositionNotFound)
        }
    }

    /// Drop the deposit position of `depositor` in `pool_id` and take the
    /// pool out of the depositor's membership list.
    pub fn remove_deposit(&mut self, depositor: &String, pool_id: &String)
        requires
            old(self).wf(),
        ensures
            final(self).wf(),
            final(self)@.deposits == old(self)@.deposits.remove((depositor@, pool_id@)),
            final(self)@.borrows == old(self)@.borrows,
            final(self)@.user_borrows == old(self)@.user_borrows,
            user_deposit_list(final(self)@, depositor@) == list_without(
                user_deposit_list(old(self)@, depositor@),
                pool_id@,
            ),
            forall|u: Seq<char>|
                u != depositor@ ==> user_deposit_list(final(self)@, u) == user_deposit_list(
                    old(self)@,
                    u,
                ),
    {
        self.deposits.remove(depositor, pool_id);
        self.remove_from_user_deposits(depositor, pool_id);
    }

    /// The pools `user` deposits into, in insertion order.
    pub fn get_user_deposits(&self, user: &String) -> (r: Vec<String>)
        requires
            self.wf(),
        ensures
            r.deep_view() == user_deposit_list(self@, user@),
    {
        match self.user_deposits.get(user) {
            Some(list) => clone_id_list(list),
            None => {
                let r: Vec<String> = Vec::new();
                proof {
                    assert(r.deep_view() =~= Seq::<Seq<char>>::empty());
                }
                r
            },
        }
    }

    /// Enter `pool_id` into the depositor's membership list unless already
    /// present.
    fn add_to_user_deposits(&mut self, user: &String, pool_id: &String)
        requires
            old(self).wf(),
        ensures
            final(self).wf(),
            final(self)@.deposits == old(self)@.deposits,
            final(self)@.borrows == old(self)@.borrows,
            final(self)@.user_borrows == old(self)@.user_borrows,
            user_deposit_list(final(self)@, user@) == list_with(
                user_deposit_list(old(self)@, user@),
                pool_id@,
            ),
            forall|u: Seq<char>|
                u != user@ ==> user_deposit_list(final(self)@, u) == user_deposit_list(
                    old(self)@,
                    u,
                ),
    {
        let mut list = self.get_user_deposits(user);
        if contains_str(&list, pool_id) {
            return ;
        }
        list.push(pool_id.clone());
        proof {
            assert(list.deep_view() =~= user_deposit_list(old(self)@, user@).push(pool_id@));
        }
        self.user_deposits.set(user.clone(), list);
    }

    /// Drop every occurrence of `pool_id` from the depositor's membership
    /// list.
    fn remove_from_user_deposits(&mut self, user: &String, pool_id: &String)
        requires
            old(self).wf(),
        ensures
            final(self).wf(),
            final(self)@.deposits == old(self)@.deposits,
            final(self)@.borrows == old(self)@.borrows,
            final(self)@.user_borrows == old(self)@.user_borrows,
            user_deposit_list(final(self)@, user@) == list_without(
                user_deposit_list(old(self)@, user@),
                pool_id@,
            ),
            forall|u: Seq<char>|
                u != user@ ==> user_deposit_list(final(self)@, u) == user_deposit_list(
                    old(self)@,
                    u,
                ),
    {
        let list = self.get_user_deposits(user);
        let filtered = without_id(&list, pool_id);
        self.user_deposits.set(user.clone(), filtered);
    }

    /// Store a borrow position under its (borrower, pool id) key and enter
    /// the pool into the borrower's membership list exactly once.
    pub fn set_borrow(&mut self, position: BorrowPosition)
        requires
            old(self).wf(),
            position.valid(),
        ensures
            final(self).wf(),
            final(self)@.borrows == old(self)@.borrows.insert(
                (position.borrower@, position.pool_id@),
                position,
            ),
            final(self)@.deposits == old(self)@.deposits,
            final(self)@.user_deposits == old(self)@.user_deposits,
            user_borrow_list(final(self)@, position.borrower@) == list_with(
                user_borrow_list(old(self)@, position.borrower@),
                position.pool_id@,
            ),
            forall|u: Seq<char>|
                u != position.borrower@ ==> user_borrow_list(final(self)@, u) == user_borrow_list(
                    old(self)@,
                    u,
                ),
    {
        self.add_to_user_borrows(&position.borrower, &position.pool_id);
        let user = position.borrower.clone();
        let pool = position.pool_id.clone();
        self.borrows.set(user, pool, position);
    }

    /// The borrow position of `borrower` in `pool_id`, if any.
    pub fn get_borrow(&self, borrower: &String, pool_id: &String) -> (r: Option<&BorrowPosition>)
        requires
            self.wf(),
        ensures
            match r {
                Some(p) => self@.borrows.contains_key((borrower@, pool_id@)) && *p
                    == self@.borrows[(borrower@, pool_id@)] && p.valid(),
                None => !self@.borrows.contains_key((borrower@, pool_id@)),
            },
    {
        self.borrows.get(borrower, pool_id)
    }

    /// Succeed only if `borrower` holds a borrow position in `pool_id`, as
    /// every operation on a position must check first.
    pub fn require_borrow(&self, borrower: &String, pool_id: &String) -> (r: Result<(), Error>)
        requires
            self.wf(),
        ensures
            r is Ok <==> self@.borrows.contains_key((borrower@, pool_id@)),
            r is Err ==> r == Err::<(), Error>(Error::PositionNotFound),
    {
        if self.borrows.has(borrower, pool_id) {
            Ok(())
        } else {
            Err(Error::PositionNotFound)
        }
    }

    /// Drop the borrow position of `borrower` in `pool_id` and take the
    /// pool out of the borrower's membership list.
    pub fn remove_borrow(&mut self, borrower: &String, pool_id: &String)
        requires
            old(self).wf(),
        ensures
            final(self).wf(),
            final(self)@.borrows == old(self)@.borrows.remove((borrower@, pool_id@)),
            final(self)@.deposits == old(self)@.deposits,
            final(self)@.user_deposits == old(self)@.user_deposits,
            user_borrow_list(final(self)@, borrower@) == list_without(
                user_borrow_list(old(self)@, borrower@),
                pool_id@,
            ),
            forall|u: Seq<char>|
                u != borrower@ ==> user_borrow_list(final(self)@, u) == user_borrow_list(
                    old(self)@,
                    u,
                ),
    {
        self.borrows.remove(borrower, pool_id);
        self.remove_from_user_borrows(borrower, pool_id);
    }

    /// The pools `user` borrows from, in insertion order.
    pub fn get_user_borrows(&self, user: &String) -> (r: Vec<String>)
        requires
            self.wf(),
        ensures
            r.deep_view() == user_borrow_list(self@, user@),
    {
        match self.user_borrows.get(user) {
            Some(list) => clone_id_list(list),
            None => {
                let r: Vec<String> = Vec::new();
                proof {
                    assert(r.deep_view() =~= Seq::<Seq<char>>::empty());
                }
                r
            },
        }
    }

    /// Enter `pool_id` into the borrower's membership list unless already
    /// present.
    fn add_to_user_borrows(&mut self, user: &String, pool_id: &String)
        requires
            old(self).wf(),
        ensures
            final(self).wf(),
            final(self)@.deposits == old(self)@.deposits,
            final(self)@.borrows == old(self)@.borrows,
            final(self)@.user_deposits == old(self)@.user_deposits,
            user_borrow_list(final(self)@, user@) == list_with(
                user_borrow_list(old(self)@, user@),
                pool_id@,
            ),
            forall|u: Seq<char>|
                u != user@ ==> user_borrow_list(final(self)@, u) == user_borrow_list(
                    old(self)@,
                    u,
                ),
    {
        let mut list = self.get_user_borrows(user);
        if contains_str(&list, pool_id) {
            return ;
        }
        list.push(pool_id.clone());
        proof {
            assert(list.deep_view() =~= user_borrow_list(old(self)@, user@).push(pool_id@));
        }
        self.user_borrows.set(user.clone(), list);
    }

    /// Drop every occurrence of `pool_id` from the borrower's membership
    /// list.
    fn remove_from_user_borrows(&mut self, user: &String, pool_id: &String)
        requires
            old(self).wf(),
        ensures
            final(self).wf(),
            final(self)@.deposits == old(self)@.deposits,
            final(self)@.borrows == old(self)@.borrows,
            final(self)@.user_deposits == old(self)@.user_deposits,
            user_borrow_list(final(self)@, user@) == list_without(
                user_borrow_list(old(self)@, user@),
                pool_id@,
            ),
            forall|u: Seq<char>|
                u != user@ ==> user_borrow_list(final(self)@, u) == user_borrow_list(
                    old(self)@,
                    u,
                ),
    {
        let list = self.get_user_borrows(user);
        let filtered = without_id(&list, pool_id);
        self.user_borrows.set(user.clone(), filtered);
    }
    /// Interest a deposit has earned since its snapshot: zero if the
    /// snapshot is unset or the index has not advanced past it, else the
    /// amount scaled by the index's relative growth. Fails exactly when the
    /// fixed-point arithmetic would leave `i128`.
    pub fn calculate_deposit_interest(position: &DepositPosition, current_index: i128) -> (r:
        Result<i128, Error>)
        requires
            position.valid(),
            current_index >= 0,
        ensures
            match r {
                Ok(v) => v == spec_deposit_interest(*position, current_index as int) && v >= 0,
                Err(e) => e == Error::ArithmeticOverflow,
            },
            r is Err <==> spec_deposit_interest_overflows(*position, current_index as int),
    {
        if position.index_at_deposit == 0 || current_index <= position.index_at_deposit {
            return Ok(0);
        }
        let scaled = match current_index.checked_mul(PRECISION) {
            Some(v) => v,
            None => {
                return Err(Error::ArithmeticOverflow);
            },
        };
        let index_ratio = scaled / position.index_at_deposit;
        proof {
            let ci = current_index as int;
            let iad = position.index_at_deposit as int;
            let p = PRECISION as int;
            lemma_mul_inequality(iad, ci, p);
            lemma_div_is_ordered(iad * p, ci * p, iad);
            lemma_div_multiples_vanish(p, iad);
            assert(iad * p == p * iad);
        }
        let gain = index_ratio - PRECISION;
        let num = match position.amount.checked_mul(gain) {
            Some(v) => v,
            None => {
                return Err(Error::ArithmeticOverflow);
            },
        };
        proof {
            lemma_div_pos_is_pos(num as int, PRECISION as int);
        }
        Ok(num / PRECISION)
    }

    /// A borrow's live debt: the principal scaled by the index's growth
    /// since the snapshot, or unscaled if the snapshot was never set.
    /// Doubling the index since a snapshot at `PRECISION` exactly doubles
    /// the debt. Fails exactly when the product would leave `i128`.
    pub fn calculate_current_debt(position: &BorrowPosition, current_index: i128) -> (r: Result<
        i128,
        Error,
    >)
        requires
            position.valid(),
            current_index >= 0,
        ensures
            match r {
                Ok(v) => {
                    &&& v == spec_current_debt(*position, current_index as int)
                    &&& v >= 0
                    &&& 0 < position.index_at_borrow <= current_index ==> v >= position.principal
                    &&& position.index_at_borrow == PRECISION && current_index == 2 * PRECISION
                        ==> v == 2 * position.principal
                },
                Err(e) => e == Error::ArithmeticOverflow,
            },
            r is Err <==> spec_current_debt_overflows(*position, current_index as int),
    {
        if position.index_at_borrow == 0 {
            return Ok(position.principal);
        }
        let num = match position.principal.checked_mul(current_index) {
            Some(v) => v,
            None => {
                return Err(Error::ArithmeticOverflow);
            },
        };
        proof {
            let pr = position.principal as int;
            let ci = current_index as int;
            let iab = position.index_at_borrow as int;
            lemma_div_pos_is_pos(pr * ci, iab);
            if iab <= ci {
                lemma_mul_inequality(iab, ci, pr);
                assert(pr * iab == iab * pr && pr * ci == ci * pr);
                lemma_div_is_ordered(pr * iab, pr * ci, iab);
                lemma_div_multiples_vanish(pr, iab);
            }
            if iab == PRECISION && ci == 2 * PRECISION {
                assert(pr * ci == (2 * pr) * PRECISION) by (nonlinear_arith)
                    requires
                        ci == 2 * PRECISION,
                ;
                lemma_div_by_multiple(2 * pr, PRECISION as int);
            }
        }
        Ok(num / position.index_at_borrow)
    }

    /// The solvency ratio: collateral discounted by the liquidation
    /// threshold, over debt. With no debt the position is risk-free and the
    /// ratio is the maximum `i128`; below `PRECISION` the position is open
    /// to liquidation.
    pub fn calculate_health_factor(
        collateral_value: i128,
        debt_value: i128,
        liquidation_threshold: i128,
    ) -> (r: i128)
        requires
            collateral_value >= 0,
            debt_value >= 0,
            0 <= liquidation_threshold <= PRECISION,
            collateral_value * liquidation_threshold <= i128::MAX,
            debt_value <= i128::MAX / PRECISION,
        ensures
            r == spec_health_factor(
                collateral_value as int,
                debt_value as int,
                liquidation_threshold as int,
            ),
            debt_value == 0 ==> r == i128::MAX,
            r >= 0,
    {
        if debt_value == 0 {
            return i128::MAX;
        }
        proof {
            let c = collateral_value as int;
            let t = liquidation_threshold as int;
            let d = debt_value as int;
            let p = PRECISION as int;
            assert(0 <= c * t) by (nonlinear_arith)
                requires
                    c >= 0,
                    t >= 0,
            ;
            assert(0 < d * p <= (i128::MAX / PRECISION) * p <= i128::MAX) by (nonlinear_arith)
                requires
                    0 < d <= i128::MAX / PRECISION,
                    p == PRECISION as int,
            ;
            lemma_div_pos_is_pos(c * t, d * p);
        }
        (collateral_value * liquidation_threshold) / (debt_value * PRECISION)
    }
}

} // verus!
