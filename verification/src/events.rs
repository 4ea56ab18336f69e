//! Structured facts about lending operations.
//!
//! The core does not publish anything itself: each operation's outcome is
//! captured as a plain record carrying the pool id, the actors and the
//! amounts involved, for a surrounding dispatcher to publish however it
//! sees fit.

use vstd::prelude::*;

verus! {

/// A new lending pool was created.
pub struct PoolCreated {
    /// The new pool.
    pub pool_id: String,
    /// Asset symbol.
    pub asset: String,
    /// Identifier of the asset's contract.
    pub asset_address: String,
    /// Collateral factor the pool was created with.
    pub collateral_factor: i128,
}

/// Assets were deposited into a pool.
pub struct Deposit {
    /// The pool deposited into.
    pub pool_id: String,
    /// The depositor.
    pub depositor: String,
    /// Amount deposited.
    pub amount: i128,
    /// Shares minted for the deposit.
    pub shares_minted: i128,
    /// Aggregate deposits after the operation.
    pub new_total_deposits: i128,
}

/// Assets were withdrawn from a pool.
pub struct Withdraw {
    /// The pool withdrawn from.
    pub pool_id: String,
    /// The withdrawer.
    pub withdrawer: String,
    /// Amount withdrawn.
    pub amount: i128,
    /// Shares burned for the withdrawal.
    pub shares_burned: i128,
    /// Aggregate deposits after the operation.
    pub new_total_deposits: i128,
}

/// Assets were borrowed from a pool.
pub struct Borrow {
    /// The pool borrowed from.
    pub pool_id: String,
    /// The borrower.
    pub borrower: String,
    /// Amount borrowed.
    pub amount: i128,
    /// Collateral locked for the borrow.
    pub collateral_amount: i128,
    /// Asset the collateral is held in.
    pub collateral_asset: String,
    /// Health factor at origination.
    pub health_factor: i128,
}

/// A loan was repaid.
pub struct Repay {
    /// The pool repaid to.
    pub pool_id: String,
    /// The borrower.
    pub borrower: String,
    /// Amount repaid.
    pub amount: i128,
    /// Debt remaining after the repayment.
    pub remaining_debt: i128,
    /// Collateral released by the repayment.
    pub collateral_released: i128,
}

/// A position was liquidated.
pub struct Liquidation {
    /// The pool the debt was owed to.
    pub pool_id: String,
    /// The borrower liquidated.
    pub borrower: String,
    /// The liquidator.
    pub liquidator: String,
    /// Debt the liquidator repaid.
    pub debt_repaid: i128,
    /// Collateral seized in exchange.
    pub collateral_seized: i128,
    /// Penalty charged on the seized collateral.
    pub penalty: i128,
}

/// Interest was accrued on a pool.
pub struct InterestAccrued {
    /// The pool accrued on.
    pub pool_id: String,
    /// Interest added since the last accrual.
    pub interest_accrued: i128,
    /// The index after the accrual.
    pub new_index: i128,
    /// Reserves added by the accrual.
    pub reserves_added: i128,
    /// When the accrual happened.
    pub timestamp: u64,
}

/// A pool parameter was updated.
pub struct PoolUpdated {
    /// The pool updated.
    pub pool_id: String,
    /// Name of the parameter.
    pub parameter: String,
    /// Value before the update.
    pub old_value: i128,
    /// Value after the update.
    pub new_value: i128,
}

/// A pool was paused or unpaused.
pub struct PoolPauseToggled {
    /// The pool toggled.
    pub pool_id: String,
    /// The pause flag after the toggle.
    pub paused: bool,
    /// The administrator who toggled it.
    pub by_admin: String,
}

/// Builders for the lending operation facts.
pub struct LendingEvents;

impl LendingEvents {
    /// The fact that a pool was created.
    pub fn pool_created(
        pool_id: String,
        asset: String,
        asset_address: String,
        collateral_factor: i128,
    ) -> (e: PoolCreated)
        ensures
            e == (PoolCreated { pool_id, asset, asset_address, collateral_factor }),
    {
        PoolCreated { pool_id, asset, asset_address, collateral_factor }
    }

    /// The fact that assets were deposited.
    pub fn deposit(
        pool_id: String,
        depositor: String,
        amount: i128,
        shares_minted: i128,
        new_total_deposits: i128,
    ) -> (e: Deposit)
        ensures
            e == (Deposit { pool_id, depositor, amount, shares_minted, new_total_deposits }),
    {
        Deposit { pool_id, depositor, amount, shares_minted, new_total_deposits }
    }

    /// The fact that assets were withdrawn.
    pub fn withdraw(
        pool_id: String,
        withdrawer: String,
        amount: i128,
        shares_burned: i128,
        new_total_deposits: i128,
    ) -> (e: Withdraw)
        ensures
            e == (Withdraw { pool_id, withdrawer, amount, shares_burned, new_total_deposits }),
    {
        Withdraw { pool_id, withdrawer, amount, shares_burned, new_total_deposits }
    }

    /// The fact that assets were borrowed.
    pub fn borrow(
        pool_id: String,
        borrower: String,
        amount: i128,
        collateral_amount: i128,
        collateral_asset: String,
        health_factor: i128,
    ) -> (e: Borrow)
        ensures
            e == (Borrow {
                pool_id,
                borrower,
                amount,
                collateral_amount,
                collateral_asset,
                health_factor,
            }),
    {
        Borrow { pool_id, borrower, amount, collateral_amount, collateral_asset, health_factor }
    }

    /// The fact that a loan was repaid.
    pub fn repay(
        pool_id: String,
        borrower: String,
        amount: i128,
        remaining_debt: i128,
        collateral_released: i128,
    ) -> (e: Repay)
        ensures
            e == (Repay { pool_id, borrower, amount, remaining_debt, collateral_released }),
    {
        Repay { pool_id, borrower, amount, remaining_debt, collateral_released }
    }

    /// The fact that a position was liquidated.
    pub fn liquidation(
        pool_id: String,
        borrower: String,
        liquidator: String,
        debt_repaid: i128,
        collateral_seized: i128,
        penalty: i128,
    ) -> (e: Liquidation)
        ensures
            e == (Liquidation {
                pool_id,
                borrower,
                liquidator,
                debt_repaid,
                collateral_seized,
                penalty,
            }),
    {
        Liquidation { pool_id, borrower, liquidator, debt_repaid, collateral_seized, penalty }
    }

    /// The fact that interest was accrued.
    pub fn interest_accrued(
        pool_id: String,
        interest_accrued: i128,
        new_index: i128,
        reserves_added: i128,
        timestamp: u64,
    ) -> (e: InterestAccrued)
        ensures
            e == (InterestAccrued {
                pool_id,
                interest_accrued,
                new_index,
                reserves_added,
                timestamp,
            }),
    {
        InterestAccrued { pool_id, interest_accrued, new_index, reserves_added, timestamp }
    }

    /// The fact that a pool parameter was updated.
    pub fn pool_updated(
        pool_id: String,
        parameter: String,
        old_value: i128,
        new_value: i128,
    ) -> (e: PoolUpdated)
        ensures
            e == (PoolUpdated { pool_id, parameter, old_value, new_value }),
    {
        PoolUpdated { pool_id, parameter, old_value, new_value }
    }

    /// The fact that a pool's pause flag was toggled.
    pub fn pool_pause_toggled(pool_id: String, paused: bool, by_admin: String) -> (e:
        PoolPauseToggled)
        ensures
            e == (PoolPauseToggled { pool_id, paused, by_admin }),
    {
        PoolPauseToggled { pool_id, paused, by_admin }
    }
}

} // verus!
