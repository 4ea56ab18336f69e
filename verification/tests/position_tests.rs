use akkuea_core::errors::Error;
use akkuea_core::interest::PRECISION;
use akkuea_core::positions::{BorrowPosition, DepositPosition, PositionStorage};

fn sample_deposit(user: &str, pool: &str, amount: i128) -> DepositPosition {
    DepositPosition {
        pool_id: pool.to_string(),
        depositor: user.to_string(),
        amount,
        shares: amount,
        index_at_deposit: PRECISION,
        deposited_at: 1700000000,
    }
}

#[test]
fn test_store_and_retrieve_deposit_position() {
    let mut storage = PositionStorage::new();
    let user = "user-1".to_string();
    let pool_id = "USDC-POOL".to_string();

    let position = DepositPosition {
        pool_id: pool_id.clone(),
        depositor: user.clone(),
        amount: 1_000_000_000, // 1000 USDC (6 decimals)
        shares: 1_000_000_000,
        index_at_deposit: PRECISION,
        deposited_at: 1700000000,
    };

    storage.set_deposit(position);

    let retrieved = storage.get_deposit(&user, &pool_id).unwrap();
    assert_eq!(retrieved.amount, 1_000_000_000);
    assert_eq!(retrieved.shares, 1_000_000_000);
    assert_eq!(retrieved.index_at_deposit, PRECISION);
    assert_eq!(retrieved.deposited_at, 1700000000);
    assert_eq!(retrieved.pool_id, pool_id);
    assert_eq!(retrieved.depositor, user);

    let user_deposits = storage.get_user_deposits(&user);
    assert_eq!(user_deposits.len(), 1);
    assert_eq!(user_deposits[0], pool_id);
}

#[test]
fn test_store_and_retrieve_borrow_position() {
    let mut storage = PositionStorage::new();
    let user = "user-1".to_string();
    let pool_id = "USDC-POOL".to_string();
    let collateral_asset = "asset-collateral".to_string();

    let position = BorrowPosition {
        pool_id: pool_id.clone(),
        borrower: user.clone(),
        principal: 500_000_000, // 500 USDC
        index_at_borrow: PRECISION,
        collateral_amount: 1_000_000_000,
        collateral_asset: collateral_asset.clone(),
        borrowed_at: 1700000000,
    };

    storage.set_borrow(position);

    let retrieved = storage.get_borrow(&user, &pool_id).unwrap();
    assert_eq!(retrieved.principal, 500_000_000);
    assert_eq!(retrieved.index_at_borrow, PRECISION);
    assert_eq!(retrieved.collateral_amount, 1_000_000_000);
    assert_eq!(retrieved.collateral_asset, collateral_asset);
    assert_eq!(retrieved.borrowed_at, 1700000000);
    assert_eq!(retrieved.pool_id, pool_id);
    assert_eq!(retrieved.borrower, user);

    let user_borrows = storage.get_user_borrows(&user);
    assert_eq!(user_borrows.len(), 1);
    assert_eq!(user_borrows[0], pool_id);
}

#[test]
fn test_positions_isolated_across_pools() {
    let mut storage = PositionStorage::new();
    let user = "user-1".to_string();
    let pool_id_1 = "USDC-POOL".to_string();
    let pool_id_2 = "USDT-POOL".to_string();

    storage.set_deposit(sample_deposit("user-1", "USDC-POOL", 100_000_000));
    storage.set_deposit(sample_deposit("user-1", "USDT-POOL", 200_000_000));

    assert_eq!(storage.get_deposit(&user, &pool_id_1).unwrap().amount, 100_000_000);
    assert_eq!(storage.get_deposit(&user, &pool_id_2).unwrap().amount, 200_000_000);

    let user_deposits = storage.get_user_deposits(&user);
    assert_eq!(user_deposits.len(), 2);
    assert!(user_deposits.contains(&pool_id_1));
    assert!(user_deposits.contains(&pool_id_2));
}

#[test]
fn test_membership_list_insert_is_idempotent() {
    let mut storage = PositionStorage::new();
    let user = "user-1".to_string();
    let pool_id = "USDC-POOL".to_string();
    // Re-storing a position for the same (user, pool) does not grow the list.
    storage.set_deposit(sample_deposit("user-1", "USDC-POOL", 100));
    storage.set_deposit(sample_deposit("user-1", "USDC-POOL", 200));
    assert_eq!(storage.get_deposit(&user, &pool_id).unwrap().amount, 200);
    assert_eq!(storage.get_user_deposits(&user).len(), 1);
}

#[test]
fn test_remove_deposit_clears_position_and_list() {
    let mut storage = PositionStorage::new();
    let user = "user-1".to_string();
    let pool_id_1 = "USDC-POOL".to_string();
    let pool_id_2 = "USDT-POOL".to_string();
    storage.set_deposit(sample_deposit("user-1", "USDC-POOL", 100));
    storage.set_deposit(sample_deposit("user-1", "USDT-POOL", 200));

    storage.remove_deposit(&user, &pool_id_1);

    assert!(storage.get_deposit(&user, &pool_id_1).is_none());
    assert!(storage.get_deposit(&user, &pool_id_2).is_some());
    let list = storage.get_user_deposits(&user);
    assert_eq!(list.len(), 1);
    assert_eq!(list[0], pool_id_2);
}

#[test]
fn test_remove_borrow_clears_position_and_list() {
    let mut storage = PositionStorage::new();
    let user = "user-1".to_string();
    let pool_id = "USDC-POOL".to_string();
    storage.set_borrow(BorrowPosition {
        pool_id: pool_id.clone(),
        borrower: user.clone(),
        principal: 500_000_000,
        index_at_borrow: PRECISION,
        collateral_amount: 1_000_000_000,
        collateral_asset: "asset-collateral".to_string(),
        borrowed_at: 1700000000,
    });
    assert_eq!(storage.require_borrow(&user, &pool_id), Ok(()));

    storage.remove_borrow(&user, &pool_id);

    assert!(storage.get_borrow(&user, &pool_id).is_none());
    assert_eq!(storage.get_user_borrows(&user).len(), 0);
    assert_eq!(
        storage.require_borrow(&user, &pool_id),
        Err(Error::PositionNotFound)
    );
}

#[test]
fn test_position_lookup_gate() {
    let storage = PositionStorage::new();
    let user = "user-1".to_string();
    let pool_id = "USDC-POOL".to_string();
    assert_eq!(
        storage.require_deposit(&user, &pool_id),
        Err(Error::PositionNotFound)
    );
}

#[test]
fn test_deposit_interest_scenario() {
    // Deposit 1,000,000,000 units at index PRECISION; once the index reads
    // 1.1 * PRECISION the accrued interest is 100,000,000 units.
    let position = sample_deposit("user-1", "USDC-POOL", 1_000_000_000);
    let interest =
        PositionStorage::calculate_deposit_interest(&position, 1_100_000_000_000_000_000);
    assert_eq!(interest, Ok(100_000_000));
}

#[test]
fn test_deposit_interest_zero_when_index_unmoved() {
    let position = sample_deposit("user-1", "USDC-POOL", 1_000_000_000);
    // Same index as the snapshot: nothing accrued.
    assert_eq!(
        PositionStorage::calculate_deposit_interest(&position, PRECISION),
        Ok(0)
    );
    // An unset snapshot is defended, not scaled.
    let unset = DepositPosition {
        index_at_deposit: 0,
        ..sample_deposit("user-1", "USDC-POOL", 1_000_000_000)
    };
    assert_eq!(
        PositionStorage::calculate_deposit_interest(&unset, 2 * PRECISION),
        Ok(0)
    );
}

#[test]
fn test_interest_realization_idempotent() {
    let mut position = sample_deposit("user-1", "USDC-POOL", 1_000_000_000);
    let current_index = 1_100_000_000_000_000_000;
    // First realization folds the accrued interest into the amount.
    let first = position.realize_interest(current_index).unwrap();
    assert_eq!(first, 100_000_000);
    assert_eq!(position.amount, 1_100_000_000);
    assert_eq!(position.index_at_deposit, current_index);
    // With no index change, realizing again adds nothing.
    let second = position.realize_interest(current_index).unwrap();
    assert_eq!(second, 0);
    assert_eq!(position.amount, 1_100_000_000);
}

#[test]
fn test_current_debt_scenario() {
    // Borrow 500,000,000 at index PRECISION; once the index reads
    // 1.2 * PRECISION the debt is 600,000,000.
    let position = BorrowPosition {
        pool_id: "USDC-POOL".to_string(),
        borrower: "user-1".to_string(),
        principal: 500_000_000,
        index_at_borrow: PRECISION,
        collateral_amount: 1_000_000_000,
        collateral_asset: "asset-collateral".to_string(),
        borrowed_at: 1700000000,
    };
    assert_eq!(
        PositionStorage::calculate_current_debt(&position, 1_200_000_000_000_000_000),
        Ok(600_000_000)
    );
}

#[test]
fn test_debt_scaling_doubles_with_index() {
    // index_at_borrow = PRECISION and current index 2 * PRECISION: the debt
    // is exactly twice the principal.
    let position = BorrowPosition {
        pool_id: "USDC-POOL".to_string(),
        borrower: "user-1".to_string(),
        principal: 123_456_789,
        index_at_borrow: PRECISION,
        collateral_amount: 0,
        collateral_asset: "asset-collateral".to_string(),
        borrowed_at: 0,
    };
    assert_eq!(
        PositionStorage::calculate_current_debt(&position, 2 * PRECISION),
        Ok(2 * 123_456_789)
    );
    // An unset snapshot leaves the principal unscaled.
    let unset = BorrowPosition {
        index_at_borrow: 0,
        ..position
    };
    assert_eq!(
        PositionStorage::calculate_current_debt(&unset, 2 * PRECISION),
        Ok(123_456_789)
    );
}

#[test]
fn test_refresh_debt_resnapshots() {
    let mut position = BorrowPosition {
        pool_id: "USDC-POOL".to_string(),
        borrower: "user-1".to_string(),
        principal: 500_000_000,
        index_at_borrow: PRECISION,
        collateral_amount: 1_000_000_000,
        collateral_asset: "asset-collateral".to_string(),
        borrowed_at: 1700000000,
    };
    let current_index = 1_200_000_000_000_000_000;
    let debt = position.refresh_debt(current_index).unwrap();
    assert_eq!(debt, 600_000_000);
    assert_eq!(position.principal, 600_000_000);
    assert_eq!(position.index_at_borrow, current_index);
    // At the same index the position reads exactly its stored principal.
    assert_eq!(
        PositionStorage::calculate_current_debt(&position, current_index),
        Ok(600_000_000)
    );
}

#[test]
fn test_debt_overflow_rejected() {
    let position = BorrowPosition {
        pool_id: "USDC-POOL".to_string(),
        borrower: "user-1".to_string(),
        principal: i128::MAX - 1,
        index_at_borrow: PRECISION,
        collateral_amount: 0,
        collateral_asset: "asset-collateral".to_string(),
        borrowed_at: 0,
    };
    assert_eq!(
        PositionStorage::calculate_current_debt(&position, 2 * PRECISION),
        Err(Error::ArithmeticOverflow)
    );
}

#[test]
fn test_health_factor_sentinel_on_zero_debt() {
    // No debt: the maximum representable value, never a division by zero.
    assert_eq!(
        PositionStorage::calculate_health_factor(0, 0, 800_000_000_000_000_000),
        i128::MAX
    );
    assert_eq!(
        PositionStorage::calculate_health_factor(1_000_000_000, 0, 0),
        i128::MAX
    );
    assert_eq!(
        PositionStorage::calculate_health_factor(5, 0, PRECISION),
        i128::MAX
    );
}

#[test]
fn test_health_factor_values() {
    // 1000 collateral, 500 debt, 80% threshold: 1000 * 0.8 / 500 = 1.6.
    let health = PositionStorage::calculate_health_factor(
        1_000_000_000,
        500_000_000,
        800_000_000_000_000_000,
    );
    // The quotient is a plain ratio: 1.6 floors to 1.
    assert_eq!(health, 1);
    // Undercollateralized: 400 * 0.8 / 500 = 0.64 floors to 0, below 1.0.
    let unsafe_health = PositionStorage::calculate_health_factor(
        400_000_000,
        500_000_000,
        800_000_000_000_000_000,
    );
    assert_eq!(unsafe_health, 0);
}
