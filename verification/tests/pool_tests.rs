use akkuea_core::errors::{validate_amount, Error};
use akkuea_core::interest::PRECISION;
use akkuea_core::pool::{LendingPool, PoolStorage};

fn sample_pool(id: &str, asset_address: &str) -> LendingPool {
    LendingPool {
        id: id.to_string(),
        name: "USDC Lending Pool".to_string(),
        asset: "USDC".to_string(),
        asset_address: asset_address.to_string(),
        collateral_factor: 750_000_000_000_000_000,    // 75%
        liquidation_threshold: 800_000_000_000_000_000, // 80%
        liquidation_penalty: 50_000_000_000_000_000,   // 5%
        reserve_factor: 1000,                          // 10%
        is_active: true,
        created_at: 1700000000,
    }
}

#[test]
fn test_store_and_retrieve_lending_pool() {
    let mut storage = PoolStorage::new();
    let pool_id = "USDC-POOL".to_string();
    let pool = sample_pool("USDC-POOL", "asset-usdc");

    storage.set(pool);

    assert!(storage.has_pool(&pool_id));

    let retrieved = storage.get(&pool_id).unwrap();
    assert_eq!(retrieved.id, "USDC-POOL".to_string());
    assert_eq!(retrieved.name, "USDC Lending Pool".to_string());
    assert_eq!(retrieved.asset, "USDC".to_string());
    assert_eq!(retrieved.asset_address, "asset-usdc".to_string());
    assert_eq!(retrieved.collateral_factor, 750_000_000_000_000_000);
    assert_eq!(retrieved.liquidation_threshold, 800_000_000_000_000_000);
    assert_eq!(retrieved.liquidation_penalty, 50_000_000_000_000_000);
    assert_eq!(retrieved.reserve_factor, 1000);
    assert!(retrieved.is_active);
    assert_eq!(retrieved.created_at, 1700000000);
}

#[test]
fn test_utilization_rate_calculation() {
    // No borrows: 0% utilization.
    let utilization_0 = PoolStorage::calculate_utilization(1_000_000_000, 0);
    assert_eq!(utilization_0, 0);

    // 50% utilization.
    let total_deposits = 1_000_000_000;
    let total_borrows = 500_000_000;
    let utilization_50 = PoolStorage::calculate_utilization(total_deposits, total_borrows);
    assert_eq!(utilization_50, PRECISION / 2);

    // 100% utilization.
    let utilization_100 = PoolStorage::calculate_utilization(total_deposits, total_deposits);
    assert_eq!(utilization_100, PRECISION);

    // 75% utilization.
    let total_borrows_75 = 750_000_000;
    let utilization_75 = PoolStorage::calculate_utilization(total_deposits, total_borrows_75);
    assert_eq!(utilization_75, 750_000_000_000_000_000);

    // Zero deposits: utilization reads zero rather than dividing by zero.
    let utilization_zero_deposits = PoolStorage::calculate_utilization(0, 100_000_000);
    assert_eq!(utilization_zero_deposits, 0);

    // Available liquidity.
    let available = PoolStorage::calculate_available_liquidity(total_deposits, total_borrows);
    assert_eq!(available, 500_000_000);

    // Fully utilized: nothing left.
    let available_full = PoolStorage::calculate_available_liquidity(total_deposits, total_deposits);
    assert_eq!(available_full, 0);

    // Borrows above deposits: floored at zero, never negative.
    let available_negative =
        PoolStorage::calculate_available_liquidity(total_deposits, total_deposits + 100);
    assert_eq!(available_negative, 0);
}

#[test]
fn test_multiple_pools_storage() {
    let mut storage = PoolStorage::new();

    let pool_id_1 = "USDC-POOL".to_string();
    let pool_id_2 = "USDT-POOL".to_string();
    let pool_id_3 = "DAI-POOL".to_string();

    let pool_1 = LendingPool {
        id: pool_id_1.clone(),
        name: "USDC Lending Pool".to_string(),
        asset: "USDC".to_string(),
        asset_address: "asset-1".to_string(),
        collateral_factor: 750_000_000_000_000_000,
        liquidation_threshold: 800_000_000_000_000_000,
        liquidation_penalty: 50_000_000_000_000_000,
        reserve_factor: 1000,
        is_active: true,
        created_at: 1700000000,
    };
    storage.set(pool_1);
    storage.add_to_list(&pool_id_1);

    let pool_2 = LendingPool {
        id: pool_id_2.clone(),
        name: "USDT Lending Pool".to_string(),
        asset: "USDT".to_string(),
        asset_address: "asset-2".to_string(),
        collateral_factor: 700_000_000_000_000_000,
        liquidation_threshold: 750_000_000_000_000_000,
        liquidation_penalty: 50_000_000_000_000_000,
        reserve_factor: 1200,
        is_active: true,
        created_at: 1700000100,
    };
    storage.set(pool_2);
    storage.add_to_list(&pool_id_2);

    let pool_3 = LendingPool {
        id: pool_id_3.clone(),
        name: "DAI Lending Pool".to_string(),
        asset: "DAI".to_string(),
        asset_address: "asset-3".to_string(),
        collateral_factor: 800_000_000_000_000_000,
        liquidation_threshold: 850_000_000_000_000_000,
        liquidation_penalty: 60_000_000_000_000_000,
        reserve_factor: 1500,
        is_active: false,
        created_at: 1700000200,
    };
    storage.set(pool_3);
    storage.add_to_list(&pool_id_3);

    assert!(storage.has_pool(&pool_id_1));
    assert!(storage.has_pool(&pool_id_2));
    assert!(storage.has_pool(&pool_id_3));

    let retrieved_1 = storage.get(&pool_id_1).unwrap();
    assert_eq!(retrieved_1.asset, "USDC".to_string());
    assert_eq!(retrieved_1.asset_address, "asset-1".to_string());
    assert_eq!(retrieved_1.collateral_factor, 750_000_000_000_000_000);
    assert_eq!(retrieved_1.reserve_factor, 1000);

    let retrieved_2 = storage.get(&pool_id_2).unwrap();
    assert_eq!(retrieved_2.asset, "USDT".to_string());
    assert_eq!(retrieved_2.asset_address, "asset-2".to_string());
    assert_eq!(retrieved_2.collateral_factor, 700_000_000_000_000_000);
    assert_eq!(retrieved_2.reserve_factor, 1200);

    let retrieved_3 = storage.get(&pool_id_3).unwrap();
    assert_eq!(retrieved_3.asset, "DAI".to_string());
    assert_eq!(retrieved_3.asset_address, "asset-3".to_string());
    assert_eq!(retrieved_3.collateral_factor, 800_000_000_000_000_000);
    assert_eq!(retrieved_3.reserve_factor, 1500);
    assert!(!retrieved_3.is_active);

    let pool_list = storage.get_list();
    assert!(pool_list.len() >= 3);
    assert!(pool_list.contains(&pool_id_1));
    assert!(pool_list.contains(&pool_id_2));
    assert!(pool_list.contains(&pool_id_3));

    // Pool-keyed aggregates stay isolated.
    storage.set_total_deposits(&pool_id_1, 1_000_000_000);
    storage.set_total_deposits(&pool_id_2, 2_000_000_000);
    storage.set_total_deposits(&pool_id_3, 3_000_000_000);
    assert_eq!(storage.get_total_deposits(&pool_id_1), 1_000_000_000);
    assert_eq!(storage.get_total_deposits(&pool_id_2), 2_000_000_000);
    assert_eq!(storage.get_total_deposits(&pool_id_3), 3_000_000_000);
}

#[test]
fn test_create_pool_rejects_duplicate_id() {
    let mut storage = PoolStorage::new();
    let pool_id = "USDC-POOL".to_string();
    assert_eq!(storage.create(sample_pool("USDC-POOL", "asset-1")), Ok(()));
    assert!(storage.has_pool(&pool_id));
    assert!(storage.get_list().contains(&pool_id));
    // The same id again is refused and nothing changes.
    assert_eq!(
        storage.create(sample_pool("USDC-POOL", "asset-2")),
        Err(Error::PoolAlreadyExists)
    );
    assert_eq!(storage.get(&pool_id).unwrap().asset_address, "asset-1".to_string());
    assert_eq!(storage.get_list().len(), 1);
}

#[test]
fn test_pool_scenario_aggregates() {
    // Create a pool, set deposits to 1,000,000,000 and borrows to
    // 750,000,000: utilization reads 75% of PRECISION and available
    // liquidity 250,000,000.
    let mut storage = PoolStorage::new();
    let pool_id = "USDC-POOL".to_string();
    storage.create(sample_pool("USDC-POOL", "asset-1")).unwrap();
    storage.set_total_deposits(&pool_id, 1_000_000_000);
    storage.set_total_borrows(&pool_id, 750_000_000);

    let deposits = storage.get_total_deposits(&pool_id);
    let borrows = storage.get_total_borrows(&pool_id);
    assert_eq!(
        PoolStorage::calculate_utilization(deposits, borrows),
        750_000_000_000_000_000
    );
    assert_eq!(
        PoolStorage::calculate_available_liquidity(deposits, borrows),
        250_000_000
    );
}

#[test]
fn test_reserves_grow_and_overflow_aborts() {
    let mut storage = PoolStorage::new();
    let pool_id = "USDC-POOL".to_string();
    assert_eq!(storage.get_reserves(&pool_id), 0);
    assert_eq!(storage.add_reserves(&pool_id, 1_000_000), Ok(()));
    assert_eq!(storage.add_reserves(&pool_id, 2_000_000), Ok(()));
    assert_eq!(storage.get_reserves(&pool_id), 3_000_000);
    // An addition that cannot fit is rejected and the balance is untouched.
    assert_eq!(
        storage.add_reserves(&pool_id, i128::MAX),
        Err(Error::ArithmeticOverflow)
    );
    assert_eq!(storage.get_reserves(&pool_id), 3_000_000);
}

#[test]
fn test_pause_gate() {
    let mut storage = PoolStorage::new();
    let pool_id = "USDC-POOL".to_string();
    assert!(!storage.is_paused(&pool_id));
    assert_eq!(storage.require_not_paused(&pool_id), Ok(()));
    storage.set_paused(&pool_id, true);
    assert!(storage.is_paused(&pool_id));
    assert_eq!(storage.require_not_paused(&pool_id), Err(Error::PoolPaused));
    storage.set_paused(&pool_id, false);
    assert_eq!(storage.require_not_paused(&pool_id), Ok(()));
}

#[test]
fn test_pool_lookup_gate() {
    let mut storage = PoolStorage::new();
    let pool_id = "USDC-POOL".to_string();
    assert_eq!(storage.require_pool(&pool_id), Err(Error::PoolNotFound));
    assert!(storage.get(&pool_id).is_none());
    storage.create(sample_pool("USDC-POOL", "asset-1")).unwrap();
    assert_eq!(storage.require_pool(&pool_id), Ok(()));
}

#[test]
fn test_validate_amount() {
    assert_eq!(validate_amount(1), Ok(()));
    assert_eq!(validate_amount(1_000_000_000), Ok(()));
    assert_eq!(validate_amount(0), Err(Error::InvalidAmount));
    assert_eq!(validate_amount(-5), Err(Error::InvalidAmount));
}
