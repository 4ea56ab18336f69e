use akkuea_core::tier::{
    validate_contribution, xlm_to_stroops, TierError, TierLevel, TierRegistry,
};

#[test]
fn test_tier_level_from_contribution() {
    // Tier thresholds.
    assert_eq!(
        TierLevel::from_contribution(xlm_to_stroops(50)),
        TierLevel::NoTier
    );
    assert_eq!(
        TierLevel::from_contribution(xlm_to_stroops(100)),
        TierLevel::Basic
    );
    assert_eq!(
        TierLevel::from_contribution(xlm_to_stroops(499)),
        TierLevel::Basic
    );
    assert_eq!(
        TierLevel::from_contribution(xlm_to_stroops(500)),
        TierLevel::Pro
    );
    assert_eq!(
        TierLevel::from_contribution(xlm_to_stroops(1999)),
        TierLevel::Pro
    );
    assert_eq!(
        TierLevel::from_contribution(xlm_to_stroops(2000)),
        TierLevel::Elite
    );
    assert_eq!(
        TierLevel::from_contribution(xlm_to_stroops(10000)),
        TierLevel::Elite
    );
}

#[test]
fn test_tier_features_basic() {
    let features = TierLevel::Basic.get_features();
    assert_eq!(features.max_greetings_per_day, 50);
    assert!(features.custom_greeting_messages);
    assert!(!features.priority_support);
    assert!(!features.analytics_access);
    assert_eq!(features.api_rate_limit, 30);
}

#[test]
fn test_tier_features_pro() {
    let features = TierLevel::Pro.get_features();
    assert_eq!(features.max_greetings_per_day, 200);
    assert!(features.custom_greeting_messages);
    assert!(features.priority_support);
    assert!(features.analytics_access);
    assert_eq!(features.api_rate_limit, 100);
}

#[test]
fn test_tier_features_elite() {
    let features = TierLevel::Elite.get_features();
    assert_eq!(features.max_greetings_per_day, 1000);
    assert!(features.custom_greeting_messages);
    assert!(features.priority_support);
    assert!(features.analytics_access);
    assert_eq!(features.api_rate_limit, 500);
}

#[test]
fn test_assign_basic_tier() {
    let mut registry = TierRegistry::new();
    let user = "user-1".to_string();

    // 100 XLM earns the Basic tier.
    let contribution = xlm_to_stroops(100);
    registry.assign(&user, contribution, 1700000000).unwrap();

    let tier = registry.get_tier(&user).unwrap();
    assert_eq!(tier.tier, TierLevel::Basic);
    assert_eq!(tier.contribution, contribution);
    assert_eq!(tier.features.max_greetings_per_day, 50);
    assert_eq!(tier.assigned_at, 1700000000);
}

#[test]
fn test_assign_pro_tier() {
    let mut registry = TierRegistry::new();
    let user = "user-1".to_string();

    // 500 XLM earns the Pro tier.
    let contribution = xlm_to_stroops(500);
    registry.assign(&user, contribution, 0).unwrap();

    let tier = registry.get_tier(&user).unwrap();
    assert_eq!(tier.tier, TierLevel::Pro);
    assert_eq!(tier.features.max_greetings_per_day, 200);
    assert!(tier.features.priority_support);
}

#[test]
fn test_assign_elite_tier() {
    let mut registry = TierRegistry::new();
    let user = "user-1".to_string();

    // 2000 XLM earns the Elite tier.
    let contribution = xlm_to_stroops(2000);
    registry.assign(&user, contribution, 0).unwrap();

    let tier = registry.get_tier(&user).unwrap();
    assert_eq!(tier.tier, TierLevel::Elite);
    assert_eq!(tier.features.max_greetings_per_day, 1000);
    assert_eq!(tier.features.api_rate_limit, 500);
}

#[test]
fn test_assign_tier_zero_contribution() {
    let mut registry = TierRegistry::new();
    let user = "user-1".to_string();

    // A zero contribution is rejected.
    let result = registry.assign(&user, 0, 0);
    assert!(result.is_err());
    assert_eq!(result, Err(TierError::InvalidContribution));
}

#[test]
fn test_assign_tier_negative_contribution() {
    let mut registry = TierRegistry::new();
    let user = "user-1".to_string();

    // A negative contribution is rejected.
    let result = registry.assign(&user, -100, 0);
    assert!(result.is_err());
    assert_eq!(result, Err(TierError::InvalidContribution));
}

#[test]
fn test_assign_tier_already_exists() {
    let mut registry = TierRegistry::new();
    let user = "user-1".to_string();
    let contribution = xlm_to_stroops(100);

    // The first assignment succeeds.
    registry.assign(&user, contribution, 0).unwrap();

    // A second assignment for the same user is rejected.
    let result = registry.assign(&user, contribution, 0);
    assert!(result.is_err());
    assert_eq!(result, Err(TierError::TierAlreadyExists));
}

#[test]
fn test_upgrade_tier() {
    let mut registry = TierRegistry::new();
    let user = "user-1".to_string();

    // Start with the Basic tier (100 XLM).
    let initial_contribution = xlm_to_stroops(100);
    registry.assign(&user, initial_contribution, 0).unwrap();
    assert_eq!(registry.get_tier(&user).unwrap().tier, TierLevel::Basic);

    // Add 400 XLM for a 500 XLM total: Pro.
    let additional_contribution = xlm_to_stroops(400);
    registry.upgrade(&user, additional_contribution).unwrap();

    let tier = registry.get_tier(&user).unwrap();
    assert_eq!(tier.tier, TierLevel::Pro);
    assert_eq!(tier.contribution, xlm_to_stroops(500));
}

#[test]
fn test_upgrade_tier_to_elite() {
    let mut registry = TierRegistry::new();
    let user = "user-1".to_string();

    // Start with the Pro tier (500 XLM).
    let initial_contribution = xlm_to_stroops(500);
    registry.assign(&user, initial_contribution, 0).unwrap();

    // Add 1500 XLM for a 2000 XLM total: Elite.
    let additional_contribution = xlm_to_stroops(1500);
    registry.upgrade(&user, additional_contribution).unwrap();

    let tier = registry.get_tier(&user).unwrap();
    assert_eq!(tier.tier, TierLevel::Elite);
    assert_eq!(tier.contribution, xlm_to_stroops(2000));
}

#[test]
fn test_upgrade_tier_no_downgrade() {
    let mut registry = TierRegistry::new();
    let user = "user-1".to_string();

    // Start with the Elite tier (2000 XLM).
    let initial_contribution = xlm_to_stroops(2000);
    registry.assign(&user, initial_contribution, 0).unwrap();

    // A small addition never lowers the tier.
    let additional_contribution = xlm_to_stroops(10);
    registry.upgrade(&user, additional_contribution).unwrap();

    let tier = registry.get_tier(&user).unwrap();
    assert_eq!(tier.tier, TierLevel::Elite);
}

#[test]
fn test_get_tier_level() {
    let mut registry = TierRegistry::new();
    let user = "user-1".to_string();

    registry.assign(&user, xlm_to_stroops(500), 0).unwrap();
    assert_eq!(registry.get_tier(&user).unwrap().tier, TierLevel::Pro);
}

#[test]
fn test_get_user_features() {
    let mut registry = TierRegistry::new();
    let user = "user-1".to_string();

    registry.assign(&user, xlm_to_stroops(2000), 0).unwrap();
    let features = registry.get_tier(&user).unwrap().features;
    assert_eq!(features.max_greetings_per_day, 1000);
    assert!(features.custom_greeting_messages);
    assert!(features.priority_support);
    assert!(features.analytics_access);
    assert_eq!(features.api_rate_limit, 500);
}

#[test]
fn test_get_total_contribution() {
    let mut registry = TierRegistry::new();
    let user = "user-1".to_string();

    registry.assign(&user, xlm_to_stroops(100), 0).unwrap();
    registry.upgrade(&user, xlm_to_stroops(400)).unwrap();
    assert_eq!(
        registry.get_tier(&user).unwrap().contribution,
        xlm_to_stroops(500)
    );
}

#[test]
fn test_get_premium_status_not_found() {
    let registry = TierRegistry::new();
    let user = "user-1".to_string();
    assert!(registry.get_tier(&user).is_none());
    assert!(!registry.has_tier(&user));
}

#[test]
fn test_upgrade_without_tier_rejected() {
    let mut registry = TierRegistry::new();
    let user = "user-1".to_string();
    assert_eq!(
        registry.upgrade(&user, xlm_to_stroops(100)),
        Err(TierError::TierNotFound)
    );
}

#[test]
fn test_upgrade_overflow_rejected() {
    let mut registry = TierRegistry::new();
    let user = "user-1".to_string();
    registry.assign(&user, i128::MAX - 1, 0).unwrap();
    assert_eq!(registry.upgrade(&user, 2), Err(TierError::ArithmeticOverflow));
    // The record is untouched.
    assert_eq!(registry.get_tier(&user).unwrap().contribution, i128::MAX - 1);
}

#[test]
fn test_remove_tier() {
    let mut registry = TierRegistry::new();
    let user = "user-1".to_string();
    registry.assign(&user, xlm_to_stroops(100), 0).unwrap();
    assert!(registry.has_tier(&user));
    registry.remove_tier(&user);
    assert!(!registry.has_tier(&user));
}

#[test]
fn test_validate_contribution() {
    assert_eq!(validate_contribution(1), Ok(()));
    assert_eq!(validate_contribution(0), Err(TierError::InvalidContribution));
    assert_eq!(validate_contribution(-1), Err(TierError::InvalidContribution));
}

#[test]
fn test_tier_rank_order() {
    assert!(TierLevel::NoTier.rank() < TierLevel::Basic.rank());
    assert!(TierLevel::Basic.rank() < TierLevel::Pro.rank());
    assert!(TierLevel::Pro.rank() < TierLevel::Elite.rank());
}
