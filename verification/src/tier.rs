//! Contribution-based premium tiers.
//!
//! A user's cumulative contribution, measured in stroops, places them in a
//! tier; each tier unlocks a fixed feature set. Contributions only grow, so
//! a tier can never move down.

use crate::kv::KvMap;
use vstd::prelude::*;

verus! {

/// Stroops per unit of the native asset.
pub const STROOPS_PER_XLM: i128 = 10_000_000;

/// Contribution floor of the Basic tier, in stroops (100 XLM).
pub const BASIC_THRESHOLD: i128 = 1_000_000_000;

/// Contribution floor of the Pro tier, in stroops (500 XLM).
pub const PRO_THRESHOLD: i128 = 5_000_000_000;

/// Contribution floor of the Elite tier, in stroops (2000 XLM).
pub const ELITE_THRESHOLD: i128 = 20_000_000_000;

/// Why a tier operation was rejected.
#[derive(Clone, Copy, Debug, PartialEq, Eq, Structural)]
pub enum TierError {
    /// A contribution that must be strictly positive was zero or negative.
    InvalidContribution,
    /// The user holds no tier.
    TierNotFound,
    /// The operation would lower the user's tier.
    DowngradeNotAllowed,
    /// The user already holds a tier.
    TierAlreadyExists,
    /// Adding the contribution would not fit in an `i128`.
    ArithmeticOverflow,
}

/// The tier a contribution level grants.
#[derive(Clone, Copy, Debug, PartialEq, Eq, Structural)]
pub enum TierLevel {
    /// Below every threshold: no premium features.
    NoTier,
    /// At least 100 XLM contributed.
    Basic,
    /// At least 500 XLM contributed.
    Pro,
    /// At least 2000 XLM contributed.
    Elite,
}

/// What a tier unlocks.
#[derive(Clone, Copy, Debug, PartialEq, Eq, Structural)]
pub struct PremiumFeatures {
    /// Greetings the user may post per day.
    pub max_greetings_per_day: u32,
    /// Whether custom greeting messages are allowed.
    pub custom_greeting_messages: bool,
    /// Whether support requests are prioritized.
    pub priority_support: bool,
    /// Whether analytics are visible.
    pub analytics_access: bool,
    /// API requests allowed per minute.
    pub api_rate_limit: u32,
}

/// A user's tier record.
pub struct PremiumTier {
    /// The user holding the tier.
    pub user: String,
    /// The tier granted.
    pub tier: TierLevel,
    /// Cumulative contribution, in stroops.
    pub contribution: i128,
    /// When the tier was first assigned.
    pub assigned_at: u64,
    /// Features the tier unlocks.
    pub features: PremiumFeatures,
}

/// Convert a whole-XLM amount into stroops.
pub fn xlm_to_stroops(xlm: i128) -> (r: i128)
    requires
        0 <= xlm <= i128::MAX / STROOPS_PER_XLM,
    ensures
        r == xlm * STROOPS_PER_XLM,
{
    proof {
        assert(xlm * STROOPS_PER_XLM <= (i128::MAX / STROOPS_PER_XLM) * STROOPS_PER_XLM
            <= i128::MAX && xlm * STROOPS_PER_XLM >= 0) by (nonlinear_arith)
            requires
                0 <= xlm <= i128::MAX / STROOPS_PER_XLM,
        ;
    }
    xlm * STROOPS_PER_XLM
}

/// The tier a cumulative contribution (in stroops) grants.
pub open spec fn spec_tier_of(contribution: int) -> TierLevel {
    if contribution < BASIC_THRESHOLD {
        TierLevel::NoTier
    } else if contribution < PRO_THRESHOLD {
        TierLevel::Basic
    } else if contribution < ELITE_THRESHOLD {
        TierLevel::Pro
    } else {
        TierLevel::Elite
    }
}

/// Tiers in ascending order of privilege.
pub open spec fn spec_rank(tier: TierLevel) -> int {
    match tier {
        TierLevel::NoTier => 0,
        TierLevel::Basic => 1,
        TierLevel::Pro => 2,
        TierLevel::Elite => 3,
    }
}

/// The feature set of each tier.
pub open spec fn spec_features(tier: TierLevel) -> PremiumFeatures {
    match tier {
        TierLevel::NoTier => PremiumFeatures {
            max_greetings_per_day: 10,
            custom_greeting_messages: false,
            priority_support: false,
            analytics_access: false,
            api_rate_limit: 10,
        },
        TierLevel::Basic => PremiumFeatures {
            max_greetings_per_day: 50,
            custom_greeting_messages: true,
            priority_support: false,
            analytics_access: false,
            api_rate_limit: 30,
        },
        TierLevel::Pro => PremiumFeatures {
            max_greetings_per_day: 200,
            custom_greeting_messages: true,
            priority_support: true,
            analytics_access: true,
            api_rate_limit: 100,
        },
        TierLevel::Elite => PremiumFeatures {
            max_greetings_per_day: 1000,
            custom_greeting_messages: true,
            priority_support: true,
            analytics_access: true,
            api_rate_limit: 500,
        },
    }
}

impl TierLevel {
    /// The tier a cumulative contribution (in stroops) grants.
    pub fn from_contribution(contribution: i128) -> (r: TierLevel)
        ensures
            r == spec_tier_of(contribution as int),
    {
        if contribution < BASIC_THRESHOLD {
            TierLevel::NoTier
        } else if contribution < PRO_THRESHOLD {
            TierLevel::Basic
        } else if contribution < ELITE_THRESHOLD {
            TierLevel::Pro
        } else {
            TierLevel::Elite
        }
    }

    /// The feature set this tier unlocks.
    pub fn get_features(&self) -> (r: PremiumFeatures)
        ensures
            r == spec_features(*self),
    {
        match self {
            TierLevel::NoTier => PremiumFeatures {
                max_greetings_per_day: 10,
                custom_greeting_messages: false,
                priority_support: false,
                analytics_access: false,
                api_rate_limit: 10,
            },
            TierLevel::Basic => PremiumFeatures {
                max_greetings_per_day: 50,
                custom_greeting_messages: true,
                priority_support: false,
                analytics_access: false,
                api_rate_limit: 30,
            },
            TierLevel::Pro => PremiumFeatures {
                max_greetings_per_day: 200,
                custom_greeting_messages: true,
                priority_support: true,
                analytics_access: true,
                api_rate_limit: 100,
            },
            TierLevel::Elite => PremiumFeatures {
                max_greetings_per_day: 1000,
                custom_greeting_messages: true,
                priority_support: true,
                analytics_access: true,
                api_rate_limit: 500,
            },
        }
    }

    /// This tier's position in the ascending order of privilege.
    pub fn rank(&self) -> (r: u8)
        ensures
            r == spec_rank(*self),
    {
        match self {
            TierLevel::NoTier => 0,
            TierLevel::Basic => 1,
            TierLevel::Pro => 2,
            TierLevel::Elite => 3,
        }
    }
}

/// Reject a contribution that is not strictly positive.
pub fn validate_contribution(contribution: i128) -> (r: Result<(), TierError>)
    ensures
        r is Ok <==> contribution > 0,
        r is Err ==> r == Err::<(), TierError>(TierError::InvalidContribution),
{
    if contribution <= 0 {
        Err(TierError::InvalidContribution)
    } else {
        Ok(())
    }
}

/// Tier records, one per user.
pub struct TierRegistry {
    tiers: KvMap<PremiumTier>,
}

impl View for TierRegistry {
    type V = Map<Seq<char>, PremiumTier>;

    closed spec fn view(&self) -> Map<Seq<char>, PremiumTier> {
        self.tiers@
    }
}

impl TierRegistry {
    /// The map is well formed and every record is filed under its own user,
    /// carries a positive contribution, and grants the tier and features
    /// that contribution earns.
    pub closed spec fn wf(self) -> bool {
        &&& self.tiers.wf()
        &&& forall|k: Seq<char>|
            #[trigger] self.tiers@.contains_key(k) ==> self.tiers@[k].user@ == k
                && self.tiers@[k].contribution > 0 && self.tiers@[k].tier == spec_tier_of(
                self.tiers@[k].contribution as int,
            ) && self.tiers@[k].features == spec_features(self.tiers@[k].tier)
    }

    /// An empty registry.
    pub fn new() -> (r: Self)
        ensures
            r.wf(),
            r@ == Map::<Seq<char>, PremiumTier>::empty(),
    {
        TierRegistry { tiers: KvMap::new() }
    }

    /// Whether `user` holds a tier.
    pub fn has_tier(&self, user: &String) -> (r: bool)
        requires
            self.wf(),
        ensures
            r == self@.contains_key(user@),
    {
        self.tiers.has(user)
    }

    /// The tier record of `user`, if any.
    pub fn get_tier(&self, user: &String) -> (r: Option<&PremiumTier>)
        requires
            self.wf(),
        ensures
            match r {
                Some(t) => self@.contains_key(user@) && *t == self@[user@] && t.tier
                    == spec_tier_of(t.contribution as int) && t.features == spec_features(t.tier),
                None => !self@.contains_key(user@),
            },
    {
        self.tiers.get(user)
    }

    /// Grant `user` the tier their contribution earns. Rejects a
    /// non-positive contribution and a user who already holds a tier.
    pub fn assign(&mut self, user: &String, contribution: i128, now: u64) -> (r: Result<
        (),
        TierError,
    >)
        requires
            old(self).wf(),
        ensures
            final(self).wf(),
            match r {
                Ok(()) => contribution > 0 && !old(self)@.contains_key(user@) && final(self)@
                    == old(self)@.insert(
                    user@,
                    (PremiumTier {
                        user: *user,
                        tier: spec_tier_of(contribution as int),
                        contribution,
                        assigned_at: now,
                        features: spec_features(spec_tier_of(contribution as int)),
                    }),
                ),
                Err(e) => final(self)@ == old(self)@ && (if contribution <= 0 {
                    e == TierError::InvalidContribution
                } else {
                    e == TierError::TierAlreadyExists && old(self)@.contains_key(user@)
                }),
            },
            r is Ok <==> contribution > 0 && !old(self)@.contains_key(user@),
    {
        if contribution <= 0 {
            return Err(TierError::InvalidContribution);
        }
        if self.tiers.has(user) {
            return Err(TierError::TierAlreadyExists);
        }
        let level = TierLevel::from_contribution(contribution);
        let features = level.get_features();
        let record = PremiumTier {
            user: user.clone(),
            tier: level,
            contribution,
            assigned_at: now,
            features,
        };
        self.tiers.set(user.clone(), record);
        Ok(())
    }

    /// Add a further contribution for `user` and move them to the tier the
    /// new total earns. Contributions are positive, so the tier never moves
    /// down. Rejects a non-positive addition, a user without a tier, and a
    /// total that would not fit in an `i128`.
    pub fn upgrade(&mut self, user: &String, additional_contribution: i128) -> (r: Result<
        (),
        TierError,
    >)
        requires
            old(self).wf(),
        ensures
            final(self).wf(),
            match r {
                Ok(()) => {
                    &&& additional_contribution > 0
                    &&& old(self)@.contains_key(user@)
                    &&& old(self)@[user@].contribution + additional_contribution <= i128::MAX
                    &&& final(self)@ == old(self)@.insert(
                        user@,
                        (PremiumTier {
                            user: *user,
                            tier: spec_tier_of(
                                old(self)@[user@].contribution + additional_contribution,
                            ),
                            contribution: (old(self)@[user@].contribution
                                + additional_contribution) as i128,
                            assigned_at: old(self)@[user@].assigned_at,
                            features: spec_features(
                                spec_tier_of(
                                    old(self)@[user@].contribution + additional_contribution,
                                ),
                            ),
                        }),
                    )
                },
                Err(e) => final(self)@ == old(self)@ && (if additional_contribution <= 0 {
                    e == TierError::InvalidContribution
                } else if !old(self)@.contains_key(user@) {
                    e == TierError::TierNotFound
                } else {
                    e == TierError::ArithmeticOverflow && old(self)@[user@].contribution
                        + additional_contribution > i128::MAX
                }),
            },
            r is Ok <==> additional_contribution > 0 && old(self)@.contains_key(user@) && old(
                self,
            )@[user@].contribution + additional_contribution <= i128::MAX,
    {
        if additional_contribution <= 0 {
            return Err(TierError::InvalidContribution);
        }
        let existing = match self.tiers.get(user) {
            Some(t) => t,
            None => {
                return Err(TierError::TierNotFound);
            },
        };
        let new_total = match existing.contribution.checked_add(additional_contribution) {
            Some(v) => v,
            None => {
                return Err(TierError::ArithmeticOverflow);
            },
        };
        let new_level = TierLevel::from_contribution(new_total);
        let features = new_level.get_features();
        let record = PremiumTier {
            user: user.clone(),
            tier: new_level,
            contribution: new_total,
            assigned_at: existing.assigned_at,
            features,
        };
        self.tiers.set(user.clone(), record);
        Ok(())
    }

    /// Drop the tier record of `user`, if any.
    pub fn remove_tier(&mut self, user: &String)
        requires
            old(self).wf(),
        ensures
            final(self).wf(),
            final(self)@ == old(self)@.remove(user@),
    {
        self.tiers.remove(user);
    }
}

} // verus!
