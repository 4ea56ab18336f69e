//! Accounting core for a pooled lending protocol, together with the
//! contribution-tier rules of the surrounding platform.
//!
//! The lending side tracks, per pool of one asset: aggregate deposits,
//! borrows and reserves; a monotonically non-decreasing interest index that
//! compounds lazily when `accrue` is called; per-user deposit and borrow
//! positions whose live balances are recovered by comparing their index
//! snapshot against the pool's current index; and the health factor that
//! gates borrowing and liquidation.
//!
//! All monetary and rate quantities are 128-bit signed fixed-point integers
//! scaled by [`interest::PRECISION`]. Every public operation carries a
//! contract; arithmetic is either proved free of overflow or rejected with
//! [`errors::Error::ArithmeticOverflow`] before any state is touched.

pub mod errors;
pub mod events;
pub mod interest;
pub mod kv;
pub mod pool;
pub mod positions;
pub mod tier;
