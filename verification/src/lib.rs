//! A collateralised yield-split liquidity pool.
//!
//! Two underlying assets are locked for a fixed term. Against them the pool
//! issues collateral-claim tokens (on principal) and bond tokens (on yield),
//! and runs a market in which liquidity providers deposit and withdraw
//! claims, exposure is moved between the two sides at a fixed strike rate,
//! and participants lend and borrow against the pool.
//!
//! The library is the pool's bookkeeping: every operation is a transition on
//! plain values, with a contract that states its result exactly. Custody of
//! the assets, the clock and the spot exchange are the caller's business.

pub mod decimal;
pub mod asset;
pub mod error;
pub mod collateral;
pub mod amm;
pub mod laws;

pub use amm::ConstantSumAmm;
pub use asset::{AssetKind, Bucket, Side};
pub use collateral::ConstantSumOption;
pub use decimal::UNIT;
pub use error::PoolError;
