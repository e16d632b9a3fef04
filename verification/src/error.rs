//! The ways in which a pool operation can fail.

use vstd::prelude::*;

verus! {

/// Why an operation was refused. A refused operation leaves the pool exactly
/// as it was.
#[derive(Clone, Copy, Debug, PartialEq, Eq, Structural)]
pub enum PoolError {
    /// Quantities were not supplied in the ratio that the pool prescribes.
    RatioMismatch,
    /// The bond issue does not reproduce the requested rate.
    RateMismatch,
    /// The strike rate or maturity named by the caller is not this pool's.
    PoolMismatch,
    /// The pool has matured, or was given no time to run.
    PoolExpired,
    /// The two buckets are not an underlying asset and the opposite side's
    /// collateral claim.
    WrongAssetPair,
    /// More liquidity shares were presented than exist.
    InsufficientShare,
    /// The pool cannot sustain the bond payment that a loan would earn.
    InsufficientBondReserve,
    /// The collateral does not cover the bond obligation of a loan.
    InvalidSplit,
    /// The spot exchange did not complete the swap.
    ExternalSwapFailed,
    /// The pool holds less of an asset than the operation has to hand out.
    InsufficientReserve,
    /// A quantity left the range of 128-bit counts of minimum units, or a
    /// division had a zero divisor.
    ArithmeticFault,
}

} // verus!
