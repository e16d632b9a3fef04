//! Asset kinds and the buckets that carry them.

use vstd::prelude::*;

verus! {

/// One of the two sides of the pool, each with its own underlying asset.
#[derive(Clone, Copy, Debug, PartialEq, Eq, Structural)]
pub enum Side {
    A,
    B,
}

/// The asset kinds that one pool deals in.
#[derive(Clone, Copy, Debug, PartialEq, Eq, Structural)]
pub enum AssetKind {
    /// Underlying asset of side A.
    TokenA,
    /// Underlying asset of side B.
    TokenB,
    /// Collateral claim on locked side-A underlying.
    CctA,
    /// Collateral claim on locked side-B underlying.
    CctB,
    /// Claim on accrued yield.
    Bond,
    /// Share in the pool's holdings of claims and bonds.
    LiquidityShare,
}

/// A quantity of one asset kind, counted in minimum units.
#[derive(Clone, Copy, Debug, PartialEq, Eq, Structural)]
pub struct Bucket {
    pub kind: AssetKind,
    pub amount: u128,
}

impl Side {
    /// The opposite side.
    pub open spec fn spec_other(self) -> Side {
        match self {
            Side::A => Side::B,
            Side::B => Side::A,
        }
    }

    /// The underlying asset of this side.
    pub open spec fn spec_token(self) -> AssetKind {
        match self {
            Side::A => AssetKind::TokenA,
            Side::B => AssetKind::TokenB,
        }
    }

    /// The collateral claim of this side.
    pub open spec fn spec_cct(self) -> AssetKind {
        match self {
            Side::A => AssetKind::CctA,
            Side::B => AssetKind::CctB,
        }
    }

    #[verifier::when_used_as_spec(spec_other)]
    pub fn other(self) -> (r: Side)
        ensures
            r == self.spec_other(),
    {
        match self {
            Side::A => Side::B,
            Side::B => Side::A,
        }
    }

    #[verifier::when_used_as_spec(spec_token)]
    pub fn token(self) -> (r: AssetKind)
        ensures
            r == self.spec_token(),
    {
        match self {
            Side::A => AssetKind::TokenA,
            Side::B => AssetKind::TokenB,
        }
    }

    #[verifier::when_used_as_spec(spec_cct)]
    pub fn cct(self) -> (r: AssetKind)
        ensures
            r == self.spec_cct(),
    {
        match self {
            Side::A => AssetKind::CctA,
            Side::B => AssetKind::CctB,
        }
    }
}

/// The bucket of `kind` that holds `amount` minimum units.
pub open spec fn bucket_of(kind: AssetKind, amount: nat) -> Bucket {
    Bucket { kind, amount: amount as u128 }
}

impl Bucket {
    pub fn new(kind: AssetKind, amount: u128) -> (r: Bucket)
        ensures
            r == (Bucket { kind, amount }),
    {
        Bucket { kind, amount }
    }

    pub open spec fn spec_is_empty(&self) -> bool {
        self.amount == 0
    }

    #[verifier::when_used_as_spec(spec_is_empty)]
    pub fn is_empty(&self) -> (r: bool)
        ensures
            r == self.spec_is_empty(),
    {
        self.amount == 0
    }
}

} // verus!
