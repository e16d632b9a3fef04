//! Moving the pool's exposure across the strike.
//!
//! A conversion locks underlying of one side and releases underlying of the
//! other at the strike rate. A rebalance feeds a conversion with the pool's
//! whole holding of opposite-side claims, sends the released underlying
//! through the spot exchange and keeps the newly issued claims. The exchange
//! is not called from here: the caller asks for the bucket to swap, swaps it,
//! and reports how the swap ended.

use crate::amm::{AmmState, ConstantSumAmm};
use crate::asset::{bucket_of, AssetKind, Bucket, Side};
use crate::collateral::side_of_token;
use crate::decimal::{checked_sum, in_range};
use crate::error::PoolError;
use vstd::prelude::*;

verus! {

/// What a rebalance would do, before the exchange is involved.
pub struct Rebalance {
    /// The pool once the swap has gone through.
    pub next: AmmState,
    /// The side whose underlying was supplied.
    pub side: Side,
    /// Underlying of the other side that goes to the exchange.
    pub released: nat,
    /// Claims of `side` that are issued and kept by the pool.
    pub issued: nat,
    /// Claims of the other side that are burned: all the pool held.
    pub burned: nat,
}

impl AmmState {
    /// What a rebalance with `amount` of underlying `kind` would do at time
    /// `now`: a conversion that burns the pool's whole holding of
    /// opposite-side claims, after which the pool holds the newly issued
    /// claims.
    pub open spec fn rebalance_plan(self, kind: AssetKind, amount: nat, now: int) -> Result<
        Rebalance,
        PoolError,
    > {
        let side = side_of_token(kind);
        match self.option.convert_outcome(kind, amount, side.other().cct(), now) {
            Err(e) => Err(e),
            Ok(c) => if !in_range(self.held(side) + amount) {
                Err(PoolError::ArithmeticFault)
            } else {
                Ok(
                    Rebalance {
                        next: self.with_option(c.next).with_held(side.other(), 0).with_held(
                            side,
                            self.held(side) + amount,
                        ),
                        side,
                        released: c.released,
                        issued: c.issued,
                        burned: self.held(side.other()),
                    },
                )
            },
        }
    }

    /// Outcome of a rebalance whose swap ended as `swapped` says: the next
    /// state and the bucket that the exchange gave.
    pub open spec fn rebalance_outcome(
        self,
        kind: AssetKind,
        amount: nat,
        now: int,
        swapped: Option<Bucket>,
    ) -> Result<(AmmState, Bucket), PoolError> {
        match self.rebalance_plan(kind, amount, now) {
            Err(e) => Err(e),
            Ok(plan) => match swapped {
                None => Err(PoolError::ExternalSwapFailed),
                Some(bucket) => Ok((plan.next, bucket)),
            },
        }
    }

    /// What a rebalance that must run against the holding of `burned`
    /// claims would do: the underlying supplied has to be of the other side.
    pub open spec fn directed_rebalance_plan(
        self,
        burned: Side,
        kind: AssetKind,
        amount: nat,
        now: int,
    ) -> Result<Rebalance, PoolError> {
        if !self.option.matured(now) && kind != burned.other().token() {
            Err(PoolError::WrongAssetPair)
        } else {
            self.rebalance_plan(kind, amount, now)
        }
    }

    /// Outcome of a rebalance that must run against the holding of `burned`
    /// claims.
    pub open spec fn directed_rebalance_outcome(
        self,
        burned: Side,
        kind: AssetKind,
        amount: nat,
        now: int,
        swapped: Option<Bucket>,
    ) -> Result<(AmmState, Bucket), PoolError> {
        if !self.option.matured(now) && kind != burned.other().token() {
            Err(PoolError::WrongAssetPair)
        } else {
            self.rebalance_outcome(kind, amount, now, swapped)
        }
    }
}

impl ConstantSumAmm {
    /// Moves collateral across the strike. Locks `lock_token`, issues
    /// same-side claims one for one, burns `cctoken` and releases
    /// opposite-side underlying worth the locked amount at the strike rate.
    /// Returns the released underlying and the issued claims. The pool's own
    /// holdings of claims and bonds, its invariant and its interest stay as
    /// they are.
    ///
    /// Fails with `PoolExpired` after maturity, and with `WrongAssetPair`
    /// unless the buckets are underlying A with side-B claims or underlying B
    /// with side-A claims.
    pub fn convert_option(&mut self, lock_token: Bucket, cctoken: Bucket, now: i64) -> (r: Result<
        (Bucket, Bucket),
        PoolError,
    >)
        requires
            old(self).wf(),
        ensures
            final(self).wf(),
            match old(self)@.option.convert_outcome(
                lock_token.kind,
                lock_token.amount as nat,
                cctoken.kind,
                now as int,
            ) {
                Ok(c) => {
                    &&& final(self)@ == old(self)@.with_option(c.next)
                    &&& r == Ok::<(Bucket, Bucket), PoolError>(
                        (
                            bucket_of(c.side.other().token(), c.released),
                            bucket_of(c.side.cct(), c.issued),
                        ),
                    )
                },
                Err(e) => final(self)@ == old(self)@ && r is Err && r->Err_0 == e,
            },
    {
        self.option.convert_option(lock_token, cctoken, now)
    }

    /// Moves collateral across the strike, exactly as `convert_option` does.
    pub fn option_c(&mut self, lock_token: Bucket, cctoken: Bucket, now: i64) -> (r: Result<
        (Bucket, Bucket),
        PoolError,
    >)
        requires
            old(self).wf(),
        ensures
            final(self).wf(),
            match old(self)@.option.convert_outcome(
                lock_token.kind,
                lock_token.amount as nat,
                cctoken.kind,
                now as int,
            ) {
                Ok(c) => {
                    &&& final(self)@ == old(self)@.with_option(c.next)
                    &&& r == Ok::<(Bucket, Bucket), PoolError>(
                        (
                            bucket_of(c.side.other().token(), c.released),
                            bucket_of(c.side.cct(), c.issued),
                        ),
                    )
                },
                Err(e) => final(self)@ == old(self)@ && r is Err && r->Err_0 == e,
            },
    {
        self.convert_option(lock_token, cctoken, now)
    }

    /// What a rebalance with `collateral` does to the assets, the swap
    /// aside: the underlying that goes to the spot exchange, the claims that
    /// are issued and kept by the pool, and the pool's claims that are
    /// burned, in that order. The pool itself is not changed. Fails as the
    /// rebalance itself would before the swap. The collateral must not be
    /// empty.
    pub fn rebalance_effect(&self, collateral: Bucket, now: i64) -> (r: Result<
        (Bucket, Bucket, Bucket),
        PoolError,
    >)
        requires
            self.wf(),
            !collateral.is_empty(),
        ensures
            match self@.rebalance_plan(collateral.kind, collateral.amount as nat, now as int) {
                Ok(plan) => r == Ok::<(Bucket, Bucket, Bucket), PoolError>(
                    (
                        bucket_of(plan.side.other().token(), plan.released),
                        bucket_of(plan.side.cct(), plan.issued),
                        bucket_of(plan.side.other().cct(), plan.burned),
                    ),
                ),
                Err(e) => r is Err && r->Err_0 == e,
            },
    {
        let mut pool = *self;
        pool.rebalance_convert(collateral, now)
    }

    /// What a rebalance against the pool's holding of `burned` claims does
    /// to the assets, the swap aside; as `rebalance_effect`, but the
    /// collateral must be underlying of the other side, else
    /// `WrongAssetPair`.
    pub fn rebalance_effect_against(&self, burned: Side, collateral: Bucket, now: i64) -> (r:
        Result<(Bucket, Bucket, Bucket), PoolError>)
        requires
            self.wf(),
            !collateral.is_empty(),
        ensures
            match self@.directed_rebalance_plan(
                burned,
                collateral.kind,
                collateral.amount as nat,
                now as int,
            ) {
                Ok(plan) => r == Ok::<(Bucket, Bucket, Bucket), PoolError>(
                    (
                        bucket_of(plan.side.other().token(), plan.released),
                        bucket_of(plan.side.cct(), plan.issued),
                        bucket_of(plan.side.other().cct(), plan.burned),
                    ),
                ),
                Err(e) => r is Err && r->Err_0 == e,
            },
    {
        if now <= self.option.duration() && collateral.kind != burned.other().token() {
            return Err(PoolError::WrongAssetPair);
        }
        self.rebalance_effect(collateral, now)
    }

    /// The bucket that a rebalance with `collateral` would send to the spot
    /// exchange. Fails as the rebalance itself would before the swap. The
    /// collateral must not be empty.
    pub fn rebalance_swap_input(&self, collateral: Bucket, now: i64) -> (r: Result<
        Bucket,
        PoolError,
    >)
        requires
            self.wf(),
            !collateral.is_empty(),
        ensures
            match self@.rebalance_plan(collateral.kind, collateral.amount as nat, now as int) {
                Ok(plan) => r == Ok::<Bucket, PoolError>(
                    bucket_of(plan.side.other().token(), plan.released),
                ),
                Err(e) => r is Err && r->Err_0 == e,
            },
    {
        match self.rebalance_effect(collateral, now) {
            Ok((released, _, _)) => Ok(released),
            Err(e) => Err(e),
        }
    }

    /// Runs the conversion of a rebalance and books the issued claims.
    /// Returns the underlying released, the claims issued and the claims
    /// burned.
    fn rebalance_convert(&mut self, collateral: Bucket, now: i64) -> (r: Result<
        (Bucket, Bucket, Bucket),
        PoolError,
    >)
        requires
            old(self).wf(),
        ensures
            final(self).wf(),
            match old(self)@.rebalance_plan(collateral.kind, collateral.amount as nat, now as int) {
                Ok(plan) => {
                    &&& final(self)@ == plan.next
                    &&& r == Ok::<(Bucket, Bucket, Bucket), PoolError>(
                        (
                            bucket_of(plan.side.other().token(), plan.released),
                            bucket_of(plan.side.cct(), plan.issued),
                            bucket_of(plan.side.other().cct(), plan.burned),
                        ),
                    )
                },
                Err(e) => final(self)@ == old(self)@ && r is Err && r->Err_0 == e,
            },
    {
        let side = if collateral.kind == AssetKind::TokenA {
            Side::A
        } else {
            Side::B
        };
        let burned = Bucket { kind: side.other().cct(), amount: self.holding(side.other()) };
        let mut option = self.option;
        let (released, issued) = match option.convert_option(collateral, burned, now) {
            Ok(converted) => converted,
            Err(e) => { return Err(e); },
        };
        let held = match checked_sum(self.holding(side), collateral.amount) {
            Some(x) => x,
            None => { return Err(PoolError::ArithmeticFault); },
        };
        self.option = option;
        match side {
            Side::A => {
                self.cct_b = 0;
                self.cct_a = held;
            },
            Side::B => {
                self.cct_a = 0;
                self.cct_b = held;
            },
        }
        Ok((released, issued, burned))
    }

    /// Rebalances with `collateral`, given how the swap of the underlying
    /// named by `rebalance_effect` ended: `Some` with the bucket the exchange
    /// returned, `None` when the exchange failed.
    ///
    /// The collateral must not be empty, and its kind gives the direction.
    /// The pool's whole holding of opposite-side claims is burned in a
    /// conversion, the underlying it releases goes to the exchange, and the
    /// claims issued for `collateral` stay in the pool. Returns what the
    /// exchange gave.
    ///
    /// Fails with `PoolExpired` after maturity, with `WrongAssetPair` when
    /// `collateral` is no underlying asset, and with `ExternalSwapFailed` when
    /// the swap failed; the pool is then exactly as before.
    pub fn rebalance_transaction(
        &mut self,
        collateral: Bucket,
        now: i64,
        swapped: Option<Bucket>,
    ) -> (r: Result<Bucket, PoolError>)
        requires
            old(self).wf(),
            !collateral.is_empty(),
        ensures
            final(self).wf(),
            match old(self)@.rebalance_outcome(
                collateral.kind,
                collateral.amount as nat,
                now as int,
                swapped,
            ) {
                Ok((next, bucket)) => final(self)@ == next && r == Ok::<Bucket, PoolError>(bucket),
                Err(e) => final(self)@ == old(self)@ && r is Err && r->Err_0 == e,
            },
            swapped is None ==> *final(self) == *old(self),
    {
        let mut pool = *self;
        match pool.rebalance_convert(collateral, now) {
            Err(e) => Err(e),
            Ok(_) => match swapped {
                None => Err(PoolError::ExternalSwapFailed),
                Some(bucket) => {
                    *self = pool;
                    Ok(bucket)
                },
            },
        }
    }

    /// Rebalances against the pool's side-A claims: `collateral` must be
    /// underlying B, else `WrongAssetPair`.
    pub fn rebalance_transaction_a(
        &mut self,
        collateral: Bucket,
        now: i64,
        swapped: Option<Bucket>,
    ) -> (r: Result<Bucket, PoolError>)
        requires
            old(self).wf(),
            !collateral.is_empty(),
        ensures
            final(self).wf(),
            match old(self)@.directed_rebalance_outcome(
                Side::A,
                collateral.kind,
                collateral.amount as nat,
                now as int,
                swapped,
            ) {
                Ok((next, bucket)) => final(self)@ == next && r == Ok::<Bucket, PoolError>(bucket),
                Err(e) => final(self)@ == old(self)@ && r is Err && r->Err_0 == e,
            },
    {
        if now <= self.option.duration() && collateral.kind != AssetKind::TokenB {
            return Err(PoolError::WrongAssetPair);
        }
        self.rebalance_transaction(collateral, now, swapped)
    }

    /// Rebalances against the pool's side-B claims: `collateral` must be
    /// underlying A, else `WrongAssetPair`.
    pub fn rebalance_transaction_b(
        &mut self,
        collateral: Bucket,
        now: i64,
        swapped: Option<Bucket>,
    ) -> (r: Result<Bucket, PoolError>)
        requires
            old(self).wf(),
            !collateral.is_empty(),
        ensures
            final(self).wf(),
            match old(self)@.directed_rebalance_outcome(
                Side::B,
                collateral.kind,
                collateral.amount as nat,
                now as int,
                swapped,
            ) {
                Ok((next, bucket)) => final(self)@ == next && r == Ok::<Bucket, PoolError>(bucket),
                Err(e) => final(self)@ == old(self)@ && r is Err && r->Err_0 == e,
            },
    {
        if now <= self.option.duration() && collateral.kind != AssetKind::TokenA {
            return Err(PoolError::WrongAssetPair);
        }
        self.rebalance_transaction(collateral, now, swapped)
    }
}

} // verus!
