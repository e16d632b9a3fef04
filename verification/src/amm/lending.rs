//! Lending to and borrowing from the pool.
//!
//! A lender supplies collateral claims of one side and earns bonds at the
//! marginal rate: the bond rate that the pool can give up once the new
//! claims are absorbed. A borrower pledges underlying as collateral; part of
//! it covers the bond obligation that the mirrored formula implies, and the
//! bonds issued for that part go to the pool; the rest is converted into the
//! underlying of the other side.

use crate::amm::{AmmState, ConstantSumAmm};
use crate::asset::{bucket_of, AssetKind, Bucket, Side};
use crate::decimal::{
    checked_div_down, checked_mul_down, checked_sum, div_by_whole, div_down, in_range,
    lemma_mul_down_monotone, lemma_rate_payout_covered, mul_down, whole_units,
};
use crate::error::PoolError;
use vstd::prelude::*;

verus! {

/// What a successful borrow yields.
pub struct Loan {
    /// The pool afterwards.
    pub next: AmmState,
    /// Underlying B released to the borrower.
    pub released: nat,
    /// Side-A claims issued to the borrower for the converted rest of the
    /// collateral.
    pub converted: nat,
    /// Side-A claims issued to the borrower for the bond-sized portion of
    /// the collateral.
    pub portion: nat,
    /// Bonds issued for the portion; they go to the pool.
    pub bonds: nat,
}

impl AmmState {
    /// The claims that set the marginal rate of a loan to `side`: the pool's
    /// holding of the other side's claims and the `amount` lent, both in
    /// side-A units.
    pub open spec fn lend_base(self, side: Side, amount: nat) -> nat {
        self.option.normalized(side.other(), self.held(side.other()))
            + self.option.normalized(side.other(), amount)
    }

    /// The bond rate by which the pool's rate exceeds the invariant spread
    /// over `lend_base`. Negative when the pool cannot sustain the loan.
    pub open spec fn marginal_bond_rate(self, side: Side, amount: nat) -> int {
        self.bond_rate() - div_down(self.constant_product, self.lend_base(side, amount))
    }

    /// The bonds that a loan earns: the marginal rate over the whole term.
    pub open spec fn lend_draw(self, side: Side, amount: nat) -> nat {
        mul_down(self.marginal_bond_rate(side, amount) as nat, self.term())
    }

    /// Outcome of lending `amount` of the other side's claims to `side`: the
    /// next state and the bonds drawn from the pool.
    pub open spec fn lend_outcome(self, side: Side, amount: nat, now: int) -> Result<
        (AmmState, nat),
        PoolError,
    > {
        let supplied = side.other();
        let base = self.lend_base(side, amount);
        if self.option.matured(now) {
            Err(PoolError::PoolExpired)
        } else if !in_range(base) || base == 0 || !in_range(
            div_down(self.constant_product, base),
        ) {
            Err(PoolError::ArithmeticFault)
        } else if self.marginal_bond_rate(side, amount) < 0 || self.lend_draw(side, amount)
            > self.bond {
            Err(PoolError::InsufficientBondReserve)
        } else if !in_range(self.held(supplied) + amount) {
            Err(PoolError::ArithmeticFault)
        } else {
            Ok(
                (
                    AmmState {
                        bond: (self.bond - self.lend_draw(side, amount)) as nat,
                        ..self.with_held(supplied, self.held(supplied) + amount)
                    },
                    self.lend_draw(side, amount),
                ),
            )
        }
    }

    /// The part of `collateral` that covers the bond obligation of a loan
    /// against side-B claims: the invariant spread over the normalized
    /// holding less the normalized collateral, less the pool's bond rate,
    /// over the whole term.
    pub open spec fn borrow_portion(self, collateral: nat) -> nat {
        let held = div_down(self.cct_b, self.option.strike_rate);
        let pledged = div_down(collateral, self.option.strike_rate);
        let quotient = div_down(self.constant_product, (held - pledged) as nat);
        mul_down((quotient - self.bond_rate()) as nat, self.term())
    }

    /// Outcome of borrowing `borrow_amount` of side-B claims against
    /// `collateral` of `collateral_kind`, with claims of `cct_kind` to burn.
    ///
    /// The bond-sized portion of the collateral is locked through the option
    /// deposit, and the bonds issued for it are added to the pool's bonds:
    /// they are the obligation that the portion is sized to meet. The rest is
    /// locked through a conversion. `borrow_amount` leaves the pool's holding
    /// of side-B claims.
    pub open spec fn borrow_outcome(
        self,
        borrow_amount: nat,
        collateral_kind: AssetKind,
        collateral: nat,
        cct_kind: AssetKind,
        now: int,
    ) -> Result<Loan, PoolError> {
        let held = div_down(self.cct_b, self.option.strike_rate);
        let pledged = div_down(collateral, self.option.strike_rate);
        let quotient = div_down(self.constant_product, (held - pledged) as nat);
        let portion = self.borrow_portion(collateral);
        if self.option.matured(now) {
            Err(PoolError::PoolExpired)
        } else if collateral_kind != AssetKind::TokenA || cct_kind != AssetKind::CctB {
            Err(PoolError::WrongAssetPair)
        } else if !in_range(held) || !in_range(pledged) {
            Err(PoolError::ArithmeticFault)
        } else if held <= pledged {
            Err(PoolError::InvalidSplit)
        } else if !in_range(quotient) {
            Err(PoolError::ArithmeticFault)
        } else if quotient < self.bond_rate() {
            Err(PoolError::InvalidSplit)
        } else if !in_range(portion) {
            Err(PoolError::ArithmeticFault)
        } else if portion > collateral {
            Err(PoolError::InvalidSplit)
        } else if borrow_amount > self.cct_b {
            Err(PoolError::InsufficientReserve)
        } else {
            match self.option.deposit_outcome(Side::A, portion, now) {
                Err(e) => Err(e),
                Ok((locked, bonds)) => match locked.convert_outcome(
                    AssetKind::TokenA,
                    (collateral - portion) as nat,
                    AssetKind::CctB,
                    now,
                ) {
                    Err(e) => Err(e),
                    Ok(c) => if !in_range(self.bond + bonds) {
                        Err(PoolError::ArithmeticFault)
                    } else {
                        Ok(
                            Loan {
                                next: AmmState {
                                    option: c.next,
                                    cct_b: (self.cct_b - borrow_amount) as nat,
                                    bond: self.bond + bonds,
                                    ..self
                                },
                                released: c.released,
                                converted: c.issued,
                                portion,
                                bonds,
                            },
                        )
                    },
                },
            }
        }
    }
}

impl ConstantSumAmm {
    /// Lends to `side` by supplying claims of the other side. The pool
    /// absorbs the claims; the lender receives newly issued claims of the
    /// supplied kind, one for one, and the bonds that the marginal rate pays
    /// over the term, drawn from the pool.
    ///
    /// Fails with `PoolExpired` after maturity and with
    /// `InsufficientBondReserve` when the marginal rate is negative or the
    /// draw exceeds the bonds held.
    pub fn lend(&mut self, side: Side, lend_token: Bucket, now: i64) -> (r: Result<
        (Bucket, Bucket),
        PoolError,
    >)
        requires
            old(self).wf(),
            lend_token.kind == side.other().cct(),
        ensures
            final(self).wf(),
            match old(self)@.lend_outcome(side, lend_token.amount as nat, now as int) {
                Ok((next, draw)) => {
                    &&& final(self)@ == next
                    &&& r == Ok::<(Bucket, Bucket), PoolError>(
                        (
                            bucket_of(side.other().cct(), lend_token.amount as nat),
                            bucket_of(AssetKind::Bond, draw),
                        ),
                    )
                },
                Err(e) => final(self)@ == old(self)@ && r is Err && r->Err_0 == e,
            },
    {
        let duration = self.option.duration();
        if now > duration {
            return Err(PoolError::PoolExpired);
        }
        let supplied = side.other();
        let lent = match self.option.normalize(supplied, lend_token.amount) {
            Some(x) => x,
            None => { return Err(PoolError::ArithmeticFault); },
        };
        let held = match self.option.normalize(supplied, self.holding(supplied)) {
            Some(x) => x,
            None => { return Err(PoolError::ArithmeticFault); },
        };
        let base = match checked_sum(held, lent) {
            Some(x) => x,
            None => { return Err(PoolError::ArithmeticFault); },
        };
        let quotient = match checked_div_down(self.constant_product, base) {
            Some(x) => x,
            None => { return Err(PoolError::ArithmeticFault); },
        };
        let rate = div_by_whole(self.bond, duration);
        if quotient > rate {
            return Err(PoolError::InsufficientBondReserve);
        }
        proof {
            let term = self@.term();
            lemma_rate_payout_covered(self.bond as nat, duration as nat);
            lemma_mul_down_monotone((rate - quotient) as nat, term, rate as nat, term);
        }
        let draw = checked_mul_down(rate - quotient, whole_units(duration)).unwrap();
        let absorbed = match checked_sum(self.holding(supplied), lend_token.amount) {
            Some(x) => x,
            None => { return Err(PoolError::ArithmeticFault); },
        };
        match supplied {
            Side::A => { self.cct_a = absorbed; },
            Side::B => { self.cct_b = absorbed; },
        }
        self.bond = self.bond - draw;
        Ok(
            (
                Bucket { kind: supplied.cct(), amount: lend_token.amount },
                Bucket { kind: AssetKind::Bond, amount: draw },
            ),
        )
    }

    /// Lends to side A by supplying side-B claims.
    pub fn lend_a(&mut self, lend_token: Bucket, now: i64) -> (r: Result<
        (Bucket, Bucket),
        PoolError,
    >)
        requires
            old(self).wf(),
            lend_token.kind == AssetKind::CctB,
        ensures
            final(self).wf(),
            match old(self)@.lend_outcome(Side::A, lend_token.amount as nat, now as int) {
                Ok((next, draw)) => {
                    &&& final(self)@ == next
                    &&& r == Ok::<(Bucket, Bucket), PoolError>(
                        (
                            bucket_of(AssetKind::CctB, lend_token.amount as nat),
                            bucket_of(AssetKind::Bond, draw),
                        ),
                    )
                },
                Err(e) => final(self)@ == old(self)@ && r is Err && r->Err_0 == e,
            },
    {
        self.lend(Side::A, lend_token, now)
    }

    /// Lends to side B by supplying side-A claims.
    pub fn lend_b(&mut self, lend_token: Bucket, now: i64) -> (r: Result<
        (Bucket, Bucket),
        PoolError,
    >)
        requires
            old(self).wf(),
            lend_token.kind == AssetKind::CctA,
        ensures
            final(self).wf(),
            match old(self)@.lend_outcome(Side::B, lend_token.amount as nat, now as int) {
                Ok((next, draw)) => {
                    &&& final(self)@ == next
                    &&& r == Ok::<(Bucket, Bucket), PoolError>(
                        (
                            bucket_of(AssetKind::CctA, lend_token.amount as nat),
                            bucket_of(AssetKind::Bond, draw),
                        ),
                    )
                },
                Err(e) => final(self)@ == old(self)@ && r is Err && r->Err_0 == e,
            },
    {
        self.lend(Side::B, lend_token, now)
    }

    /// Borrows against underlying A. The collateral is split into the
    /// portion that covers the bond obligation and the rest. The portion is
    /// locked for claims and bonds, and the bonds go to the pool; the rest is
    /// converted, burning `cc_token`, into underlying B. `borrow_amount` of
    /// side-B claims leaves the pool.
    ///
    /// Returns four buckets: the underlying B released, the side-A claims
    /// issued for the converted rest, the side-A claims issued for the
    /// portion, and the bonds issued for the portion. The first three are
    /// the borrower's; the bonds are the pool's, and are handed out only so
    /// that whoever keeps the assets can place them there.
    ///
    /// Fails with `PoolExpired` after maturity; with `WrongAssetPair` unless
    /// `collateral` is underlying A and `cc_token` holds side-B claims; with
    /// `InvalidSplit` when the portion is not between nothing and the whole
    /// collateral; with `InsufficientReserve` when the pool holds fewer
    /// side-B claims than `borrow_amount` or less underlying B than the
    /// conversion releases.
    pub fn borrow_a(
        &mut self,
        borrow_amount: u128,
        collateral: Bucket,
        cc_token: Bucket,
        now: i64,
    ) -> (r: Result<(Bucket, Bucket, Bucket, Bucket), PoolError>)
        requires
            old(self).wf(),
        ensures
            final(self).wf(),
            match old(self)@.borrow_outcome(
                borrow_amount as nat,
                collateral.kind,
                collateral.amount as nat,
                cc_token.kind,
                now as int,
            ) {
                Ok(loan) => {
                    &&& final(self)@ == loan.next
                    &&& r == Ok::<(Bucket, Bucket, Bucket, Bucket), PoolError>(
                        (
                            bucket_of(AssetKind::TokenB, loan.released),
                            bucket_of(AssetKind::CctA, loan.converted),
                            bucket_of(AssetKind::CctA, loan.portion),
                            bucket_of(AssetKind::Bond, loan.bonds),
                        ),
                    )
                },
                Err(e) => final(self)@ == old(self)@ && r is Err && r->Err_0 == e,
            },
    {
        let duration = self.option.duration();
        let strike_rate = self.option.strike_rate();
        if now > duration {
            return Err(PoolError::PoolExpired);
        }
        if collateral.kind != AssetKind::TokenA || cc_token.kind != AssetKind::CctB {
            return Err(PoolError::WrongAssetPair);
        }
        let held = match checked_div_down(self.cct_b, strike_rate) {
            Some(x) => x,
            None => { return Err(PoolError::ArithmeticFault); },
        };
        let pledged = match checked_div_down(collateral.amount, strike_rate) {
            Some(x) => x,
            None => { return Err(PoolError::ArithmeticFault); },
        };
        if held <= pledged {
            return Err(PoolError::InvalidSplit);
        }
        let quotient = match checked_div_down(self.constant_product, held - pledged) {
            Some(x) => x,
            None => { return Err(PoolError::ArithmeticFault); },
        };
        let rate = div_by_whole(self.bond, duration);
        if quotient < rate {
            return Err(PoolError::InvalidSplit);
        }
        let portion = match checked_mul_down(quotient - rate, whole_units(duration)) {
            Some(x) => x,
            None => { return Err(PoolError::ArithmeticFault); },
        };
        if portion > collateral.amount {
            return Err(PoolError::InvalidSplit);
        }
        if borrow_amount > self.cct_b {
            return Err(PoolError::InsufficientReserve);
        }
        let first_batch = Bucket { kind: AssetKind::TokenA, amount: portion };
        let second_batch = Bucket { kind: AssetKind::TokenA, amount: collateral.amount - portion };
        let mut option = self.option;
        let (portion_claims, bonds) = match option.option_a_deposit(first_batch, now) {
            Ok(issued) => issued,
            Err(e) => { return Err(e); },
        };
        let (released, converted_claims) = match option.convert_option(
            second_batch,
            cc_token,
            now,
        ) {
            Ok(converted) => converted,
            Err(e) => { return Err(e); },
        };
        let bond = match checked_sum(self.bond, bonds.amount) {
            Some(x) => x,
            None => { return Err(PoolError::ArithmeticFault); },
        };
        self.option = option;
        self.cct_b = self.cct_b - borrow_amount;
        self.bond = bond;
        Ok((released, converted_claims, portion_claims, bonds))
    }
}

} // verus!
