//! The pool: its holdings, its running invariant and its liquidity shares.
//!
//! A pool owns an option component (the locked underlying) and holds
//! collateral claims of both sides and bonds. Liquidity providers deposit
//! claims and bonds at the pool's current rate and receive shares; a share
//! redeems a pro-rata slice of every holding.

use crate::asset::{bucket_of, AssetKind, Bucket, Side};
use crate::collateral::{ConstantSumOption, OptionState};
use crate::decimal::{
    checked_div_down, checked_mul_down, checked_sum, div_by_whole, div_down, fraction_of,
    in_range, lemma_div_down_self, lemma_mul_down_unit, lemma_sqrt_down_zero, mul_down, portion,
    sqrt_down, sqrt_floor, whole, UNIT,
};
use crate::error::PoolError;
use vstd::prelude::*;

pub mod lending;
pub mod rebalance;

verus! {

/// A pool instance.
#[derive(Clone, Copy, Debug, PartialEq, Eq)]
pub struct ConstantSumAmm {
    option: ConstantSumOption,
    cct_a: u128,
    cct_b: u128,
    bond: u128,
    lp_supply: u128,
    constant_product: u128,
    interest: u128,
    fee: u128,
}

/// What a pool is, as plain numbers.
pub struct AmmState {
    /// Strike rate, maturity and locked underlying.
    pub option: OptionState,
    /// Side-A collateral claims held.
    pub cct_a: nat,
    /// Side-B collateral claims held.
    pub cct_b: nat,
    /// Bonds held.
    pub bond: nat,
    /// Liquidity shares outstanding.
    pub lp_supply: nat,
    /// The running invariant.
    pub constant_product: nat,
    /// The rate at which deposits are accepted: bonds per unit of time, per
    /// unit of effective claims.
    pub interest: nat,
    /// The fee fraction the pool was created with.
    pub fee: nat,
}

/// What creating a funded pool yields.
pub struct Issue {
    /// The new pool.
    pub next: AmmState,
    /// Liquidity shares issued.
    pub lp: nat,
    /// Side-A collateral claims issued.
    pub cct_a: nat,
    /// Side-B collateral claims issued.
    pub cct_b: nat,
    /// Bonds issued.
    pub bond: nat,
}

/// What a withdrawal yields.
pub struct Payout {
    /// The pool afterwards.
    pub next: AmmState,
    /// Side-A collateral claims paid out.
    pub cct_a: nat,
    /// Side-B collateral claims paid out.
    pub cct_b: nat,
    /// Bonds paid out.
    pub bond: nat,
}

impl Payout {
    /// Collateral claims of `side` paid out.
    pub open spec fn held(self, side: Side) -> nat {
        match side {
            Side::A => self.cct_a,
            Side::B => self.cct_b,
        }
    }
}

/// Whether two underlying amounts stand in the ratio that the strike rate
/// prescribes: `a / b == 1 / strike_rate`, both sides rounded down.
pub open spec fn ratio_matches(a: nat, b: nat, strike_rate: nat) -> bool {
    &&& b > 0
    &&& strike_rate > 0
    &&& div_down(a, b) == div_down(UNIT as nat, strike_rate)
}

impl AmmState {
    /// The option component is valid, every quantity fits the machine
    /// representation, the fee is below one, and a pool without shares has
    /// no invariant left.
    pub open spec fn wf(self) -> bool {
        &&& self.option.wf()
        &&& in_range(self.cct_a)
        &&& in_range(self.cct_b)
        &&& in_range(self.bond)
        &&& in_range(self.lp_supply)
        &&& in_range(self.constant_product)
        &&& in_range(self.interest)
        &&& self.fee < UNIT
        &&& self.lp_supply == 0 ==> self.constant_product == 0
    }

    /// Collateral claims of `side` held by the pool.
    pub open spec fn held(self, side: Side) -> nat {
        match side {
            Side::A => self.cct_a,
            Side::B => self.cct_b,
        }
    }

    /// The state with the holding of `side` claims replaced.
    pub open spec fn with_held(self, side: Side, amount: nat) -> AmmState {
        match side {
            Side::A => AmmState { cct_a: amount, ..self },
            Side::B => AmmState { cct_b: amount, ..self },
        }
    }

    /// The pool with its option component replaced.
    pub open spec fn with_option(self, option: OptionState) -> AmmState {
        AmmState { option, ..self }
    }

    /// The term as a decimal number of time units.
    pub open spec fn term(self) -> nat {
        whole(self.option.duration as nat)
    }

    /// Collateral claims held, both sides in side-A units.
    pub open spec fn effective(self) -> nat {
        self.cct_a + div_down(self.cct_b, self.option.strike_rate)
    }

    /// Bonds held per unit of time.
    pub open spec fn bond_rate(self) -> nat {
        div_down(self.bond, self.term())
    }

    /// The invariant as the holdings give it: effective claims times bond
    /// rate.
    pub open spec fn product(self) -> nat {
        mul_down(self.effective(), self.bond_rate())
    }

    /// Outcome of creating an empty pool.
    pub open spec fn instantiate_outcome(
        strike_price: nat,
        duration: int,
        fee: nat,
        lp_initial_supply: nat,
        now: int,
    ) -> Result<AmmState, PoolError> {
        match OptionState::instantiate_outcome(strike_price, duration, now) {
            Err(e) => Err(e),
            Ok(option) => Ok(
                AmmState {
                    option,
                    cct_a: 0,
                    cct_b: 0,
                    bond: 0,
                    lp_supply: lp_initial_supply,
                    constant_product: 0,
                    interest: 0,
                    fee,
                },
            ),
        }
    }

    /// Outcome of creating a pool by locking `a` of underlying A and `b` of
    /// underlying B at time `now`.
    ///
    /// Claims are issued one for one with the locked amounts, bonds at
    /// `required_interest` per unit of effective claims. The invariant is the
    /// effective claims times the bond rate, the interest is the bond rate per
    /// unit of effective claims, and the shares issued are the square root of
    /// the invariant.
    pub open spec fn locking_outcome(
        a: nat,
        b: nat,
        duration: int,
        required_interest: nat,
        strike_rate: nat,
        now: int,
    ) -> Result<Issue, PoolError> {
        let effective = a + div_down(b, strike_rate);
        let bond = mul_down(required_interest, effective);
        let rate = div_down(bond, whole(duration as nat));
        let constant_product = mul_down(effective, rate);
        let interest = div_down(rate, effective);
        let lp = sqrt_down(constant_product);
        if now > duration || duration <= 0 {
            Err(PoolError::PoolExpired)
        } else if !ratio_matches(a, b, strike_rate) {
            Err(PoolError::RatioMismatch)
        } else if !in_range(effective) || !in_range(bond) {
            Err(PoolError::ArithmeticFault)
        } else if effective == 0 || div_down(bond, effective) != required_interest {
            Err(PoolError::RateMismatch)
        } else if !in_range(constant_product) || !in_range(interest) {
            Err(PoolError::ArithmeticFault)
        } else {
            Ok(
                Issue {
                    next: AmmState {
                        option: OptionState { strike_rate, duration, token_a: a, token_b: b },
                        cct_a: 0,
                        cct_b: 0,
                        bond: 0,
                        lp_supply: lp,
                        constant_product,
                        interest,
                        fee: 0,
                    },
                    lp,
                    cct_a: a,
                    cct_b: b,
                    bond,
                },
            )
        }
    }

    /// What a deposit of `cct` claims of `side` with `bond` bonds adds to the
    /// invariant: the normalized claims times the bonds per unit of time.
    pub open spec fn deposit_delta(self, side: Side, cct: nat, bond: nat) -> nat {
        mul_down(self.option.normalized(side, cct), div_down(bond, self.term()))
    }

    /// Whether a deposit comes at the pool's current rate: bonds per unit of
    /// time, per unit of normalized claims, equal the pool's interest.
    pub open spec fn deposit_at_rate(self, side: Side, cct: nat, bond: nat) -> bool {
        let claims = self.option.normalized(side, cct);
        claims > 0 && div_down(div_down(bond, self.term()), claims) == self.interest
    }

    /// Outcome of depositing `cct` claims of `side` with `bond` bonds: the
    /// next state and the shares issued.
    pub open spec fn deposit_outcome(
        self,
        side: Side,
        cct: nat,
        bond: nat,
        strike_price: nat,
        duration: int,
        now: int,
    ) -> Result<(AmmState, nat), PoolError> {
        let delta = self.deposit_delta(side, cct, bond);
        let minted = sqrt_down(delta);
        if self.option.matured(now) {
            Err(PoolError::PoolExpired)
        } else if strike_price != self.option.strike_rate || duration != self.option.duration {
            Err(PoolError::PoolMismatch)
        } else if !in_range(self.option.normalized(side, cct)) {
            Err(PoolError::ArithmeticFault)
        } else if !self.deposit_at_rate(side, cct, bond) {
            Err(PoolError::RatioMismatch)
        } else if !in_range(delta) || !in_range(self.constant_product + delta) || !in_range(
            self.lp_supply + minted,
        ) || !in_range(self.held(side) + cct) || !in_range(self.bond + bond) {
            Err(PoolError::ArithmeticFault)
        } else {
            Ok(
                (
                    AmmState {
                        bond: self.bond + bond,
                        lp_supply: self.lp_supply + minted,
                        constant_product: self.constant_product + delta,
                        ..self.with_held(side, self.held(side) + cct)
                    },
                    minted,
                ),
            )
        }
    }

    /// The fraction of the pool that `lp` shares stand for.
    pub open spec fn share(self, lp: nat) -> nat {
        div_down(lp, self.lp_supply)
    }

    /// The holdings that remain once `lp` shares have been paid their slice,
    /// with invariant and interest still as before.
    pub open spec fn remainder(self, lp: nat) -> AmmState {
        AmmState {
            cct_a: (self.cct_a - mul_down(self.cct_a, self.share(lp))) as nat,
            cct_b: (self.cct_b - mul_down(self.cct_b, self.share(lp))) as nat,
            bond: (self.bond - mul_down(self.bond, self.share(lp))) as nat,
            lp_supply: (self.lp_supply - lp) as nat,
            ..self
        }
    }

    /// The interest that holdings give: their invariant per unit of effective
    /// claims, and zero when no claims are held.
    pub open spec fn yield_rate(self) -> nat {
        if self.effective() == 0 {
            0
        } else {
            div_down(self.product(), self.effective())
        }
    }

    /// Outcome of redeeming `lp` shares. Each holding pays out the fraction
    /// `lp / lp_supply`; invariant and interest are then taken afresh from what
    /// remains.
    pub open spec fn withdraw_outcome(self, lp: nat) -> Result<Payout, PoolError> {
        let rest = self.remainder(lp);
        if lp > self.lp_supply {
            Err(PoolError::InsufficientShare)
        } else if !in_range(rest.effective()) || !in_range(rest.product()) || !in_range(
            rest.yield_rate(),
        ) {
            Err(PoolError::ArithmeticFault)
        } else {
            Ok(
                Payout {
                    next: AmmState {
                        constant_product: rest.product(),
                        interest: rest.yield_rate(),
                        ..rest
                    },
                    cct_a: mul_down(self.cct_a, self.share(lp)),
                    cct_b: mul_down(self.cct_b, self.share(lp)),
                    bond: mul_down(self.bond, self.share(lp)),
                },
            )
        }
    }
}

impl View for ConstantSumAmm {
    type V = AmmState;

    closed spec fn view(&self) -> AmmState {
        AmmState {
            option: self.option@,
            cct_a: self.cct_a as nat,
            cct_b: self.cct_b as nat,
            bond: self.bond as nat,
            lp_supply: self.lp_supply as nat,
            constant_product: self.constant_product as nat,
            interest: self.interest as nat,
            fee: self.fee as nat,
        }
    }
}

impl ConstantSumAmm {
    /// Validity of the pool: that of its state.
    pub open spec fn wf(&self) -> bool {
        self@.wf()
    }

    /// The pool over `option` with the given holdings and records, where
    /// they are valid: a fee below one, and no invariant without shares.
    pub fn restore(
        option: ConstantSumOption,
        cct_a: u128,
        cct_b: u128,
        bond: u128,
        lp_supply: u128,
        constant_product: u128,
        interest: u128,
        fee: u128,
    ) -> (r: Option<ConstantSumAmm>)
        requires
            option.wf(),
        ensures
            r is Some <==> fee < UNIT && (lp_supply == 0 ==> constant_product == 0),
            r matches Some(pool) ==> pool.wf() && pool@ == (AmmState {
                option: option@,
                cct_a: cct_a as nat,
                cct_b: cct_b as nat,
                bond: bond as nat,
                lp_supply: lp_supply as nat,
                constant_product: constant_product as nat,
                interest: interest as nat,
                fee: fee as nat,
            }),
    {
        if fee < UNIT && (lp_supply != 0 || constant_product == 0) {
            Some(
                ConstantSumAmm {
                    option,
                    cct_a,
                    cct_b,
                    bond,
                    lp_supply,
                    constant_product,
                    interest,
                    fee,
                },
            )
        } else {
            None
        }
    }

    /// Creates an empty pool with `lp_initial_supply` shares outstanding and
    /// returns it with those shares. Fails with `PoolExpired` when `duration`
    /// is already past at `now` or is not positive, and with `RatioMismatch`
    /// for a zero strike rate.
    pub fn instantiate_amm_pool(
        strike_price: u128,
        duration: i64,
        fee: u128,
        lp_initial_supply: u128,
        now: i64,
    ) -> (r: Result<(ConstantSumAmm, Bucket), PoolError>)
        requires
            fee < UNIT,
        ensures
            match AmmState::instantiate_outcome(
                strike_price as nat,
                duration as int,
                fee as nat,
                lp_initial_supply as nat,
                now as int,
            ) {
                Ok(state) => {
                    &&& r is Ok
                    &&& r->Ok_0.0@ == state
                    &&& r->Ok_0.0.wf()
                    &&& r->Ok_0.1 == bucket_of(AssetKind::LiquidityShare, lp_initial_supply as nat)
                },
                Err(e) => r is Err && r->Err_0 == e,
            },
    {
        match ConstantSumOption::instantiate_option(strike_price, duration, now) {
            Err(e) => Err(e),
            Ok(option) => Ok(
                (
                    ConstantSumAmm {
                        option,
                        cct_a: 0,
                        cct_b: 0,
                        bond: 0,
                        lp_supply: lp_initial_supply,
                        constant_product: 0,
                        interest: 0,
                        fee,
                    },
                    Bucket { kind: AssetKind::LiquidityShare, amount: lp_initial_supply },
                ),
            ),
        }
    }

    /// Creates a pool by locking the two underlying buckets. Returns the pool
    /// and the issued liquidity shares, side-A claims, side-B claims and
    /// bonds, in that order.
    ///
    /// Fails with `PoolExpired` when `duration` is already past at `now` or is
    /// not positive; with `RatioMismatch` unless the two amounts stand in the
    /// ratio `1 / strike_rate`; with `RateMismatch` unless the bond issue per
    /// unit of effective claims gives back `required_interest`.
    pub fn locking_liquidity(
        token_a: Bucket,
        token_b: Bucket,
        duration: i64,
        required_interest: u128,
        strike_rate: u128,
        now: i64,
    ) -> (r: Result<(ConstantSumAmm, Bucket, Bucket, Bucket, Bucket), PoolError>)
        requires
            token_a.kind == AssetKind::TokenA,
            token_b.kind == AssetKind::TokenB,
        ensures
            match AmmState::locking_outcome(
                token_a.amount as nat,
                token_b.amount as nat,
                duration as int,
                required_interest as nat,
                strike_rate as nat,
                now as int,
            ) {
                Ok(issue) => {
                    &&& r is Ok
                    &&& r->Ok_0.0@ == issue.next
                    &&& r->Ok_0.0.wf()
                    &&& r->Ok_0.1 == bucket_of(AssetKind::LiquidityShare, issue.lp)
                    &&& r->Ok_0.2 == bucket_of(AssetKind::CctA, issue.cct_a)
                    &&& r->Ok_0.3 == bucket_of(AssetKind::CctB, issue.cct_b)
                    &&& r->Ok_0.4 == bucket_of(AssetKind::Bond, issue.bond)
                },
                Err(e) => r is Err && r->Err_0 == e,
            },
    {
        if now > duration || duration <= 0 {
            return Err(PoolError::PoolExpired);
        }
        if strike_rate == 0 || token_b.amount == 0 {
            return Err(PoolError::RatioMismatch);
        }
        let reciprocal = checked_div_down(UNIT, strike_rate).unwrap();
        let in_ratio = match checked_div_down(token_a.amount, token_b.amount) {
            Some(q) => q == reciprocal,
            None => false,
        };
        if !in_ratio {
            return Err(PoolError::RatioMismatch);
        }
        let effective_b = match checked_div_down(token_b.amount, strike_rate) {
            Some(x) => x,
            None => { return Err(PoolError::ArithmeticFault); },
        };
        let effective = match checked_sum(token_a.amount, effective_b) {
            Some(x) => x,
            None => { return Err(PoolError::ArithmeticFault); },
        };
        let bond = match checked_mul_down(required_interest, effective) {
            Some(x) => x,
            None => { return Err(PoolError::ArithmeticFault); },
        };
        let at_rate = match checked_div_down(bond, effective) {
            Some(q) => q == required_interest,
            None => false,
        };
        if !at_rate {
            return Err(PoolError::RateMismatch);
        }
        let rate = div_by_whole(bond, duration);
        let constant_product = match checked_mul_down(effective, rate) {
            Some(x) => x,
            None => { return Err(PoolError::ArithmeticFault); },
        };
        let interest = match checked_div_down(rate, effective) {
            Some(x) => x,
            None => { return Err(PoolError::ArithmeticFault); },
        };
        let lp = sqrt_floor(constant_product);
        proof {
            lemma_sqrt_down_zero(constant_product as nat);
        }
        let pool = ConstantSumAmm {
            option: ConstantSumOption::with_locked(
                strike_rate,
                duration,
                token_a.amount,
                token_b.amount,
            ),
            cct_a: 0,
            cct_b: 0,
            bond: 0,
            lp_supply: lp,
            constant_product,
            interest,
            fee: 0,
        };
        Ok(
            (
                pool,
                Bucket { kind: AssetKind::LiquidityShare, amount: lp },
                Bucket { kind: AssetKind::CctA, amount: token_a.amount },
                Bucket { kind: AssetKind::CctB, amount: token_b.amount },
                Bucket { kind: AssetKind::Bond, amount: bond },
            ),
        )
    }

    /// Deposits collateral claims of `side` together with bonds and returns
    /// the liquidity shares issued: the square root of what the deposit adds
    /// to the invariant. The interest stays as it is.
    ///
    /// Fails with `PoolExpired` after maturity; with `PoolMismatch` unless
    /// `strike_price` and `duration` are the pool's own; with `RatioMismatch`
    /// unless the deposit comes at the pool's current rate.
    pub fn deposit_liquidity(
        &mut self,
        side: Side,
        cctoken: Bucket,
        bonded_token: Bucket,
        strike_price: u128,
        duration: i64,
        now: i64,
    ) -> (r: Result<Bucket, PoolError>)
        requires
            old(self).wf(),
            cctoken.kind == side.cct(),
            bonded_token.kind == AssetKind::Bond,
            !cctoken.is_empty(),
            !bonded_token.is_empty(),
        ensures
            final(self).wf(),
            match old(self)@.deposit_outcome(
                side,
                cctoken.amount as nat,
                bonded_token.amount as nat,
                strike_price as nat,
                duration as int,
                now as int,
            ) {
                Ok((next, minted)) => {
                    &&& final(self)@ == next
                    &&& r == Ok::<Bucket, PoolError>(bucket_of(AssetKind::LiquidityShare, minted))
                },
                Err(e) => final(self)@ == old(self)@ && r is Err && r->Err_0 == e,
            },
    {
        if now > self.option.duration() {
            return Err(PoolError::PoolExpired);
        }
        if strike_price != self.option.strike_rate() || duration != self.option.duration() {
            return Err(PoolError::PoolMismatch);
        }
        let claims = match self.option.normalize(side, cctoken.amount) {
            Some(x) => x,
            None => { return Err(PoolError::ArithmeticFault); },
        };
        let rate = div_by_whole(bonded_token.amount, duration);
        let at_rate = claims != 0 && match checked_div_down(rate, claims) {
            Some(q) => q == self.interest,
            None => false,
        };
        if !at_rate {
            return Err(PoolError::RatioMismatch);
        }
        let delta = match checked_mul_down(claims, rate) {
            Some(x) => x,
            None => { return Err(PoolError::ArithmeticFault); },
        };
        let constant_product = match checked_sum(self.constant_product, delta) {
            Some(x) => x,
            None => { return Err(PoolError::ArithmeticFault); },
        };
        let minted = sqrt_floor(delta);
        let lp_supply = match checked_sum(self.lp_supply, minted) {
            Some(x) => x,
            None => { return Err(PoolError::ArithmeticFault); },
        };
        let held = match checked_sum(self.holding(side), cctoken.amount) {
            Some(x) => x,
            None => { return Err(PoolError::ArithmeticFault); },
        };
        let bond = match checked_sum(self.bond, bonded_token.amount) {
            Some(x) => x,
            None => { return Err(PoolError::ArithmeticFault); },
        };
        proof {
            lemma_sqrt_down_zero(delta as nat);
        }
        match side {
            Side::A => { self.cct_a = held; },
            Side::B => { self.cct_b = held; },
        }
        self.bond = bond;
        self.lp_supply = lp_supply;
        self.constant_product = constant_product;
        Ok(Bucket { kind: AssetKind::LiquidityShare, amount: minted })
    }

    /// Deposits side-A collateral claims with bonds.
    pub fn deposit_liquidity_a(
        &mut self,
        cctoken_a: Bucket,
        bonded_token: Bucket,
        strike_price: u128,
        duration: i64,
        now: i64,
    ) -> (r: Result<Bucket, PoolError>)
        requires
            old(self).wf(),
            cctoken_a.kind == AssetKind::CctA,
            bonded_token.kind == AssetKind::Bond,
            !cctoken_a.is_empty(),
            !bonded_token.is_empty(),
        ensures
            final(self).wf(),
            match old(self)@.deposit_outcome(
                Side::A,
                cctoken_a.amount as nat,
                bonded_token.amount as nat,
                strike_price as nat,
                duration as int,
                now as int,
            ) {
                Ok((next, minted)) => {
                    &&& final(self)@ == next
                    &&& r == Ok::<Bucket, PoolError>(bucket_of(AssetKind::LiquidityShare, minted))
                },
                Err(e) => final(self)@ == old(self)@ && r is Err && r->Err_0 == e,
            },
    {
        self.deposit_liquidity(Side::A, cctoken_a, bonded_token, strike_price, duration, now)
    }

    /// Deposits side-B collateral claims with bonds.
    pub fn deposit_liquidity_b(
        &mut self,
        cctoken_b: Bucket,
        bonded_token: Bucket,
        strike_price: u128,
        duration: i64,
        now: i64,
    ) -> (r: Result<Bucket, PoolError>)
        requires
            old(self).wf(),
            cctoken_b.kind == AssetKind::CctB,
            bonded_token.kind == AssetKind::Bond,
            !cctoken_b.is_empty(),
            !bonded_token.is_empty(),
        ensures
            final(self).wf(),
            match old(self)@.deposit_outcome(
                Side::B,
                cctoken_b.amount as nat,
                bonded_token.amount as nat,
                strike_price as nat,
                duration as int,
                now as int,
            ) {
                Ok((next, minted)) => {
                    &&& final(self)@ == next
                    &&& r == Ok::<Bucket, PoolError>(bucket_of(AssetKind::LiquidityShare, minted))
                },
                Err(e) => final(self)@ == old(self)@ && r is Err && r->Err_0 == e,
            },
    {
        self.deposit_liquidity(Side::B, cctoken_b, bonded_token, strike_price, duration, now)
    }

    /// Redeems liquidity shares. Returns the slice `lp / lp_supply` of the
    /// side-A claims, side-B claims and bonds held, in that order, and takes
    /// invariant and interest afresh from what remains. Maturity does not
    /// stand in the way.
    ///
    /// Fails with `InsufficientShare` when more shares are presented than are
    /// outstanding.
    pub fn withdraw_liquidity(&mut self, lp_token: Bucket) -> (r: Result<
        (Bucket, Bucket, Bucket),
        PoolError,
    >)
        requires
            old(self).wf(),
            lp_token.kind == AssetKind::LiquidityShare,
            !lp_token.is_empty(),
        ensures
            final(self).wf(),
            match old(self)@.withdraw_outcome(lp_token.amount as nat) {
                Ok(payout) => {
                    &&& final(self)@ == payout.next
                    &&& r == Ok::<(Bucket, Bucket, Bucket), PoolError>(
                        (
                            bucket_of(AssetKind::CctA, payout.cct_a),
                            bucket_of(AssetKind::CctB, payout.cct_b),
                            bucket_of(AssetKind::Bond, payout.bond),
                        ),
                    )
                },
                Err(e) => final(self)@ == old(self)@ && r is Err && r->Err_0 == e,
            },
    {
        if lp_token.amount > self.lp_supply {
            return Err(PoolError::InsufficientShare);
        }
        let share = fraction_of(lp_token.amount, self.lp_supply);
        let pay_a = portion(self.cct_a, share);
        let pay_b = portion(self.cct_b, share);
        let pay_bond = portion(self.bond, share);
        let cct_a = self.cct_a - pay_a;
        let cct_b = self.cct_b - pay_b;
        let bond = self.bond - pay_bond;
        let effective_b = match checked_div_down(cct_b, self.option.strike_rate()) {
            Some(x) => x,
            None => { return Err(PoolError::ArithmeticFault); },
        };
        let effective = match checked_sum(cct_a, effective_b) {
            Some(x) => x,
            None => { return Err(PoolError::ArithmeticFault); },
        };
        let rate = div_by_whole(bond, self.option.duration());
        let constant_product = match checked_mul_down(effective, rate) {
            Some(x) => x,
            None => { return Err(PoolError::ArithmeticFault); },
        };
        let interest = if effective == 0 {
            0
        } else {
            match checked_div_down(constant_product, effective) {
                Some(x) => x,
                None => { return Err(PoolError::ArithmeticFault); },
            }
        };
        proof {
            if lp_token.amount == self.lp_supply {
                lemma_div_down_self(self.lp_supply as nat);
                lemma_mul_down_unit(self.cct_a as nat);
                lemma_mul_down_unit(self.cct_b as nat);
            }
        }
        self.cct_a = cct_a;
        self.cct_b = cct_b;
        self.bond = bond;
        self.lp_supply = self.lp_supply - lp_token.amount;
        self.constant_product = constant_product;
        self.interest = interest;
        Ok(
            (
                Bucket { kind: AssetKind::CctA, amount: pay_a },
                Bucket { kind: AssetKind::CctB, amount: pay_b },
                Bucket { kind: AssetKind::Bond, amount: pay_bond },
            ),
        )
    }

    /// Locks underlying A and issues collateral claims and bonds for it,
    /// one for one. Returns the claims and the bonds. Fails with
    /// `PoolExpired` after maturity.
    pub fn option_a_deposit(&mut self, lock_token: Bucket, now: i64) -> (r: Result<
        (Bucket, Bucket),
        PoolError,
    >)
        requires
            old(self).wf(),
            lock_token.kind == AssetKind::TokenA,
        ensures
            final(self).wf(),
            match old(self)@.option.deposit_outcome(Side::A, lock_token.amount as nat, now as int) {
                Ok((next, bonds)) => {
                    &&& final(self)@ == old(self)@.with_option(next)
                    &&& r == Ok::<(Bucket, Bucket), PoolError>(
                        (
                            bucket_of(AssetKind::CctA, lock_token.amount as nat),
                            bucket_of(AssetKind::Bond, bonds),
                        ),
                    )
                },
                Err(e) => final(self)@ == old(self)@ && r is Err && r->Err_0 == e,
            },
    {
        self.option.option_a_deposit(lock_token, now)
    }

    /// Locks underlying B and issues collateral claims for it one for one,
    /// and bonds for the amount divided by the strike rate. Returns the claims
    /// and the bonds. Fails with `PoolExpired` after maturity.
    pub fn option_b_deposit(&mut self, lock_token: Bucket, now: i64) -> (r: Result<
        (Bucket, Bucket),
        PoolError,
    >)
        requires
            old(self).wf(),
            lock_token.kind == AssetKind::TokenB,
        ensures
            final(self).wf(),
            match old(self)@.option.deposit_outcome(Side::B, lock_token.amount as nat, now as int) {
                Ok((next, bonds)) => {
                    &&& final(self)@ == old(self)@.with_option(next)
                    &&& r == Ok::<(Bucket, Bucket), PoolError>(
                        (
                            bucket_of(AssetKind::CctB, lock_token.amount as nat),
                            bucket_of(AssetKind::Bond, bonds),
                        ),
                    )
                },
                Err(e) => final(self)@ == old(self)@ && r is Err && r->Err_0 == e,
            },
    {
        self.option.option_b_deposit(lock_token, now)
    }

    /// Burns side-A claims and bonds and releases underlying A one for one
    /// with the claims. Fails with `InsufficientReserve` when less is locked.
    pub fn option_a_withdraw(
        &mut self,
        unlock_token: AssetKind,
        cctoken_a: Bucket,
        bonded_token: Bucket,
    ) -> (r: Result<Bucket, PoolError>)
        requires
            old(self).wf(),
            unlock_token == AssetKind::TokenA,
            cctoken_a.kind == AssetKind::CctA,
            bonded_token.kind == AssetKind::Bond,
        ensures
            final(self).wf(),
            match old(self)@.option.withdraw_outcome(Side::A, cctoken_a.amount as nat) {
                Ok(next) => {
                    &&& final(self)@ == old(self)@.with_option(next)
                    &&& r == Ok::<Bucket, PoolError>(
                        bucket_of(AssetKind::TokenA, cctoken_a.amount as nat),
                    )
                },
                Err(e) => final(self)@ == old(self)@ && r is Err && r->Err_0 == e,
            },
    {
        self.option.option_a_withdraw(unlock_token, cctoken_a, bonded_token)
    }

    /// Burns side-B claims and bonds and releases underlying B one for one
    /// with the claims. Fails with `InsufficientReserve` when less is locked.
    pub fn option_b_withdraw(
        &mut self,
        unlock_token: AssetKind,
        cctoken_b: Bucket,
        bonded_token: Bucket,
    ) -> (r: Result<Bucket, PoolError>)
        requires
            old(self).wf(),
            unlock_token == AssetKind::TokenB,
            cctoken_b.kind == AssetKind::CctB,
            bonded_token.kind == AssetKind::Bond,
        ensures
            final(self).wf(),
            match old(self)@.option.withdraw_outcome(Side::B, cctoken_b.amount as nat) {
                Ok(next) => {
                    &&& final(self)@ == old(self)@.with_option(next)
                    &&& r == Ok::<Bucket, PoolError>(
                        bucket_of(AssetKind::TokenB, cctoken_b.amount as nat),
                    )
                },
                Err(e) => final(self)@ == old(self)@ && r is Err && r->Err_0 == e,
            },
    {
        self.option.option_b_withdraw(unlock_token, cctoken_b, bonded_token)
    }

    /// The option component that holds the locked underlying.
    pub fn option(&self) -> (r: ConstantSumOption)
        ensures
            r@ == self@.option,
    {
        self.option
    }

    /// The strike rate.
    pub fn strike_rate(&self) -> (r: u128)
        ensures
            r == self@.option.strike_rate,
    {
        self.option.strike_rate()
    }

    /// The maturity instant.
    pub fn duration(&self) -> (r: i64)
        ensures
            r == self@.option.duration,
    {
        self.option.duration()
    }

    /// Locked underlying of `side`.
    pub fn locked(&self, side: Side) -> (r: u128)
        ensures
            r == self@.option.locked(side),
    {
        match side {
            Side::A => self.option.token_a(),
            Side::B => self.option.token_b(),
        }
    }

    /// Bonds held by the pool.
    pub fn bond(&self) -> (r: u128)
        ensures
            r == self@.bond,
    {
        self.bond
    }

    /// Liquidity shares outstanding.
    pub fn lp_supply(&self) -> (r: u128)
        ensures
            r == self@.lp_supply,
    {
        self.lp_supply
    }

    /// The running invariant.
    pub fn constant_product(&self) -> (r: u128)
        ensures
            r == self@.constant_product,
    {
        self.constant_product
    }

    /// The rate at which deposits are accepted.
    pub fn interest(&self) -> (r: u128)
        ensures
            r == self@.interest,
    {
        self.interest
    }

    /// The fee fraction the pool was created with.
    pub fn fee(&self) -> (r: u128)
        ensures
            r == self@.fee,
    {
        self.fee
    }

    /// Collateral claims of `side` held by the pool.
    pub fn holding(&self, side: Side) -> (r: u128)
        ensures
            r == self@.held(side),
    {
        match side {
            Side::A => self.cct_a,
            Side::B => self.cct_b,
        }
    }
}

} // verus!
