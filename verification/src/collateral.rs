//! Locked collateral and the claims issued against it.
//!
//! The option component holds the two underlying assets. Locking underlying
//! issues collateral claims one for one, together with bonds; presenting
//! claims releases underlying one for one; and a conversion moves collateral
//! from one side to the other at the strike rate.

use crate::asset::{bucket_of, AssetKind, Bucket, Side};
use crate::decimal::{
    checked_div_down, checked_mul_down, checked_sum, div_down, in_range, mul_down,
};
use crate::error::PoolError;
use vstd::prelude::*;

verus! {

/// The option component: strike rate, maturity and the locked underlying.
#[derive(Clone, Copy, Debug, PartialEq, Eq)]
pub struct ConstantSumOption {
    strike_rate: u128,
    duration: i64,
    token_a: u128,
    token_b: u128,
}

/// What an option component is, as plain numbers.
pub struct OptionState {
    /// Units of underlying B that one unit of underlying A is worth.
    pub strike_rate: nat,
    /// The maturity instant.
    pub duration: int,
    /// Locked underlying of side A.
    pub token_a: nat,
    /// Locked underlying of side B.
    pub token_b: nat,
}

/// Whether an underlying asset and a collateral claim belong to opposite sides.
pub open spec fn opposite_pair(lock_kind: AssetKind, cct_kind: AssetKind) -> bool {
    ||| lock_kind == AssetKind::TokenA && cct_kind == AssetKind::CctB
    ||| lock_kind == AssetKind::TokenB && cct_kind == AssetKind::CctA
}

/// The side whose underlying asset `kind` is; side B for any other kind.
pub open spec fn side_of_token(kind: AssetKind) -> Side {
    if kind == AssetKind::TokenA {
        Side::A
    } else {
        Side::B
    }
}

/// What a successful conversion does.
pub struct Conversion {
    /// The component afterwards.
    pub next: OptionState,
    /// The side that received the new collateral.
    pub side: Side,
    /// Collateral claims issued, on `side`.
    pub issued: nat,
    /// Underlying released, on the other side.
    pub released: nat,
}

impl OptionState {
    /// Strike rate and remaining term are positive, and every quantity fits
    /// the machine representation.
    pub open spec fn wf(self) -> bool {
        &&& 0 < self.strike_rate <= u128::MAX
        &&& 0 < self.duration <= i64::MAX
        &&& in_range(self.token_a)
        &&& in_range(self.token_b)
    }

    /// Whether the term has run out at time `now`.
    pub open spec fn matured(self, now: int) -> bool {
        now > self.duration
    }

    /// Locked underlying of `side`.
    pub open spec fn locked(self, side: Side) -> nat {
        match side {
            Side::A => self.token_a,
            Side::B => self.token_b,
        }
    }

    /// The state with `amount` more underlying locked on `side`.
    pub open spec fn lock(self, side: Side, amount: nat) -> OptionState {
        match side {
            Side::A => OptionState { token_a: self.token_a + amount, ..self },
            Side::B => OptionState { token_b: self.token_b + amount, ..self },
        }
    }

    /// The state with `amount` less underlying locked on `side`.
    pub open spec fn release(self, side: Side, amount: nat) -> OptionState {
        match side {
            Side::A => OptionState { token_a: (self.token_a - amount) as nat, ..self },
            Side::B => OptionState { token_b: (self.token_b - amount) as nat, ..self },
        }
    }

    /// A quantity of `side` expressed in side-A units: side A as it is, side B
    /// divided by the strike rate.
    pub open spec fn normalized(self, side: Side, amount: nat) -> nat {
        match side {
            Side::A => amount,
            Side::B => div_down(amount, self.strike_rate),
        }
    }

    /// The opposite-side underlying that `amount` of `side` converts into:
    /// side A times the strike rate, side B divided by it.
    pub open spec fn converted(self, side: Side, amount: nat) -> nat {
        match side {
            Side::A => mul_down(amount, self.strike_rate),
            Side::B => div_down(amount, self.strike_rate),
        }
    }

    /// Outcome of creating a component at time `now`.
    pub open spec fn instantiate_outcome(strike_rate: nat, duration: int, now: int) -> Result<
        OptionState,
        PoolError,
    > {
        if now > duration || duration <= 0 {
            Err(PoolError::PoolExpired)
        } else if strike_rate == 0 {
            Err(PoolError::RatioMismatch)
        } else {
            Ok(OptionState { strike_rate, duration, token_a: 0, token_b: 0 })
        }
    }

    /// Outcome of locking `amount` of the underlying of `side`: the next
    /// state and the bonds issued. Claims are issued one for one.
    pub open spec fn deposit_outcome(self, side: Side, amount: nat, now: int) -> Result<
        (OptionState, nat),
        PoolError,
    > {
        if self.matured(now) {
            Err(PoolError::PoolExpired)
        } else if !in_range(self.normalized(side, amount)) || !in_range(
            self.locked(side) + amount,
        ) {
            Err(PoolError::ArithmeticFault)
        } else {
            Ok((self.lock(side, amount), self.normalized(side, amount)))
        }
    }

    /// Outcome of presenting `claims` of `side` for the underlying.
    pub open spec fn withdraw_outcome(self, side: Side, claims: nat) -> Result<
        OptionState,
        PoolError,
    > {
        if claims > self.locked(side) {
            Err(PoolError::InsufficientReserve)
        } else {
            Ok(self.release(side, claims))
        }
    }

    /// Outcome of locking `amount` of `lock_kind` while burning claims of
    /// `cct_kind`.
    pub open spec fn convert_outcome(
        self,
        lock_kind: AssetKind,
        amount: nat,
        cct_kind: AssetKind,
        now: int,
    ) -> Result<Conversion, PoolError> {
        let side = side_of_token(lock_kind);
        let released = self.converted(side, amount);
        if self.matured(now) {
            Err(PoolError::PoolExpired)
        } else if !opposite_pair(lock_kind, cct_kind) {
            Err(PoolError::WrongAssetPair)
        } else if !in_range(released) || !in_range(self.locked(side) + amount) {
            Err(PoolError::ArithmeticFault)
        } else if released > self.locked(side.other()) {
            Err(PoolError::InsufficientReserve)
        } else {
            Ok(
                Conversion {
                    next: self.lock(side, amount).release(side.other(), released),
                    side,
                    issued: amount,
                    released,
                },
            )
        }
    }
}

impl View for ConstantSumOption {
    type V = OptionState;

    closed spec fn view(&self) -> OptionState {
        OptionState {
            strike_rate: self.strike_rate as nat,
            duration: self.duration as int,
            token_a: self.token_a as nat,
            token_b: self.token_b as nat,
        }
    }
}

impl ConstantSumOption {
    /// Validity of the component: that of its state.
    pub open spec fn wf(&self) -> bool {
        self@.wf()
    }

    /// Creates a component with nothing locked. Fails with `PoolExpired` when
    /// `duration` is already past at `now` or is not positive, and with
    /// `RatioMismatch` for a zero strike rate.
    pub fn instantiate_option(strike_rate: u128, duration: i64, now: i64) -> (r: Result<
        ConstantSumOption,
        PoolError,
    >)
        ensures
            match OptionState::instantiate_outcome(strike_rate as nat, duration as int, now as int) {
                Ok(state) => r is Ok && r->Ok_0@ == state && r->Ok_0.wf(),
                Err(e) => r is Err && r->Err_0 == e,
            },
    {
        if now > duration || duration <= 0 {
            Err(PoolError::PoolExpired)
        } else if strike_rate == 0 {
            Err(PoolError::RatioMismatch)
        } else {
            Ok(ConstantSumOption { strike_rate, duration, token_a: 0, token_b: 0 })
        }
    }

    /// The component with the given terms and locked amounts, for terms that
    /// are valid: a positive strike rate and a positive maturity.
    pub fn restore(strike_rate: u128, duration: i64, token_a: u128, token_b: u128) -> (r: Option<
        ConstantSumOption,
    >)
        ensures
            r is Some <==> strike_rate > 0 && duration > 0,
            r matches Some(option) ==> option.wf() && option@ == (OptionState {
                strike_rate: strike_rate as nat,
                duration: duration as int,
                token_a: token_a as nat,
                token_b: token_b as nat,
            }),
    {
        if strike_rate > 0 && duration > 0 {
            Some(ConstantSumOption { strike_rate, duration, token_a, token_b })
        } else {
            None
        }
    }

    /// The component with the given collateral already locked.
    pub(crate) fn with_locked(
        strike_rate: u128,
        duration: i64,
        token_a: u128,
        token_b: u128,
    ) -> (r: ConstantSumOption)
        requires
            strike_rate > 0,
            duration > 0,
        ensures
            r@ == (OptionState {
                strike_rate: strike_rate as nat,
                duration: duration as int,
                token_a: token_a as nat,
                token_b: token_b as nat,
            }),
            r.wf(),
    {
        ConstantSumOption { strike_rate, duration, token_a, token_b }
    }

    /// A quantity of `side` in side-A units, or `None` when that does not fit.
    pub fn normalize(&self, side: Side, amount: u128) -> (r: Option<u128>)
        requires
            self.wf(),
        ensures
            r == (if in_range(self@.normalized(side, amount as nat)) {
                Some(self@.normalized(side, amount as nat) as u128)
            } else {
                None
            }),
    {
        match side {
            Side::A => Some(amount),
            Side::B => checked_div_down(amount, self.strike_rate),
        }
    }

    /// Locks the underlying in `lock_token` on `side` and issues claims one
    /// for one, together with bonds for the normalized amount. Returns the
    /// claims and the bonds.
    pub fn option_deposit(&mut self, side: Side, lock_token: Bucket, now: i64) -> (r: Result<
        (Bucket, Bucket),
        PoolError,
    >)
        requires
            old(self).wf(),
            lock_token.kind == side.token(),
        ensures
            final(self).wf(),
            match old(self)@.deposit_outcome(side, lock_token.amount as nat, now as int) {
                Ok((next, bonds)) => {
                    &&& final(self)@ == next
                    &&& r == Ok::<(Bucket, Bucket), PoolError>(
                        (
                            bucket_of(side.cct(), lock_token.amount as nat),
                            bucket_of(AssetKind::Bond, bonds),
                        ),
                    )
                },
                Err(e) => final(self)@ == old(self)@ && r is Err && r->Err_0 == e,
            },
    {
        if now > self.duration {
            return Err(PoolError::PoolExpired);
        }
        let bonds = match self.normalize(side, lock_token.amount) {
            Some(b) => b,
            None => { return Err(PoolError::ArithmeticFault); },
        };
        match side {
            Side::A => {
                match checked_sum(self.token_a, lock_token.amount) {
                    Some(t) => { self.token_a = t; },
                    None => { return Err(PoolError::ArithmeticFault); },
                }
            },
            Side::B => {
                match checked_sum(self.token_b, lock_token.amount) {
                    Some(t) => { self.token_b = t; },
                    None => { return Err(PoolError::ArithmeticFault); },
                }
            },
        }
        Ok(
            (
                Bucket { kind: side.cct(), amount: lock_token.amount },
                Bucket { kind: AssetKind::Bond, amount: bonds },
            ),
        )
    }

    /// Burns the claims and bonds presented and releases underlying of `side`
    /// one for one with the claims. Fails with `InsufficientReserve` when less
    /// is locked than the claims call for.
    pub fn option_withdraw(
        &mut self,
        side: Side,
        unlock_token: AssetKind,
        cctoken: Bucket,
        bonded_token: Bucket,
    ) -> (r: Result<Bucket, PoolError>)
        requires
            old(self).wf(),
            unlock_token == side.token(),
            cctoken.kind == side.cct(),
            bonded_token.kind == AssetKind::Bond,
        ensures
            final(self).wf(),
            match old(self)@.withdraw_outcome(side, cctoken.amount as nat) {
                Ok(next) => {
                    &&& final(self)@ == next
                    &&& r == Ok::<Bucket, PoolError>(bucket_of(side.token(), cctoken.amount as nat))
                },
                Err(e) => final(self)@ == old(self)@ && r is Err && r->Err_0 == e,
            },
    {
        match side {
            Side::A => {
                if cctoken.amount > self.token_a {
                    return Err(PoolError::InsufficientReserve);
                }
                self.token_a = self.token_a - cctoken.amount;
            },
            Side::B => {
                if cctoken.amount > self.token_b {
                    return Err(PoolError::InsufficientReserve);
                }
                self.token_b = self.token_b - cctoken.amount;
            },
        }
        Ok(Bucket { kind: unlock_token, amount: cctoken.amount })
    }

    /// Locks underlying A and issues collateral claims and bonds for it.
    pub fn option_a_deposit(&mut self, lock_token: Bucket, now: i64) -> (r: Result<
        (Bucket, Bucket),
        PoolError,
    >)
        requires
            old(self).wf(),
            lock_token.kind == AssetKind::TokenA,
        ensures
            final(self).wf(),
            match old(self)@.deposit_outcome(Side::A, lock_token.amount as nat, now as int) {
                Ok((next, bonds)) => {
                    &&& final(self)@ == next
                    &&& r == Ok::<(Bucket, Bucket), PoolError>(
                        (
                            bucket_of(AssetKind::CctA, lock_token.amount as nat),
                            bucket_of(AssetKind::Bond, bonds),
                        ),
                    )
                },
                Err(e) => final(self)@ == old(self)@ && r is Err && r->Err_0 == e,
            },
    {
        self.option_deposit(Side::A, lock_token, now)
    }

    /// Locks underlying B and issues collateral claims and bonds for it.
    pub fn option_b_deposit(&mut self, lock_token: Bucket, now: i64) -> (r: Result<
        (Bucket, Bucket),
        PoolError,
    >)
        requires
            old(self).wf(),
            lock_token.kind == AssetKind::TokenB,
        ensures
            final(self).wf(),
            match old(self)@.deposit_outcome(Side::B, lock_token.amount as nat, now as int) {
                Ok((next, bonds)) => {
                    &&& final(self)@ == next
                    &&& r == Ok::<(Bucket, Bucket), PoolError>(
                        (
                            bucket_of(AssetKind::CctB, lock_token.amount as nat),
                            bucket_of(AssetKind::Bond, bonds),
                        ),
                    )
                },
                Err(e) => final(self)@ == old(self)@ && r is Err && r->Err_0 == e,
            },
    {
        self.option_deposit(Side::B, lock_token, now)
    }

    /// Releases underlying A against side-A claims.
    pub fn option_a_withdraw(
        &mut self,
        unlock_token: AssetKind,
        cctoken_a: Bucket,
        bonded_token: Bucket,
    ) -> (r: Result<Bucket, PoolError>)
        requires
            old(self).wf(),
            unlock_token == AssetKind::TokenA,
            cctoken_a.kind == AssetKind::CctA,
            bonded_token.kind == AssetKind::Bond,
        ensures
            final(self).wf(),
            match old(self)@.withdraw_outcome(Side::A, cctoken_a.amount as nat) {
                Ok(next) => {
                    &&& final(self)@ == next
                    &&& r == Ok::<Bucket, PoolError>(
                        bucket_of(AssetKind::TokenA, cctoken_a.amount as nat),
                    )
                },
                Err(e) => final(self)@ == old(self)@ && r is Err && r->Err_0 == e,
            },
    {
        self.option_withdraw(Side::A, unlock_token, cctoken_a, bonded_token)
    }

    /// Releases underlying B against side-B claims.
    pub fn option_b_withdraw(
        &mut self,
        unlock_token: AssetKind,
        cctoken_b: Bucket,
        bonded_token: Bucket,
    ) -> (r: Result<Bucket, PoolError>)
        requires
            old(self).wf(),
            unlock_token == AssetKind::TokenB,
            cctoken_b.kind == AssetKind::CctB,
            bonded_token.kind == AssetKind::Bond,
        ensures
            final(self).wf(),
            match old(self)@.withdraw_outcome(Side::B, cctoken_b.amount as nat) {
                Ok(next) => {
                    &&& final(self)@ == next
                    &&& r == Ok::<Bucket, PoolError>(
                        bucket_of(AssetKind::TokenB, cctoken_b.amount as nat),
                    )
                },
                Err(e) => final(self)@ == old(self)@ && r is Err && r->Err_0 == e,
            },
    {
        self.option_withdraw(Side::B, unlock_token, cctoken_b, bonded_token)
    }

    /// Moves collateral across the strike. Locks `lock_token`, issues
    /// same-side claims one for one, burns `cctoken` and releases
    /// opposite-side underlying worth the locked amount at the strike rate.
    /// Returns the released underlying and the issued claims.
    pub fn convert_option(&mut self, lock_token: Bucket, cctoken: Bucket, now: i64) -> (r: Result<
        (Bucket, Bucket),
        PoolError,
    >)
        requires
            old(self).wf(),
        ensures
            final(self).wf(),
            match old(self)@.convert_outcome(
                lock_token.kind,
                lock_token.amount as nat,
                cctoken.kind,
                now as int,
            ) {
                Ok(c) => {
                    &&& final(self)@ == c.next
                    &&& r == Ok::<(Bucket, Bucket), PoolError>(
                        (
                            bucket_of(c.side.other().token(), c.released),
                            bucket_of(c.side.cct(), c.issued),
                        ),
                    )
                },
                Err(e) => final(self)@ == old(self)@ && r is Err && r->Err_0 == e,
            },
    {
        if now > self.duration {
            return Err(PoolError::PoolExpired);
        }
        if lock_token.kind == AssetKind::TokenA && cctoken.kind == AssetKind::CctB {
            let released = match checked_mul_down(lock_token.amount, self.strike_rate) {
                Some(x) => x,
                None => { return Err(PoolError::ArithmeticFault); },
            };
            let locked = match checked_sum(self.token_a, lock_token.amount) {
                Some(x) => x,
                None => { return Err(PoolError::ArithmeticFault); },
            };
            if released > self.token_b {
                return Err(PoolError::InsufficientReserve);
            }
            self.token_a = locked;
            self.token_b = self.token_b - released;
            Ok(
                (
                    Bucket { kind: AssetKind::TokenB, amount: released },
                    Bucket { kind: AssetKind::CctA, amount: lock_token.amount },
                ),
            )
        } else if lock_token.kind == AssetKind::TokenB && cctoken.kind == AssetKind::CctA {
            let released = match checked_div_down(lock_token.amount, self.strike_rate) {
                Some(x) => x,
                None => { return Err(PoolError::ArithmeticFault); },
            };
            let locked = match checked_sum(self.token_b, lock_token.amount) {
                Some(x) => x,
                None => { return Err(PoolError::ArithmeticFault); },
            };
            if released > self.token_a {
                return Err(PoolError::InsufficientReserve);
            }
            self.token_b = locked;
            self.token_a = self.token_a - released;
            Ok(
                (
                    Bucket { kind: AssetKind::TokenA, amount: released },
                    Bucket { kind: AssetKind::CctB, amount: lock_token.amount },
                ),
            )
        } else {
            Err(PoolError::WrongAssetPair)
        }
    }

    /// The strike rate.
    pub fn strike_rate(&self) -> (r: u128)
        ensures
            r == self@.strike_rate,
    {
        self.strike_rate
    }

    /// The maturity instant.
    pub fn duration(&self) -> (r: i64)
        ensures
            r == self@.duration,
    {
        self.duration
    }

    /// Locked underlying of side A.
    pub fn token_a(&self) -> (r: u128)
        ensures
            r == self@.token_a,
    {
        self.token_a
    }

    /// Locked underlying of side B.
    pub fn token_b(&self) -> (r: u128)
        ensures
            r == self@.token_b,
    {
        self.token_b
    }
}

} // verus!
