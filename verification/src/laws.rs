//! What holds of the pool across calls.
//!
//! Each law is stated over the outcome functions that the contracts of the
//! operations are written in, so it holds of every execution of them.

use crate::amm::AmmState;
use crate::asset::{AssetKind, Bucket, Side};
use crate::collateral::OptionState;
use crate::decimal::{
    in_range, lemma_convert_back, lemma_div_down_le_unit, lemma_div_down_monotone,
    lemma_div_down_self, lemma_div_down_whole, lemma_mul_down_le, lemma_mul_down_monotone,
    lemma_mul_down_unit, lemma_mul_down_zero, lemma_rate_payout_covered,
    lemma_slice_in_proportion, lemma_slice_in_value, lemma_sqrt_down_zero, sqrt_down, UNIT,
};
use crate::error::PoolError;
use vstd::arithmetic::div_mod::{lemma_div_by_multiple, lemma_div_is_ordered};
use vstd::prelude::*;

verus! {

/// A deposit or a withdrawal, of liquidity or of collateral.
pub enum Call {
    /// Claims of `side` and bonds go into the pool for liquidity shares.
    DepositLiquidity {
        side: Side,
        cct: nat,
        bond: nat,
        strike_price: nat,
        duration: int,
        now: int,
    },
    /// Liquidity shares are redeemed for a slice of the holdings.
    WithdrawLiquidity { lp: nat },
    /// Underlying of `side` is locked for claims and bonds.
    DepositCollateral { side: Side, amount: nat, now: int },
    /// Claims of `side` are presented for the underlying.
    WithdrawCollateral { side: Side, claims: nat },
}

/// A pool together with the collateral claims it has issued, less those it
/// has burned, on each side.
pub struct Books {
    pub pool: AmmState,
    pub issued_a: int,
    pub issued_b: int,
}

impl Books {
    /// Net claims issued on `side`.
    pub open spec fn issued(self, side: Side) -> int {
        match side {
            Side::A => self.issued_a,
            Side::B => self.issued_b,
        }
    }

    /// The books with `amount` more claims issued on `side`; a negative
    /// amount stands for claims burned.
    pub open spec fn issue(self, side: Side, amount: int) -> Books {
        match side {
            Side::A => Books { issued_a: self.issued_a + amount, ..self },
            Side::B => Books { issued_b: self.issued_b + amount, ..self },
        }
    }

    /// Locked underlying of `side` beyond the claims issued against it.
    pub open spec fn backing(self, side: Side) -> int {
        self.pool.option.locked(side) - self.issued(side)
    }

    /// The books after one call. A call that fails changes nothing.
    pub open spec fn step(self, call: Call) -> Books {
        match call {
            Call::DepositLiquidity { side, cct, bond, strike_price, duration, now } => {
                match self.pool.deposit_outcome(side, cct, bond, strike_price, duration, now) {
                    Ok((next, _)) => Books { pool: next, ..self },
                    Err(_) => self,
                }
            },
            Call::WithdrawLiquidity { lp } => {
                match self.pool.withdraw_outcome(lp) {
                    Ok(payout) => Books { pool: payout.next, ..self },
                    Err(_) => self,
                }
            },
            Call::DepositCollateral { side, amount, now } => {
                match self.pool.option.deposit_outcome(side, amount, now) {
                    Ok((option, _)) => Books { pool: self.pool.with_option(option), ..self }.issue(
                        side,
                        amount as int,
                    ),
                    Err(_) => self,
                }
            },
            Call::WithdrawCollateral { side, claims } => {
                match self.pool.option.withdraw_outcome(side, claims) {
                    Ok(option) => Books { pool: self.pool.with_option(option), ..self }.issue(
                        side,
                        -(claims as int),
                    ),
                    Err(_) => self,
                }
            },
        }
    }

    /// The books after a sequence of calls.
    pub open spec fn run(self, calls: Seq<Call>) -> Books
        decreases calls.len(),
    {
        if calls.len() == 0 {
            self
        } else {
            self.step(calls[0]).run(calls.skip(1))
        }
    }
}

/// One conversion: the underlying locked, its amount, the claims burned, and
/// the time of the call.
pub struct Convert {
    pub lock_kind: AssetKind,
    pub amount: nat,
    pub cct_kind: AssetKind,
    pub now: int,
}

impl AmmState {
    /// The pool after one conversion. A conversion that fails changes nothing.
    pub open spec fn converted_by(self, call: Convert) -> AmmState {
        match self.option.convert_outcome(call.lock_kind, call.amount, call.cct_kind, call.now) {
            Ok(c) => self.with_option(c.next),
            Err(_) => self,
        }
    }

    /// The pool after a sequence of conversions.
    pub open spec fn converted_by_all(self, calls: Seq<Convert>) -> AmmState
        decreases calls.len(),
    {
        if calls.len() == 0 {
            self
        } else {
            self.converted_by(calls[0]).converted_by_all(calls.skip(1))
        }
    }
}

/// Conservation, one call: a deposit or withdrawal moves locked underlying
/// and issued claims by the same amount on each side.
pub proof fn law_conservation_step(books: Books, call: Call, side: Side)
    ensures
        books.step(call).backing(side) == books.backing(side),
{
}

/// Conservation: over any sequence of deposits and withdrawals, the
/// underlying locked less the underlying released equals, on each side, the
/// collateral claims issued less those burned.
pub proof fn law_conservation(books: Books, calls: Seq<Call>, side: Side)
    ensures
        books.run(calls).pool.option.locked(side) - books.pool.option.locked(side)
            == books.run(calls).issued(side) - books.issued(side),
    decreases calls.len(),
{
    if calls.len() > 0 {
        law_conservation(books.step(calls[0]), calls.skip(1), side);
    }
}

/// Locking collateral: a deposit of underlying goes through exactly when the
/// pool has not matured and the amounts fit 128 bits. It locks the amount on
/// its side, issues as many claims, and bonds for the amount in side-A
/// units; the other side, the pool's holdings, its invariant, its interest
/// and its shares stay as they are.
pub proof fn law_collateral_deposit(pool: AmmState, side: Side, amount: nat, now: int)
    ensures
        pool.option.deposit_outcome(side, amount, now) is Ok <==> !pool.option.matured(now)
            && in_range(pool.option.normalized(side, amount)) && in_range(
            pool.option.locked(side) + amount,
        ),
        pool.option.deposit_outcome(side, amount, now) matches Ok((next, bonds)) ==> {
            &&& next.locked(side) == pool.option.locked(side) + amount
            &&& next.locked(side.other()) == pool.option.locked(side.other())
            &&& bonds == pool.option.normalized(side, amount)
            &&& side == Side::A ==> bonds == amount
            &&& pool.with_option(next).cct_a == pool.cct_a
            &&& pool.with_option(next).cct_b == pool.cct_b
            &&& pool.with_option(next).bond == pool.bond
            &&& pool.with_option(next).constant_product == pool.constant_product
            &&& pool.with_option(next).interest == pool.interest
            &&& pool.with_option(next).lp_supply == pool.lp_supply
        },
{
}

/// Custody of a deposit: the pool's holdings grow by exactly what was handed
/// in, and nothing is locked or released.
pub proof fn law_deposit_custody(
    pool: AmmState,
    side: Side,
    cct: nat,
    bond: nat,
    strike_price: nat,
    duration: int,
    now: int,
)
    ensures
        pool.deposit_outcome(side, cct, bond, strike_price, duration, now) matches Ok((next, _))
            ==> {
            &&& next.held(side) == pool.held(side) + cct
            &&& next.held(side.other()) == pool.held(side.other())
            &&& next.bond == pool.bond + bond
            &&& next.option == pool.option
        },
{
}

/// Custody of a withdrawal: the pool's holdings shrink by exactly what was
/// paid out, no payout exceeds the holding, and nothing is locked or
/// released.
pub proof fn law_withdraw_custody(pool: AmmState, lp: nat)
    requires
        pool.wf(),
        lp > 0,
    ensures
        pool.withdraw_outcome(lp) matches Ok(payout) ==> {
            &&& payout.cct_a <= pool.cct_a
            &&& payout.cct_b <= pool.cct_b
            &&& payout.bond <= pool.bond
            &&& payout.next.cct_a + payout.cct_a == pool.cct_a
            &&& payout.next.cct_b + payout.cct_b == pool.cct_b
            &&& payout.next.bond + payout.bond == pool.bond
            &&& payout.next.lp_supply + lp == pool.lp_supply
            &&& payout.next.option == pool.option
        },
{
    if pool.withdraw_outcome(lp) is Ok {
        lemma_share_at_most_one(pool, lp);
        lemma_mul_down_le(pool.cct_a, pool.share(lp));
        lemma_mul_down_le(pool.cct_b, pool.share(lp));
        lemma_mul_down_le(pool.bond, pool.share(lp));
    }
}

/// Shares that do not exceed the supply stand for at most the whole pool.
proof fn lemma_share_at_most_one(pool: AmmState, lp: nat)
    requires
        lp <= pool.lp_supply,
    ensures
        pool.lp_supply > 0 ==> pool.share(lp) <= UNIT,
{
    if pool.lp_supply > 0 {
        lemma_div_down_le_unit(lp, pool.lp_supply);
    }
}

/// Round trip: into a pool that holds nothing and has no shares outstanding,
/// a deposit followed by the withdrawal of all the shares it was given
/// returns exactly the claims and the bonds of the deposit.
pub proof fn law_round_trip(
    pool: AmmState,
    side: Side,
    cct: nat,
    bond: nat,
    strike_price: nat,
    duration: int,
    now: int,
)
    requires
        pool.wf(),
        pool.cct_a == 0,
        pool.cct_b == 0,
        pool.bond == 0,
        pool.lp_supply == 0,
        pool.deposit_outcome(side, cct, bond, strike_price, duration, now) is Ok,
        pool.deposit_outcome(side, cct, bond, strike_price, duration, now)->Ok_0.1 > 0,
    ensures
        ({
            let (funded, minted) = pool.deposit_outcome(
                side,
                cct,
                bond,
                strike_price,
                duration,
                now,
            )->Ok_0;
            &&& funded.withdraw_outcome(minted) matches Ok(payout)
            &&& payout.bond == bond
            &&& side == Side::A ==> payout.cct_a == cct && payout.cct_b == 0
            &&& side == Side::B ==> payout.cct_b == cct && payout.cct_a == 0
            &&& payout.next.cct_a == 0
            &&& payout.next.cct_b == 0
            &&& payout.next.bond == 0
            &&& payout.next.lp_supply == 0
        }),
{
    let (funded, minted) = pool.deposit_outcome(side, cct, bond, strike_price, duration, now)->Ok_0;
    lemma_div_down_self(minted);
    lemma_mul_down_unit(funded.cct_a);
    lemma_mul_down_unit(funded.cct_b);
    let rest = funded.remainder(minted);
    assert(rest.product() == 0);
}

/// Round trip, any pool: a deposit followed by the withdrawal of the shares
/// it was given leaves as many shares outstanding as before, pays out no
/// more than the pool then holds, and locks or releases nothing.
pub proof fn law_round_trip_supply(
    pool: AmmState,
    side: Side,
    cct: nat,
    bond: nat,
    strike_price: nat,
    duration: int,
    now: int,
)
    requires
        pool.wf(),
        pool.deposit_outcome(side, cct, bond, strike_price, duration, now) is Ok,
        pool.deposit_outcome(side, cct, bond, strike_price, duration, now)->Ok_0.1 > 0,
    ensures
        ({
            let (funded, minted) = pool.deposit_outcome(
                side,
                cct,
                bond,
                strike_price,
                duration,
                now,
            )->Ok_0;
            funded.withdraw_outcome(minted) matches Ok(payout) ==> {
                &&& payout.next.lp_supply == pool.lp_supply
                &&& payout.cct_a <= pool.cct_a + (if side == Side::A { cct } else { 0 })
                &&& payout.cct_b <= pool.cct_b + (if side == Side::B { cct } else { 0 })
                &&& payout.bond <= pool.bond + bond
                &&& payout.next.option == pool.option
            }
        }),
{
    let (funded, minted) = pool.deposit_outcome(side, cct, bond, strike_price, duration, now)->Ok_0;
    law_withdraw_custody(funded, minted);
}

/// Round trip, pools with shares outstanding: where the shares that a
/// deposit was given stand to the new supply as the deposit stands to the
/// new holdings, and the pool holds no claims of the other side, their
/// withdrawal returns the claims and the bonds of the deposit, rounded down
/// and never more, and leaves the supply as it was before the deposit. Each
/// amount returned falls short by at most one minimum unit for each whole
/// unit of the holding, and one more; where the fraction of the supply is
/// exact, the deposit comes back exactly and the holdings are as before.
pub proof fn law_round_trip_in_proportion(
    pool: AmmState,
    side: Side,
    cct: nat,
    bond: nat,
    strike_price: nat,
    duration: int,
    now: int,
)
    requires
        pool.wf(),
        pool.held(side.other()) == 0,
        pool.deposit_outcome(side, cct, bond, strike_price, duration, now) matches Ok(
            (funded, minted),
        ) && {
            &&& minted > 0
            &&& minted * funded.held(side) == cct * funded.lp_supply
            &&& minted * funded.bond == bond * funded.lp_supply
        },
    ensures
        ({
            let (funded, minted) = pool.deposit_outcome(
                side,
                cct,
                bond,
                strike_price,
                duration,
                now,
            )->Ok_0;
            let exact = (minted * (UNIT as nat)) % funded.lp_supply == 0;
            funded.withdraw_outcome(minted) matches Ok(payout) ==> {
                &&& payout.next.lp_supply == pool.lp_supply
                &&& payout.next.option == pool.option
                &&& payout.held(side.other()) == 0
                &&& payout.held(side) <= cct <= payout.held(side) + funded.held(side) / (
                UNIT as nat) + 1
                &&& payout.bond <= bond <= payout.bond + funded.bond / (UNIT as nat) + 1
                &&& exact ==> {
                    &&& payout.held(side) == cct
                    &&& payout.bond == bond
                    &&& payout.next.held(side) == pool.held(side)
                    &&& payout.next.held(side.other()) == 0
                    &&& payout.next.bond == pool.bond
                }
            }
        }),
{
    let (funded, minted) = pool.deposit_outcome(side, cct, bond, strike_price, duration, now)->Ok_0;
    lemma_slice_in_proportion(cct, funded.held(side), minted, funded.lp_supply);
    lemma_slice_in_proportion(bond, funded.bond, minted, funded.lp_supply);
    lemma_mul_down_zero(funded.share(minted));
}

/// Round trip by value, pools that hold claims of both sides: where the
/// shares that a deposit was given stand to the new supply as the deposit
/// stands to the new holdings, the claims in side-A units and the bonds
/// each, their withdrawal returns claims of both sides worth the claims of
/// the deposit in side-A units, and the bonds of the deposit, rounded down
/// and never more, and leaves the supply as it was before the deposit. The
/// worth returned falls short by the roundings of the fraction of the
/// supply, of the two slices and of the strike; the bonds by that of the
/// fraction.
pub proof fn law_round_trip_in_value(
    pool: AmmState,
    side: Side,
    cct: nat,
    bond: nat,
    strike_price: nat,
    duration: int,
    now: int,
)
    requires
        pool.wf(),
        pool.deposit_outcome(side, cct, bond, strike_price, duration, now) matches Ok(
            (funded, minted),
        ) && {
            &&& minted > 0
            &&& minted * (funded.cct_a * pool.option.strike_rate + funded.cct_b * (UNIT as nat))
                == pool.option.normalized(side, cct) * funded.lp_supply
                * pool.option.strike_rate
            &&& minted * funded.bond == bond * funded.lp_supply
        },
    ensures
        ({
            let (funded, minted) = pool.deposit_outcome(
                side,
                cct,
                bond,
                strike_price,
                duration,
                now,
            )->Ok_0;
            let strike = pool.option.strike_rate;
            let claims = pool.option.normalized(side, cct);
            funded.withdraw_outcome(minted) matches Ok(payout) ==> {
                let worth = payout.cct_a + pool.option.normalized(Side::B, payout.cct_b);
                &&& payout.next.lp_supply == pool.lp_supply
                &&& payout.next.option == pool.option
                &&& worth <= claims <= worth + funded.cct_a / (UNIT as nat) + funded.cct_b
                    / strike + (UNIT as nat) / strike + 4
                &&& payout.bond <= bond <= payout.bond + funded.bond / (UNIT as nat) + 1
            }
        }),
{
    let (funded, minted) = pool.deposit_outcome(side, cct, bond, strike_price, duration, now)->Ok_0;
    lemma_slice_in_value(
        pool.option.normalized(side, cct),
        funded.cct_a,
        funded.cct_b,
        pool.option.strike_rate,
        minted,
        funded.lp_supply,
    );
    lemma_slice_in_proportion(bond, funded.bond, minted, funded.lp_supply);
}

/// A withdrawal asks nothing of the time: shares that do not exceed the
/// supply are redeemed, before maturity and after, wherever what remains
/// can be counted in 128 bits.
pub proof fn law_withdraw_succeeds(pool: AmmState, lp: nat)
    requires
        pool.wf(),
        0 < lp <= pool.lp_supply,
        in_range(pool.remainder(lp).effective()),
        in_range(pool.remainder(lp).product()),
    ensures
        pool.withdraw_outcome(lp) is Ok,
{
    let rest = pool.remainder(lp);
    lemma_share_at_most_one(pool, lp);
    lemma_mul_down_le(pool.bond, pool.share(lp));
    lemma_yield_at_most_rate(rest);
    assert(rest.term() > 0) by (nonlinear_arith)
        requires
            rest.term() == (rest.option.duration as nat) * (UNIT as nat),
            rest.option.duration > 0,
    ;
    lemma_div_down_whole(rest.bond, rest.option.duration as nat);
}

/// The interest that holdings give is at most their bond rate.
proof fn lemma_yield_at_most_rate(pool: AmmState)
    ensures
        pool.yield_rate() <= pool.bond_rate(),
{
    let e = pool.effective();
    let r = pool.bond_rate();
    if e > 0 {
        let u = UNIT as nat;
        let p = pool.product();
        assert(p * u <= e * r);
        lemma_div_is_ordered((p * u) as int, (e * r) as int, e as int);
        assert((e * r) / e == r) by {
            assert(e * r == r * e) by (nonlinear_arith);
            lemma_div_by_multiple(r as int, e as int);
        }
    }
}

/// Monotonicity on deposit: a deposit never lowers the invariant, and adds
/// to it exactly the normalized claims times the bonds per unit of time.
pub proof fn law_deposit_raises_invariant(
    pool: AmmState,
    side: Side,
    cct: nat,
    bond: nat,
    strike_price: nat,
    duration: int,
    now: int,
)
    ensures
        pool.deposit_outcome(side, cct, bond, strike_price, duration, now) matches Ok((next, minted))
            ==> {
            &&& next.constant_product == pool.constant_product + pool.deposit_delta(side, cct, bond)
            &&& next.constant_product >= pool.constant_product
            &&& next.lp_supply == pool.lp_supply + sqrt_down(pool.deposit_delta(side, cct, bond))
            &&& minted == sqrt_down(pool.deposit_delta(side, cct, bond))
            &&& next.interest == pool.interest
        },
{
}

/// What the holdings give as invariant never grows when holdings shrink.
pub proof fn lemma_product_monotone(small: AmmState, large: AmmState)
    requires
        small.option == large.option,
        large.option.wf(),
        small.cct_a <= large.cct_a,
        small.cct_b <= large.cct_b,
        small.bond <= large.bond,
    ensures
        small.effective() <= large.effective(),
        small.bond_rate() <= large.bond_rate(),
        small.product() <= large.product(),
{
    lemma_div_down_monotone(small.cct_b, large.cct_b, large.option.strike_rate);
    assert(large.term() > 0) by (nonlinear_arith)
        requires
            large.term() == (large.option.duration as nat) * (UNIT as nat),
            large.option.duration > 0,
    ;
    lemma_div_down_monotone(small.bond, large.bond, large.term());
    lemma_mul_down_monotone(
        small.effective(),
        small.bond_rate(),
        large.effective(),
        large.bond_rate(),
    );
}

/// Monotonicity on withdrawal: where the invariant on record is no less
/// than what the holdings give, a withdrawal never raises it.
pub proof fn law_withdraw_lowers_invariant(pool: AmmState, lp: nat)
    requires
        pool.wf(),
        lp > 0,
        pool.constant_product >= pool.product(),
    ensures
        pool.withdraw_outcome(lp) matches Ok(payout) ==> {
            &&& payout.next.constant_product <= pool.constant_product
            &&& payout.next.constant_product == payout.next.product()
        },
{
    if pool.withdraw_outcome(lp) is Ok {
        law_withdraw_custody(pool, lp);
        lemma_product_monotone(pool.remainder(lp), pool);
    }
}

/// A conversion leaves the pool's holdings, invariant, interest and shares
/// as they are; so the effective claims held stay the same.
pub proof fn law_convert_keeps_invariant(pool: AmmState, call: Convert)
    ensures
        pool.converted_by(call).constant_product == pool.constant_product,
        pool.converted_by(call).interest == pool.interest,
        pool.converted_by(call).lp_supply == pool.lp_supply,
        pool.converted_by(call).cct_a == pool.cct_a,
        pool.converted_by(call).cct_b == pool.cct_b,
        pool.converted_by(call).bond == pool.bond,
        pool.converted_by(call).option.strike_rate == pool.option.strike_rate,
        pool.converted_by(call).option.duration == pool.option.duration,
        pool.converted_by(call).effective() == pool.effective(),
{
}

/// Strike preservation: after any sequence of conversions the effective
/// claims held, both sides in side-A units, are what they were, and so is
/// the invariant.
pub proof fn law_strike_preservation(pool: AmmState, calls: Seq<Convert>)
    ensures
        pool.converted_by_all(calls).effective() == pool.effective(),
        pool.converted_by_all(calls).constant_product == pool.constant_product,
        pool.converted_by_all(calls).option.strike_rate == pool.option.strike_rate,
        pool.converted_by_all(calls).option.duration == pool.option.duration,
    decreases calls.len(),
{
    if calls.len() > 0 {
        law_strike_preservation(pool.converted_by(calls[0]), calls.skip(1));
    }
}

/// A conversion moves value between the sides at the strike rate: what is
/// locked on one side is issued as claims there, and what leaves the other
/// side is the locked amount converted.
pub proof fn law_convert_moves_value(option: OptionState, call: Convert)
    ensures
        option.convert_outcome(call.lock_kind, call.amount, call.cct_kind, call.now) matches Ok(c)
            ==> {
            &&& c.issued == call.amount
            &&& c.released == option.converted(c.side, call.amount)
            &&& c.next.locked(c.side) == option.locked(c.side) + call.amount
            &&& c.next.locked(c.side.other()) + c.released == option.locked(c.side.other())
            &&& c.next.strike_rate == option.strike_rate
            &&& c.next.duration == option.duration
        },
{
}

/// A conversion keeps the value locked, up to rounding. From side B the
/// underlying released is the locked amount in side-A units exactly. From
/// side A the underlying released is worth, in side-A units, the locked
/// amount rounded down: never more, and short of it by at most one minimum
/// unit and the reciprocal of the strike rate.
pub proof fn law_convert_keeps_value(option: OptionState, call: Convert)
    requires
        option.wf(),
    ensures
        option.convert_outcome(call.lock_kind, call.amount, call.cct_kind, call.now) matches Ok(c)
            ==> match c.side {
            Side::B => c.released == option.normalized(Side::B, call.amount),
            Side::A => {
                &&& option.normalized(Side::B, c.released) <= call.amount
                &&& call.amount <= option.normalized(Side::B, c.released) + (UNIT as nat)
                    / option.strike_rate + 1
            },
        },
{
    lemma_convert_back(call.amount, option.strike_rate);
}

impl Books {
    /// The books after a conversion in which `burned` claims of the other
    /// side were presented. A conversion that fails changes nothing.
    pub open spec fn converted(self, call: Convert, burned: nat) -> Books {
        match self.pool.option.convert_outcome(
            call.lock_kind,
            call.amount,
            call.cct_kind,
            call.now,
        ) {
            Ok(c) => Books { pool: self.pool.with_option(c.next), ..self }.issue(
                c.side,
                c.issued as int,
            ).issue(c.side.other(), -(burned as int)),
            Err(_) => self,
        }
    }
}

/// Conservation across the strike: a conversion that burns as many claims
/// of the other side as it releases underlying there moves locked underlying
/// and issued claims by the same amount on each side.
pub proof fn law_matched_convert_conserves(books: Books, call: Convert, burned: nat, side: Side)
    requires
        books.pool.option.convert_outcome(call.lock_kind, call.amount, call.cct_kind, call.now)
            matches Ok(c) ==> burned == c.released,
    ensures
        books.converted(call, burned).backing(side) == books.backing(side),
{
}

/// Maturity: after maturity every operation but the withdrawal of
/// liquidity and of collateral fails with `PoolExpired`. The outcome of a
/// withdrawal does not depend on the time at all.
pub proof fn law_maturity(
    pool: AmmState,
    now: int,
    side: Side,
    kind: AssetKind,
    cct_kind: AssetKind,
    amount: nat,
    bond: nat,
    strike_price: nat,
    duration: int,
    borrow_amount: nat,
    swapped: Option<Bucket>,
)
    requires
        now > pool.option.duration,
    ensures
        pool.deposit_outcome(side, amount, bond, strike_price, duration, now) == Err::<
            (AmmState, nat),
            PoolError,
        >(PoolError::PoolExpired),
        pool.option.deposit_outcome(side, amount, now) == Err::<(OptionState, nat), PoolError>(
            PoolError::PoolExpired,
        ),
        pool.option.convert_outcome(kind, amount, cct_kind, now) is Err,
        pool.option.convert_outcome(kind, amount, cct_kind, now)->Err_0 == PoolError::PoolExpired,
        pool.rebalance_plan(kind, amount, now) is Err,
        pool.rebalance_plan(kind, amount, now)->Err_0 == PoolError::PoolExpired,
        pool.rebalance_outcome(kind, amount, now, swapped) == Err::<(AmmState, Bucket), PoolError>(
            PoolError::PoolExpired,
        ),
        pool.directed_rebalance_outcome(side, kind, amount, now, swapped) == Err::<
            (AmmState, Bucket),
            PoolError,
        >(PoolError::PoolExpired),
        pool.lend_outcome(side, amount, now) == Err::<(AmmState, nat), PoolError>(
            PoolError::PoolExpired,
        ),
        pool.borrow_outcome(borrow_amount, kind, amount, cct_kind, now) is Err,
        pool.borrow_outcome(borrow_amount, kind, amount, cct_kind, now)->Err_0
            == PoolError::PoolExpired,
{
}

/// Validity is kept: every successful deposit or withdrawal of liquidity
/// takes a valid pool to a valid pool; in particular a pool left without
/// shares has no invariant.
pub proof fn law_liquidity_keeps_validity(
    pool: AmmState,
    side: Side,
    cct: nat,
    bond: nat,
    strike_price: nat,
    duration: int,
    now: int,
    lp: nat,
)
    requires
        pool.wf(),
        lp > 0,
    ensures
        pool.deposit_outcome(side, cct, bond, strike_price, duration, now) matches Ok((next, _))
            ==> next.wf(),
        pool.withdraw_outcome(lp) matches Ok(payout) ==> payout.next.wf(),
{
    if pool.deposit_outcome(side, cct, bond, strike_price, duration, now) is Ok {
        let delta = pool.deposit_delta(side, cct, bond);
        lemma_sqrt_down_zero(delta);
    }
    if pool.withdraw_outcome(lp) is Ok {
        law_withdraw_custody(pool, lp);
        if lp == pool.lp_supply {
            if pool.lp_supply > 0 {
                lemma_div_down_self(pool.lp_supply);
                let rest = pool.remainder(lp);
                lemma_mul_down_zero(rest.bond_rate());
            }
        }
    }
}

/// A loan never draws more bonds than the pool holds: where the marginal
/// rate is not negative, the bonds it pays over the term are covered. So a
/// loan is refused for want of bonds exactly when its marginal rate is
/// negative.
pub proof fn law_lend_draw_covered(pool: AmmState, side: Side, amount: nat)
    requires
        pool.wf(),
        pool.marginal_bond_rate(side, amount) >= 0,
    ensures
        pool.lend_draw(side, amount) <= pool.bond,
{
    let term = pool.term();
    lemma_rate_payout_covered(pool.bond, pool.option.duration as nat);
    lemma_mul_down_monotone(
        pool.marginal_bond_rate(side, amount) as nat,
        term,
        pool.bond_rate(),
        term,
    );
}

/// A borrow splits the collateral and pays the pool: the portion and the
/// rest make up the whole collateral, with claims issued for each one for
/// one; the bonds issued for the portion, as many as the portion, are added
/// to the pool's bonds; the amount borrowed leaves the pool's side-B
/// claims; and the rest is released at the strike rate.
pub proof fn law_borrow_pays_the_pool(
    pool: AmmState,
    borrow_amount: nat,
    kind: AssetKind,
    collateral: nat,
    cct_kind: AssetKind,
    now: int,
)
    ensures
        pool.borrow_outcome(borrow_amount, kind, collateral, cct_kind, now) matches Ok(loan) ==> {
            &&& loan.portion == pool.borrow_portion(collateral)
            &&& loan.portion + loan.converted == collateral
            &&& loan.bonds == loan.portion
            &&& loan.next.bond == pool.bond + loan.bonds
            &&& loan.next.cct_b + borrow_amount == pool.cct_b
            &&& loan.next.cct_a == pool.cct_a
            &&& loan.next.option.token_a == pool.option.token_a + collateral
            &&& loan.next.option.token_b + loan.released == pool.option.token_b
            &&& loan.released == pool.option.converted(Side::A, loan.converted)
            &&& loan.next.constant_product == pool.constant_product
            &&& loan.next.interest == pool.interest
            &&& loan.next.lp_supply == pool.lp_supply
        },
{
}

/// Strike rate and maturity are fixed: no operation, whatever its outcome,
/// leaves a pool with other terms than it found.
pub proof fn law_terms_fixed(
    pool: AmmState,
    now: int,
    side: Side,
    kind: AssetKind,
    cct_kind: AssetKind,
    amount: nat,
    bond: nat,
    strike_price: nat,
    duration: int,
    borrow_amount: nat,
    swapped: Option<Bucket>,
)
    ensures
        pool.deposit_outcome(side, amount, bond, strike_price, duration, now) matches Ok((next, _))
            ==> next.option.strike_rate == pool.option.strike_rate && next.option.duration
            == pool.option.duration,
        pool.withdraw_outcome(amount) matches Ok(payout) ==> payout.next.option.strike_rate
            == pool.option.strike_rate && payout.next.option.duration == pool.option.duration,
        pool.option.deposit_outcome(side, amount, now) matches Ok((next, _)) ==> next.strike_rate
            == pool.option.strike_rate && next.duration == pool.option.duration,
        pool.option.withdraw_outcome(side, amount) matches Ok(next) ==> next.strike_rate
            == pool.option.strike_rate && next.duration == pool.option.duration,
        pool.option.convert_outcome(kind, amount, cct_kind, now) matches Ok(c)
            ==> c.next.strike_rate == pool.option.strike_rate && c.next.duration
            == pool.option.duration,
        pool.rebalance_outcome(kind, amount, now, swapped) matches Ok((next, _))
            ==> next.option.strike_rate == pool.option.strike_rate && next.option.duration
            == pool.option.duration,
        pool.lend_outcome(side, amount, now) matches Ok((next, _)) ==> next.option.strike_rate
            == pool.option.strike_rate && next.option.duration == pool.option.duration,
        pool.borrow_outcome(borrow_amount, kind, amount, cct_kind, now) matches Ok(loan)
            ==> loan.next.option.strike_rate == pool.option.strike_rate
            && loan.next.option.duration == pool.option.duration,
{
}

/// A failed swap undoes the rebalance: whatever else holds, without a
/// bucket from the exchange the outcome is a failure.
pub proof fn law_failed_swap_fails(pool: AmmState, kind: AssetKind, amount: nat, now: int)
    ensures
        pool.rebalance_outcome(kind, amount, now, None) is Err,
        pool.rebalance_plan(kind, amount, now) is Ok ==> pool.rebalance_outcome(
            kind,
            amount,
            now,
            None,
        )->Err_0 == PoolError::ExternalSwapFailed,
{
}

} // verus!
