//! Fixed-point arithmetic on quantities counted in minimum units.
//!
//! Every quantity the pool handles (balances, rates, the running invariant)
//! is a non-negative decimal with eighteen fractional digits, held as its
//! count of minimum units in a `u128`. Products, quotients and square roots
//! need intermediate values wider than 128 bits, so they are computed by
//! `scrypto`'s `Decimal`; the three functions that make those calls are the
//! only unverified code in the crate.

use scrypto::math::{CheckedDiv, CheckedMul, Decimal, I192};
use vstd::arithmetic::div_mod::*;
use vstd::arithmetic::mul::*;
use vstd::prelude::*;

verus! {

/// Number of minimum units in one whole unit.
pub const UNIT: u128 = 1_000_000_000_000_000_000;

/// Whether a count of minimum units can be held in a `u128`.
pub open spec fn in_range(x: nat) -> bool {
    x <= u128::MAX
}

/// Decimal product of two quantities, rounded down to the minimum unit.
pub open spec fn mul_down(a: nat, b: nat) -> nat {
    (a * b) / (UNIT as nat)
}

/// Decimal quotient of two quantities, rounded down to the minimum unit.
/// Meaningful only for a positive divisor.
pub open spec fn div_down(a: nat, b: nat) -> nat {
    (a * (UNIT as nat)) / b
}

/// `r` is the decimal square root of `a`, rounded down to the minimum unit.
pub open spec fn is_sqrt_down(r: nat, a: nat) -> bool {
    r * r <= a * (UNIT as nat) < (r + 1) * (r + 1)
}

/// Decimal square root of a quantity, rounded down to the minimum unit.
pub open spec fn sqrt_down(a: nat) -> nat {
    choose|r: nat| is_sqrt_down(r, a)
}

/// A whole number of time units as a decimal quantity.
pub open spec fn whole(n: nat) -> nat {
    n * (UNIT as nat)
}

/// Calls `Decimal::checked_mul` on the two quantities. The product is formed
/// in 256 bits, divided by `10^18` with the remainder dropped, and handed back
/// when it fits 128 bits; otherwise the answer is `None`.
#[verifier::external_body]
pub(crate) fn checked_mul_down(a: u128, b: u128) -> (r: Option<u128>)
    ensures
        r == (if in_range(mul_down(a as nat, b as nat)) {
            Some(mul_down(a as nat, b as nat) as u128)
        } else {
            None
        }),
{
    let x = Decimal::from_attos(I192::from(a));
    let y = Decimal::from_attos(I192::from(b));
    match x.checked_mul(y) {
        Some(z) => u128::try_from(z.attos()).ok(),
        None => None,
    }
}

/// Calls `Decimal::checked_div` on the two quantities. The dividend is scaled
/// by `10^18` in 256 bits and divided with the remainder dropped; the answer is
/// `None` for a zero divisor or a quotient that does not fit 128 bits.
#[verifier::external_body]
pub(crate) fn checked_div_down(a: u128, b: u128) -> (r: Option<u128>)
    ensures
        r == (if b != 0 && in_range(div_down(a as nat, b as nat)) {
            Some(div_down(a as nat, b as nat) as u128)
        } else {
            None
        }),
{
    let x = Decimal::from_attos(I192::from(a));
    let y = Decimal::from_attos(I192::from(b));
    match x.checked_div(y) {
        Some(z) => u128::try_from(z.attos()).ok(),
        None => None,
    }
}

/// Calls `Decimal::checked_sqrt`, which scales the quantity by `10^18` in 256
/// bits and takes the truncated integer square root. For a 128-bit input the
/// root is below `2^94`, so an answer is always present.
#[verifier::external_body]
fn decimal_sqrt(a: u128) -> (r: Option<u128>)
    ensures
        r is Some,
        is_sqrt_down(r->0 as nat, a as nat),
{
    match Decimal::from_attos(I192::from(a)).checked_sqrt() {
        Some(z) => u128::try_from(z.attos()).ok(),
        None => None,
    }
}

/// Multiplying by a factor of at most one never increases a quantity.
pub proof fn lemma_mul_down_le(a: nat, b: nat)
    requires
        b <= UNIT,
    ensures
        mul_down(a, b) <= a,
{
    let u = UNIT as int;
    assert(a * b <= a * u) by (nonlinear_arith)
        requires
            b <= u,
            0 <= a,
            0 <= b,
    ;
}

/// Multiplying by exactly one changes nothing.
pub proof fn lemma_mul_down_unit(a: nat)
    ensures
        mul_down(a, UNIT as nat) == a,
{
}

/// A zero factor gives a zero product.
pub proof fn lemma_mul_down_zero(a: nat)
    ensures
        mul_down(0, a) == 0,
        mul_down(a, 0) == 0,
{
}

/// The rounded product grows with either factor.
pub proof fn lemma_mul_down_monotone(a1: nat, b1: nat, a2: nat, b2: nat)
    requires
        a1 <= a2,
        b1 <= b2,
    ensures
        mul_down(a1, b1) <= mul_down(a2, b2),
{
    assert(a1 * b1 <= a2 * b2) by (nonlinear_arith)
        requires
            a1 <= a2,
            b1 <= b2,
    ;
}

/// The rounded quotient grows with the dividend.
pub proof fn lemma_div_down_monotone(a1: nat, a2: nat, b: nat)
    requires
        a1 <= a2,
        b > 0,
    ensures
        div_down(a1, b) <= div_down(a2, b),
{
    let u = UNIT as nat;
    assert(a1 * u <= a2 * u) by (nonlinear_arith)
        requires
            a1 <= a2,
            0 <= u,
    ;
    lemma_div_is_ordered((a1 * u) as int, (a2 * u) as int, b as int);
}

/// A part divided by the whole is at most one.
pub proof fn lemma_div_down_le_unit(a: nat, b: nat)
    requires
        a <= b,
        b > 0,
    ensures
        div_down(a, b) <= UNIT,
{
    let u = UNIT as nat;
    assert(a * u <= b * u) by (nonlinear_arith)
        requires
            a <= b,
            0 <= u,
    ;
    lemma_div_is_ordered((a * u) as int, (b * u) as int, b as int);
    lemma_div_by_multiple(u as int, b as int);
}

/// A positive quantity divided by itself is exactly one.
pub proof fn lemma_div_down_self(b: nat)
    requires
        b > 0,
    ensures
        div_down(b, b) == UNIT,
{
    lemma_div_by_multiple(UNIT as int, b as int);
}

/// Dividing by a whole number of time units divides the count of minimum
/// units by that number.
pub proof fn lemma_div_down_whole(a: nat, n: nat)
    requires
        n > 0,
    ensures
        div_down(a, whole(n)) == a / n,
        div_down(a, whole(n)) <= a,
{
    let u = UNIT as int;
    // with a == n * q + r, scaling by u keeps the quotient: u * a == (u * n) * q + u * r
    lemma_fundamental_div_mod(a as int, n as int);
    let q = (a as int) / (n as int);
    let r = (a as int) % (n as int);
    assert(u * a == q * (u * n) + u * r) by (nonlinear_arith)
        requires
            a == n * q + r,
    ;
    assert(0 <= u * r < u * n) by (nonlinear_arith)
        requires
            0 <= r < n,
            u > 0,
    ;
    lemma_fundamental_div_mod_converse(u * a, u * n, q, u * r);
}

/// A rate over a term of `n` time units pays out the rate times `n`.
pub proof fn lemma_mul_down_whole(a: nat, n: nat)
    ensures
        mul_down(a, whole(n)) == a * n,
{
    let u = UNIT as int;
    assert(a * (n * u) == (a * n) * u) by (nonlinear_arith);
}

/// What a term pays at the rate that a balance sustains is covered by the
/// balance.
pub proof fn lemma_rate_payout_covered(a: nat, n: nat)
    requires
        n > 0,
    ensures
        mul_down(div_down(a, whole(n)), whole(n)) <= a,
{
    lemma_div_down_whole(a, n);
    lemma_mul_down_whole(a / n, n);
    lemma_fundamental_div_mod(a as int, n as int);
}

/// A slice in proportion: where `m` stands to `l` as `x` stands to `big_x`,
/// the fraction `m / l` of `big_x` is `x` rounded down, never more. The
/// rounding of the fraction costs at most one minimum unit for each whole
/// unit of `big_x`, and one more; where the fraction is exact, so is the
/// slice.
pub proof fn lemma_slice_in_proportion(x: nat, big_x: nat, m: nat, l: nat)
    requires
        0 < m <= l,
        m * big_x == x * l,
    ensures
        mul_down(big_x, div_down(m, l)) <= x,
        x <= mul_down(big_x, div_down(m, l)) + big_x / (UNIT as nat) + 1,
        (m * (UNIT as nat)) % l == 0 ==> mul_down(big_x, div_down(m, l)) == x,
{
    let u = UNIT as int;
    let share = (m * u) / (l as int);
    let rest = (m * u) % (l as int);
    lemma_fundamental_div_mod(m * u, l as int);
    let whole = (big_x as int) * share;
    // (big_x * share) * l == (x * u) * l - big_x * rest
    assert(whole * l == (x * u) * l - big_x * rest) by (nonlinear_arith)
        requires
            whole == big_x * share,
            m * u == l * share + rest,
            m * big_x == x * l,
    ;
    assert(whole <= x * u) by (nonlinear_arith)
        requires
            whole * l == (x * u) * l - big_x * rest,
            0 <= rest,
            0 <= big_x,
            l > 0,
    ;
    assert(whole >= x * u - big_x) by (nonlinear_arith)
        requires
            whole * l == (x * u) * l - big_x * rest,
            0 <= rest < l,
            0 <= big_x,
            l > 0,
    ;
    if rest == 0 {
        assert(whole == x * u) by (nonlinear_arith)
            requires
                whole * l == (x * u) * l - big_x * rest,
                rest == 0,
                l > 0,
        ;
    }
}

/// A slice in proportion, by value: `a` of side A and `b` of side B at
/// strike `s` are worth `a + b / s` in side-A units. Where `m` stands to `l`
/// as `n` stands to that worth, the fraction `m / l` of both is worth `n`
/// rounded down, never more, short of it by the roundings of the fraction,
/// of the two slices and of the strike.
pub proof fn lemma_slice_in_value(n: nat, a: nat, b: nat, s: nat, m: nat, l: nat)
    requires
        0 < m <= l,
        s > 0,
        m * (a * s + b * (UNIT as nat)) == n * l * s,
    ensures
        ({
            let share = div_down(m, l);
            let worth = mul_down(a, share) + div_down(mul_down(b, share), s);
            &&& worth <= n
            &&& n <= worth + a / (UNIT as nat) + b / s + (UNIT as nat) / s + 4
        }),
{
    let u = UNIT as int;
    let (a, b, s, m, l, n) = (a as int, b as int, s as int, m as int, l as int, n as int);
    // the fraction, the two slices and the worth of the second, each with
    // what its rounding drops
    let sh = (m * u) / l;
    let r0 = (m * u) % l;
    lemma_fundamental_div_mod(m * u, l);
    lemma_mod_bound(m * u, l);
    lemma_div_pos_is_pos(m * u, l);
    let pa = (a * sh) / u;
    let r1 = (a * sh) % u;
    let pb = (b * sh) / u;
    let r2 = (b * sh) % u;
    assert(0 <= a * sh && 0 <= b * sh) by (nonlinear_arith)
        requires
            0 <= a,
            0 <= b,
            0 <= sh,
    ;
    let nb = (pb * u) / s;
    let r3 = (pb * u) % s;
    lemma_fundamental_div_mod(pb * u, s);
    lemma_mod_bound(pb * u, s);
    let worth = a * s + b * u;
    let dropped = s * r1 + u * r2 + u * r3;
    // u * s * (pa + nb) == sh * worth - dropped
    let scaled_a = s * (u * pa);
    let scaled_b = u * (s * nb);
    assert(scaled_a == s * (a * sh) - s * r1) by (nonlinear_arith)
        requires
            scaled_a == s * (u * pa),
            a * sh == u * pa + r1,
    ;
    assert(scaled_b == u * (b * sh) - u * r2 - u * r3) by (nonlinear_arith)
        requires
            scaled_b == u * (s * nb),
            pb * u == s * nb + r3,
            b * sh == u * pb + r2,
    ;
    assert(s * (a * sh) + u * (b * sh) == sh * worth) by (nonlinear_arith)
        requires
            worth == a * s + b * u,
    ;
    let got = u * s * (pa + nb);
    assert(got == scaled_a + scaled_b) by (nonlinear_arith)
        requires
            got == u * s * (pa + nb),
            scaled_a == s * (u * pa),
            scaled_b == u * (s * nb),
    ;
    assert(got == sh * worth - dropped);
    // l * (sh * worth) == u * (n * l * s) - r0 * worth
    assert(l * (sh * worth) == u * (m * worth) - r0 * worth) by (nonlinear_arith)
        requires
            m * u == l * sh + r0,
    ;
    let k = l * u * s;
    let lost = r0 * worth + l * dropped;
    assert(k * (pa + nb) == l * got) by (nonlinear_arith)
        requires
            k == l * u * s,
            got == u * s * (pa + nb),
    ;
    assert(k * n == u * (n * l * s)) by (nonlinear_arith)
        requires
            k == l * u * s,
    ;
    assert(l * got == l * (sh * worth) - l * dropped) by (nonlinear_arith)
        requires
            got == sh * worth - dropped,
    ;
    let d = n - (pa + nb);
    assert(k * d == k * n - k * (pa + nb)) by (nonlinear_arith)
        requires
            d == n - (pa + nb),
    ;
    assert(k * d == lost);
    // the bounds of what was dropped
    let fa = a / u;
    let fb = b / s;
    let fu = u / s;
    lemma_fundamental_div_mod(b, s);
    lemma_mod_bound(b, s);
    lemma_fundamental_div_mod(u, s);
    lemma_mod_bound(u, s);
    lemma_div_pos_is_pos(b, s);
    lemma_div_pos_is_pos(u, s);
    assert(b < s * (fb + 1)) by (nonlinear_arith)
        requires
            b == s * fb + b % s,
            b % s < s,
    ;
    assert(u < s * (fu + 1)) by (nonlinear_arith)
        requires
            u == s * fu + u % s,
            u % s < s,
    ;
    let us = u * s;
    assert(us > 0 && k == l * us && k > 0) by (nonlinear_arith)
        requires
            us == u * s,
            k == l * u * s,
            u > 0,
            s > 0,
            l > 0,
    ;
    assert(0 <= worth < us * (fa + fb + 2)) by (nonlinear_arith)
        requires
            worth == a * s + b * u,
            us == u * s,
            0 <= a < u * (fa + 1),
            0 <= b < s * (fb + 1),
            s > 0,
            u > 0,
    ;
    assert(0 <= dropped < us * (fu + 3)) by (nonlinear_arith)
        requires
            dropped == s * r1 + u * r2 + u * r3,
            us == u * s,
            0 <= r1 < u,
            0 <= r2 < u,
            0 <= r3 < s,
            u < s * (fu + 1),
            s > 0,
            u > 0,
    ;
    assert(0 <= r0 * worth <= l * worth) by (nonlinear_arith)
        requires
            0 <= r0 < l,
            0 <= worth,
    ;
    assert(l * worth < k * (fa + fb + 2)) by (nonlinear_arith)
        requires
            worth < us * (fa + fb + 2),
            k == l * us,
            l > 0,
    ;
    assert(0 <= l * dropped < k * (fu + 3)) by (nonlinear_arith)
        requires
            0 <= dropped < us * (fu + 3),
            k == l * us,
            l > 0,
    ;
    assert(k * (fa + fb + 2) + k * (fu + 3) == k * (fa + fb + fu + 5)) by (nonlinear_arith);
    assert(0 <= d < fa + fb + fu + 5) by (nonlinear_arith)
        requires
            k * d == lost,
            0 <= lost < k * (fa + fb + fu + 5),
            k > 0,
    ;
}

/// Converting to the other side and back never creates value: what `x` of
/// side A releases on side B is worth, in side-A units, `x` rounded down,
/// short of it by at most one minimum unit and the reciprocal of the strike
/// rate.
pub proof fn lemma_convert_back(x: nat, s: nat)
    requires
        s > 0,
    ensures
        div_down(mul_down(x, s), s) <= x,
        x <= div_down(mul_down(x, s), s) + (UNIT as nat) / s + 1,
{
    let u = UNIT as int;
    let released = ((x * s) as int) / u;
    let back = (released * u) / (s as int);
    let d = u / (s as int);
    lemma_fundamental_div_mod(released * u, s as int);
    lemma_fundamental_div_mod(u, s as int);
    let r1 = (released * u) % (s as int);
    let r2 = u % (s as int);
    assert(released * u <= x * s);
    assert(back <= x) by (nonlinear_arith)
        requires
            released * u == s * back + r1,
            0 <= r1,
            released * u <= x * s,
            s > 0,
    ;
    assert(back + d + 1 >= x) by (nonlinear_arith)
        requires
            released * u == s * back + r1,
            0 <= r1 < s,
            u == s * d + r2,
            0 <= r2 < s,
            released * u > x * s - u,
            s > 0,
    ;
}

/// At most one number is the rounded-down square root of a quantity.
pub proof fn lemma_sqrt_down_unique(r1: nat, r2: nat, a: nat)
    requires
        is_sqrt_down(r1, a),
        is_sqrt_down(r2, a),
    ensures
        r1 == r2,
{
    if r1 < r2 {
        assert((r1 + 1) * (r1 + 1) <= r2 * r2) by (nonlinear_arith)
            requires
                r1 + 1 <= r2,
        ;
    } else if r2 < r1 {
        assert((r2 + 1) * (r2 + 1) <= r1 * r1) by (nonlinear_arith)
            requires
                r2 + 1 <= r1,
        ;
    }
}

proof fn lemma_floor_root_exists(n: nat) -> (r: nat)
    ensures
        r * r <= n < (r + 1) * (r + 1),
    decreases n,
{
    if n == 0 {
        assert((0 + 1) * (0 + 1) == 1) by (nonlinear_arith);
        0
    } else {
        let p = lemma_floor_root_exists((n - 1) as nat);
        if n < (p + 1) * (p + 1) {
            p
        } else {
            assert((p + 1) * (p + 1) < (p + 2) * (p + 2)) by (nonlinear_arith);
            p + 1
        }
    }
}

/// Every quantity has a rounded-down square root, and `sqrt_down` is it.
pub proof fn lemma_sqrt_down_is_root(a: nat)
    ensures
        is_sqrt_down(sqrt_down(a), a),
{
    let r = lemma_floor_root_exists(a * (UNIT as nat));
    assert(is_sqrt_down(r, a));
}

/// Whatever satisfies the defining bounds is the value of `sqrt_down`.
pub proof fn lemma_sqrt_down_eq(r: nat, a: nat)
    requires
        is_sqrt_down(r, a),
    ensures
        sqrt_down(a) == r,
{
    lemma_sqrt_down_unique(r, sqrt_down(a), a);
}

/// The square root vanishes exactly when the quantity does.
pub proof fn lemma_sqrt_down_zero(a: nat)
    ensures
        sqrt_down(a) == 0 <==> a == 0,
{
    lemma_sqrt_down_is_root(a);
    let r = sqrt_down(a);
    let u = UNIT as nat;
    if a == 0 {
        if r > 0 {
            assert(r * r >= 1) by (nonlinear_arith)
                requires
                    r >= 1,
            ;
        }
    } else {
        assert(a * u >= 1) by (nonlinear_arith)
            requires
                a >= 1,
                u >= 1,
        ;
    }
}

/// Sum of two quantities, or `None` when it does not fit 128 bits.
pub fn checked_sum(a: u128, b: u128) -> (r: Option<u128>)
    ensures
        r == (if in_range((a + b) as nat) {
            Some((a + b) as u128)
        } else {
            None
        }),
{
    a.checked_add(b)
}

/// Decimal square root rounded down.
pub fn sqrt_floor(a: u128) -> (r: u128)
    ensures
        r == sqrt_down(a as nat),
{
    let r = decimal_sqrt(a).unwrap();
    proof {
        lemma_sqrt_down_eq(r as nat, a as nat);
    }
    r
}

/// A positive whole number of time units as a decimal quantity.
pub fn whole_units(n: i64) -> (r: u128)
    requires
        n > 0,
    ensures
        r == whole(n as nat),
        r > 0,
{
    (n as u128) * UNIT
}

/// A quantity per unit of time over a term of `n` time units.
pub fn div_by_whole(a: u128, n: i64) -> (r: u128)
    requires
        n > 0,
    ensures
        r == div_down(a as nat, whole(n as nat)),
        r <= a,
{
    proof {
        lemma_div_down_whole(a as nat, n as nat);
    }
    checked_div_down(a, whole_units(n)).unwrap()
}

/// The part `part` of `total` as a fraction of one.
pub fn fraction_of(part: u128, total: u128) -> (r: u128)
    requires
        part <= total,
        total > 0,
    ensures
        r == div_down(part as nat, total as nat),
        r <= UNIT,
{
    proof {
        lemma_div_down_le_unit(part as nat, total as nat);
    }
    checked_div_down(part, total).unwrap()
}

/// The fraction `share` of a balance.
pub fn portion(balance: u128, share: u128) -> (r: u128)
    requires
        share <= UNIT,
    ensures
        r == mul_down(balance as nat, share as nat),
        r <= balance,
{
    proof {
        lemma_mul_down_le(balance as nat, share as nat);
    }
    checked_mul_down(balance, share).unwrap()
}

} // verus!
