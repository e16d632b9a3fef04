use constantsum::{AssetKind, Bucket, ConstantSumAmm, PoolError, Side, UNIT};

const TERM: i64 = 100;

fn token_a(n: u128) -> Bucket {
    Bucket::new(AssetKind::TokenA, n)
}

fn token_b(n: u128) -> Bucket {
    Bucket::new(AssetKind::TokenB, n)
}

fn cct_a(n: u128) -> Bucket {
    Bucket::new(AssetKind::CctA, n)
}

fn cct_b(n: u128) -> Bucket {
    Bucket::new(AssetKind::CctB, n)
}

fn bond(n: u128) -> Bucket {
    Bucket::new(AssetKind::Bond, n)
}

fn lp(n: u128) -> Bucket {
    Bucket::new(AssetKind::LiquidityShare, n)
}

/// 100 of A and 200 of B at strike 2, bonds at 1 per unit, over 100 time units.
fn funded() -> ConstantSumAmm {
    ConstantSumAmm::locking_liquidity(
        token_a(100 * UNIT),
        token_b(200 * UNIT),
        TERM,
        UNIT,
        2 * UNIT,
        10,
    )
    .unwrap()
    .0
}

#[test]
fn empty_pool_has_no_holdings() {
    let (pool, shares) =
        ConstantSumAmm::instantiate_amm_pool(2 * UNIT, TERM, UNIT / 100, 5 * UNIT, 10).unwrap();
    assert_eq!(shares, lp(5 * UNIT));
    assert_eq!(pool.holding(Side::A), 0);
    assert_eq!(pool.holding(Side::B), 0);
    assert_eq!(pool.bond(), 0);
    assert_eq!(pool.locked(Side::A), 0);
    assert_eq!(pool.locked(Side::B), 0);
    assert_eq!(pool.lp_supply(), 5 * UNIT);
    assert_eq!(pool.constant_product(), 0);
    assert_eq!(pool.interest(), 0);
    assert_eq!(pool.fee(), UNIT / 100);
    assert_eq!(pool.strike_rate(), 2 * UNIT);
    assert_eq!(pool.duration(), TERM);
}

#[test]
fn empty_pool_needs_time_and_a_strike() {
    assert_eq!(
        ConstantSumAmm::instantiate_amm_pool(2 * UNIT, TERM, 0, 0, TERM + 1).err(),
        Some(PoolError::PoolExpired)
    );
    assert_eq!(
        ConstantSumAmm::instantiate_amm_pool(2 * UNIT, 0, 0, 0, 0).err(),
        Some(PoolError::PoolExpired)
    );
    assert_eq!(
        ConstantSumAmm::instantiate_amm_pool(0, TERM, 0, 0, 10).err(),
        Some(PoolError::RatioMismatch)
    );
}

#[test]
fn instantiate_issues_claims_bonds_and_shares() {
    let (pool, shares, claims_a, claims_b, bonds) = ConstantSumAmm::locking_liquidity(
        token_a(100 * UNIT),
        token_b(200 * UNIT),
        TERM,
        UNIT,
        2 * UNIT,
        10,
    )
    .unwrap();
    assert_eq!(claims_a, cct_a(100 * UNIT));
    assert_eq!(claims_b, cct_b(200 * UNIT));
    // 1 * (100 + 200 / 2)
    assert_eq!(bonds, bond(200 * UNIT));
    // (100 + 200 / 2) * (200 / 100)
    assert_eq!(pool.constant_product(), 400 * UNIT);
    // sqrt(400)
    assert_eq!(shares, lp(20 * UNIT));
    assert_eq!(pool.lp_supply(), 20 * UNIT);
    // bonds per unit of time, per unit of claims: (200 / 100) / 200
    assert_eq!(pool.interest(), UNIT / 100);
    assert_eq!(pool.locked(Side::A), 100 * UNIT);
    assert_eq!(pool.locked(Side::B), 200 * UNIT);
    assert_eq!(pool.holding(Side::A), 0);
    assert_eq!(pool.holding(Side::B), 0);
    assert_eq!(pool.bond(), 0);
    assert_eq!(pool.strike_rate(), 2 * UNIT);
    assert_eq!(pool.duration(), TERM);
    assert_eq!(pool.fee(), 0);
}

#[test]
fn instantiate_records_the_bond_rate_per_claim() {
    // 0.05 bonds per claim over 1000 time units: (10 / 1000) / 200
    let (pool, _, _, _, bonds) = ConstantSumAmm::locking_liquidity(
        token_a(100 * UNIT),
        token_b(200 * UNIT),
        1_000,
        UNIT / 20,
        2 * UNIT,
        10,
    )
    .unwrap();
    assert_eq!(bonds, bond(10 * UNIT));
    assert_eq!(pool.constant_product(), 2 * UNIT);
    assert_eq!(pool.lp_supply(), 1_414_213_562_373_095_048);
    assert_eq!(pool.interest(), 50_000_000_000_000);
}

#[test]
fn instantiate_then_deposit_at_the_current_rate() {
    let mut pool = funded();
    let supply = pool.lp_supply();
    let interest = pool.interest();
    // ten claims with ten bonds: the proportion the pool was created in
    let shares = pool
        .deposit_liquidity_a(cct_a(10 * UNIT), bond(10 * UNIT), 2 * UNIT, TERM, 10)
        .unwrap();
    // sqrt(10 * 10 / 100)
    assert_eq!(shares, lp(UNIT));
    assert_eq!(pool.lp_supply(), supply + UNIT);
    assert_eq!(pool.interest(), interest);
    assert_eq!(pool.constant_product(), 401 * UNIT);
    assert_eq!(pool.holding(Side::A), 10 * UNIT);
    assert_eq!(pool.holding(Side::B), 0);
    assert_eq!(pool.bond(), 10 * UNIT);
    assert_eq!(pool.locked(Side::A), 100 * UNIT);
    assert_eq!(pool.locked(Side::B), 200 * UNIT);
}

#[test]
fn deposit_of_forty_claims_with_forty_bonds_gives_four_shares() {
    let mut pool = funded();
    let shares = pool
        .deposit_liquidity_a(cct_a(40 * UNIT), bond(40 * UNIT), 2 * UNIT, TERM, 10)
        .unwrap();
    // sqrt(40 * 40 / 100)
    assert_eq!(shares, lp(4 * UNIT));
    assert_eq!(pool.lp_supply(), 24 * UNIT);
    assert_eq!(pool.constant_product(), 416 * UNIT);
    assert_eq!(pool.interest(), UNIT / 100);
}

#[test]
fn deposit_of_eighty_side_b_claims_with_forty_bonds_gives_four_shares() {
    let mut pool = funded();
    let shares = pool
        .deposit_liquidity_b(cct_b(80 * UNIT), bond(40 * UNIT), 2 * UNIT, TERM, 10)
        .unwrap();
    // sqrt((80 / 2) * (40 / 100))
    assert_eq!(shares, lp(4 * UNIT));
    assert_eq!(pool.constant_product(), 416 * UNIT);
    assert_eq!(pool.holding(Side::A), 0);
    assert_eq!(pool.holding(Side::B), 80 * UNIT);
    assert_eq!(pool.bond(), 40 * UNIT);
}

#[test]
fn deposit_far_off_the_proportion_of_the_pool_is_refused() {
    let mut pool = funded();
    let before = pool;
    // 200 bonds per claim in a pool created at one bond per claim
    let r = pool.deposit_liquidity_a(cct_a(10 * UNIT), bond(2_000 * UNIT), 2 * UNIT, TERM, 10);
    assert_eq!(r.err(), Some(PoolError::RatioMismatch));
    assert_eq!(pool, before);
}

#[test]
fn instantiate_refuses_a_wrong_ratio() {
    let r = ConstantSumAmm::locking_liquidity(
        token_a(100 * UNIT),
        token_b(201 * UNIT),
        TERM,
        UNIT,
        2 * UNIT,
        10,
    );
    assert_eq!(r.err(), Some(PoolError::RatioMismatch));
    let r = ConstantSumAmm::locking_liquidity(
        token_a(100 * UNIT),
        token_b(0),
        TERM,
        UNIT / 20,
        2 * UNIT,
        10,
    );
    assert_eq!(r.err(), Some(PoolError::RatioMismatch));
    let r = ConstantSumAmm::locking_liquidity(
        token_a(100 * UNIT),
        token_b(200 * UNIT),
        TERM,
        UNIT / 20,
        0,
        10,
    );
    assert_eq!(r.err(), Some(PoolError::RatioMismatch));
    // a quotient out of range cannot match
    let r = ConstantSumAmm::locking_liquidity(
        token_a(u128::MAX),
        token_b(1),
        TERM,
        UNIT / 20,
        2 * UNIT,
        10,
    );
    assert_eq!(r.err(), Some(PoolError::RatioMismatch));
}

#[test]
fn instantiate_refuses_a_rate_the_issue_cannot_give() {
    // one minimum unit per unit on half a unit of claims issues no bond
    let r = ConstantSumAmm::locking_liquidity(
        token_a(UNIT / 4),
        token_b(UNIT / 2),
        TERM,
        1,
        2 * UNIT,
        10,
    );
    assert_eq!(r.err(), Some(PoolError::RateMismatch));
}

#[test]
fn instantiate_refuses_a_past_maturity() {
    let r = ConstantSumAmm::locking_liquidity(
        token_a(100 * UNIT),
        token_b(200 * UNIT),
        TERM,
        UNIT / 20,
        2 * UNIT,
        TERM + 1,
    );
    assert_eq!(r.err(), Some(PoolError::PoolExpired));
    let r = ConstantSumAmm::locking_liquidity(
        token_a(100 * UNIT),
        token_b(200 * UNIT),
        0,
        UNIT / 20,
        2 * UNIT,
        0,
    );
    assert_eq!(r.err(), Some(PoolError::PoolExpired));
}

#[test]
fn instantiate_beyond_the_range_is_a_fault() {
    // the ratio holds, the bond issue does not fit
    let a = u128::MAX / 4;
    let r = ConstantSumAmm::locking_liquidity(
        token_a(a),
        token_b(2 * a),
        TERM,
        1_000 * UNIT,
        2 * UNIT,
        10,
    );
    assert_eq!(r.err(), Some(PoolError::ArithmeticFault));
}

#[test]
fn deposit_on_side_b_normalizes_by_the_strike() {
    let mut pool = funded();
    let shares = pool
        .deposit_liquidity_b(cct_b(20 * UNIT), bond(10 * UNIT), 2 * UNIT, TERM, 10)
        .unwrap();
    assert_eq!(shares, lp(UNIT));
    assert_eq!(pool.constant_product(), 401 * UNIT);
    assert_eq!(pool.holding(Side::A), 0);
    assert_eq!(pool.holding(Side::B), 20 * UNIT);
    assert_eq!(pool.bond(), 10 * UNIT);
    assert_eq!(pool.interest(), UNIT / 100);
}

#[test]
fn deposit_by_side_agrees_with_the_named_entries() {
    let mut by_side = funded();
    let mut named = funded();
    let x = by_side
        .deposit_liquidity(Side::A, cct_a(10 * UNIT), bond(10 * UNIT), 2 * UNIT, TERM, 10)
        .unwrap();
    let y = named
        .deposit_liquidity_a(cct_a(10 * UNIT), bond(10 * UNIT), 2 * UNIT, TERM, 10)
        .unwrap();
    assert_eq!(x, y);
    assert_eq!(by_side, named);
}

#[test]
fn deposit_off_the_current_rate_is_refused() {
    let mut pool = funded();
    let before = pool;
    let r = pool.deposit_liquidity_a(cct_a(10 * UNIT), bond(11 * UNIT), 2 * UNIT, TERM, 10);
    assert_eq!(r.err(), Some(PoolError::RatioMismatch));
    assert_eq!(pool, before);
    // a side-B amount that normalizes to nothing has no rate
    let r = pool.deposit_liquidity_b(cct_b(1), bond(10 * UNIT), 2 * UNIT, TERM, 10);
    assert_eq!(r.err(), Some(PoolError::RatioMismatch));
    assert_eq!(pool, before);
}

#[test]
fn deposit_into_another_pool_is_refused() {
    let mut pool = funded();
    let before = pool;
    let r = pool.deposit_liquidity_a(cct_a(10 * UNIT), bond(10 * UNIT), 3 * UNIT, TERM, 10);
    assert_eq!(r.err(), Some(PoolError::PoolMismatch));
    let r = pool.deposit_liquidity_a(cct_a(10 * UNIT), bond(10 * UNIT), 2 * UNIT, TERM - 1, 10);
    assert_eq!(r.err(), Some(PoolError::PoolMismatch));
    assert_eq!(pool, before);
}

#[test]
fn deposit_after_maturity_is_refused() {
    let mut pool = funded();
    let before = pool;
    let r = pool.deposit_liquidity_a(cct_a(10 * UNIT), bond(10 * UNIT), 2 * UNIT, TERM, TERM + 1);
    assert_eq!(r.err(), Some(PoolError::PoolExpired));
    // maturity is looked at before anything else
    let r = pool.deposit_liquidity_b(cct_b(1), bond(1), 9 * UNIT, 7, TERM + 1);
    assert_eq!(r.err(), Some(PoolError::PoolExpired));
    assert_eq!(pool, before);
    assert!(pool
        .deposit_liquidity_a(cct_a(10 * UNIT), bond(10 * UNIT), 2 * UNIT, TERM, TERM)
        .is_ok());
}

#[test]
fn deposit_beyond_the_range_is_a_fault() {
    let (mut pool, _) = ConstantSumAmm::instantiate_amm_pool(1, TERM, 0, 0, 10).unwrap();
    let before = pool;
    // side-B claims over a strike of one minimum unit do not normalize
    let r = pool.deposit_liquidity_b(cct_b(u128::MAX), bond(UNIT), 1, TERM, 10);
    assert_eq!(r.err(), Some(PoolError::ArithmeticFault));
    assert_eq!(pool, before);
}

#[test]
fn withdraw_pays_a_pro_rata_slice() {
    let mut pool = funded();
    pool.deposit_liquidity_a(cct_a(10 * UNIT), bond(10 * UNIT), 2 * UNIT, TERM, 10)
        .unwrap();
    let (out_a, out_b, out_bond) = pool.withdraw_liquidity(lp(UNIT)).unwrap();
    // share = 1 / 21
    assert_eq!(out_a, cct_a(476_190_476_190_476_190));
    assert_eq!(out_b, cct_b(0));
    assert_eq!(out_bond, bond(476_190_476_190_476_190));
    assert_eq!(pool.holding(Side::A), 9_523_809_523_809_523_810);
    assert_eq!(pool.holding(Side::B), 0);
    assert_eq!(pool.bond(), 9_523_809_523_809_523_810);
    assert_eq!(pool.lp_supply(), 20 * UNIT);
    // taken afresh from what remains
    assert_eq!(pool.constant_product(), 907_029_478_458_049_885);
    assert_eq!(pool.interest(), 95_238_095_238_095_237);
    assert_eq!(pool.locked(Side::A), 100 * UNIT);
    assert_eq!(pool.locked(Side::B), 200 * UNIT);
}

#[test]
fn withdraw_of_every_share_empties_the_pool() {
    let mut pool = funded();
    pool.deposit_liquidity_b(cct_b(20 * UNIT), bond(10 * UNIT), 2 * UNIT, TERM, 10)
        .unwrap();
    let all = pool.lp_supply();
    assert_eq!(all, 21 * UNIT);
    let (out_a, out_b, out_bond) = pool.withdraw_liquidity(lp(all)).unwrap();
    assert_eq!(out_a, cct_a(0));
    assert_eq!(out_b, cct_b(20 * UNIT));
    assert_eq!(out_bond, bond(10 * UNIT));
    assert_eq!(pool.lp_supply(), 0);
    assert_eq!(pool.constant_product(), 0);
    assert_eq!(pool.interest(), 0);
    assert_eq!(pool.holding(Side::B), 0);
    assert_eq!(pool.bond(), 0);
}

#[test]
fn withdraw_of_more_than_the_supply_is_refused() {
    let mut pool = funded();
    let before = pool;
    let r = pool.withdraw_liquidity(lp(pool.lp_supply() + 1));
    assert_eq!(r.err(), Some(PoolError::InsufficientShare));
    assert_eq!(pool, before);
    let (mut empty, _) = ConstantSumAmm::instantiate_amm_pool(2 * UNIT, TERM, 0, 0, 10).unwrap();
    assert_eq!(
        empty.withdraw_liquidity(lp(1)).err(),
        Some(PoolError::InsufficientShare)
    );
}

#[test]
fn withdraw_beyond_the_range_is_a_fault() {
    let (mut pool, _) =
        ConstantSumAmm::instantiate_amm_pool(2 * UNIT, TERM, 0, 4 * UNIT, 10).unwrap();
    // loans to a pool without invariant are absorbed and earn nothing
    let big: u128 = 100_000_000_000_000_000_000_000_000_000_000_000_000;
    let (_, earned) = pool.lend_b(cct_a(3 * big), 10).unwrap();
    assert_eq!(earned, bond(0));
    let (_, earned) = pool.lend_a(cct_b(2 * big), 10).unwrap();
    assert_eq!(earned, bond(0));
    assert_eq!(pool.holding(Side::A), 3 * big);
    assert_eq!(pool.holding(Side::B), 2 * big);
    // 3e38 + 2e38 / 2 is more than 128 bits hold
    let before = pool;
    let r = pool.withdraw_liquidity(lp(1));
    assert_eq!(r.err(), Some(PoolError::ArithmeticFault));
    assert_eq!(pool, before);
}

#[test]
fn option_entries_of_the_pool_lock_and_release() {
    let mut pool = funded();
    let (claims, bonds) = pool.option_a_deposit(token_a(5 * UNIT), 10).unwrap();
    assert_eq!(claims, cct_a(5 * UNIT));
    assert_eq!(bonds, bond(5 * UNIT));
    assert_eq!(pool.locked(Side::A), 105 * UNIT);
    let (claims, bonds) = pool.option_b_deposit(token_b(6 * UNIT), 10).unwrap();
    assert_eq!(claims, cct_b(6 * UNIT));
    assert_eq!(bonds, bond(3 * UNIT));
    assert_eq!(pool.locked(Side::B), 206 * UNIT);
    let out = pool
        .option_a_withdraw(AssetKind::TokenA, cct_a(105 * UNIT), bond(0))
        .unwrap();
    assert_eq!(out, token_a(105 * UNIT));
    assert_eq!(pool.locked(Side::A), 0);
    let out = pool
        .option_b_withdraw(AssetKind::TokenB, cct_b(UNIT), bond(UNIT))
        .unwrap();
    assert_eq!(out, token_b(UNIT));
    assert_eq!(pool.locked(Side::B), 205 * UNIT);
    assert_eq!(pool.option().token_b(), 205 * UNIT);
    let before = pool;
    assert_eq!(
        pool.option_a_withdraw(AssetKind::TokenA, cct_a(1), bond(0)).err(),
        Some(PoolError::InsufficientReserve)
    );
    assert_eq!(
        pool.option_a_deposit(token_a(1), TERM + 1).err(),
        Some(PoolError::PoolExpired)
    );
    assert_eq!(pool, before);
}

#[test]
fn restore_gives_back_the_same_pool() {
    let mut pool = funded();
    pool.deposit_liquidity_a(cct_a(10 * UNIT), bond(10 * UNIT), 2 * UNIT, TERM, 10)
        .unwrap();
    let restored = ConstantSumAmm::restore(
        pool.option(),
        pool.holding(Side::A),
        pool.holding(Side::B),
        pool.bond(),
        pool.lp_supply(),
        pool.constant_product(),
        pool.interest(),
        pool.fee(),
    );
    assert_eq!(restored, Some(pool));
}

#[test]
fn restore_refuses_invalid_records() {
    let option = funded().option();
    // an invariant without shares
    assert_eq!(ConstantSumAmm::restore(option, 0, 0, 0, 0, UNIT, 0, 0), None);
    // a fee of one
    assert_eq!(ConstantSumAmm::restore(option, 0, 0, 0, UNIT, UNIT, 0, UNIT), None);
    assert!(ConstantSumAmm::restore(option, 0, 0, 0, UNIT, UNIT, 0, UNIT - 1).is_some());
    assert!(ConstantSumAmm::restore(option, 0, 0, 0, UNIT, 0, 0, 0).is_some());
    assert!(ConstantSumAmm::restore(option, 0, 0, 0, 0, 0, 0, 0).is_some());
}

#[test]
fn withdrawal_can_raise_an_invariant_recorded_below_the_holdings() {
    // holdings of 10 claims and 100 bonds give 10 * 1 = 10; the record says 1
    let option = funded().option();
    let mut pool =
        ConstantSumAmm::restore(option, 10 * UNIT, 0, 100 * UNIT, 4 * UNIT, UNIT, 0, 0).unwrap();
    pool.withdraw_liquidity(lp(1)).unwrap();
    assert_eq!(pool.constant_product(), 10 * UNIT);
}
