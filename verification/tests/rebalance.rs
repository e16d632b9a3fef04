use constantsum::{AssetKind, Bucket, ConstantSumAmm, PoolError, Side, UNIT};

const TERM: i64 = 100;

fn bucket(kind: AssetKind, n: u128) -> Bucket {
    Bucket::new(kind, n)
}

/// 100 of A and 200 of B locked; holds 10 of side-A claims and 10 bonds.
fn pool() -> ConstantSumAmm {
    let mut pool = ConstantSumAmm::locking_liquidity(
        bucket(AssetKind::TokenA, 100 * UNIT),
        bucket(AssetKind::TokenB, 200 * UNIT),
        TERM,
        UNIT,
        2 * UNIT,
        10,
    )
    .unwrap()
    .0;
    pool.deposit_liquidity_a(
        bucket(AssetKind::CctA, 10 * UNIT),
        bucket(AssetKind::Bond, 10 * UNIT),
        2 * UNIT,
        TERM,
        10,
    )
    .unwrap();
    pool
}

#[test]
fn convert_leaves_the_holdings_alone() {
    let mut p = pool();
    let before = p;
    let (out, claims) = p
        .convert_option(
            bucket(AssetKind::TokenA, 10 * UNIT),
            bucket(AssetKind::CctB, 20 * UNIT),
            10,
        )
        .unwrap();
    assert_eq!(out, bucket(AssetKind::TokenB, 20 * UNIT));
    assert_eq!(claims, bucket(AssetKind::CctA, 10 * UNIT));
    assert_eq!(p.locked(Side::A), 110 * UNIT);
    assert_eq!(p.locked(Side::B), 180 * UNIT);
    assert_eq!(p.holding(Side::A), before.holding(Side::A));
    assert_eq!(p.holding(Side::B), before.holding(Side::B));
    assert_eq!(p.bond(), before.bond());
    assert_eq!(p.constant_product(), before.constant_product());
    assert_eq!(p.interest(), before.interest());
    assert_eq!(p.lp_supply(), before.lp_supply());
    assert_eq!(p.strike_rate(), before.strike_rate());
    assert_eq!(p.duration(), before.duration());
}

#[test]
fn convert_refusals_leave_the_pool_alone() {
    let mut p = pool();
    let before = p;
    let r = p.convert_option(
        bucket(AssetKind::TokenA, 10 * UNIT),
        bucket(AssetKind::CctA, 20 * UNIT),
        10,
    );
    assert_eq!(r.err(), Some(PoolError::WrongAssetPair));
    let r = p.convert_option(
        bucket(AssetKind::TokenA, 10 * UNIT),
        bucket(AssetKind::CctB, 20 * UNIT),
        TERM + 1,
    );
    assert_eq!(r.err(), Some(PoolError::PoolExpired));
    let r = p.convert_option(
        bucket(AssetKind::TokenA, 101 * UNIT),
        bucket(AssetKind::CctB, 0),
        10,
    );
    assert_eq!(r.err(), Some(PoolError::InsufficientReserve));
    assert_eq!(p, before);
}

#[test]
fn rebalance_sends_the_converted_underlying_to_the_exchange() {
    let p = pool();
    let input = p
        .rebalance_swap_input(bucket(AssetKind::TokenB, 40 * UNIT), 10)
        .unwrap();
    assert_eq!(input, bucket(AssetKind::TokenA, 20 * UNIT));
    let input = p
        .rebalance_swap_input(bucket(AssetKind::TokenA, 40 * UNIT), 10)
        .unwrap();
    assert_eq!(input, bucket(AssetKind::TokenB, 80 * UNIT));
}

#[test]
fn rebalance_burns_the_opposite_holding_and_keeps_the_new_claims() {
    let mut p = pool();
    let before = p;
    let given = bucket(AssetKind::TokenB, 39 * UNIT);
    let out = p
        .rebalance_transaction(bucket(AssetKind::TokenB, 40 * UNIT), 10, Some(given))
        .unwrap();
    assert_eq!(out, given);
    assert_eq!(p.holding(Side::A), 0);
    assert_eq!(p.holding(Side::B), 40 * UNIT);
    assert_eq!(p.locked(Side::A), 80 * UNIT);
    assert_eq!(p.locked(Side::B), 240 * UNIT);
    assert_eq!(p.bond(), before.bond());
    assert_eq!(p.constant_product(), before.constant_product());
    assert_eq!(p.interest(), before.interest());
    assert_eq!(p.lp_supply(), before.lp_supply());
}

#[test]
fn rebalance_from_side_a_adds_to_the_side_a_holding() {
    let mut p = pool();
    let given = bucket(AssetKind::TokenA, 7 * UNIT);
    let out = p
        .rebalance_transaction(bucket(AssetKind::TokenA, 5 * UNIT), 10, Some(given))
        .unwrap();
    assert_eq!(out, given);
    assert_eq!(p.holding(Side::A), 15 * UNIT);
    assert_eq!(p.holding(Side::B), 0);
    assert_eq!(p.locked(Side::A), 105 * UNIT);
    assert_eq!(p.locked(Side::B), 190 * UNIT);
}

#[test]
fn rebalance_with_a_failed_swap_changes_nothing() {
    let mut p = pool();
    let before = p;
    let r = p.rebalance_transaction(bucket(AssetKind::TokenB, 40 * UNIT), 10, None);
    assert_eq!(r.err(), Some(PoolError::ExternalSwapFailed));
    assert_eq!(p, before);
    assert_eq!(format!("{:?}", p), format!("{:?}", before));
    let r = p.rebalance_transaction_a(bucket(AssetKind::TokenB, 40 * UNIT), 10, None);
    assert_eq!(r.err(), Some(PoolError::ExternalSwapFailed));
    let r = p.rebalance_transaction_b(bucket(AssetKind::TokenA, 40 * UNIT), 10, None);
    assert_eq!(r.err(), Some(PoolError::ExternalSwapFailed));
    assert_eq!(p, before);
}

#[test]
fn rebalance_refusals_come_before_the_swap() {
    let mut p = pool();
    let before = p;
    let given = Some(bucket(AssetKind::TokenB, UNIT));
    let r = p.rebalance_transaction(bucket(AssetKind::TokenB, 40 * UNIT), TERM + 1, given);
    assert_eq!(r.err(), Some(PoolError::PoolExpired));
    let r = p.rebalance_transaction(bucket(AssetKind::TokenB, 40 * UNIT), TERM + 1, None);
    assert_eq!(r.err(), Some(PoolError::PoolExpired));
    let r = p.rebalance_transaction(bucket(AssetKind::CctA, 40 * UNIT), 10, given);
    assert_eq!(r.err(), Some(PoolError::WrongAssetPair));
    let r = p.rebalance_transaction(bucket(AssetKind::Bond, 40 * UNIT), 10, None);
    assert_eq!(r.err(), Some(PoolError::WrongAssetPair));
    // 201 of B converts to more of A than is locked
    let r = p.rebalance_transaction(bucket(AssetKind::TokenB, 201 * UNIT), 10, None);
    assert_eq!(r.err(), Some(PoolError::InsufficientReserve));
    let r = p.rebalance_swap_input(bucket(AssetKind::TokenB, 201 * UNIT), 10);
    assert_eq!(r.err(), Some(PoolError::InsufficientReserve));
    let r = p.rebalance_swap_input(bucket(AssetKind::LiquidityShare, UNIT), 10);
    assert_eq!(r.err(), Some(PoolError::WrongAssetPair));
    let r = p.rebalance_swap_input(bucket(AssetKind::TokenB, UNIT), TERM + 1);
    assert_eq!(r.err(), Some(PoolError::PoolExpired));
    assert_eq!(p, before);
}

#[test]
fn directed_rebalance_insists_on_its_side() {
    let mut p = pool();
    let before = p;
    let given = Some(bucket(AssetKind::TokenB, UNIT));
    // against side-A claims the collateral must be underlying B
    let r = p.rebalance_transaction_a(bucket(AssetKind::TokenA, 5 * UNIT), 10, given);
    assert_eq!(r.err(), Some(PoolError::WrongAssetPair));
    let r = p.rebalance_transaction_b(bucket(AssetKind::TokenB, 5 * UNIT), 10, given);
    assert_eq!(r.err(), Some(PoolError::WrongAssetPair));
    let r = p.rebalance_transaction_a(bucket(AssetKind::TokenA, 5 * UNIT), TERM + 1, given);
    assert_eq!(r.err(), Some(PoolError::PoolExpired));
    assert_eq!(p, before);
    let mut q = p;
    let x = p
        .rebalance_transaction_a(bucket(AssetKind::TokenB, 40 * UNIT), 10, given)
        .unwrap();
    let y = q
        .rebalance_transaction(bucket(AssetKind::TokenB, 40 * UNIT), 10, given)
        .unwrap();
    assert_eq!(x, y);
    assert_eq!(p, q);
    let mut p = before;
    let mut q = before;
    let x = p
        .rebalance_transaction_b(bucket(AssetKind::TokenA, 5 * UNIT), 10, given)
        .unwrap();
    let y = q
        .rebalance_transaction(bucket(AssetKind::TokenA, 5 * UNIT), 10, given)
        .unwrap();
    assert_eq!(x, y);
    assert_eq!(p, q);
}

#[test]
fn rebalance_effect_names_what_is_swapped_issued_and_burned() {
    let p = pool();
    let (swap, issued, burned) = p
        .rebalance_effect(bucket(AssetKind::TokenB, 40 * UNIT), 10)
        .unwrap();
    assert_eq!(swap, bucket(AssetKind::TokenA, 20 * UNIT));
    assert_eq!(issued, bucket(AssetKind::CctB, 40 * UNIT));
    assert_eq!(burned, bucket(AssetKind::CctA, 10 * UNIT));
    let (swap, issued, burned) = p
        .rebalance_effect(bucket(AssetKind::TokenA, 5 * UNIT), 10)
        .unwrap();
    assert_eq!(swap, bucket(AssetKind::TokenB, 10 * UNIT));
    assert_eq!(issued, bucket(AssetKind::CctA, 5 * UNIT));
    assert_eq!(burned, bucket(AssetKind::CctB, 0));
    assert_eq!(
        p.rebalance_effect(bucket(AssetKind::Bond, UNIT), 10).err(),
        Some(PoolError::WrongAssetPair)
    );
    assert_eq!(
        p.rebalance_effect(bucket(AssetKind::TokenA, UNIT), TERM + 1).err(),
        Some(PoolError::PoolExpired)
    );
    assert_eq!(
        p.rebalance_effect(bucket(AssetKind::TokenB, 201 * UNIT), 10).err(),
        Some(PoolError::InsufficientReserve)
    );
}

#[test]
fn directed_rebalance_effect_insists_on_its_side() {
    let p = pool();
    let to_b = bucket(AssetKind::TokenB, 40 * UNIT);
    let to_a = bucket(AssetKind::TokenA, 5 * UNIT);
    assert_eq!(
        p.rebalance_effect_against(Side::A, to_b, 10),
        p.rebalance_effect(to_b, 10)
    );
    assert_eq!(
        p.rebalance_effect_against(Side::B, to_a, 10),
        p.rebalance_effect(to_a, 10)
    );
    assert_eq!(
        p.rebalance_effect_against(Side::A, to_a, 10).err(),
        Some(PoolError::WrongAssetPair)
    );
    assert_eq!(
        p.rebalance_effect_against(Side::B, to_b, 10).err(),
        Some(PoolError::WrongAssetPair)
    );
    assert_eq!(
        p.rebalance_effect_against(Side::A, to_a, TERM + 1).err(),
        Some(PoolError::PoolExpired)
    );
}
