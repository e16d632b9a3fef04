use constantsum::{AssetKind, Bucket, ConstantSumOption, PoolError, UNIT};

fn component() -> ConstantSumOption {
    ConstantSumOption::instantiate_option(2 * UNIT, 1_000, 10).unwrap()
}

#[test]
fn new_component_holds_nothing() {
    let option = component();
    assert_eq!(option.strike_rate(), 2 * UNIT);
    assert_eq!(option.duration(), 1_000);
    assert_eq!(option.token_a(), 0);
    assert_eq!(option.token_b(), 0);
}

#[test]
fn component_needs_time_to_run() {
    assert_eq!(
        ConstantSumOption::instantiate_option(2 * UNIT, 1_000, 1_001).err(),
        Some(PoolError::PoolExpired)
    );
    assert_eq!(
        ConstantSumOption::instantiate_option(2 * UNIT, 0, 0).err(),
        Some(PoolError::PoolExpired)
    );
    assert_eq!(
        ConstantSumOption::instantiate_option(2 * UNIT, -5, -10).err(),
        Some(PoolError::PoolExpired)
    );
    assert!(ConstantSumOption::instantiate_option(2 * UNIT, 1_000, 1_000).is_ok());
}

#[test]
fn component_needs_a_positive_strike() {
    assert_eq!(
        ConstantSumOption::instantiate_option(0, 1_000, 10).err(),
        Some(PoolError::RatioMismatch)
    );
}

#[test]
fn locking_a_issues_claims_and_bonds_one_for_one() {
    let mut option = component();
    let (cct, bond) = option
        .option_a_deposit(Bucket::new(AssetKind::TokenA, 7 * UNIT), 10)
        .unwrap();
    assert_eq!(cct, Bucket::new(AssetKind::CctA, 7 * UNIT));
    assert_eq!(bond, Bucket::new(AssetKind::Bond, 7 * UNIT));
    assert_eq!(option.token_a(), 7 * UNIT);
    assert_eq!(option.token_b(), 0);
}

#[test]
fn locking_b_issues_bonds_at_the_strike() {
    let mut option = component();
    let (cct, bond) = option
        .option_b_deposit(Bucket::new(AssetKind::TokenB, 7 * UNIT), 10)
        .unwrap();
    assert_eq!(cct, Bucket::new(AssetKind::CctB, 7 * UNIT));
    assert_eq!(bond, Bucket::new(AssetKind::Bond, 7 * UNIT / 2));
    assert_eq!(option.token_a(), 0);
    assert_eq!(option.token_b(), 7 * UNIT);
}

#[test]
fn locking_after_maturity_is_refused() {
    let mut option = component();
    let before = option;
    assert_eq!(
        option.option_a_deposit(Bucket::new(AssetKind::TokenA, UNIT), 1_001).err(),
        Some(PoolError::PoolExpired)
    );
    assert_eq!(
        option.option_b_deposit(Bucket::new(AssetKind::TokenB, UNIT), 1_001).err(),
        Some(PoolError::PoolExpired)
    );
    assert_eq!(option, before);
}

#[test]
fn locking_beyond_the_range_is_a_fault() {
    let mut option = component();
    option
        .option_a_deposit(Bucket::new(AssetKind::TokenA, u128::MAX), 10)
        .unwrap();
    let before = option;
    assert_eq!(
        option.option_a_deposit(Bucket::new(AssetKind::TokenA, 1), 10).err(),
        Some(PoolError::ArithmeticFault)
    );
    assert_eq!(option, before);
}

#[test]
fn claims_release_underlying_one_for_one() {
    let mut option = component();
    option
        .option_a_deposit(Bucket::new(AssetKind::TokenA, 7 * UNIT), 10)
        .unwrap();
    let out = option
        .option_a_withdraw(
            AssetKind::TokenA,
            Bucket::new(AssetKind::CctA, 3 * UNIT),
            Bucket::new(AssetKind::Bond, 3 * UNIT),
        )
        .unwrap();
    assert_eq!(out, Bucket::new(AssetKind::TokenA, 3 * UNIT));
    assert_eq!(option.token_a(), 4 * UNIT);
}

#[test]
fn claims_on_side_b_release_underlying_b() {
    let mut option = component();
    option
        .option_b_deposit(Bucket::new(AssetKind::TokenB, 8 * UNIT), 10)
        .unwrap();
    let out = option
        .option_b_withdraw(
            AssetKind::TokenB,
            Bucket::new(AssetKind::CctB, 8 * UNIT),
            Bucket::new(AssetKind::Bond, 4 * UNIT),
        )
        .unwrap();
    assert_eq!(out, Bucket::new(AssetKind::TokenB, 8 * UNIT));
    assert_eq!(option.token_b(), 0);
}

#[test]
fn claims_beyond_the_locked_amount_are_refused() {
    let mut option = component();
    option
        .option_a_deposit(Bucket::new(AssetKind::TokenA, 7 * UNIT), 10)
        .unwrap();
    let before = option;
    let r = option.option_a_withdraw(
        AssetKind::TokenA,
        Bucket::new(AssetKind::CctA, 7 * UNIT + 1),
        Bucket::new(AssetKind::Bond, 0),
    );
    assert_eq!(r.err(), Some(PoolError::InsufficientReserve));
    assert_eq!(option, before);
}

#[test]
fn conversion_from_a_releases_b_at_the_strike() {
    let mut option = component();
    option
        .option_b_deposit(Bucket::new(AssetKind::TokenB, 100 * UNIT), 10)
        .unwrap();
    let (out, cct) = option
        .convert_option(
            Bucket::new(AssetKind::TokenA, 10 * UNIT),
            Bucket::new(AssetKind::CctB, 20 * UNIT),
            10,
        )
        .unwrap();
    assert_eq!(out, Bucket::new(AssetKind::TokenB, 20 * UNIT));
    assert_eq!(cct, Bucket::new(AssetKind::CctA, 10 * UNIT));
    assert_eq!(option.token_a(), 10 * UNIT);
    assert_eq!(option.token_b(), 80 * UNIT);
}

#[test]
fn conversion_from_b_releases_a_at_the_strike() {
    let mut option = component();
    option
        .option_a_deposit(Bucket::new(AssetKind::TokenA, 100 * UNIT), 10)
        .unwrap();
    let (out, cct) = option
        .convert_option(
            Bucket::new(AssetKind::TokenB, 10 * UNIT),
            Bucket::new(AssetKind::CctA, 5 * UNIT),
            10,
        )
        .unwrap();
    assert_eq!(out, Bucket::new(AssetKind::TokenA, 5 * UNIT));
    assert_eq!(cct, Bucket::new(AssetKind::CctB, 10 * UNIT));
    assert_eq!(option.token_a(), 95 * UNIT);
    assert_eq!(option.token_b(), 10 * UNIT);
}

#[test]
fn conversion_rounds_the_release_down() {
    let mut option = ConstantSumOption::instantiate_option(3 * UNIT, 1_000, 10).unwrap();
    option
        .option_a_deposit(Bucket::new(AssetKind::TokenA, 100 * UNIT), 10)
        .unwrap();
    let (out, _) = option
        .convert_option(
            Bucket::new(AssetKind::TokenB, 10 * UNIT),
            Bucket::new(AssetKind::CctA, 0),
            10,
        )
        .unwrap();
    assert_eq!(out, Bucket::new(AssetKind::TokenA, 3_333_333_333_333_333_333));
}

#[test]
fn conversion_of_a_same_side_pair_is_refused() {
    let mut option = component();
    option
        .option_a_deposit(Bucket::new(AssetKind::TokenA, 100 * UNIT), 10)
        .unwrap();
    let before = option;
    let pairs = [
        (AssetKind::TokenA, AssetKind::CctA),
        (AssetKind::TokenB, AssetKind::CctB),
        (AssetKind::TokenA, AssetKind::Bond),
        (AssetKind::CctA, AssetKind::CctB),
        (AssetKind::Bond, AssetKind::CctA),
        (AssetKind::LiquidityShare, AssetKind::TokenA),
    ];
    for (lock, cct) in pairs {
        let r = option.convert_option(Bucket::new(lock, UNIT), Bucket::new(cct, UNIT), 10);
        assert_eq!(r.err(), Some(PoolError::WrongAssetPair));
        assert_eq!(option, before);
    }
}

#[test]
fn conversion_after_maturity_is_refused_before_anything_else() {
    let mut option = component();
    let r = option.convert_option(
        Bucket::new(AssetKind::TokenA, UNIT),
        Bucket::new(AssetKind::CctA, UNIT),
        1_001,
    );
    assert_eq!(r.err(), Some(PoolError::PoolExpired));
}

#[test]
fn conversion_beyond_the_locked_amount_is_refused() {
    let mut option = component();
    option
        .option_b_deposit(Bucket::new(AssetKind::TokenB, 10 * UNIT), 10)
        .unwrap();
    let before = option;
    let r = option.convert_option(
        Bucket::new(AssetKind::TokenA, 6 * UNIT),
        Bucket::new(AssetKind::CctB, 12 * UNIT),
        10,
    );
    assert_eq!(r.err(), Some(PoolError::InsufficientReserve));
    assert_eq!(option, before);
}

#[test]
fn conversion_beyond_the_range_is_a_fault() {
    let mut option = component();
    let before = option;
    let r = option.convert_option(
        Bucket::new(AssetKind::TokenA, u128::MAX),
        Bucket::new(AssetKind::CctB, 0),
        10,
    );
    assert_eq!(r.err(), Some(PoolError::ArithmeticFault));
    assert_eq!(option, before);
}

#[test]
fn normalizing_divides_side_b_by_the_strike() {
    let option = component();
    assert_eq!(option.normalize(constantsum::Side::A, 9 * UNIT), Some(9 * UNIT));
    assert_eq!(option.normalize(constantsum::Side::B, 9 * UNIT), Some(9 * UNIT / 2));
    let tiny = ConstantSumOption::instantiate_option(1, 1_000, 10).unwrap();
    assert_eq!(tiny.normalize(constantsum::Side::B, u128::MAX), None);
}

#[test]
fn restore_takes_valid_terms_only() {
    let option = ConstantSumOption::restore(2 * UNIT, 1_000, 3 * UNIT, 4 * UNIT).unwrap();
    assert_eq!(option.strike_rate(), 2 * UNIT);
    assert_eq!(option.duration(), 1_000);
    assert_eq!(option.token_a(), 3 * UNIT);
    assert_eq!(option.token_b(), 4 * UNIT);
    assert_eq!(ConstantSumOption::restore(0, 1_000, 0, 0), None);
    assert_eq!(ConstantSumOption::restore(2 * UNIT, 0, 0, 0), None);
    assert_eq!(ConstantSumOption::restore(2 * UNIT, -1, 0, 0), None);
    let mut fresh = component();
    fresh
        .option_a_deposit(Bucket::new(AssetKind::TokenA, 3 * UNIT), 10)
        .unwrap();
    fresh
        .option_b_deposit(Bucket::new(AssetKind::TokenB, 4 * UNIT), 10)
        .unwrap();
    assert_eq!(option, fresh);
}
