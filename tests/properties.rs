use settled_forward::decimal::Decimal;
use settled_forward::settlement::{
    clamp_and_round, execute, execute_plugin, initialize, normalize_settlement, payoff,
    RedeemLogicErrors, RedeemLogicExecuteInput,
};

#[test]
fn conservation_across_prices() {
    for spot in [0i64, 1, 33, 77, 99, 100, 101, 150, 1000] {
        for is_linear in [true, false] {
            let old_quantity: [u64; 2] = [70_001, 29_999];
            let res = execute_plugin(
                old_quantity,
                Decimal::new(spot, 0),
                Decimal::new(7, 1),
                Decimal::new(90, 0),
                333,
                is_linear,
                true,
            )
            .unwrap();
            assert_eq!(
                res.new_quantity[0] + res.new_quantity[1] + res.fee_quantity,
                100_000
            );
        }
    }
}

#[test]
fn flat_market_with_other_scales() {
    let res = execute_plugin(
        [12_345, 67_890],
        Decimal::new(1000, 1),
        Decimal::new(100, 2),
        Decimal::new(100, 0),
        5_000,
        false,
        true,
    )
    .unwrap();
    assert_eq!(res.new_quantity, [12_345, 67_890]);
    assert_eq!(res.fee_quantity, 0);
}

#[test]
fn linear_senior_share_rises_with_price() {
    let mut last = 0u64;
    for spot in [0i64, 10, 50, 80, 99, 100, 101, 120, 150, 300] {
        let res = execute_plugin(
            [100_000, 100_000],
            Decimal::new(spot, 0),
            Decimal::new(1, 0),
            Decimal::new(100, 0),
            1_000,
            true,
            true,
        )
        .unwrap();
        assert!(res.new_quantity[0] >= last);
        last = res.new_quantity[0];
    }
    assert_eq!(last, 200_000);
}

#[test]
fn inverse_wipeout_uneven_pool() {
    let res = execute_plugin(
        [3, 8],
        Decimal::new(0, 0),
        Decimal::new(5, 0),
        Decimal::new(25, 1),
        10,
        false,
        false,
    )
    .unwrap();
    assert_eq!(res.new_quantity, [0, 11]);
    assert_eq!(res.fee_quantity, 0);
}

#[test]
fn negative_underlying_is_invalid() {
    let res = execute_plugin(
        [1, 1],
        Decimal::new(-1, 0),
        Decimal::new(1, 0),
        Decimal::new(1, 0),
        1,
        true,
        true,
    );
    assert_eq!(res.unwrap_err(), RedeemLogicErrors::InvalidInput);
}

#[test]
fn negative_strike_is_invalid() {
    let res = execute_plugin(
        [1, 1],
        Decimal::new(1, 0),
        Decimal::new(1, 0),
        Decimal::new(-5, 1),
        1,
        true,
        true,
    );
    assert_eq!(res.unwrap_err(), RedeemLogicErrors::InvalidInput);
}

#[test]
fn pool_overflow_is_math_error() {
    let res = execute_plugin(
        [u64::MAX, 1],
        Decimal::new(1, 0),
        Decimal::new(1, 0),
        Decimal::new(1, 0),
        1,
        true,
        true,
    );
    assert_eq!(res.unwrap_err(), RedeemLogicErrors::MathError);
}

#[test]
fn payoff_overflow_is_math_error() {
    let res = execute_plugin(
        [1, 1],
        Decimal::new(i64::MAX, 0),
        Decimal::new(1, 0),
        Decimal::new(0, 0),
        u64::MAX,
        true,
        true,
    );
    assert_eq!(res.unwrap_err(), RedeemLogicErrors::MathError);
}

#[test]
fn normalize_inverts_inverse_quote() {
    let r = normalize_settlement(Decimal::new(4, 0), false).unwrap();
    assert_eq!(r.mantissa * 100, 25 * 10i128.pow(r.scale));
    let same = normalize_settlement(Decimal::new(4, 0), true).unwrap();
    assert_eq!((same.mantissa, same.scale), (4, 0));
    let zero = normalize_settlement(Decimal::new(0, 3), false).unwrap();
    assert_eq!(zero.mantissa, 0);
}

#[test]
fn payoff_linear_and_inverse_values() {
    let lin = payoff(
        Decimal::new(120, 0),
        Decimal::new(1, 0),
        Decimal::new(100, 0),
        1_000,
        true,
        true,
    )
    .unwrap();
    assert_eq!(lin.mantissa, 20_000 * 10i128.pow(lin.scale));
    let inv = payoff(
        Decimal::new(80, 0),
        Decimal::new(1, 0),
        Decimal::new(100, 0),
        1_000,
        false,
        true,
    )
    .unwrap();
    assert_eq!(inv.mantissa, -250 * 10i128.pow(inv.scale));
}

#[test]
fn clamp_and_round_floors_and_keeps_fee() {
    let res = clamp_and_round([100, 100], Decimal::new(107, 1)).unwrap();
    assert_eq!(res.new_quantity, [110, 89]);
    assert_eq!(res.fee_quantity, 1);
    let capped = clamp_and_round([100, 100], Decimal::new(1_000, 0)).unwrap();
    assert_eq!(capped.new_quantity, [200, 0]);
    let floored = clamp_and_round([100, 100], Decimal::new(-1_000, 0)).unwrap();
    assert_eq!(floored.new_quantity, [0, 200]);
}

#[test]
fn decimal_min_max() {
    let a = Decimal::new(15, 1);
    let b = Decimal::new(2, 0);
    assert_eq!(a.max(b).mantissa, 2);
    assert_eq!(a.min(b).mantissa, 15);
    let c = Decimal::new(150, 2);
    assert_eq!(a.max(c).scale, 1);
    assert_eq!(c.min(a).scale, 2);
}

#[test]
fn initialize_checks_strike() {
    let c = initialize(Decimal::new(42, 0), 7, true, false).unwrap();
    assert_eq!(c.notional, 7);
    assert!(c.is_linear);
    assert!(!c.is_standard);
    assert_eq!(c.strike.mantissa, 42);
    let e = initialize(Decimal::new(-1, 2), 7, true, false);
    assert_eq!(e.unwrap_err(), RedeemLogicErrors::InvalidInput);
}

#[test]
fn execute_reads_serialized_prices() {
    let mut new_values = [rust_decimal::Decimal::ZERO.serialize(); 10];
    new_values[0] = rust_decimal::Decimal::new(120, 0).serialize();
    new_values[1] = rust_decimal::Decimal::ONE.serialize();
    let input = RedeemLogicExecuteInput {
        old_quantity: [100_000, 100_000],
        old_reserve_fair_value: [rust_decimal::Decimal::ONE.serialize(); 10],
        new_reserve_fair_value: new_values,
    };
    let config = initialize(Decimal::new(100, 0), 1_000, false, true).unwrap();
    let res = execute(&config, &input).unwrap();
    assert_eq!(res.new_quantity, [100_166, 99_833]);
    assert_eq!(res.fee_quantity, 1);
}

#[test]
fn execute_refuses_negative_fair_value() {
    let mut old_values = [rust_decimal::Decimal::ONE.serialize(); 10];
    old_values[9] = rust_decimal::Decimal::new(-1, 3).serialize();
    let input = RedeemLogicExecuteInput {
        old_quantity: [1, 1],
        old_reserve_fair_value: old_values,
        new_reserve_fair_value: [rust_decimal::Decimal::ONE.serialize(); 10],
    };
    assert_eq!(input.is_valid().unwrap_err(), RedeemLogicErrors::InvalidInput);
    let config = initialize(Decimal::new(1, 0), 1, true, true).unwrap();
    assert_eq!(
        execute(&config, &input).unwrap_err(),
        RedeemLogicErrors::InvalidInput
    );
}

#[test]
fn clamped_senior_follows_payoff_order() {
    let mut last = 0u64;
    for tenths in [-3_000i64, -1_001, -999, -5, 0, 4, 15, 999, 1_001, 3_000] {
        let res = clamp_and_round([50, 50], Decimal::new(tenths, 1)).unwrap();
        assert!(res.new_quantity[0] >= last);
        assert_eq!(res.new_quantity[0] + res.new_quantity[1] + res.fee_quantity, 100);
        last = res.new_quantity[0];
    }
    assert_eq!(last, 100);
}
