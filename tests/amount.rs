use faucet::amount::btc_to_sat;
use faucet::amount::eth_to_wei;
use faucet::amount::sat_to_btc;
use faucet::amount::wei_to_eth;
use faucet::amount::Amount;

fn same_value(a: Amount, b: Amount) -> bool {
    let pa = 10u128.pow(b.scale);
    let pb = 10u128.pow(a.scale);
    a.units * pa == b.units * pb
}

#[test]
fn btc_amount_in_satoshis() {
    let amount = Amount { units: 5, scale: 4 };
    assert_eq!(btc_to_sat(amount, 8), Some(50_000));
}

#[test]
fn eth_amount_in_wei() {
    let amount = Amount { units: 5, scale: 4 };
    assert_eq!(eth_to_wei(amount, 18), Some(500_000_000_000_000));
}

#[test]
fn below_one_base_unit_is_zero() {
    assert_eq!(eth_to_wei(Amount { units: 9, scale: 9 }, 8), Some(0));
    assert_eq!(btc_to_sat(Amount { units: 1, scale: 30 }, 8), Some(0));
    assert_eq!(eth_to_wei(Amount { units: 0, scale: 0 }, 18), Some(0));
}

#[test]
fn rounds_to_nearest_half_up() {
    assert_eq!(eth_to_wei(Amount { units: 15, scale: 9 }, 8), Some(2));
    assert_eq!(eth_to_wei(Amount { units: 14, scale: 9 }, 8), Some(1));
    assert_eq!(eth_to_wei(Amount { units: 125, scale: 3 }, 2), Some(13));
}

#[test]
fn too_large_for_the_integer_is_none() {
    assert_eq!(eth_to_wei(Amount { units: u128::MAX, scale: 0 }, 1), None);
    assert_eq!(btc_to_sat(Amount { units: 1, scale: 0 }, 20), None);
    assert_eq!(eth_to_wei(Amount { units: 1, scale: 0 }, 38), Some(10u128.pow(38)));
    assert_eq!(eth_to_wei(Amount { units: 1, scale: 0 }, 39), None);
}

#[test]
fn base_units_round_trip() {
    let cases = [
        (Amount { units: 5, scale: 4 }, 8u32),
        (Amount { units: 123_456, scale: 3 }, 18),
        (Amount { units: 7, scale: 0 }, 6),
        (Amount { units: 100, scale: 2 }, 0),
    ];
    for (a, d) in cases {
        let base = eth_to_wei(a, d).unwrap();
        assert!(same_value(wei_to_eth(base, d), a));
    }
}

#[test]
fn negative_base_units_give_absolute_value() {
    assert_eq!(sat_to_btc(-50_000, 8), Amount { units: 50_000, scale: 8 });
    assert_eq!(sat_to_btc(i64::MIN, 0), Amount { units: 1u128 << 63, scale: 0 });
    assert_eq!(sat_to_btc(12, 2), Amount { units: 12, scale: 2 });
}

#[test]
fn parse_decimal_literals() {
    assert_eq!(Amount::parse("0.0005"), Some(Amount { units: 5, scale: 4 }));
    assert_eq!(Amount::parse("12"), Some(Amount { units: 12, scale: 0 }));
    assert_eq!(Amount::parse("1.50"), Some(Amount { units: 150, scale: 2 }));
    assert_eq!(Amount::parse(""), None);
    assert_eq!(Amount::parse(".5"), None);
    assert_eq!(Amount::parse("5."), None);
    assert_eq!(Amount::parse("1.2.3"), None);
    assert_eq!(Amount::parse("1e-4"), None);
    assert_eq!(Amount::parse("-1"), None);
    assert_eq!(Amount::parse("340282366920938463463374607431768211456"), None);
}

#[test]
fn render_decimal_notation() {
    assert_eq!(Amount { units: 5, scale: 4 }.to_decimal_string(), "0.0005");
    assert_eq!(Amount { units: 150, scale: 2 }.to_decimal_string(), "1.5");
    assert_eq!(Amount { units: 100, scale: 2 }.to_decimal_string(), "1");
    assert_eq!(Amount { units: 12, scale: 0 }.to_decimal_string(), "12");
    assert_eq!(Amount { units: 0, scale: 3 }.to_decimal_string(), "0");
    assert_eq!(Amount { units: 1234, scale: 1 }.to_decimal_string(), "123.4");
}
