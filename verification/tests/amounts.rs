use membership::amount::Amount;

#[test]
fn parse_two_decimals_is_exact() {
    assert_eq!(Amount::parse(b"19.99"), Some(Amount { cents: 1999 }));
    assert_eq!(Amount::parse(b"0.01"), Some(Amount { cents: 1 }));
    assert_eq!(Amount::parse(b"10"), Some(Amount { cents: 1000 }));
    assert_eq!(Amount::parse(b"10.5"), Some(Amount { cents: 1050 }));
}

#[test]
fn parse_rounds_half_up_on_third_digit() {
    // The documented fixed-point rule: "19.999" rounds deterministically
    // to 2000 cents, never through binary floating point.
    assert_eq!(Amount::parse(b"19.999"), Some(Amount { cents: 2000 }));
    assert_eq!(Amount::parse(b"19.994"), Some(Amount { cents: 1999 }));
    assert_eq!(Amount::parse(b"19.995"), Some(Amount { cents: 2000 }));
    assert_eq!(Amount::parse(b"2.675"), Some(Amount { cents: 268 }));
    assert_eq!(Amount::parse(b"2.6749"), Some(Amount { cents: 267 }));
}

#[test]
fn parse_rejects_malformed_amounts() {
    assert_eq!(Amount::parse(b""), None);
    assert_eq!(Amount::parse(b"."), None);
    assert_eq!(Amount::parse(b"10."), None);
    assert_eq!(Amount::parse(b".5"), None);
    assert_eq!(Amount::parse(b"$10"), None);
    assert_eq!(Amount::parse(b"-5"), None);
    assert_eq!(Amount::parse(b"1.2.3"), None);
    assert_eq!(Amount::parse(b"1 0"), None);
    assert_eq!(Amount::parse(b"12345678901234567"), None);
}

#[test]
fn render_always_two_decimals() {
    assert_eq!(Amount { cents: 2000 }.render(), b"20.00".to_vec());
    assert_eq!(Amount { cents: 1999 }.render(), b"19.99".to_vec());
    assert_eq!(Amount { cents: 5 }.render(), b"0.05".to_vec());
    assert_eq!(Amount { cents: 1050 }.render(), b"10.50".to_vec());
}
