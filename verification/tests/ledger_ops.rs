use membership::amount::Amount;
use membership::hex_digits::hex_decode;
use membership::ledger::Ledger;

#[test]
fn resolve_member_is_idempotent_per_email() {
    let mut ledger = Ledger::new();
    let (id1, created1) = ledger.resolve_member(
        b"ann@example.com".to_vec(),
        b"Ann".to_vec(),
        b"Lee".to_vec(),
    );
    assert_eq!((id1, created1), (1, true));
    let (id2, created2) = ledger.resolve_member(
        b"ann@example.com".to_vec(),
        b"Other".to_vec(),
        b"Name".to_vec(),
    );
    assert_eq!((id2, created2), (1, false));
    let (id3, created3) = ledger.resolve_member(
        b"ben@example.com".to_vec(),
        b"Ben".to_vec(),
        b"Kim".to_vec(),
    );
    assert_eq!((id3, created3), (2, true));
    assert_eq!(ledger.member_count(), 2);
    // The original identity row is untouched by the repeated resolve.
    assert_eq!(ledger.members[0].first_name, b"Ann".to_vec());
}

#[test]
fn record_payment_appends_rows_in_order() {
    let mut ledger = Ledger::new();
    let (id, _) = ledger.resolve_member(
        b"ann@example.com".to_vec(),
        b"Ann".to_vec(),
        b"Lee".to_vec(),
    );
    let p1 = ledger.record_payment(
        id,
        None,
        1,
        Amount { cents: 1000 },
        b"manual".to_vec(),
        Some(b"mdma".to_vec()),
        None,
        Some(b"first dues".to_vec()),
    );
    let p2 = ledger.record_payment(
        id,
        None,
        12,
        Amount { cents: 12000 },
        b"manual".to_vec(),
        Some(b"mdma".to_vec()),
        None,
        None,
    );
    assert_eq!((p1, p2), (1, 2));
    assert_eq!(ledger.payment_count(), 2);
    assert_eq!(ledger.payments[0].platform, Some(b"mdma".to_vec()));
    assert_eq!(ledger.payments[1].duration_months, 12);
}

#[test]
fn hex_decode_round_trips_signature_material() {
    assert_eq!(hex_decode(b"00ff10Ab"), Some(vec![0x00, 0xff, 0x10, 0xab]));
    assert_eq!(hex_decode(b""), Some(Vec::new()));
    assert_eq!(hex_decode(b"abc"), None);
    assert_eq!(hex_decode(b"zz"), None);
}
