use hmac::{Hmac, Mac};
use sha2::Sha256;

use membership::outcome::AuthFailure;
use membership::webconnex::auth::VerifySigState;

fn hex_of(bytes: &[u8]) -> Vec<u8> {
    let mut out = Vec::new();
    for b in bytes {
        let hi = b >> 4;
        let lo = b & 0xf;
        out.push(if hi < 10 { b'0' + hi } else { b'a' + hi - 10 });
        out.push(if lo < 10 { b'0' + lo } else { b'a' + lo - 10 });
    }
    out
}

fn mac_hex(secret: &[u8], msg: &[u8]) -> Vec<u8> {
    let mut m = Hmac::<Sha256>::new_from_slice(secret).unwrap();
    m.update(msg);
    hex_of(&m.finalize().into_bytes())
}

#[test]
fn webconnex_signature_accepts_valid() {
    let state = VerifySigState { hmac_secret: String::from("topsecret") };
    let body = b"{\"data\":{\"total\":\"10.00\"}}";
    let sig = mac_hex(b"topsecret", body);
    assert_eq!(membership::webconnex::auth::ver_sig(&state, Some(&sig), body), Ok(()));
}

#[test]
fn webconnex_signature_rejects_bad_or_missing() {
    let state = VerifySigState { hmac_secret: String::from("topsecret") };
    let body = b"{\"data\":{}}";
    assert_eq!(
        membership::webconnex::auth::ver_sig(&state, None, body),
        Err(AuthFailure::MissingHeader)
    );
    let wrong = mac_hex(b"othersecret", body);
    assert_eq!(
        membership::webconnex::auth::ver_sig(&state, Some(&wrong), body),
        Err(AuthFailure::BadSignature)
    );
    let tampered = mac_hex(b"topsecret", b"{\"data\":{\"total\":\"99.00\"}}");
    assert_eq!(
        membership::webconnex::auth::ver_sig(&state, Some(&tampered), body),
        Err(AuthFailure::BadSignature)
    );
    let not_hex = b"zz$$".to_vec();
    assert_eq!(
        membership::webconnex::auth::ver_sig(&state, Some(&not_hex), body),
        Err(AuthFailure::MalformedHeader)
    );
}

#[test]
fn webconnex_verify_route_matches_auth_route() {
    let state = membership::webconnex::verify::VerifySigState {
        hmac_secret: String::from("anotherkey"),
    };
    let body = b"payload-bytes";
    let sig = mac_hex(b"anotherkey", body);
    assert_eq!(membership::webconnex::verify::ver_sig(&state, Some(&sig), body), Ok(()));
    assert_eq!(
        membership::webconnex::verify::ver_sig(&state, None, body),
        Err(AuthFailure::MissingHeader)
    );
}

#[test]
fn donorbox_signature_covers_timestamp_and_body() {
    let secret = String::from("dbsecret");
    let body = b"[{\"action\":\"new\"}]";
    let mut msg = b"1700000000.".to_vec();
    msg.extend_from_slice(body);
    let mut header = b"1700000000,".to_vec();
    header.extend_from_slice(&mac_hex(b"dbsecret", &msg));
    assert_eq!(membership::donorbox::auth::ver_sig(&secret, Some(&header), body), Ok(()));

    // Same signature under a different timestamp must fail.
    let mut wrong_ts = b"1700000001,".to_vec();
    wrong_ts.extend_from_slice(&mac_hex(b"dbsecret", &msg));
    assert_eq!(
        membership::donorbox::auth::ver_sig(&secret, Some(&wrong_ts), body),
        Err(AuthFailure::BadSignature)
    );

    // A header without the comma separator is malformed.
    let no_comma = mac_hex(b"dbsecret", &msg);
    assert_eq!(
        membership::donorbox::auth::ver_sig(&secret, Some(&no_comma), body),
        Err(AuthFailure::MalformedHeader)
    );
    assert_eq!(
        membership::donorbox::auth::ver_sig(&secret, None, body),
        Err(AuthFailure::MissingHeader)
    );
}
