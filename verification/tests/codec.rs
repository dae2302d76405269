//! Token codec behaviour: round trips, tampering, expiry, key separation,
//! and byte-for-byte interoperability with the JWT ecosystem.
use canteen_core::bytes64::b64url_decode;
use canteen_core::bytes64::b64url_encode;
use canteen_core::claim::NomerClaim;
use canteen_core::jsontext::encode_i64;
use canteen_core::jsontext::json_escape;
use canteen_core::jsontext::json_unescape;
use canteen_core::jsontext::parse_i64;
use canteen_core::codec::sign;
use canteen_core::codec::verify;
use canteen_core::codec::verify_at;

use hmac::Hmac;
use hmac::Mac;
use jwt::VerifyWithKey;
use sha2::Sha256;
use std::collections::BTreeMap;

fn claim(sub: &str, iat: i64, exp: i64, acc: bool) -> NomerClaim {
    NomerClaim {
        sub: sub.to_string(),
        exp,
        iat,
        acc,
    }
}

#[test]
fn round_trip_signed_claim() {
    let key = b"round-trip-key";
    let c = claim("alice@example.com", 1_700_000_000, 1_700_003_600, true);
    let token = sign(&c, key);
    let back = verify_at(&token, key, 1_700_000_100).expect("fresh token must verify");
    assert_eq!(back.sub, "alice@example.com");
    assert_eq!(back.iat, 1_700_000_000);
    assert_eq!(back.exp, 1_700_003_600);
    assert!(back.acc);
}

#[test]
fn round_trip_awkward_subject() {
    let key = b"k";
    let c = claim("weird \"sub\"\\ with\ncontrol\u{1} and unicode 美食", -5, 9_000_000_000_000, false);
    let token = sign(&c, key);
    let back = verify_at(&token, key, 8_999_999_999_999).expect("token must verify");
    assert_eq!(back.sub, c.sub);
    assert_eq!(back.iat, -5);
    assert_eq!(back.exp, 9_000_000_000_000);
    assert!(!back.acc);
}

#[test]
fn clocked_verify_accepts_fresh_tokens() {
    let key = b"clock-key";
    let c = NomerClaim::make("fresh@x.com".to_string(), 3600, true);
    let token = sign(&c, key);
    let back = verify(&token, key).expect("a token with an hour to live verifies now");
    assert_eq!(back.sub, "fresh@x.com");

    let stale = claim("stale@x.com", 1_000, 2_000, true);
    assert!(verify(&sign(&stale, key), key).is_none());
}

#[test]
fn round_trip_extreme_timestamps() {
    let key = b"extreme-key";
    let c = claim("edge", i64::MIN, i64::MAX, true);
    let token = sign(&c, key);
    let back = verify_at(&token, key, i64::MAX - 1).expect("token must verify");
    assert_eq!(back.iat, i64::MIN);
    assert_eq!(back.exp, i64::MAX);
    assert!(verify_at(&token, key, i64::MAX).is_none());
}

#[test]
fn verify_rejects_other_key() {
    let c = claim("bob", 1_000, 2_000_000_000, true);
    let token = sign(&c, b"key-one");
    assert!(verify_at(&token, b"key-two", 1_000).is_none());
    assert!(verify_at(&token, b"key-one", 1_000).is_some());
}

#[test]
fn verify_rejects_tampering() {
    let c = claim("carol", 1_000, 2_000_000_000, false);
    let key = b"tamper-key";
    let token = sign(&c, key);
    for i in 0..token.len() {
        let mut forged = token.clone();
        forged[i] = if forged[i] == b'A' { b'B' } else { b'A' };
        assert!(verify_at(&forged, key, 1_000).is_none(), "byte {} flip accepted", i);
    }
    let mut truncated = token.clone();
    truncated.pop();
    assert!(verify_at(&truncated, key, 1_000).is_none());
}

#[test]
fn verify_rejects_expired() {
    let c = claim("dave", 1_000, 5_000, true);
    let key = b"expiry-key";
    let token = sign(&c, key);
    assert!(verify_at(&token, key, 4_999).is_some());
    assert!(verify_at(&token, key, 5_000).is_none(), "expiry second itself is rejected");
    assert!(verify_at(&token, key, 6_000).is_none());
}

#[test]
fn verify_rejects_garbage() {
    let key = b"any";
    assert!(verify_at(b"", key, 0).is_none());
    assert!(verify_at(b"not-a-token", key, 0).is_none());
    assert!(verify_at(b"a.b.c", key, 0).is_none());
    assert!(verify_at(b"..", key, 0).is_none());
}

#[test]
fn signed_tokens_verify_under_jwt_crate() {
    let key_bytes = b"interop-key";
    let c = claim("alice@example.com", 1_700_000_000, 1_700_003_600, true);
    let token = String::from_utf8(sign(&c, key_bytes)).expect("tokens are ASCII");
    let hmac_key: Hmac<Sha256> = Hmac::new_from_slice(key_bytes).unwrap();
    let parsed: BTreeMap<String, serde_json::Value> =
        token.as_str().verify_with_key(&hmac_key).expect("jwt crate must accept the signature");
    assert_eq!(parsed["sub"], serde_json::Value::String("alice@example.com".to_string()));
    assert_eq!(parsed["iat"], serde_json::Value::from(1_700_000_000i64));
    assert_eq!(parsed["exp"], serde_json::Value::from(1_700_003_600i64));
    assert_eq!(parsed["acc"], serde_json::Value::Bool(true));
}

#[test]
fn hand_built_token_verifies() {
    let key = b"hand-key";
    let header = base64::encode_config(b"{\"alg\":\"HS256\"}", base64::URL_SAFE_NO_PAD);
    let payload_json = "{\"sub\":\"bob\",\"exp\":2000000000,\"iat\":1000000000,\"acc\":false}";
    let payload = base64::encode_config(payload_json.as_bytes(), base64::URL_SAFE_NO_PAD);
    let signing_input = format!("{}.{}", header, payload);
    let mut mac = Hmac::<Sha256>::new_from_slice(key).unwrap();
    mac.update(signing_input.as_bytes());
    let tag = base64::encode_config(&mac.finalize().into_bytes(), base64::URL_SAFE_NO_PAD);
    let token = format!("{}.{}", signing_input, tag);
    let c = verify_at(token.as_bytes(), key, 1_999_999_999).expect("hand-built token must verify");
    assert_eq!(c.sub, "bob");
    assert_eq!(c.iat, 1_000_000_000);
    assert_eq!(c.exp, 2_000_000_000);
    assert!(!c.acc);
}

#[test]
fn decimal_text_round_trips() {
    for n in [0i64, 7, -7, 42, -1000, i64::MAX, i64::MIN] {
        let mut out: Vec<u8> = Vec::new();
        encode_i64(&mut out, n);
        let mut with_rest = out.clone();
        with_rest.push(b',');
        let (value, pos) = parse_i64(&with_rest, 0).expect("canonical text parses");
        assert_eq!(value, n);
        assert_eq!(pos, out.len());
    }
    assert_eq!(String::from_utf8({
        let mut out = Vec::new();
        encode_i64(&mut out, -42);
        out
    }).unwrap(), "-42");
    assert!(parse_i64(b"", 0).is_none());
    assert!(parse_i64(b"-", 0).is_none());
    assert!(parse_i64(b"x1", 0).is_none());
    assert!(parse_i64(b"99999999999999999999999999", 0).is_none());
}

#[test]
fn string_escaping_round_trips() {
    let subjects: Vec<&[u8]> = vec![
        b"plain",
        b"with \"quote\" and back\\slash",
        b"tab\tnewline\ncontrol\x01\x1f",
        "unicode 美食".as_bytes(),
        b"",
    ];
    for subject in subjects {
        let mut escaped: Vec<u8> = Vec::new();
        json_escape(&mut escaped, subject);
        escaped.push(b'"');
        escaped.extend_from_slice(b"rest");
        let (content, pos) = json_unescape(&escaped, 0).expect("own escaping unescapes");
        assert_eq!(content, subject);
        assert_eq!(pos, escaped.len() - 4);
    }
    let mut low: Vec<u8> = Vec::new();
    json_escape(&mut low, &[0x01u8]);
    assert_eq!(low, b"\\u0001");
    assert!(json_unescape(b"no closing quote", 0).is_none());
    assert!(json_unescape(b"\\q\"", 0).is_none());
}

#[test]
fn base64_matches_reference_implementation() {
    let samples: Vec<Vec<u8>> = vec![
        vec![],
        vec![0],
        vec![255],
        vec![0, 1],
        vec![250, 251, 252],
        vec![1, 2, 3, 4],
        vec![9, 8, 7, 6, 5],
        (0u8..=255).collect(),
    ];
    for bytes in samples {
        let ours = b64url_encode(&bytes);
        let reference = base64::encode_config(&bytes, base64::URL_SAFE_NO_PAD);
        assert_eq!(ours, reference.as_bytes());
        let decoded = b64url_decode(&ours).expect("own encoding must decode");
        assert_eq!(decoded, bytes);
    }
    assert!(b64url_decode(b"a").is_none());
    assert!(b64url_decode(b"a.b").is_none());
}
