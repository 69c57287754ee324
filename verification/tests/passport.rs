use relintio_agent::clock::Moment;
use relintio_agent::passport::{
    accept_payload, authenticate, clamp_ttl, constant_time_eq, mint_passport, mint_until, now_or,
    passport_binding, sign_request, signing_headers, signing_headers_at, token_parts,
    verify_passport, write_signing_base, write_token, PassportPayload, CLOCK_SKEW_SECONDS, PASSPORT_COOKIE,
};

const KEY: &str = "lk_test_0123456789abcdef";
const UA: &str = "Mozilla/5.0 (X11; Linux x86_64)";
const LANG: &str = "en-GB,en;q=0.9";
const NOW: i64 = 1785120000;

fn decode(raw: &[u8]) -> Option<PassportPayload> {
    let doc: serde_json::Value = serde_json::from_slice(raw).ok()?;
    let fields = doc.as_object()?;
    Some(PassportPayload {
        v: fields.get("v").map_or(Some(0), |v| v.as_i64())?,
        exp: fields.get("exp").map_or(Some(0), |v| v.as_i64())?,
        b: fields.get("b").map_or(Some(""), |v| v.as_str())?.to_string(),
        ttl: fields.get("ttl").and_then(|v| v.as_i64()),
        jti: fields.get("jti").and_then(|v| v.as_str()).map(str::to_string),
    })
}

fn payload(exp: i64, b: &str) -> PassportPayload {
    PassportPayload { v: 2, exp, b: b.to_string(), ttl: None, jti: None }
}

#[test]
fn binding_matches_vectors() {
    assert_eq!(passport_binding(KEY, UA, LANG), "97f590e7ffe7dc20");
    assert_eq!(passport_binding(KEY, "", ""), "574816a064e993c8");
    assert!(passport_binding("", "", "").bytes().all(|b| b.is_ascii_digit() || (b'a'..=b'f').contains(&b)));
    assert_eq!(passport_binding(KEY, "Bot \u{2603}", "de"), "b0dd69524cd5d9d6");
}

#[test]
fn binding_uses_the_raw_values() {
    assert_ne!(passport_binding(KEY, UA, LANG), passport_binding(KEY, &UA.to_lowercase(), LANG));
    assert_ne!(passport_binding(KEY, UA, LANG), passport_binding(KEY, &format!("{UA} "), LANG));
}

#[test]
fn mint_matches_vectors() {
    assert_eq!(
        mint_passport(3600, KEY, UA, LANG, Some(NOW)),
        "v2.eyJ2IjoyLCJleHAiOjE3ODUxMjM2MDAsImIiOiI5N2Y1OTBlN2ZmZTdkYzIwIn0.\
         93G6x_3R6m5dnX1Fo-MOz1ppKJOrBPrMPAj2KaSsiUU"
    );
    assert_eq!(mint_passport(3600, KEY, UA, LANG, Some(NOW)), mint_until(NOW + 3600, KEY, UA, LANG));
}

#[test]
fn verify_matches_vectors() {
    let with_ttl = "v2.eyJ2IjoyLCJleHAiOjE3ODUxMjAzMDAsImIiOiI5N2Y1OTBlN2ZmZTdkYzIwIiwidHRsIjozNjAwLCJqdGkiOiJhYmMifQ.qNS8Ml9trZyd4efBPTPtXOjkSlRLJH64tU-vhVB9_sc";
    let forged = "v2.eyJ2IjoyLCJleHAiOjE3ODUxMjAzMDAsImIiOiI5N2Y1OTBlN2ZmZTdkYzIwIiwidHRsIjozNjAwLCJqdGkiOiJhYmMifQ.og7BtRBdfIy9iiarm831cbly1WklJEPjHNfDiq_qTIo";
    let expired = "v2.eyJ2IjoyLCJleHAiOjE3ODUxMTk5MzksImIiOiI5N2Y1OTBlN2ZmZTdkYzIwIn0.zrvLKEMmFJ1Zx6axXdx0cfeXk3wFIFzpVJpTRtZ_65E";
    let within_skew = "v2.eyJ2IjoyLCJleHAiOjE3ODUxMTk5NDAsImIiOiI5N2Y1OTBlN2ZmZTdkYzIwIn0.ThBAZdPcH2pLGfCQ9BIjsNpKHI-sgdZaaQJgZ5yZTD8";
    let not_json = "v2.aGVsbG8.HN4VBTUTnVOvDsedIP_u4hL9s_ramSteVKQN4zNmwtQ";
    let latest_expiry = "v2.eyJ2IjoyLCJleHAiOjkyMjMzNzIwMzY4NTQ3NzU4MDcsImIiOiI5N2Y1OTBlN2ZmZTdkYzIwIn0.UBvvFooi1q-wTg_rUpt4GhRBgqzkttcdb3MzilWFh8A";
    let empty_body = "v2..BEQtmMpv1LqX8wFuKz7sL45VLo9j0KFIKRYUDTsgfSE";
    for (name, token, valid) in [
        ("with ttl", with_ttl, true),
        ("forged", forged, false),
        ("expired", expired, false),
        ("within the skew", within_skew, true),
        ("not json", not_json, false),
        ("the latest expiry", latest_expiry, true),
        ("empty body", empty_body, false),
        ("empty", "", false),
        ("other version", &with_ttl.replacen("v2.", "v1.", 1), false),
        ("two parts", "v2.aGVsbG8", false),
        ("four parts", &format!("{with_ttl}.x"), false),
        ("padded", &format!("{with_ttl}="), false),
        ("no signature", "v2.aGVsbG8.", false),
    ] {
        let got = verify_passport(token, KEY, UA, LANG, Some(NOW), &decode);
        assert_eq!(got.is_some(), valid, "vector: {name}");
    }
    let read = verify_passport(with_ttl, KEY, UA, LANG, Some(NOW), &decode).unwrap();
    assert_eq!(read.ttl, Some(3600));
    assert_eq!(read.jti.as_deref(), Some("abc"));
    assert_eq!(read.exp, NOW + 300);
    assert_eq!(read.v, 2);
}

#[test]
fn signing_matches_vectors() {
    assert_eq!(
        sign_request(br#"{"a":1}"#, KEY, NOW, "nonce-0123456789abcdef"),
        "1f8c0b3e1b9df8dfd4f5f95181d0d3a016ef6d57365e51112a8826667792ef99"
    );
}

#[test]
fn round_trip_is_bound_to_the_client() {
    let minted = mint_passport(3600, KEY, UA, LANG, None);
    assert!(verify_passport(&minted, KEY, UA, LANG, None, &decode).is_some());
    assert!(verify_passport(&minted, KEY, "curl/8.4.0", LANG, None, &decode).is_none());
}

#[test]
fn a_passport_ends_a_minute_after_it_expires() {
    let minted = mint_passport(3600, KEY, UA, LANG, Some(NOW));
    let last = NOW + 3600 + CLOCK_SKEW_SECONDS;
    assert!(verify_passport(&minted, KEY, UA, LANG, Some(last), &decode).is_some());
    assert!(verify_passport(&minted, KEY, UA, LANG, Some(last + 1), &decode).is_none());
    assert!(verify_passport(&minted, "another key", UA, LANG, Some(NOW), &decode).is_none());
}

#[test]
fn ttl_is_clamped() {
    assert_eq!(clamp_ttl(10), 300);
    assert_eq!(clamp_ttl(99_999_999), 604_800);
    assert_eq!(clamp_ttl(86_400), 86_400);
    assert_eq!(clamp_ttl(0), 86_400);
}

#[test]
fn clamping_twice_changes_nothing() {
    for ttl in [i64::MIN, -1, 0, 1, 299, 300, 301, 604_799, 604_800, 604_801, i64::MAX] {
        assert_eq!(clamp_ttl(clamp_ttl(ttl)), clamp_ttl(ttl));
    }
    assert_eq!(clamp_ttl(-5), 86_400);
}

#[test]
fn signing_headers_are_fresh_each_call() {
    let first = signing_headers(br#"{"a":1}"#, KEY);
    let second = signing_headers(br#"{"a":2}"#, KEY);
    let nonce = |h: &Vec<(String, String)>| {
        h.iter().find(|(k, _)| k == "X-Relintio-Nonce").unwrap().1.clone()
    };
    assert_ne!(nonce(&first), nonce(&second));
    assert!(first
        .iter()
        .any(|(k, val)| k == "X-Relintio-Signature" && val.starts_with("v1=") && val.len() == 67));
}

#[test]
fn signing_headers_follow_the_clock() {
    let at = Moment { since_epoch: Some((1785120000, 123456789)) };
    let headers = signing_headers_at(br#"{"a":1}"#, KEY, &at);
    assert_eq!(
        headers,
        vec![
            ("X-Relintio-Timestamp".to_string(), "1785120000".to_string()),
            ("X-Relintio-Nonce".to_string(), "ef351334a7ce9a780ecbeaa3".to_string()),
            (
                "X-Relintio-Signature".to_string(),
                "v1=551b5f1abf3e5dedf2ecf42702fa59f5e8802215b100266349a6194e83a5a8f9".to_string()
            ),
        ]
    );
}

#[test]
fn comparison_looks_at_every_byte() {
    assert!(constant_time_eq(b"", b""));
    assert!(constant_time_eq(b"same", b"same"));
    assert!(!constant_time_eq(b"same", b"sane"));
    assert!(!constant_time_eq(b"same", b"samf"));
    assert!(!constant_time_eq(b"same", b"sam"));
}

#[test]
fn a_token_carries_what_was_signed() {
    let minted = mint_until(NOW, KEY, UA, LANG);
    let raw = authenticate(&minted, KEY).expect("signed with this key");
    assert_eq!(raw, br#"{"v":2,"exp":1785120000,"b":"97f590e7ffe7dc20"}"#);
    assert!(authenticate(&minted, "another key").is_none());
    assert!(authenticate(&minted[3..], KEY).is_none());
}

#[test]
fn a_negative_expiry_is_written_with_its_sign() {
    let raw = authenticate(&mint_until(-7, KEY, UA, LANG), KEY).unwrap();
    assert_eq!(raw, br#"{"v":2,"exp":-7,"b":"97f590e7ffe7dc20"}"#);
}

#[test]
fn a_payload_holds_for_its_client_only() {
    assert!(accept_payload(payload(NOW, "abc"), "abc", NOW + 60).is_some());
    assert!(accept_payload(payload(NOW, "abc"), "abc", NOW + 61).is_none());
    assert!(accept_payload(payload(NOW, "abc"), "abd", NOW).is_none());
    assert!(accept_payload(payload(i64::MAX, "abc"), "abc", i64::MAX).is_some());
    assert!(accept_payload(payload(i64::MIN, "abc"), "abc", i64::MIN + 60).is_some());
    assert!(accept_payload(payload(i64::MIN, "abc"), "abc", i64::MIN + 61).is_none());
    assert!(accept_payload(payload(i64::MAX - 60, "abc"), "abc", NOW).is_some());
}

#[test]
fn a_given_time_is_used() {
    assert_eq!(now_or(Some(7)), 7);
    assert!(now_or(None) > 1_600_000_000);
    assert_eq!(PASSPORT_COOKIE, "relintio_passport");
}

#[test]
fn a_token_is_put_together_and_taken_apart() {
    assert_eq!(write_token(b"hello", b"\xff\xfe"), "v2.aGVsbG8.__4");
    assert_eq!(token_parts("v2.aGVsbG8.__4"), Some((b"hello".to_vec(), b"\xff\xfe".to_vec())));
    assert_eq!(token_parts("v2.."), Some((vec![], vec![])));
    for value in ["", "v2.", "v2.aGVsbG8", "v1.aGVsbG8.__4", "v2.aGVsbG9.__4", "v2.a.b", "v2.aGVsbG8.//4"] {
        assert_eq!(token_parts(value), None, "{value}");
    }
}

#[test]
fn a_signature_covers_time_nonce_and_digest() {
    assert_eq!(write_signing_base(&[0, 10, 255], -5, "n"), "v1:-5:n:000aff");
}

#[test]
fn a_passport_can_expire_as_late_as_time_goes() {
    let minted = mint_passport(i64::MAX, KEY, UA, LANG, Some(0));
    let read = verify_passport(&minted, KEY, UA, LANG, Some(0), &decode).expect("not expired");
    assert_eq!(read.exp, i64::MAX);
}

#[test]
fn a_minted_payload_comes_back_as_it_was() {
    let minted = mint_passport(3600, KEY, UA, LANG, Some(NOW));
    let read = verify_passport(&minted, KEY, UA, LANG, Some(NOW), &decode).unwrap();
    assert_eq!((read.v, read.exp, read.b.as_str()), (2, NOW + 3600, "97f590e7ffe7dc20"));
    assert_eq!((read.ttl, read.jti), (None, None));
}

#[test]
fn another_licence_does_not_take_a_passport() {
    let minted = mint_passport(3600, KEY, UA, LANG, Some(NOW));
    for now in [Some(NOW), Some(0), Some(i64::MAX), None] {
        assert!(verify_passport(&minted, "another key", UA, LANG, now, &decode).is_none());
        assert!(verify_passport(&minted, "another key", "curl/8.4.0", "fr", now, &decode).is_none());
    }
}

#[test]
fn nonces_follow_the_clock_and_the_body() {
    let nonce = |body: &[u8], nanos: u32| {
        let at = Moment { since_epoch: Some((1785120000, nanos)) };
        signing_headers_at(body, KEY, &at)[1].1.clone()
    };
    assert_ne!(nonce(b"a", 1), nonce(b"a", 2));
    assert_ne!(nonce(b"a", 1), nonce(b"b", 1));
    assert_eq!(nonce(b"a", 1), nonce(b"a", 1));
}
