use relintio_agent::agent::{Decision, RelintioAgent, RelintioConfig};
use relintio_agent::middleware::{
    collect_headers, course, exchange, grant, is_html, is_human, presented_cookies, refuse,
    resolve_domain, resolve_ip, respond, screen, up_token, Arrival, Course, Reaction, Screening,
};
use relintio_agent::passport::{mint_passport, verify_passport, PassportPayload};

const KEY: &str = "lk_test_0123456789abcdef";
const UA: &str = "Mozilla/5.0 (X11; Linux x86_64)";
const LANG: &str = "en-GB,en;q=0.9";
const NOW: i64 = 1785120000;

fn decode(raw: &[u8]) -> Option<PassportPayload> {
    let doc: serde_json::Value = serde_json::from_slice(raw).ok()?;
    Some(PassportPayload {
        v: doc.get("v")?.as_i64()?,
        exp: doc.get("exp")?.as_i64()?,
        b: doc.get("b")?.as_str()?.to_string(),
        ttl: doc.get("ttl").and_then(|v| v.as_i64()),
        jti: None,
    })
}

fn canonical(text: &str) -> Option<String> {
    match text {
        "198.51.100.7" | "203.0.113.9" | "::1" => Some(text.to_string()),
        "0::1" => Some("::1".to_string()),
        _ => None,
    }
}

fn agent() -> RelintioAgent {
    RelintioAgent::new(RelintioConfig {
        license_key: KEY.to_string(),
        api_url: "https://api.relintio.com/v1".to_string(),
        sync_interval_seconds: 10,
    })
}

fn arrival(fields: &[(&str, Option<&str>)], query: Option<&str>) -> Arrival {
    Arrival {
        fields: fields.iter().map(|(k, v)| (k.to_string(), v.map(str::to_string))).collect(),
        uri_host: None,
        path: "/account".to_string(),
        query: query.map(str::to_string),
        method: "GET".to_string(),
        peer: None,
    }
}

fn browser() -> Vec<(&'static str, Option<&'static str>)> {
    vec![("user-agent", Some(UA)), ("accept-language", Some(LANG)), ("host", Some("shop.example"))]
}

#[test]
fn the_host_field_names_the_domain() {
    let mut a = arrival(&[("host", Some("shop.example:8443"))], None);
    a.uri_host = Some("other.example".to_string());
    assert_eq!(resolve_domain(&a), "shop.example:8443");
    a.fields = vec![("host".to_string(), None)];
    assert_eq!(resolve_domain(&a), "other.example");
    a.fields.clear();
    a.uri_host = None;
    assert_eq!(resolve_domain(&a), "localhost");
}

#[test]
fn the_client_is_found_behind_proxies() {
    let of = |fields: &[(&str, Option<&str>)], peer: Option<&str>| {
        let mut a = arrival(fields, None);
        a.peer = peer.map(str::to_string);
        resolve_ip(&a, &canonical)
    };
    assert_eq!(of(&[("x-forwarded-for", Some(" 198.51.100.7 , 10.0.0.1"))], Some("::1")), "198.51.100.7");
    assert_eq!(of(&[("x-forwarded-for", Some("198.51.100.7:4711"))], None), "198.51.100.7");
    assert_eq!(of(&[("X-Forwarded-For", Some("unknown, x"))], None), "unknown");
    assert_eq!(
        of(&[("x-forwarded-for", None), ("x-real-ip", Some("203.0.113.9"))], Some("::1")),
        "127.0.0.1"
    );
    assert_eq!(of(&[("x-real-ip", Some("[0::1]:80"))], Some("203.0.113.9")), "::1");
    assert_eq!(of(&[("x-real-ip", None)], Some("203.0.113.9")), "127.0.0.1");
    assert_eq!(of(&[], Some("203.0.113.9")), "203.0.113.9");
    assert_eq!(of(&[], None), "127.0.0.1");
}

#[test]
fn headers_are_collected_in_lower_case() {
    let a = arrival(&[("X-One", Some("1")), ("x-two", None), ("x-one", Some("2"))], None);
    let headers = collect_headers(&a.fields);
    assert_eq!(headers.get("x-one"), Some("2"));
    assert_eq!(headers.get("x-two"), None);
    assert_eq!(headers.len(), 1);
}

#[test]
fn the_last_well_formed_token_counts() {
    assert_eq!(up_token(None), None);
    assert_eq!(up_token(Some("")), None);
    assert_eq!(up_token(Some("up_token=a")).as_deref(), Some("a"));
    assert_eq!(up_token(Some("x=1&up_token=a&up_token=b&y=2")).as_deref(), Some("b"));
    assert_eq!(up_token(Some("up_token=a&up_token=b=c")).as_deref(), Some("b=c"));
    assert_eq!(up_token(Some("up_token=abc=")).as_deref(), Some("abc="));
    assert_eq!(up_token(Some("x=up_token=a")), None);
    assert_eq!(up_token(Some("up_token")), None);
    assert_eq!(up_token(Some("up_token=")).as_deref(), Some(""));
    assert_eq!(up_token(Some("Up_token=a")), None);
    assert_eq!(up_token(Some("up_token=%41")).as_deref(), Some("%41"));
}

#[test]
fn cookies_are_taken_apart() {
    let of = |text: &str| presented_cookies(&arrival(&[("cookie", Some(text))], None).fields);
    let pair = |a: &str, b: &str| (a.to_string(), b.to_string());
    assert_eq!(of("a=1; b = 2 ;; =x; c; d=e=f; "), vec![pair("a", "1"), pair("b", "2"), pair("d", "e=f")]);
    assert_eq!(of("a=%41; b=\"q\""), vec![pair("a", "%41"), pair("b", "\"q\"")]);
    assert_eq!(of(""), vec![]);
    assert_eq!(of("a="), vec![pair("a", "")]);
    assert!(presented_cookies(&arrival(&[("cookie", None)], None).fields).is_empty());
    let two = arrival(&[("cookie", Some("a=1")), ("cookie", Some("b=2"))], None);
    assert_eq!(presented_cookies(&two.fields), vec![pair("a", "1")]);
}

#[test]
fn a_valid_token_is_exchanged_for_a_passport() {
    let token = mint_passport(600, KEY, UA, LANG, Some(NOW));
    let query = format!("a=b&up_token={token}");
    match screen(&agent(), &arrival(&browser(), Some(&query)), &vec![], Some(NOW), &decode, &canonical) {
        Screening::Granted { location, passport, max_age } => {
            assert_eq!(location, "/account");
            assert_eq!(max_age, 86_400);
            assert_eq!(passport, mint_passport(86_400, KEY, UA, LANG, Some(NOW)));
            let answer = grant(location, &passport, max_age);
            assert_eq!(answer.status, 302);
            assert_eq!(answer.location.as_deref(), Some("/account"));
            assert_eq!(answer.body, "");
            assert_eq!(
                answer.set_cookie.unwrap(),
                format!("relintio_passport={passport}; HttpOnly; Path=/; Max-Age=86400")
            );
        }
        other => panic!("{other:?}"),
    }
}

#[test]
fn an_escaped_token_is_decoded_first() {
    let token = mint_passport(600, KEY, UA, LANG, Some(NOW)).replace('.', "%2E");
    let query = format!("up_token={token}");
    let got = screen(&agent(), &arrival(&browser(), Some(&query)), &vec![], Some(NOW), &decode, &canonical);
    assert!(matches!(got, Screening::Granted { .. }), "{got:?}");
    let broken = arrival(&browser(), Some("up_token=%FF%zz"));
    let got = screen(&agent(), &broken, &vec![], Some(NOW), &decode, &canonical);
    assert!(matches!(got, Screening::InvalidToken), "{got:?}");
}

#[test]
fn the_life_that_a_token_asks_for_is_kept_within_bounds() {
    let asking = |ttl: i64| {
        move |raw: &[u8]| decode(raw).map(|p| PassportPayload { ttl: Some(ttl), ..p })
    };
    let token = mint_passport(600, KEY, UA, LANG, Some(NOW));
    for (ttl, kept) in [(3600, 3600), (10, 300), (i64::MAX, 604_800), (-1, 86_400)] {
        match exchange(&agent(), &token, "/p", UA, LANG, Some(NOW), &asking(ttl)) {
            Screening::Granted { max_age, .. } => assert_eq!(max_age, kept),
            other => panic!("{other:?}"),
        }
    }
}

#[test]
fn an_invalid_token_is_refused_even_with_a_passport() {
    let passport = mint_passport(600, KEY, UA, LANG, Some(NOW));
    let cookies = vec![("relintio_passport".to_string(), passport)];
    let extended = format!("up_token={}=", cookies[0].1);
    for query in
        ["up_token=", "up_token=v2.a.b", "up_token=verified", "up_token=abc=", "a=1&up_token==&b=2", &extended]
    {
        let got = screen(&agent(), &arrival(&browser(), Some(query)), &cookies, Some(NOW), &decode, &canonical);
        assert!(matches!(got, Screening::InvalidToken), "{query}: {got:?}");
    }
    let answer = refuse();
    assert_eq!(answer.status, 403);
    assert_eq!(answer.content_type, Some("text/plain"));
    assert_eq!(answer.body, "Invalid Token");
}

#[test]
fn a_passport_passes_its_visitor_and_no_other() {
    let passport = mint_passport(600, KEY, UA, LANG, Some(NOW));
    let cookies = vec![
        ("relintio_passport".to_string(), "stale".to_string()),
        ("other".to_string(), passport.clone()),
        ("relintio_passport".to_string(), passport.clone()),
    ];
    let known = arrival(&browser(), None);
    let got = screen(&agent(), &known, &cookies, Some(NOW + 660), &decode, &canonical);
    assert!(matches!(got, Screening::Human), "{got:?}");
    let got = screen(&agent(), &known, &cookies, Some(NOW + 661), &decode, &canonical);
    assert!(matches!(got, Screening::Unknown(_)), "{got:?}");
    let got = screen(&agent(), &known, &cookies[..2].to_vec(), Some(NOW), &decode, &canonical);
    assert!(matches!(got, Screening::Unknown(_)), "{got:?}");
    assert!(!is_human(&agent(), &cookies, "curl/8.4.0", LANG, Some(NOW), &decode));
    assert!(is_human(&agent(), &cookies, UA, LANG, Some(NOW), &decode));
}

#[test]
fn a_passport_by_the_clock() {
    let passport = agent().mint_passport(600, UA, LANG);
    assert!(agent().verify_passport(&passport, UA, LANG, &decode).is_some());
    assert!(agent().verify_passport(&passport, UA, "fr", &decode).is_none());
    assert!(verify_passport(&passport, KEY, UA, LANG, None, &decode).is_some());
    let cookies = vec![("relintio_passport".to_string(), passport)];
    let got = screen(&agent(), &arrival(&browser(), None), &cookies, None, &decode, &canonical);
    assert!(matches!(got, Screening::Human), "{got:?}");
}

#[test]
fn an_unknown_visitor_is_handed_on_to_be_scored() {
    let mut fields = browser();
    fields.push(("x-real-ip", Some("203.0.113.9")));
    let mut a = arrival(&fields, Some("page=2"));
    a.method = "POST".to_string();
    match screen(&agent(), &a, &vec![], None, &decode, &canonical) {
        Screening::Unknown(visit) => {
            assert_eq!(visit.ip, "203.0.113.9");
            assert_eq!(visit.user_agent.as_deref(), Some(UA));
            assert_eq!(visit.headers.get("accept-language"), Some(LANG));
            assert_eq!(visit.method, "POST");
            assert_eq!(visit.path, "/account");
            assert_eq!(visit.domain, "shop.example");
        }
        other => panic!("{other:?}"),
    }
    match screen(&agent(), &arrival(&[], None), &vec![], None, &decode, &canonical) {
        Screening::Unknown(visit) => assert!(visit.user_agent.is_none()),
        other => panic!("{other:?}"),
    }
}

#[test]
fn decisions_are_answered() {
    assert!(matches!(respond(Decision::Allow), Reaction::Forward { delay_seconds: 0, inject: true }));
    assert!(matches!(respond(Decision::Slow), Reaction::Forward { delay_seconds: 2, inject: false }));
    let answer = |decision| match respond(decision) {
        Reaction::Respond(answer) => answer,
        other => panic!("{other:?}"),
    };
    let challenge = answer(Decision::Challenge { redirect_url: "https://x/y".to_string() });
    assert_eq!((challenge.status, challenge.location.as_deref()), (302, Some("https://x/y")));
    assert_eq!((challenge.set_cookie, challenge.content_type, challenge.body), (None, None, ""));
    let decoy = answer(Decision::Decoy);
    assert_eq!((decoy.status, decoy.content_type), (200, Some("text/html")));
    assert_eq!(decoy.body, RelintioAgent::decoy_html());
    let block = answer(Decision::Block);
    assert_eq!((block.status, block.content_type), (403, Some("text/html")));
    assert_eq!(block.body, RelintioAgent::block_html());
    assert_eq!(block.location, None);
}

#[test]
fn pages_are_told_by_their_content_type() {
    assert!(is_html(Some("text/html; charset=utf-8")));
    assert!(!is_html(Some("application/json")));
    assert!(!is_html(Some("Text/HTML")));
    assert!(!is_html(None));
}

#[test]
fn a_passport_comes_back_as_it_was_set() {
    let passport = mint_passport(600, KEY, UA, LANG, Some(NOW));
    let text = format!("relintio_passport={passport}");
    let found = presented_cookies(&arrival(&[("cookie", Some(&text))], None).fields);
    assert_eq!(found, vec![("relintio_passport".to_string(), passport)]);
}

#[test]
fn a_screened_request_takes_its_course() {
    let granted = Screening::Granted {
        location: "/p".to_string(),
        passport: "v2.a.b".to_string(),
        max_age: 300,
    };
    match course(granted) {
        Course::React(Reaction::Respond(answer)) => {
            assert_eq!((answer.status, answer.location.as_deref(), answer.body), (302, Some("/p"), ""));
            assert_eq!(
                answer.set_cookie.as_deref(),
                Some("relintio_passport=v2.a.b; HttpOnly; Path=/; Max-Age=300")
            );
        }
        other => panic!("{other:?}"),
    }
    match course(Screening::InvalidToken) {
        Course::React(Reaction::Respond(answer)) => {
            assert_eq!((answer.status, answer.body), (403, "Invalid Token"));
        }
        other => panic!("{other:?}"),
    }
    assert!(matches!(
        course(Screening::Human),
        Course::React(Reaction::Forward { delay_seconds: 0, inject: false })
    ));
    let unknown = screen(&agent(), &arrival(&browser(), None), &vec![], None, &decode, &canonical);
    match course(unknown) {
        Course::Ask(visit) => assert_eq!(visit.path, "/account"),
        other => panic!("{other:?}"),
    }
}
