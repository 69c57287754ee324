use hmac::Mac;
use relintio_agent::agent::{
    accepts_policy, cache_file_name, decide_challenge, decide_score, mirror_name, threshold,
    Decision, Event, RelintioAgent, RelintioConfig, Step, Visit,
};
use relintio_agent::challenge::ChallengeOutcome;
use relintio_agent::clock::Moment;
use relintio_agent::headers::Headers;
use relintio_agent::json::Json;
use relintio_agent::outbound::OutboundRequest;
use sha2::Digest;

fn convert(doc: &serde_json::Value) -> Json {
    match doc {
        serde_json::Value::Null => Json::Null,
        serde_json::Value::Bool(b) => Json::Bool(*b),
        serde_json::Value::Number(n) => match n.as_u64() {
            Some(n) => Json::Unsigned(n),
            None => Json::Number,
        },
        serde_json::Value::String(t) => Json::Text(t.clone()),
        serde_json::Value::Array(items) => Json::Array(items.iter().map(convert).collect()),
        serde_json::Value::Object(members) => {
            Json::Object(members.iter().map(|(k, v)| (k.clone(), convert(v))).collect())
        }
    }
}

fn json(text: &str) -> Json {
    convert(&serde_json::from_str(text).expect("well-formed"))
}

fn same_json(a: &Json, b: &Json) -> bool {
    format!("{a:?}") == format!("{b:?}")
}

fn agent_for(url: &str, license_key: &str) -> RelintioAgent {
    RelintioAgent::new(RelintioConfig {
        license_key: license_key.to_string(),
        api_url: url.to_string(),
        sync_interval_seconds: 10,
    })
}

fn at(seconds: u64) -> Moment {
    Moment { since_epoch: Some((seconds, 20)) }
}

fn header<'a>(request: &'a OutboundRequest, name: &str) -> &'a str {
    request
        .headers
        .iter()
        .find(|(key, _)| key.eq_ignore_ascii_case(name))
        .map(|(_, value)| value.as_str())
        .unwrap_or_default()
}

/// Mirrors the server's check in the order the server applies it.
fn assert_signed(request: &OutboundRequest, license_key: &str) {
    assert_eq!(header(request, "content-type"), "application/json");
    let signature = header(request, "x-relintio-signature");
    let provided = signature.strip_prefix("v1=").expect("a version");
    assert_eq!(provided.len(), 64);
    let timestamp = header(request, "x-relintio-timestamp");
    assert!(timestamp.parse::<i64>().is_ok());
    let nonce = header(request, "x-relintio-nonce");
    assert!((16..=128).contains(&nonce.len()));
    assert!(nonce.chars().all(|c| c.is_ascii_alphanumeric() || c == '_' || c == '-'));

    let mut hasher = sha2::Sha256::new();
    hasher.update(&request.body);
    let base = format!("v1:{timestamp}:{nonce}:{}", hex::encode(hasher.finalize()));
    let mut mac = hmac::Hmac::<sha2::Sha256>::new_from_slice(license_key.as_bytes()).unwrap();
    mac.update(base.as_bytes());
    assert_eq!(hex::encode(mac.finalize().into_bytes()), provided);
}

#[test]
fn refresh_rules_signs_what_it_sends() {
    let key = "sk_live_rust_refresh";
    let request = agent_for("http://127.0.0.1:9", key).refresh_request("example.com", &Moment::now());
    assert_signed(&request, key);
    assert_eq!(request.url, "http://127.0.0.1:9/agent/verify");
    let body = String::from_utf8(request.body).unwrap();
    assert!(body.contains("\"domain\":\"example.com\""));
    assert_eq!(
        body,
        "{\"agent_kind\":\"rust\",\"agent_version\":\"0.1.2\",\
         \"capabilities\":[\"custom_rules\",\"telemetry\"],\"domain\":\"example.com\",\
         \"license_key\":\"sk_live_rust_refresh\",\"protocol_version\":1}"
    );
}

#[test]
fn heartbeat_signs_what_it_sends() {
    let key = "sk_live_rust_heartbeat";
    let agent = agent_for("http://127.0.0.1:9/", key);
    assert_signed(&agent.send_heartbeat("example.com"), key);
    let request = agent.heartbeat_at("exam\"ple.com", &at(1785120000));
    assert_eq!(request.url, "http://127.0.0.1:9/agent/heartbeat");
    assert_eq!(request.timeout_seconds, 2);
    assert_eq!(
        String::from_utf8(request.body).unwrap(),
        "{\"agent_kind\":\"rust\",\"agent_version\":\"0.1.2\",\"domain\":\"exam\\\"ple.com\",\
         \"license_key\":\"sk_live_rust_heartbeat\",\"timestamp\":1785120000}"
    );
}

#[test]
fn challenge_init_signs_what_it_sends() {
    let key = "sk_live_rust_challenge";
    let agent = agent_for("http://127.0.0.1:9//", key);
    let request = agent.challenge_request("example.com", "/login", &Moment::now());
    assert_signed(&request, key);
    assert_eq!(request.url, "http://127.0.0.1:9/agent/challenge/init");
    assert_eq!(
        String::from_utf8(request.body).unwrap(),
        "{\"license_key\":\"sk_live_rust_challenge\",\"return_url\":\"https://example.com/login\"}"
    );
}

#[test]
fn each_call_carries_its_own_nonce() {
    let key = "sk_live_rust_nonce";
    let agent = agent_for("http://127.0.0.1:9", key);
    let first = agent.send_heartbeat("example.com");
    let second = agent.send_heartbeat("example.com");
    assert_ne!(header(&first, "x-relintio-nonce"), header(&second, "x-relintio-nonce"));
    assert_signed(&first, key);
    assert_signed(&second, key);
}

fn visit(user_agent: Option<&str>, headers: Headers, method: &str, path: &str) -> Visit {
    Visit {
        ip: "203.0.113.10".to_string(),
        user_agent: user_agent.map(str::to_string),
        headers,
        method: method.to_string(),
        path: path.to_string(),
        domain: "example.com".to_string(),
    }
}

/// Drives the decision path with a visitor who is scored into the challenge
/// band: a curl user agent, no `Accept` and a POST without a referer.
fn challenge_band_decision(key: &str, api_url: &str, sync: Option<&str>, reply: Option<&str>) -> Decision {
    let mut agent = agent_for(api_url, key);
    let suspect = visit(Some("curl/8.4.0"), Headers::new(), "POST", "/login");
    let step = agent.evaluate(&suspect, Event::Arrived, &at(100));
    assert!(matches!(step, Step::Sync(_)), "{step:?}");
    let step = agent.evaluate(&suspect, Event::Synced(sync.map(json)), &at(101));
    match step {
        Step::Challenge(request) => assert_signed(&request, key),
        other => panic!("{other:?}"),
    }
    match agent.evaluate(&suspect, Event::Challenged(reply.map(json)), &at(102)) {
        Step::Decided(decision) => decision,
        other => panic!("{other:?}"),
    }
}

#[test]
fn an_unreachable_control_plane_blocks() {
    assert_eq!(
        challenge_band_decision("sk_live_rust_unreachable", "http://127.0.0.1:9", None, None),
        Decision::Block
    );
}

#[test]
fn an_unusable_challenge_response_blocks() {
    assert_eq!(
        challenge_band_decision("sk_live_rust_unusable", "http://127.0.0.1:9", Some("{}"), Some("{}")),
        Decision::Block
    );
}

#[test]
fn the_licences_own_allow_fallback_passes_the_visitor_through() {
    let body = r#"{"status":"challenge_disabled","fallback":"allow"}"#;
    assert_eq!(
        challenge_band_decision("sk_live_rust_fallback_allow", "http://127.0.0.1:9", Some(body), Some(body)),
        Decision::Allow
    );
}

#[test]
fn a_disabled_challenge_blocks_on_the_block_fallback() {
    let body = r#"{"status":"challenge_disabled","fallback":"block"}"#;
    assert_eq!(
        challenge_band_decision("sk_live_rust_fallback_block", "http://127.0.0.1:9", Some(body), Some(body)),
        Decision::Block
    );
}

#[test]
fn a_disabled_challenge_with_no_fallback_blocks() {
    let body = r#"{"status":"challenge_disabled"}"#;
    assert_eq!(
        challenge_band_decision("sk_live_rust_fallback_absent", "http://127.0.0.1:9", Some(body), Some(body)),
        Decision::Block
    );
}

#[test]
fn a_token_sends_the_visitor_to_the_challenge() {
    let body = r#"{"token":"tok0123456789abcdef0123"}"#;
    match challenge_band_decision("sk_live_rust_token", "http://127.0.0.1:9", Some(body), Some(body)) {
        Decision::Challenge { redirect_url } => {
            assert!(redirect_url.contains("/security-check?token=tok0123456789abcdef0123"));
            assert_eq!(redirect_url, "http://127.0.0.1:9/security-check?token=tok0123456789abcdef0123");
        }
        other => panic!("expected a challenge redirect, got {other:?}"),
    }
}

#[test]
fn an_unrecognised_verify_response_keeps_the_cached_policy() {
    let key = "sk_live_rust_metering";
    let policy = r#"{"status":"success","rules":[{"type":"ip","pattern":"203.0.113.7","condition":"equals","score":100,"action":"block"}]}"#;
    let mut agent = agent_for("http://127.0.0.1:9", key);
    agent.refresh_rules(json(policy), &at(1000)).expect("a well-formed ruleset was not accepted");
    assert!(same_json(agent.rules().expect("the policy was not cached"), &json(policy)));
    assert_eq!(agent.sync_state().synced_at, 1000);

    for (body, status) in [
        (r#"{"status":"quota_"#.to_string() + r#"exceeded"}"#, "quota_exceeded"),
        (r#"{"status":"something_new"}"#.to_string(), "something_new"),
        (r#"{}"#.to_string(), "none"),
        (r#"{"error":"internal"}"#.to_string(), "none"),
        (r#"{"rules":null}"#.to_string(), "none"),
    ] {
        let refused = agent.refresh_rules(json(&body), &at(2000));
        assert_eq!(
            refused,
            Err(format!(
                "/agent/verify answered without a rules array (status: {status}); keeping the last policy"
            )),
            "{body} was accepted as a policy"
        );
        assert!(same_json(agent.rules().unwrap(), &json(policy)), "{body} replaced the cached policy");
        assert_eq!(agent.sync_state().synced_at, 1000);
    }

    let empty = r#"{"status":"success","rules":[]}"#;
    agent.refresh_rules(json(empty), &at(3000)).expect("an explicit empty ruleset was rejected");
    assert!(!same_json(agent.rules().unwrap(), &json(policy)));
    assert_eq!(agent.sync_state().synced_at, 3000);
}

#[test]
fn a_mirrored_policy_is_enforced_at_once() {
    let mut agent = agent_for("http://127.0.0.1:9", "k");
    assert!(agent.rules().is_none());
    agent.load_cache(json(r#"{"rules":[{"type":"path","pattern":"/x","condition":"equals","score":7}]}"#));
    let mut headers = Headers::new();
    headers.insert("accept".to_string(), "*/*".to_string());
    assert_eq!(agent.score_request_at("1.1.1.1", Some("Mozilla"), &headers, "GET", "/x", 5), 7);
    assert_eq!(agent.score_request("1.1.1.1", Some("Mozilla"), &headers, "GET", "/y"), 0);
}

fn score(user_agent: Option<&str>, fields: &[&str], method: &str) -> u32 {
    let mut headers = Headers::new();
    for name in fields {
        headers.insert(name.to_string(), "x".to_string());
    }
    agent_for("http://127.0.0.1:9", "k").score_request_at("1.1.1.1", user_agent, &headers, method, "/", 5)
}

#[test]
fn signals_have_their_weights() {
    assert_eq!(score(Some("Mozilla"), &["accept"], "GET"), 0);
    assert_eq!(score(None, &["accept"], "GET"), 40);
    assert_eq!(score(Some(""), &["Accept"], "GET"), 40);
    assert_eq!(score(Some("HeadlessChrome/1"), &["accept"], "GET"), 25);
    assert_eq!(score(Some("Googlebot"), &["accept"], "GET"), 35);
    assert_eq!(score(Some("Selenium via Wget"), &["accept"], "GET"), 60);
    assert_eq!(score(Some("Mozilla"), &[], "GET"), 15);
    assert_eq!(score(Some("Mozilla"), &["ACCEPT"], "GET"), 15);
    assert_eq!(score(Some("Mozilla"), &["accept"], "post"), 20);
    assert_eq!(score(Some("Mozilla"), &["accept", "referer"], "POST"), 0);
    assert_eq!(score(Some("Mozilla"), &["accept", "Referer"], "POST"), 0);
    assert_eq!(score(Some("curl/8.4.0"), &[], "GET"), 50);
    assert_eq!(score(Some("curl/8.4.0"), &[], "POST"), 70);
    for word in ["puppeteer", "Playwright", "PhantomJS", "headlesschrome", "selenium"] {
        assert_eq!(score(Some(word), &["accept"], "GET"), 25, "{word}");
    }
    for word in
        ["googlebot", "BingBot", "Yandex", "baiduspider", "curl", "wget", "httpclient", "Python-urllib"]
    {
        assert_eq!(score(Some(word), &["accept"], "GET"), 35, "{word}");
    }
}

#[test]
fn an_exhausted_bucket_adds_to_the_score() {
    let mut agent = agent_for("http://127.0.0.1:9", "k");
    let mut headers = Headers::new();
    headers.insert("accept".to_string(), "*/*".to_string());
    for _ in 0..24 {
        assert_eq!(agent.score_request_at("1.1.1.1", Some("Mozilla"), &headers, "GET", "/", 5), 0);
    }
    assert_eq!(agent.score_request_at("1.1.1.1", Some("Mozilla"), &headers, "GET", "/", 5), 35);
    assert_eq!(agent.score_request_at("1.1.1.2", Some("Mozilla"), &headers, "GET", "/", 5), 0);
}

#[test]
fn rules_add_up_and_the_total_is_clamped() {
    let mut agent = agent_for("http://127.0.0.1:9", "k");
    let mut headers = Headers::new();
    headers.insert("accept".to_string(), "*/*".to_string());
    agent.load_cache(json(
        r#"{"rules":[
            {"type":"path","pattern":"/a","condition":"contains","score":10},
            {"type":"path","pattern":"^/ab$","condition":"regex","score":20},
            {"type":"path","pattern":"/abc","condition":"contains","score":4294967295},
            {"type":"path","pattern":"/abcd","condition":"contains","score":4294967301},
            {"type":"path","pattern":"/n","condition":"contains","score":-5},
            {"type":"path","pattern":"/w","condition":"contains","score":4294967296},
            {"type":"path","pattern":"/x","condition":"contains","score":18446744073709551615}
        ]}"#,
    ));
    let mut of = |path: &str| agent.score_request_at("1.1.1.1", Some("Mozilla"), &headers, "GET", path, 5);
    assert_eq!(of("/"), 0);
    assert_eq!(of("/a"), 10);
    assert_eq!(of("/ab"), 30);
    assert_eq!(of("/abc"), 100);
    assert_eq!(of("/abcd"), 100);
    assert_eq!(of("/n"), 0);
    assert_eq!(of("/w"), 100);
    assert_eq!(of("/x"), 100);
    assert_eq!(of("/w/x"), 100);
}

#[test]
fn tiers_start_where_they_are_said_to() {
    assert_eq!(threshold("ALLOW"), 0);
    assert_eq!(threshold("SLOW"), 40);
    assert_eq!(threshold("CHALLENGE"), 60);
    assert_eq!(threshold("DECOY"), 75);
    assert_eq!(threshold("BLOCK"), 85);
    assert_eq!(threshold("OTHER"), 0);
    assert_eq!(decide_score(39), Some(Decision::Allow));
    assert_eq!(decide_score(40), Some(Decision::Slow));
    assert_eq!(decide_score(59), Some(Decision::Slow));
    assert_eq!(decide_score(60), None);
    assert_eq!(decide_score(74), None);
    assert_eq!(decide_score(75), Some(Decision::Decoy));
    assert_eq!(decide_score(84), Some(Decision::Decoy));
    assert_eq!(decide_score(85), Some(Decision::Block));
    assert_eq!(decide_score(100), Some(Decision::Block));
    assert_eq!(decide_challenge(ChallengeOutcome::Unavailable), Decision::Block);
    assert_eq!(decide_challenge(ChallengeOutcome::Disabled { block: true }), Decision::Block);
    assert_eq!(decide_challenge(ChallengeOutcome::Disabled { block: false }), Decision::Allow);
}

#[test]
fn one_request_fetches_while_the_others_are_scored() {
    let mut agent = agent_for("http://127.0.0.1:9", "k");
    let mut headers = Headers::new();
    headers.insert("accept".to_string(), "*/*".to_string());
    let visitor = visit(Some("Mozilla"), headers, "GET", "/");
    assert!(matches!(agent.evaluate(&visitor, Event::Arrived, &at(100)), Step::Sync(_)));
    assert!(agent.sync_state().in_progress);
    assert!(matches!(
        agent.evaluate(&visitor, Event::Arrived, &at(100)),
        Step::Decided(Decision::Allow)
    ));
    let policy = r#"{"rules":[{"type":"path","pattern":"/","condition":"equals","score":80}]}"#;
    assert!(matches!(
        agent.evaluate(&visitor, Event::Synced(Some(json(policy))), &at(101)),
        Step::Decided(Decision::Decoy)
    ));
    assert!(!agent.sync_state().in_progress);
    assert_eq!(agent.sync_state().failures, 0);
    assert_eq!(agent.sync_state().next_sync_at, 111);
    assert!(matches!(
        agent.evaluate(&visitor, Event::Arrived, &at(110)),
        Step::Decided(Decision::Decoy)
    ));
    assert!(matches!(agent.evaluate(&visitor, Event::Arrived, &at(111)), Step::Sync(_)));
    assert!(matches!(
        agent.evaluate(&visitor, Event::Synced(None), &at(112)),
        Step::Decided(Decision::Decoy)
    ));
    assert_eq!(agent.sync_state().failures, 1);
    assert_eq!(agent.sync_state().next_sync_at, 132);
    assert_eq!(agent.sync_state().synced_at, 101);
}

#[test]
fn the_mirror_is_named_after_the_licence() {
    assert_eq!(cache_file_name("lk_test_0123456789abcdef"), "up_rules_da35335a23af6468.json");
    assert_eq!(mirror_name("0123456789abcdef0123"), "up_rules_0123456789abcdef.json");
}

#[test]
fn the_pages_are_pages() {
    assert!(RelintioAgent::decoy_html().contains("<h1>Scheduled Maintenance</h1>"));
    assert!(RelintioAgent::block_html().contains("<h1>Access Blocked</h1>"));
    assert!(RelintioAgent::block_html().contains("charset=\"utf-8\""));
}

#[test]
fn an_agent_keeps_its_set_up() {
    let agent = agent_for("https://api.relintio.com/v1", "k");
    assert_eq!(agent.config().license_key, "k");
    assert_eq!(agent.config().api_url, "https://api.relintio.com/v1");
    assert_eq!(agent.config().sync_interval_seconds, 10);
    assert_eq!(agent.inject(b"<html></html>"), b"<html></html>");
}

#[test]
fn only_a_list_of_rules_is_a_policy() {
    assert!(accepts_policy(&json(r#"{"rules":[]}"#)));
    assert!(!accepts_policy(&json(r#"{"rules":{}}"#)));
    assert!(!accepts_policy(&json(r#"[]"#)));
}

#[test]
fn without_rules_the_signals_still_score() {
    let mut agent = agent_for("http://127.0.0.1:9", "k");
    let score = |agent: &mut RelintioAgent| {
        agent.score_request_at("1.1.1.1", Some("curl/8"), &Headers::new(), "GET", "/", 5)
    };
    assert_eq!(score(&mut agent), 50);
    agent.load_cache(json(r#"{"status":"odd"}"#));
    assert_eq!(score(&mut agent), 50);
    agent.load_cache(json(r#"{"rules":[]}"#));
    assert_eq!(score(&mut agent), 50);
}

#[test]
fn the_script_of_the_policy_goes_into_pages() {
    let mut agent = agent_for("http://127.0.0.1:9", "k");
    agent.load_cache(json(r#"{"guard_copy":true}"#));
    let page = String::from_utf8(agent.inject(b"<html><body></body></html>")).unwrap();
    assert!(page.starts_with("<html><body><script id=\"relintio-obsidian\">"));
    assert!(page.ends_with("</script></body></html>"));
}

#[test]
fn an_abandoned_fetch_is_made_again() {
    let mut agent = agent_for("http://127.0.0.1:9", "k");
    let mut headers = Headers::new();
    headers.insert("accept".to_string(), "*/*".to_string());
    let visitor = visit(Some("Mozilla"), headers, "GET", "/");
    assert!(matches!(agent.evaluate(&visitor, Event::Arrived, &at(100)), Step::Sync(_)));
    agent.finish_sync(None, &at(101));
    assert_eq!(agent.sync_state().failures, 1);
    assert_eq!(agent.sync_state().next_sync_at, 121);
    assert!(matches!(agent.evaluate(&visitor, Event::Arrived, &at(120)), Step::Decided(_)));
    match agent.evaluate(&visitor, Event::Arrived, &at(121)) {
        Step::Sync(request) => assert_eq!(request.timeout_seconds, 10),
        other => panic!("{other:?}"),
    }
}
