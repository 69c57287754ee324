use relintio_agent::challenge::{
    challenge_url, outcome_under, platform_root, return_url, strip_api, token_url,
    ChallengeOutcome,
};
use relintio_agent::clock::Moment;
use relintio_agent::codec::short_hex;
use relintio_agent::json::Json;
use relintio_agent::limits::{route_multiplier, RateLimiter};
use relintio_agent::outbound::{endpoint_url, signed_post};
use relintio_agent::passport::sign_request;
use relintio_agent::scoring::{score_user_agent, score_words};
use relintio_agent::sync::SyncState;
use relintio_agent::text::to_lowercase;

fn reply(members: &[(&str, &str)]) -> Json {
    Json::Object(members.iter().map(|(k, v)| (k.to_string(), Json::Text(v.to_string()))).collect())
}

fn redirect(url: &str) -> ChallengeOutcome {
    ChallengeOutcome::Redirect(url.to_string())
}

#[test]
fn the_platform_is_found_beside_its_interface() {
    let root = |url: &str| platform_root(url);
    assert_eq!(root("https://api.relintio.com/v1").as_deref(), Some("https://relintio.com/"));
    assert_eq!(root("https://api.relintio.com:8443/v1?x=1#y/").as_deref(), Some("https://relintio.com:8443/"));
    assert_eq!(root("http://127.0.0.1:9///").as_deref(), Some("http://127.0.0.1:9/"));
    assert_eq!(root("https://relintio.com/api.v1").as_deref(), Some("https://relintio.com/"));
    assert_eq!(root("not a url"), None);
    assert_eq!(root(""), None);
    assert_eq!(root("https://api."), None);
}

#[test]
fn a_token_is_redeemed_on_the_platform() {
    assert_eq!(
        challenge_url(Some(&reply(&[("token", "a b/+%")])), "https://api.relintio.com/v1/"),
        redirect("https://relintio.com/security-check?token=a%20b%2F%2B%25")
    );
    assert_eq!(token_url("https://x/", "t\u{fc}"), "https://x/security-check?token=t%C3%BC");
    assert_eq!(challenge_url(Some(&reply(&[("token", "t")])), "::"), ChallengeOutcome::Unavailable);
    assert_eq!(outcome_under(Some(&reply(&[("token", "t")])), None), ChallengeOutcome::Unavailable);
}

#[test]
fn an_absolute_address_is_taken_as_it_is() {
    let of = |members: &[(&str, &str)]| challenge_url(Some(&reply(members)), "https://api.x.io");
    assert_eq!(of(&[("challenge_url", "https://c/?a"), ("token", "t")]), redirect("https://c/?a"));
    assert_eq!(of(&[("challenge_url", "http://c")]), redirect("http://c"));
    assert_eq!(
        of(&[("challenge_url", "/relative"), ("token", "t")]),
        redirect("https://x.io/security-check?token=t")
    );
    assert_eq!(of(&[("challenge_url", "javascript:x")]), ChallengeOutcome::Unavailable);
}

#[test]
fn a_disabled_challenge_says_what_to_do() {
    let of = |members: &[(&str, &str)]| challenge_url(Some(&reply(members)), "https://api.x.io");
    let disabled = |block| ChallengeOutcome::Disabled { block };
    assert_eq!(of(&[("status", "challenge_disabled"), ("fallback", "allow"), ("token", "t")]), disabled(false));
    assert_eq!(of(&[("status", "challenge_disabled"), ("fallback", "Allow")]), disabled(true));
    assert_eq!(of(&[("status", "challenge_disabled"), ("challenge_url", "https://c")]), disabled(true));
    assert_eq!(of(&[("status", "ok")]), ChallengeOutcome::Unavailable);
    assert_eq!(challenge_url(None, "https://api.x.io"), ChallengeOutcome::Unavailable);
}

#[test]
fn visitors_return_to_where_they_were() {
    assert_eq!(return_url("shop.example", "/a?b"), "https://shop.example/a?b");
    assert_eq!(return_url("localhost", "/a"), "http://localhost/a");
    assert_eq!(return_url("localhost:3000", "/"), "http://localhost:3000/");
    assert_eq!(return_url("127.0.0.1", "/"), "http://127.0.0.1/");
    assert_eq!(return_url("127.0.0.1:80", "/"), "http://127.0.0.1:80/");
    assert_eq!(return_url("localhost.example", "/"), "https://localhost.example/");
    assert_eq!(return_url("127.0.0.10", "/"), "https://127.0.0.10/");
}

#[test]
fn a_post_signs_its_own_bytes() {
    let at = Moment { since_epoch: Some((1785120000, 1)) };
    let post = signed_post("https://x/y".to_string(), b"body".to_vec(), "key", &at, 7);
    assert_eq!(post.timeout_seconds, 7);
    assert_eq!(post.url, "https://x/y");
    assert_eq!(post.body, b"body");
    assert_eq!(post.headers.len(), 4);
    assert_eq!(post.headers[0], ("Content-Type".to_string(), "application/json".to_string()));
    let nonce = &post.headers[2].1;
    assert_eq!(post.headers[3].1, format!("v1={}", sign_request(b"body", "key", 1785120000, nonce)));
    assert_eq!(endpoint_url("https://x//", "/r"), "https://x/r");
    assert_eq!(endpoint_url("https://x", "/r"), "https://x/r");
}

#[test]
fn the_clock_is_read() {
    let now = Moment::now();
    assert!(now.unix_seconds() > 1_600_000_000);
    assert_eq!(now.unix_nanoseconds() / 1_000_000_000, u128::from(now.unix_seconds()));
    let before = Moment { since_epoch: None };
    assert_eq!((before.unix_seconds(), before.unix_nanoseconds(), before.signed_seconds()), (0, 0, 0));
}

fn bursts(path: &str) -> usize {
    let mut limiter = RateLimiter::new();
    let mut n = 0;
    while limiter.consume_token("a", path, 100) {
        n += 1;
    }
    n
}

#[test]
fn a_burst_depends_on_the_route() {
    assert_eq!(bursts("/"), 24);
    assert_eq!(bursts("/login"), 9);
    assert_eq!(bursts("/auth/x"), 9);
    assert_eq!(bursts("/api/x"), 16);
    assert_eq!(bursts("/api"), 24);
    assert_eq!(bursts("/assets/x.js"), 48);
    assert_eq!(route_multiplier("/loginx"), 4);
}

#[test]
fn tokens_come_back() {
    let mut limiter = RateLimiter::new();
    for _ in 0..24 {
        assert!(limiter.consume_token("a", "/", 100));
    }
    assert!(!limiter.consume_token("a", "/", 100));
    assert!(limiter.consume_token("b", "/", 100));
    for _ in 0..8 {
        assert!(limiter.consume_token("a", "/", 101));
    }
    assert!(!limiter.consume_token("a", "/", 101));
    for _ in 0..24 {
        assert!(limiter.consume_token("a", "/", 104));
    }
    assert!(!limiter.consume_token("a", "/", 104));
    assert!(!limiter.consume_token("a", "/", 0));
    assert!(!limiter.consume_token("a", "/", 104));
    assert!(limiter.consume_token("a", "/", 105));
}

#[test]
fn one_bucket_serves_all_routes() {
    let mut limiter = RateLimiter::new();
    assert!(limiter.consume_token("a", "/assets/x", 100));
    for _ in 0..9 {
        assert!(limiter.consume_token("a", "/login", 100));
    }
    assert!(!limiter.consume_token("a", "/login", 100));
    assert!(!limiter.consume_token("a", "/assets/x", 100));
    assert!(!limiter.consume_token("a", "/", u64::MIN));
    assert!(limiter.consume_token("a", "/", u64::MAX));
}

#[test]
fn failures_back_off() {
    let mut sync = SyncState::new();
    let plain = Moment { since_epoch: Some((1000, 20)) };
    let mut waits = Vec::new();
    for _ in 0..7 {
        sync.schedule_next_sync(10, false, &plain);
        waits.push(sync.next_sync_at - 1000);
    }
    assert_eq!(waits, vec![20, 40, 80, 160, 300, 300, 300]);
    assert_eq!(sync.failures, 5);
    sync.schedule_next_sync(10, true, &plain);
    assert_eq!((sync.failures, sync.next_sync_at), (0, 1010));
}

#[test]
fn jitter_spreads_the_fetches() {
    let mut sync = SyncState::new();
    let mut wait = |interval, nanos| {
        sync.schedule_next_sync(interval, true, &Moment { since_epoch: Some((1000, nanos)) });
        sync.next_sync_at - 1000
    };
    assert_eq!(wait(100, 0), 80);
    assert_eq!(wait(100, 40), 120);
    assert_eq!(wait(100, 41), 80);
    assert_eq!(wait(0, 0), 8);
    assert_eq!(wait(0, 40), 12);
    assert_eq!(wait(u64::MAX, 0), u64::MAX / 100);
    sync.schedule_next_sync(50, true, &Moment { since_epoch: None });
    assert_eq!(sync.next_sync_at, 50);
}

#[test]
fn a_fetch_is_claimed_once() {
    let mut sync = SyncState::new();
    assert!(sync.claim(0));
    assert!(!sync.claim(0));
    sync.in_progress = false;
    sync.next_sync_at = 10;
    assert!(!sync.claim(9));
    assert!(sync.claim(10));
}

#[test]
fn a_token_survives_its_encoding() {
    let token = "a-b_c.d~e %/?&=\u{2603}";
    let url = token_url("https://x", token);
    let encoded = url.strip_prefix("https://x/security-check?token=").unwrap();
    assert!(encoded.chars().all(|c| c.is_ascii_alphanumeric() || c == '%'));
    let decoded = percent_encoding::percent_decode_str(encoded).decode_utf8().unwrap();
    assert_eq!(decoded, token);
}

#[test]
fn only_a_leading_api_is_taken_off() {
    assert_eq!(strip_api("api.x.io").as_deref(), Some("x.io"));
    assert_eq!(strip_api("api.").as_deref(), Some(""));
    assert_eq!(strip_api("x.api.io"), None);
    assert_eq!(strip_api("apix.io"), None);
}

#[test]
fn digits_come_from_the_front() {
    assert_eq!(short_hex(&[0x1a, 0x2b, 0xff], 3), "1a2");
    assert_eq!(short_hex(&[0x1a], 0), "");
}

#[test]
fn words_are_looked_for_in_lower_case() {
    assert_eq!(score_words("curl"), 35);
    assert_eq!(score_words("CURL"), 0);
    assert_eq!(score_user_agent("CURL"), 35);
    assert_eq!(score_user_agent(""), 40);
    assert_eq!(to_lowercase("A\u{c4}\u{130}"), "a\u{e4}i\u{307}");
}

#[test]
fn the_root_is_what_is_left_of_the_address() {
    for text in [
        "https://api.relintio.com/v1?a=b#c",
        "http://[::1]:8080/v1",
        "ftp://user:pw@api.x.io/a/b",
        "web:/x",
        "web://evil/x",
        "mailto:x?y#z",
        "https://API.X.IO/",
        "file:///api./x",
    ] {
        let mut url = reqwest::Url::parse(text.trim_end_matches('/')).unwrap();
        if let Some(host) = url.host_str().map(str::to_string) {
            if let Some(rest) = host.strip_prefix("api.") {
                url.set_host(Some(rest)).unwrap();
            }
        }
        url.set_path("");
        url.set_query(None);
        url.set_fragment(None);
        assert_eq!(platform_root(text).as_deref(), Some(url.as_str()), "{text}");
    }
}

#[test]
fn a_returning_client_gets_what_came_back() {
    let mut limiter = RateLimiter::new();
    for _ in 0..24 {
        assert!(limiter.consume_token("a", "/", 100));
        assert!(limiter.consume_token("b", "/assets/x", 100));
    }
    assert!(!limiter.consume_token("a", "/", 100));
    limiter.consume_token("c", "/login", 101);
    for _ in 0..16 {
        assert!(limiter.consume_token("a", "/", 102));
        limiter.consume_token("c", "/login", 102);
    }
    assert!(!limiter.consume_token("a", "/", 102));
    for _ in 0..16 {
        assert!(limiter.consume_token("d", "/api/", 100));
    }
    assert!(!limiter.consume_token("d", "/api/", 100));
    for _ in 0..12 {
        assert!(limiter.consume_token("d", "/api/", 102));
    }
    assert!(!limiter.consume_token("d", "/api/", 102));
}
