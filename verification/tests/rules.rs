use relintio_agent::headers::Headers;
use relintio_agent::json::Json;
use relintio_agent::rules::{match_header, match_value, rule_matches, RegexCache, RequestFacts};

fn text(t: &str) -> Json {
    Json::Text(t.to_string())
}

fn rule(members: &[(&str, &str)]) -> Json {
    Json::Object(members.iter().map(|(k, v)| (k.to_string(), text(v))).collect())
}

fn headers(list: &[(&str, &str)]) -> Headers {
    let mut headers = Headers::new();
    for (name, value) in list {
        headers.insert(name.to_string(), value.to_string());
    }
    headers
}

fn matches(members: &[(&str, &str)], ip: &str, path: &str, user_agent: &str, fields: &[(&str, &str)]) -> bool {
    let headers = headers(fields);
    let facts = RequestFacts { ip, path, user_agent, headers: &headers };
    rule_matches(&rule(members), &facts, &mut RegexCache::new())
}

#[test]
fn matching_follows_the_shared_vectors() {
    let path = |pattern, condition, path| {
        matches(&[("type", "path"), ("pattern", pattern), ("condition", condition)], "", path, "", &[])
    };
    assert!(path("^/admin$", "regex", "/admin"));
    assert!(!path("^/admin$", "regex", "/administrator"));
    assert!(path("/Admin", "equals", "/admin"));
    assert!(!path("/admin", "equals", "/admin/"));
    assert!(path("ADMIN", "contains", "/administrator"));
    assert!(!path("root", "contains", "/administrator"));
    assert!(path("", "contains", "/anything"));
    assert!(!path("(unclosed", "regex", "(unclosed"));
    assert!(!path("/admin", "starts_with", "/admin"));

    let ip = |pattern, condition, ip| {
        matches(&[("type", "ip"), ("pattern", pattern), ("condition", condition)], ip, "", "", &[])
    };
    assert!(ip("2001:DB8::1", "equals", "2001:db8::1"));
    assert!(!ip("203.0.113.7", "equals", "203.0.113.70"));
    assert!(ip("^203\\.0\\.113\\.", "regex", "203.0.113.70"));

    let ua = |pattern, condition, ua| {
        matches(&[("type", "user_agent"), ("pattern", pattern), ("condition", condition)], "", "", ua, &[])
    };
    assert!(ua("NUCLEI", "contains", "Nuclei - Open-source project"));
    assert!(!ua("nuclei", "equals", "Nuclei - Open-source project"));

    let header = |pattern, condition, fields: &[(&str, &str)]| {
        matches(&[("type", "header"), ("pattern", pattern), ("condition", condition)], "", "", "", fields)
    };
    assert!(header("X-Scanner", "equals", &[("x-scanner", "nuclei")]));
    assert!(!header("X-Scanner", "equals", &[("x-scanner", "")]));
    assert!(!header("X-Scanner", "equals", &[]));
    assert!(header("X-Scanner: nuclei", "equals", &[("x-scanner", "Nuclei")]));
    assert!(header("  X-Scanner  :  nuclei  ", "equals", &[("X-SCANNER", "nuclei")]));
    assert!(!header("X-Scanner: nikto", "equals", &[("x-scanner", "nuclei")]));
    assert!(header("X-Forwarded: a:b", "contains", &[("x-forwarded", "xa:bx")]));
    assert!(!header(": nuclei", "contains", &[("x-scanner", "nuclei")]));
    assert!(header("X-Scanner:", "regex", &[("x-scanner", "anything")]));

    assert!(!matches(&[("type", "country"), ("pattern", "x"), ("condition", "contains")], "x", "x", "x", &[]));
    assert!(!matches(&[("pattern", "x"), ("condition", "contains")], "x", "x", "x", &[]));
}

#[test]
fn an_unknown_condition_never_matches_a_header_rule() {
    let fields = [("x-scanner", "nuclei")];
    assert!(!matches(
        &[("type", "header"), ("pattern", "X-Scanner"), ("condition", "starts_with")],
        "",
        "",
        "",
        &fields
    ));
    assert!(matches(
        &[("type", "header"), ("pattern", "X-Scanner"), ("condition", "contains")],
        "",
        "",
        "",
        &fields
    ));
}

#[test]
fn a_rule_with_no_condition_never_matches() {
    assert!(!matches(&[("type", "path"), ("pattern", "/wp-admin")], "", "/wp-admin", "", &[]));
}

#[test]
fn members_that_are_not_texts_count_as_missing() {
    let headers = Headers::new();
    let facts = RequestFacts { ip: "1", path: "/", user_agent: "", headers: &headers };
    let odd = Json::Object(vec![
        ("type".to_string(), text("ip")),
        ("pattern".to_string(), Json::Unsigned(1)),
        ("condition".to_string(), text("equals")),
    ]);
    assert!(!rule_matches(&odd, &facts, &mut RegexCache::new()));
    for other in [Json::Null, Json::Bool(true), Json::Number, text("ip"), Json::Array(vec![])] {
        assert!(!rule_matches(&other, &facts, &mut RegexCache::new()));
    }
}

#[test]
fn contains_folds_the_case_of_every_alphabet() {
    let mut cache = RegexCache::new();
    assert!(match_value("stra\u{df}e \u{c4}PFEL", "\u{e4}pfel", "contains", &mut cache));
    assert!(!match_value("\u{c4}", "\u{e4}", "equals", &mut cache));
    assert!(match_value("\u{c4}b", "\u{c4}B", "equals", &mut cache));
}

#[test]
fn a_pattern_means_the_same_every_time() {
    let mut cache = RegexCache::new();
    for _ in 0..3 {
        assert!(cache.matches("^a+$", "aaa"));
        assert!(!cache.matches("^a+$", "aab"));
        assert!(!cache.matches("(", "("));
    }
    for i in 0..600 {
        let pattern = format!("^x{i}$");
        assert!(cache.matches(&pattern, &format!("x{i}")));
        assert!(!cache.matches(&pattern, "y"));
    }
    assert!(cache.matches("^a+$", "a"));
}

#[test]
fn a_header_is_found_in_whatever_case() {
    let h = headers(&[("Accept", "text/html"), ("x-a", "1")]);
    assert_eq!(h.header_value("ACCEPT"), "text/html");
    assert_eq!(h.header_value("X-A"), "1");
    assert_eq!(h.header_value("x-b"), "");
    assert!(match_header(&h, "accept: TEXT/html", "equals", &mut RegexCache::new()));
}

#[test]
fn putting_a_header_in_replaces_it() {
    let mut h = headers(&[("a", "1"), ("b", "2")]);
    h.insert("a".to_string(), "3".to_string());
    assert_eq!(h.get("a"), Some("3"));
    assert_eq!(h.get("b"), Some("2"));
    assert_eq!(h.get("A"), None);
    assert!(h.contains_key("b"));
    assert!(!h.contains_key("c"));
    assert_eq!(h.len(), 2);
}

#[test]
fn a_pattern_is_compiled_as_it_is_written() {
    let mut cache = RegexCache::new();
    assert_eq!(cache.rule_regex("^a.c$").map(|e| e.as_str().to_string()).as_deref(), Some("^a.c$"));
    assert!(cache.rule_regex("(").is_none());
    assert!(cache.rule_regex("^a.c$").is_some_and(|e| e.is_match("abc")));
}
