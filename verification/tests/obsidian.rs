use relintio_agent::json::Json;
use relintio_agent::obsidian::{
    ObsidianInjector, AGGRESSIVE_CLASS_NOISE, COMPATIBLE_CLASS_NOISE, COPY_GUARD, DEVTOOLS_GUARD,
    MAX_BODY_BYTES, RIGHT_CLICK_GUARD, TEXT_SCRAMBLER,
};

fn policy(flags: &[&str], mode: Option<&str>) -> Json {
    let mut members: Vec<(String, Json)> =
        flags.iter().map(|name| (name.to_string(), Json::Bool(true))).collect();
    if let Some(mode) = mode {
        members.push(("obsidian_mode".to_string(), Json::Text(mode.to_string())));
    }
    Json::Object(members)
}

fn script(flags: &[&str], mode: Option<&str>) -> String {
    ObsidianInjector::new().build_client_script(&policy(flags, mode))
}

fn inject(body: &[u8], flags: &[&str]) -> Vec<u8> {
    ObsidianInjector::default().inject_into_html(body, &policy(flags, None))
}

fn element() -> String {
    format!("<script id=\"relintio-obsidian\">{COPY_GUARD}</script>")
}

#[test]
fn each_guard_adds_its_part() {
    assert_eq!(script(&[], None), "");
    assert_eq!(script(&["guard_rightclick"], None), RIGHT_CLICK_GUARD);
    assert_eq!(script(&["guard_devtools"], None), DEVTOOLS_GUARD);
    assert_eq!(script(&["guard_copy"], None), COPY_GUARD);
    assert_eq!(script(&["obsidian_text"], None), "");
    assert_eq!(script(&["obsidian_text"], Some("aggressive")), TEXT_SCRAMBLER);
    assert_eq!(script(&["obsidian_css"], None), COMPATIBLE_CLASS_NOISE);
    assert_eq!(script(&["obsidian_css"], Some("compat")), COMPATIBLE_CLASS_NOISE);
    assert_eq!(script(&["obsidian_css"], Some("aggressive")), AGGRESSIVE_CLASS_NOISE);
    assert_eq!(
        script(
            &["guard_copy", "guard_devtools", "guard_rightclick", "obsidian_css", "obsidian_text"],
            Some("aggressive")
        ),
        format!("{RIGHT_CLICK_GUARD}{DEVTOOLS_GUARD}{COPY_GUARD}{TEXT_SCRAMBLER}{AGGRESSIVE_CLASS_NOISE}")
    );
    let off = Json::Object(vec![("guard_copy".to_string(), Json::Bool(false))]);
    assert_eq!(ObsidianInjector::new().build_client_script(&off), "");
    assert!(RIGHT_CLICK_GUARD.contains("contextmenu"));
}

#[test]
fn the_script_goes_before_the_last_end_of_body() {
    let page = b"<HTML><body>a</body>b</BODY></html>";
    let want = format!("<HTML><body>a</body>b{}</BODY></html>", element());
    assert_eq!(inject(page, &["guard_copy"]), want.as_bytes());
}

#[test]
fn without_an_end_of_body_it_goes_last() {
    let want = format!("<html>x{}", element());
    assert_eq!(inject(b"<html>x", &["guard_copy"]), want.as_bytes());
}

#[test]
fn other_bodies_stay_as_they_are() {
    assert_eq!(inject(b"", &["guard_copy"]), b"");
    assert_eq!(inject(b"{\"a\":1}", &["guard_copy"]), b"{\"a\":1}");
    assert_eq!(inject(b"<html></body>", &[]), b"<html></body>");
    assert_eq!(inject(b"<html>\xff</body>", &["guard_copy"]), b"<html>\xff</body>");
    let mut long = b"<html>".to_vec();
    long.resize(MAX_BODY_BYTES + 1, b'x');
    assert_eq!(inject(&long, &["guard_copy"]), long);
    long.pop();
    assert_eq!(inject(&long, &["guard_copy"]).len(), MAX_BODY_BYTES + element().len());
}

#[test]
fn characters_that_grow_in_lower_case_do_not_move_the_script() {
    let page = "<html>\u{130}\u{130}\u{130}</body></html>";
    let want = format!("<html>\u{130}\u{130}\u{130}{}</body></html>", element());
    assert_eq!(inject(page.as_bytes(), &["guard_copy"]), want.as_bytes());
}
