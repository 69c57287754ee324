//! Laws of what a call gives back: whatever it is called with, and whatever it
//! returns, this holds between the two.

use vstd::prelude::*;
use vstd::utf8::{encode_utf8, valid_utf8};
use crate::agent::{
    decide_challenge, decide_score, threshold, Decision, DecisionView, RelintioAgent,
};
use crate::challenge::ChallengeOutcome;
use crate::clock::Moment;
use crate::codec::{hex_text, hmac_sha256, sha256};
use crate::headers::Headers;
use crate::json::{text_at, Json};
use crate::limits::{route_multiplier, RateLimiter, TokenBucket};
use crate::obsidian::ObsidianInjector;
use crate::passport::{
    accept_payload, clamp_ttl, mint_until, passport_binding, sign_request, verify_passport,
    PassportPayload,
};
use crate::rules::{
    match_value, regex_compiles, regex_matches, rule_matches, RegexCache, RequestFacts,
};
use crate::scoring::{score_headers, score_known, score_user_agent, score_words};
use crate::sync::SyncState;
use crate::text::{lowered, signed_decimal};
use super::matching::{
    a_value_equals_the_whole_field, a_value_stands_anywhere_in_the_field,
    an_expression_is_tried_on_the_field_as_received, no_other_rule_applies, what_a_condition_means,
};
use super::pages::{
    element, end_of_body_at, html_at, nothing_else_is_touched, the_script_goes_into_every_page,
};
use super::passports::{
    a_binding_is_the_mark_of_the_client, a_minted_passport_is_its_body_sealed, client_mark,
    reads_as, sealed, the_verdict_on_a_token, what_a_signature_covers,
};
use super::rates::{
    every_client_has_its_bucket, how_large_a_bucket_is, what_a_request_finds_and_leaves,
};
use super::schedule::{held_in_64_bits, pause, when_the_next_fetch_is_due};
use super::signals::{
    has_bot_word, has_headless_word, nobody_called, what_a_user_agent_adds, what_the_headers_add,
};
use super::texts::{alike_texts, has_part};

verus! {

// ---------------------------------------------------------------------------
// Scores
// ---------------------------------------------------------------------------

/// What comes back for the words of a text: 25 for those of headless browsers and 35 for
/// those of bots, wherever in the text they stand, and nothing where there are none.
pub proof fn what_scoring_words_gives(l: &str, r: u32)
    requires
        call_ensures(score_words, (l,), r),
    ensures
        !has_headless_word(l@) && !has_bot_word(l@) ==> r == 0,
        has_headless_word(l@) && !has_bot_word(l@) ==> r == 25,
        !has_headless_word(l@) && has_bot_word(l@) ==> r == 35,
        has_headless_word(l@) && has_bot_word(l@) ==> r == 60,
{
    what_a_user_agent_adds(l@, l@);
}

/// What comes back for a user agent: 40 for none, and otherwise what the words in its
/// lower-case form give.
pub proof fn what_scoring_a_user_agent_gives(ua: &str, r: u32)
    requires
        call_ensures(score_user_agent, (ua,), r),
    ensures
        ua@.len() == 0 ==> r == 40,
        ua@.len() > 0 ==> {
            let l = lowered(ua@);
            &&& !has_headless_word(l) && !has_bot_word(l) ==> r == 0
            &&& has_headless_word(l) && !has_bot_word(l) ==> r == 25
            &&& !has_headless_word(l) && has_bot_word(l) ==> r == 35
            &&& has_headless_word(l) && has_bot_word(l) ==> r == 60
        },
{
    what_a_user_agent_adds(ua@, ua@);
}

/// What comes back for the headers of a request: 15 where it accepts nothing by name, and
/// 20 where it posts without a referrer.
pub proof fn what_scoring_headers_gives(headers: &Headers, method: &str, r: u32)
    requires
        call_ensures(score_headers, (headers, method), r),
    ensures
        ({
            let silent = nobody_called(headers@, "accept"@) && nobody_called(headers@, "Accept"@);
            let blind = alike_texts(method@, "POST"@) && nobody_called(headers@, "referer"@)
                && nobody_called(headers@, "Referer"@);
            &&& !silent && !blind ==> r == 0
            &&& silent && !blind ==> r == 15
            &&& !silent && blind ==> r == 20
            &&& silent && blind ==> r == 35
        }),
{
    what_the_headers_add(headers@, method@);
}

/// Without a policy a request scores what its user agent and its headers give, and 35 more
/// where it is over its rate; no score is above 100.
pub proof fn what_scoring_without_a_policy_gives<'a>(
    facts: &RequestFacts<'a>,
    method: &str,
    within_rate: bool,
    cache: &mut RegexCache,
    r: u32,
    ua: u32,
    headers: u32,
)
    requires
        call_ensures(score_known, (None, facts, method, within_rate, cache), r),
        call_ensures(score_user_agent, (facts.user_agent,), ua),
        call_ensures(score_headers, (facts.headers, method), headers),
    ensures
        r <= 100,
        within_rate && ua + headers <= 100 ==> r == ua + headers,
        !within_rate && ua + headers + 35 <= 100 ==> r == ua + headers + 35,
        !within_rate && ua + headers + 35 > 100 ==> r == 100,
{
}

// ---------------------------------------------------------------------------
// Rules
// ---------------------------------------------------------------------------

/// A value is tested as it is handed in: for equality up to the case of letters, for a part
/// in lower case, and for an expression character for character.
pub proof fn what_matching_a_value_gives(
    candidate: &str,
    pattern: &str,
    condition: &str,
    cache: &mut RegexCache,
    r: bool,
)
    requires
        call_ensures(match_value, (candidate, pattern, condition, cache), r),
    ensures
        condition@ == "equals"@ ==> r == alike_texts(candidate@, pattern@),
        condition@ == "contains"@ ==> r == has_part(lowered(candidate@), lowered(pattern@)),
        condition@ == "regex"@ ==> r == (regex_compiles(pattern@) && regex_matches(
            pattern@,
            candidate@,
        )),
        condition@ != "equals"@ && condition@ != "contains"@ && condition@ != "regex"@ ==> !r,
{
    what_a_condition_means(candidate@, pattern@, condition@);
}

/// A rule is tested on the very field of the request that its type names: its address, its
/// user agent or its path, each as it was received.
pub proof fn what_matching_a_rule_gives<'a>(
    rule: &Json,
    facts: &RequestFacts<'a>,
    cache: &mut RegexCache,
    r: bool,
    pattern: Seq<char>,
    field: Seq<char>,
)
    requires
        call_ensures(rule_matches, (rule, facts, cache), r),
        text_at(*rule, "pattern"@) == Some(pattern),
        ({
            ||| text_at(*rule, "type"@) == Some("ip"@) && field == facts.ip@
            ||| text_at(*rule, "type"@) == Some("user_agent"@) && field == facts.user_agent@
            ||| text_at(*rule, "type"@) == Some("path"@) && field == facts.path@
        }),
    ensures
        text_at(*rule, "condition"@) == Some("regex"@) ==> r == (regex_compiles(pattern)
            && regex_matches(pattern, field)),
        text_at(*rule, "condition"@) == Some("equals"@) ==> r == alike_texts(field, pattern),
        text_at(*rule, "condition"@) == Some("contains"@) ==> r == has_part(
            lowered(field),
            lowered(pattern),
        ),
        text_at(*rule, "condition"@) != Some("regex"@) && text_at(*rule, "condition"@) != Some(
            "equals"@,
        ) && text_at(*rule, "condition"@) != Some("contains"@) ==> !r,
{
    no_other_rule_applies(*rule, facts@);
    if text_at(*rule, "condition"@) == Some("regex"@) {
        an_expression_is_tried_on_the_field_as_received(*rule, facts@, pattern);
    }
    if text_at(*rule, "condition"@) == Some("equals"@) {
        a_value_equals_the_whole_field(*rule, facts@, pattern);
    }
    if text_at(*rule, "condition"@) == Some("contains"@) {
        a_value_stands_anywhere_in_the_field(*rule, facts@, pattern);
    }
}

/// A header rule with an expression is tested on the value of the named header, as it was
/// received.
pub proof fn what_matching_a_header_rule_gives<'a>(
    rule: &Json,
    facts: &RequestFacts<'a>,
    cache: &mut RegexCache,
    r: bool,
    name: Seq<char>,
    value: Seq<char>,
    sent: &str,
    asked: &str,
)
    requires
        call_ensures(rule_matches, (rule, facts, cache), r),
        call_ensures(Headers::header_value, (facts.headers, asked), sent),
        asked@ == crate::text::trimmed(name),
        text_at(*rule, "type"@) == Some("header"@),
        text_at(*rule, "condition"@) == Some("regex"@),
        text_at(*rule, "pattern"@) == Some(name + seq![':'] + value),
        forall|i: int| 0 <= i < name.len() ==> #[trigger] name[i] != ':',
        crate::text::trimmed(name).len() > 0,
        crate::text::trimmed(value).len() > 0,
    ensures
        r == (regex_compiles(crate::text::trimmed(value)) && regex_matches(
            crate::text::trimmed(value),
            sent@,
        )),
{
    super::matching::a_header_rule_tests_the_named_header(*rule, facts@, name, value, "regex"@);
}

// ---------------------------------------------------------------------------
// Passports
// ---------------------------------------------------------------------------

/// A payload comes back exactly where it has not been expired for more than 60 seconds and
/// is bound to the client, whatever its version, its life and its number are; and it comes
/// back as it was.
pub proof fn what_accepting_a_payload_gives(
    payload: PassportPayload,
    expected: &str,
    now: i64,
    r: Option<PassportPayload>,
)
    requires
        call_ensures(accept_payload, (payload, expected, now), r),
    ensures
        r is Some ==> now <= payload.exp + 60 && payload.b@ == expected@ && r == Some(payload),
        now <= payload.exp + 60 && payload.b@ == expected@ ==> r == Some(payload),
{
}

/// Two payloads that expire together and are bound to one client are accepted together,
/// whatever else differs between them; and one that expires later is accepted wherever one
/// that expires sooner is.
pub proof fn nothing_else_in_a_payload_counts(
    payload: PassportPayload,
    other: PassportPayload,
    expected: &str,
    now: i64,
    r: Option<PassportPayload>,
    s: Option<PassportPayload>,
)
    requires
        call_ensures(accept_payload, (payload, expected, now), r),
        call_ensures(accept_payload, (other, expected, now), s),
        payload.b@ == other.b@,
    ensures
        payload.exp == other.exp ==> (r is Some <==> s is Some),
        payload.exp <= other.exp ==> (r is Some ==> s is Some),
{
}

/// A token that is sealed with the licence key is accepted at a given time exactly where
/// what its body reads as has not been expired for more than 60 seconds and is bound to this
/// very client.
pub proof fn what_verifying_a_passport_gives<F: Fn(&[u8]) -> Option<PassportPayload>>(
    value: &str,
    key: &str,
    ua: &str,
    lang: &str,
    now: i64,
    decode: &F,
    r: Option<PassportPayload>,
    raw: Seq<u8>,
    payload: PassportPayload,
)
    requires
        call_ensures(verify_passport::<F>, (value, key, ua, lang, Some(now), decode), r),
        raw.len() > 0,
        value@ == sealed(raw, key@),
        reads_as(*decode, raw, Some(payload)),
    ensures
        r is Some <==> now <= payload.exp + 60 && payload.b@ == client_mark(key@, ua@, lang@),
        r is Some ==> r == Some(payload),
{
    the_verdict_on_a_token(raw, key@, ua@, lang@, now, *decode, Some(payload), r);
}

/// A client is known by the digest of the licence key and of its raw headers.
pub proof fn what_binding_a_passport_gives(key: &str, ua: &str, lang: &str, r: String)
    requires
        call_ensures(passport_binding, (key, ua, lang), r),
    ensures
        r@ == hex_text(
            sha256(encode_utf8(key@ + seq!['|'] + ua@ + seq!['|'] + lang@)),
        ).take(16),
{
    a_binding_is_the_mark_of_the_client(key@, ua@, lang@);
}

/// A minted passport is sealed, expires when it was told to, and is bound to its client.
pub proof fn what_minting_a_passport_gives(exp: i64, key: &str, ua: &str, lang: &str, r: String)
    requires
        call_ensures(mint_until, (exp, key, ua, lang), r),
    ensures
        r@ == sealed(
            encode_utf8(
                "{\"v\":2,\"exp\":"@ + signed_decimal(exp as int) + ",\"b\":\""@ + client_mark(
                    key@,
                    ua@,
                    lang@,
                ) + "\"}"@,
            ),
            key@,
        ),
{
    a_minted_passport_is_its_body_sealed(exp as int, key@, ua@, lang@);
}

/// The life of a passport comes back as it was asked for, within five minutes and a week.
pub proof fn what_clamping_a_life_gives(ttl: i64, r: i64)
    requires
        call_ensures(clamp_ttl, (ttl,), r),
    ensures
        ttl <= 0 ==> r == 86_400,
        0 < ttl < 300 ==> r == 300,
        300 <= ttl <= 604_800 ==> r == ttl,
        ttl > 604_800 ==> r == 604_800,
{
}

/// A request is signed over its version, its timestamp, its nonce and its body.
pub proof fn what_signing_a_request_gives(
    body: &[u8],
    key: &str,
    timestamp: i64,
    once: &str,
    r: String,
)
    requires
        call_ensures(sign_request, (body, key, timestamp, once), r),
    ensures
        r@ == hex_text(
            hmac_sha256(
                encode_utf8(key@),
                encode_utf8(
                    "v1:"@ + signed_decimal(timestamp as int) + ":"@ + once@ + ":"@ + hex_text(
                        sha256(body@),
                    ),
                ),
            ),
        ),
{
    what_a_signature_covers(body@, key@, timestamp, once@);
}

// ---------------------------------------------------------------------------
// Pages
// ---------------------------------------------------------------------------

/// Every page grows by exactly the script element, right before its last `</body>` or at its
/// end: any text within the limit that has `<html` anywhere, under any policy that asks for a
/// script.
pub proof fn what_injecting_into_a_page_gives(
    injector: &ObsidianInjector,
    body: &[u8],
    rules: &Json,
    r: Vec<u8>,
    script: String,
    i: int,
    j: int,
)
    requires
        call_ensures(ObsidianInjector::inject_into_html, (injector, body, rules), r),
        call_ensures(ObsidianInjector::build_client_script, (injector, rules), script),
        html_at(body@, i),
        body@.len() <= injector.max_body_bytes,
        valid_utf8(body@),
        script@.len() > 0,
    ensures
        ({
            let put = encode_utf8(
                "<script id=\""@ + injector.script_id@ + "\">"@ + script@ + "</script>"@,
            );
            &&& r@.len() == body@.len() + put.len()
            &&& end_of_body_at(body@, j) && (forall|k: int| j < k ==> !end_of_body_at(body@, k))
                ==> r@ == body@.take(j) + put + body@.skip(j)
            &&& (forall|k: int| !end_of_body_at(body@, k)) ==> r@ == body@ + put
        }),
{
    the_script_goes_into_every_page(*injector, body@, *rules, i);
    assert(element(*injector, *rules) == encode_utf8(
        "<script id=\""@ + injector.script_id@ + "\">"@ + script@ + "</script>"@,
    ));
    assert(body@.take(j) == body@.take(j));
}

/// What is no page comes back as it was: what is empty or too long, what is not text, what has
/// `<html` nowhere, and anything for which there is no script.
pub proof fn what_injecting_elsewhere_gives(
    injector: &ObsidianInjector,
    body: &[u8],
    rules: &Json,
    r: Vec<u8>,
    script: String,
)
    requires
        call_ensures(ObsidianInjector::inject_into_html, (injector, body, rules), r),
        call_ensures(ObsidianInjector::build_client_script, (injector, rules), script),
        body@.len() == 0 || body@.len() > injector.max_body_bytes || !valid_utf8(body@) || (forall|
            i: int,
        | !html_at(body@, i)) || script@.len() == 0,
    ensures
        r@ == body@,
{
    nothing_else_is_touched(*injector, body@, *rules);
}

// ---------------------------------------------------------------------------
// Rates, schedules and tiers
// ---------------------------------------------------------------------------

/// The multiplier of a route comes back in tenths, by the start of the path alone.
pub proof fn what_the_multiplier_of_a_route_is(path: &str, rest: Seq<char>, r: i128)
    requires
        call_ensures(route_multiplier, (path,), r),
    ensures
        path@ == "/login"@ + rest ==> r == 4,
        path@ == "/auth"@ + rest ==> r == 4,
        path@ == "/api/"@ + rest ==> r == 7,
        path@ == "/assets/"@ + rest ==> r == 20,
        (forall|behind: Seq<char>|
            {
                &&& path@ != #[trigger] ("/login"@ + behind)
                &&& path@ != "/auth"@ + behind
                &&& path@ != "/api/"@ + behind
                &&& path@ != "/assets/"@ + behind
            }) ==> r == 10,
{
    how_large_a_bucket_is(path@, rest);
}

/// Asking for a token is granted exactly where there is one, takes it, and changes the bucket
/// of no other client.
pub proof fn what_asking_for_a_token_gives(
    limiter: &mut RateLimiter,
    ip: &str,
    path: &str,
    now: u64,
    r: bool,
    m: i128,
    other: Seq<char>,
)
    requires
        call_ensures(RateLimiter::consume_token, (limiter, ip, path, now), r),
        call_ensures(route_multiplier, (path,), m),
    ensures
        final(limiter)@.contains_key(ip@),
        final(limiter)@[ip@].last_ts == now,
        !old(limiter)@.contains_key(ip@) ==> r && final(limiter)@[ip@].tokens == 24 * m - 10,
        old(limiter)@.contains_key(ip@) ==> {
            let left = old(limiter)@[ip@];
            let grown = left.tokens + (now - left.last_ts) * (8 * m);
            &&& i128::MIN <= grown ==> {
                let found = if grown > 24 * m {
                    24 * m
                } else {
                    grown
                };
                &&& r <==> found >= 10
                &&& r ==> final(limiter)@[ip@].tokens == found - 10
                &&& !r ==> final(limiter)@[ip@].tokens == found
            }
        },
        other != ip@ ==> {
            &&& final(limiter)@.contains_key(other) == old(limiter)@.contains_key(other)
            &&& old(limiter)@.contains_key(other) ==> final(limiter)@[other] == old(
                limiter,
            )@[other]
        },
{
    every_client_has_its_bucket(old(limiter)@, ip@, path@, now, other);
    let full = TokenBucket { tokens: (24 * m) as i128, last_ts: now };
    what_a_request_finds_and_leaves(full, path@, now);
    assert((now - now) * (8 * m) == 0) by (nonlinear_arith);
    if old(limiter)@.contains_key(ip@) {
        what_a_request_finds_and_leaves(old(limiter)@[ip@], path@, now);
    }
}

/// A fetch is claimed exactly where one is due and none is under way, and nothing else changes.
pub proof fn what_claiming_a_fetch_gives(sync: &mut SyncState, now: u64, r: bool)
    requires
        call_ensures(SyncState::claim, (sync, now), r),
    ensures
        r <==> old(sync).next_sync_at <= now && !old(sync).in_progress,
        r ==> final(sync).in_progress,
        !r ==> final(sync).in_progress == old(sync).in_progress,
        final(sync).next_sync_at == old(sync).next_sync_at,
        final(sync).failures == old(sync).failures,
        final(sync).synced_at == old(sync).synced_at,
{
}

/// The schedule is a function of the interval, the outcome and the clock.
pub proof fn what_scheduling_a_fetch_gives(
    sync: &mut SyncState,
    interval: u64,
    success: bool,
    at: &Moment,
)
    requires
        call_ensures(SyncState::schedule_next_sync, (sync, interval, success, at), ()),
        old(sync).failures <= 5,
    ensures
        success ==> final(sync).failures == 0,
        !success && old(sync).failures < 5 ==> final(sync).failures == old(sync).failures + 1,
        !success && old(sync).failures == 5 ==> final(sync).failures == 5,
        final(sync).synced_at == old(sync).synced_at,
        final(sync).in_progress == old(sync).in_progress,
        at.since_epoch matches Some(t) ==> final(sync).next_sync_at == held_in_64_bits(
            t.0 + pause(interval, final(sync).failures as int, success, 80 + t.1 % 41),
        ),
        at.since_epoch is None ==> final(sync).next_sync_at == held_in_64_bits(
            pause(interval, final(sync).failures as int, success, 100),
        ),
{
    let t = match at.since_epoch {
        Some(t) => t,
        None => (0u64, 0u32),
    };
    when_the_next_fetch_is_due(*old(sync), interval, success, t.0, t.1);
}

/// The tiers start at 40, 60, 75 and 85; any other name starts at nothing.
pub proof fn where_a_tier_starts(tier: &str, r: u32)
    requires
        call_ensures(threshold, (tier,), r),
    ensures
        tier@ == "SLOW"@ ==> r == 40,
        tier@ == "CHALLENGE"@ ==> r == 60,
        tier@ == "DECOY"@ ==> r == 75,
        tier@ == "BLOCK"@ ==> r == 85,
        tier@ != "SLOW"@ && tier@ != "CHALLENGE"@ && tier@ != "DECOY"@ && tier@ != "BLOCK"@ ==> r
            == 0,
{
    reveal_strlit("SLOW");
    reveal_strlit("CHALLENGE");
    reveal_strlit("DECOY");
    reveal_strlit("BLOCK");
    assert("SLOW"@[0] == 'S' && "CHALLENGE"@[0] == 'C' && "DECOY"@[0] == 'D' && "BLOCK"@[0]
        == 'B');
}

/// What a score comes to, number by number; from 60 to 74 nothing is decided yet.
pub proof fn what_deciding_on_a_score_gives(n: u32, r: Option<Decision>)
    requires
        call_ensures(decide_score, (n,), r),
    ensures
        n <= 39 ==> r == Some(Decision::Allow),
        40 <= n <= 59 ==> r == Some(Decision::Slow),
        60 <= n <= 74 ==> r is None,
        75 <= n <= 84 ==> r == Some(Decision::Decoy),
        85 <= n ==> r == Some(Decision::Block),
{
    super::decisions::a_score_has_one_tier(n as int);
}

/// What a challenge comes to: only a redirect and a fallback that allows do not block.
pub proof fn what_deciding_on_a_challenge_gives(outcome: ChallengeOutcome, r: Decision)
    requires
        call_ensures(decide_challenge, (outcome,), r),
    ensures
        outcome matches ChallengeOutcome::Redirect(url) ==> r@ == (DecisionView::Challenge {
            redirect_url: url@,
        }),
        outcome matches ChallengeOutcome::Disabled { block } ==> (if block {
            r == Decision::Block
        } else {
            r == Decision::Allow
        }),
        outcome is Unavailable ==> r == Decision::Block,
{
}

/// The agent passes its own licence key on, and its own policy.
pub proof fn what_the_agent_passes_on(
    agent: &RelintioAgent,
    body: &[u8],
    r: Vec<u8>,
    policy: Option<&Json>,
    injector: ObsidianInjector,
    page: Vec<u8>,
)
    requires
        call_ensures(RelintioAgent::inject, (agent, body), r),
        call_ensures(RelintioAgent::rules, (agent,), policy),
        call_ensures(ObsidianInjector::new, (), injector),
        policy matches Some(rules) ==> call_ensures(
            ObsidianInjector::inject_into_html,
            (&injector, body, rules),
            page,
        ),
    ensures
        policy is Some ==> r@ == page@,
        policy is None ==> r@ == body@,
        injector.script_id@ == "relintio-obsidian"@,
        injector.max_body_bytes == 2_097_152,
{
}

} // verus!
