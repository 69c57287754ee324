//! Laws of the smaller operations, and of what one call makes of what another gave.

use vstd::prelude::*;
use vstd::utf8::{encode_utf8, is_ascii_chars};
use crate::agent::{cache_file_name, RelintioAgent, RelintioConfig};
use crate::challenge::{
    address_read, address_read_on, challenge_url, host_read, outcome_under, platform_root,
    strip_api, ChallengeOutcome,
};
use crate::clock::{nanoseconds, seconds, Moment};
use crate::codec::{hex_text, md5_digest, sha256, short_hex};
use crate::headers::{lookup_any_case, pairs, Headers};
use crate::json::{count_at, flag_at, list_at, text_at, Json};
use crate::limits::RateLimiter;
use crate::middleware::{
    cookie_text, course, exchange, grant, is_human, refuse, Answer, Course, Reaction, Screening,
};
use crate::obsidian::{
    ObsidianInjector, AGGRESSIVE_CLASS_NOISE, COMPATIBLE_CLASS_NOISE, COPY_GUARD, DEVTOOLS_GUARD,
    RIGHT_CLICK_GUARD, TEXT_SCRAMBLER,
};
use crate::outbound::{
    json_object, write_challenge_body, write_heartbeat_body, write_verify_body,
};
use crate::passport::{
    a_token_carries_one_body, authentic, authenticate, constant_time_eq, is_verdict, mint_passport,
    minted, now_or, sign_request, signing_headers_at, token_parts, write_token, PassportPayload,
};
use crate::rules::{
    match_header, regex_compiles, regex_matches, rule_matches, RegexCache, RequestFacts,
};
use crate::scoring::{score_headers, score_known, score_user_agent};
use crate::sync::SyncState;
use crate::text::{
    contains, decimal, decimal_text, eq_ignore_ascii_case, find, joining_pieces_gives_the_text,
    lowered, pieces, rfind, same, signed_decimal, split, starts_with, strip_end, text_of,
    to_lowercase, trim, trim_end_matches, trimmed, CharClass,
};
use super::control_plane::where_the_platform_is_found;
use super::pages::what_the_script_of_a_policy_is;
use super::passports::{
    a_minted_passport_is_its_body_sealed, an_authentic_token_is_sealed,
    an_unsealed_token_is_refused, client_mark, reads_as, sealed, the_verdict_on_a_token,
    what_an_accepted_token_is, what_the_signing_headers_are,
};
use super::schedule::{held_in_64_bits, pause, when_the_next_fetch_is_due};
use super::signals::{rules_add_up, what_a_request_scores};
use super::texts::{
    alike_texts, blank, case_is_ignored_between_alike_texts, has_part, holding_is_having_a_part,
    the_first_position_is_the_first, the_last_position_is_the_last,
    trimming_takes_the_white_space_around,
};

verus! {

// ---------------------------------------------------------------------------
// Texts
// ---------------------------------------------------------------------------

/// What comes back when two texts are held against each other.
pub proof fn what_comparing_texts_gives(
    a: &str,
    b: &str,
    equal: bool,
    alike: bool,
    held: bool,
    first: bool,
)
    requires
        call_ensures(same, (a, b), equal),
        call_ensures(eq_ignore_ascii_case, (a, b), alike),
        call_ensures(contains, (a, b), held),
        call_ensures(starts_with, (a, b), first),
    ensures
        equal <==> a@ == b@,
        alike <==> alike_texts(a@, b@),
        held <==> has_part(a@, b@),
        first <==> exists|rest: Seq<char>| a@ == #[trigger] (b@ + rest),
{
    case_is_ignored_between_alike_texts(a@, b@);
    holding_is_having_a_part(a@, b@);
}

/// What comes back when the white space around a text is taken away, and when the slashes at its
/// end are.
pub proof fn what_trimming_gives(s: &str, r: String, base: String)
    requires
        call_ensures(trim, (s,), r),
        call_ensures(trim_end_matches, (s, CharClass::Slash), base),
    ensures
        exists|before: Seq<char>, after: Seq<char>|
            {
                &&& s@ == #[trigger] (before + r@ + after)
                &&& forall|i: int| 0 <= i < before.len() ==> blank(#[trigger] before[i])
                &&& forall|i: int| 0 <= i < after.len() ==> blank(#[trigger] after[i])
            },
        r@.len() > 0 ==> !blank(r@[0]) && !blank(r@.last()),
        exists|after: Seq<char>|
            {
                &&& s@ == #[trigger] (base@ + after)
                &&& forall|i: int| 0 <= i < after.len() ==> #[trigger] after[i] == '/'
            },
        base@.len() > 0 ==> base@.last() != '/',
{
    trimming_takes_the_white_space_around(s@);
    super::texts::stripping_takes_the_slashes_at_the_end(s@);
}

/// What comes back when a text is put in lower case: of ASCII characters only capitals change.
pub proof fn what_lowering_gives(s: &str, r: String, i: int)
    requires
        call_ensures(to_lowercase, (s,), r),
        is_ascii_chars(s@),
        0 <= i < s@.len(),
    ensures
        r@.len() == s@.len(),
        'A' <= s@[i] <= 'Z' ==> r@[i] as u32 == s@[i] as u32 + 32,
        !('A' <= s@[i] <= 'Z') ==> r@[i] == s@[i],
{
    super::texts::lower_case_changes_capitals_only(s@);
}

/// What comes back when a text is cut: pieces without the separator that, joined with it, are the
/// text again.
pub proof fn what_cutting_gives(s: &str, sep: char, r: Vec<String>, i: int, j: int)
    requires
        call_ensures(split, (s, sep), r),
        0 <= i < r@.len(),
        0 <= j < r@[i]@.len(),
    ensures
        r@[i]@[j] != sep,
        crate::text::joined(crate::text::views(r@), sep) == s@,
{
    joining_pieces_gives_the_text(s@, sep);
    assert(crate::text::views(r@)[i] == r@[i]@);
}

/// What comes back when a character is looked for: where it stands first, and where last.
pub proof fn what_looking_for_a_character_gives(
    v: &Vec<char>,
    c: char,
    first: usize,
    last: Option<usize>,
)
    requires
        call_ensures(find, (v, c), first),
        call_ensures(rfind, (v, c), last),
    ensures
        first < v@.len() ==> v@[first as int] == c,
        forall|i: int| 0 <= i < first && i < v@.len() ==> #[trigger] v@[i] != c,
        first <= v@.len(),
        last matches Some(k) ==> k < v@.len() && v@[k as int] == c && (forall|i: int|
            k < i < v@.len() ==> #[trigger] v@[i] != c),
        last is None ==> forall|i: int| 0 <= i < v@.len() ==> #[trigger] v@[i] != c,
{
    the_first_position_is_the_first(v@, c);
    the_last_position_is_the_last(v@, c);
}

/// What comes back for a number: its last digit behind those of its tenth.
pub proof fn what_writing_a_number_gives(n: u128, r: String, tenth: String)
    requires
        call_ensures(decimal_text, (n,), r),
        call_ensures(decimal_text, ((n / 10) as u128,), tenth),
    ensures
        n < 10 ==> r@ == seq![(48 + n) as char],
        n >= 10 ==> r@ == tenth@.push((48 + n % 10) as char),
{
}

/// What comes back for the clock: whole seconds, and nanoseconds in all.
pub proof fn what_reading_a_moment_gives(at: &Moment, s: u64, n: u128, t: i64)
    requires
        call_ensures(Moment::unix_seconds, (at,), s),
        call_ensures(Moment::unix_nanoseconds, (at,), n),
        call_ensures(Moment::signed_seconds, (at,), t),
    ensures
        at.since_epoch matches Some(m) ==> s == m.0 && n == 1_000_000_000 * m.0 + m.1,
        at.since_epoch is None ==> s == 0 && n == 0,
        t == s as i64,
{
}

/// What comes back for the first digits of some bytes.
pub proof fn what_shortening_a_digest_gives(bytes: &[u8], n: usize, r: String)
    requires
        n <= 2 * bytes@.len(),
        call_ensures(short_hex, (bytes, n), r),
    ensures
        r@.len() == n,
        r@ == hex_text(bytes@).take(n as int),
{
}

// ---------------------------------------------------------------------------
// Passports and signatures
// ---------------------------------------------------------------------------

/// What is put into a token is what is found in it, and nothing is found in a text that no token
/// is.
pub proof fn what_taking_a_token_apart_gives(
    raw: &[u8],
    code: &[u8],
    value: String,
    text: &str,
    r: Option<(Vec<u8>, Vec<u8>)>,
    key: Seq<char>,
)
    requires
        call_ensures(write_token, (raw, code), value),
        text@ == value@,
        call_ensures(token_parts, (text,), r),
        code@ == crate::codec::hmac_sha256(encode_utf8(key), raw@),
        raw@.len() > 0,
    ensures
        value@ == sealed(raw@, key),
        r is Some,
{
    an_authentic_token_is_sealed(value@, key, raw@);
    assert(crate::passport::token_of(raw@, code@) == value@);
}

/// The bytes that come back from a token are not empty, and the token is these bytes, sealed with
/// the licence key; no others are.
pub proof fn what_authenticating_a_token_gives(
    value: &str,
    key: &str,
    r: Option<Vec<u8>>,
    raw: Seq<u8>,
)
    requires
        call_ensures(authenticate, (value, key), r),
    ensures
        r matches Some(found) ==> {
            &&& found@.len() > 0
            &&& value@ == sealed(found@, key@)
            &&& raw.len() > 0 && value@ == sealed(raw, key@) ==> found@ == raw
        },
{
    an_authentic_token_is_sealed(value@, key@, raw);
    if let Some(found) = r {
        an_authentic_token_is_sealed(value@, key@, found@);
        if raw.len() > 0 && value@ == sealed(raw, key@) {
            a_token_carries_one_body(value@, key@, found@, raw);
        }
    }
}

/// Bytes are equal exactly where they are, and a time that is given is taken.
pub proof fn what_comparing_bytes_gives(a: &[u8], b: &[u8], r: bool, n: i64, t: i64)
    requires
        call_ensures(constant_time_eq, (a, b), r),
        call_ensures(now_or, (Some(n),), t),
    ensures
        r <==> a@ == b@,
        t == n,
{
}

/// A passport that is minted at a given time expires so many seconds later.
pub proof fn what_minting_at_a_time_gives(
    ttl: i64,
    key: &str,
    ua: &str,
    lang: &str,
    now: i64,
    r: String,
)
    requires
        call_ensures(mint_passport, (ttl, key, ua, lang, Some(now)), r),
    ensures
        r@ == sealed(
            encode_utf8(
                "{\"v\":2,\"exp\":"@ + signed_decimal(now + ttl) + ",\"b\":\""@ + client_mark(
                    key@,
                    ua@,
                    lang@,
                ) + "\"}"@,
            ),
            key@,
        ),
{
    a_minted_passport_is_its_body_sealed(now + ttl, key@, ua@, lang@);
}

/// The headers that sign a request: its seconds, a nonce from its nanoseconds and its body, and
/// the signature under both.
pub proof fn what_the_signing_headers_of_a_body_are(
    body: &[u8],
    key: &str,
    at: &Moment,
    r: Vec<(String, String)>,
    once: &str,
    signed: String,
)
    requires
        call_ensures(signing_headers_at, (body, key, at), r),
        once@ == hex_text(sha256(encode_utf8(decimal(nanoseconds(*at))) + body@)).take(24),
        call_ensures(sign_request, (body, key, seconds(*at) as i64, once), signed),
    ensures
        r@.len() == 3,
        r@[0].0@ == "X-Relintio-Timestamp"@,
        r@[0].1@ == signed_decimal(seconds(*at) as i64 as int),
        r@[1].0@ == "X-Relintio-Nonce"@,
        r@[1].1@ == once@,
        r@[2].0@ == "X-Relintio-Signature"@,
        r@[2].1@ == "v1="@ + signed@,
{
    what_the_signing_headers_are(body@, key@, *at);
    let made = pairs(r@);
    assert(made.len() == 3);
    assert(made[0] == (r@[0].0@, r@[0].1@));
    assert(made[1] == (r@[1].0@, r@[1].1@));
    assert(made[2] == (r@[2].0@, r@[2].1@));
}

/// What the agent says of a token by its clock: one that was not sealed with its licence key is
/// refused, one that is accepted is bound to the client, and one that is bound to the client and
/// never expires is accepted.
pub proof fn what_the_agent_says_of_a_token<F: Fn(&[u8]) -> Option<PassportPayload>>(
    agent: &RelintioAgent,
    token: &str,
    ua: &str,
    lang: &str,
    decode: &F,
    r: Option<PassportPayload>,
    raw: Seq<u8>,
    payload: PassportPayload,
)
    requires
        call_ensures(RelintioAgent::verify_passport::<F>, (agent, token, ua, lang, decode), r),
    ensures
        ({
            let key = agent@.license_key;
            &&& (forall|other: Seq<u8>|
                other.len() > 0 ==> token@ != #[trigger] sealed(other, key)) ==> r is None
            &&& r matches Some(p) ==> p.b@ == client_mark(key, ua@, lang@)
            &&& raw.len() > 0 && token@ == sealed(raw, key) && reads_as(*decode, raw, Some(payload))
                && payload.b@ == client_mark(key, ua@, lang@) && payload.exp + 60 >= i64::MAX ==> r
                == Some(payload)
        }),
{
    let key = agent@.license_key;
    if forall|other: Seq<u8>| other.len() > 0 ==> token@ != #[trigger] sealed(other, key) {
        an_unsealed_token_is_refused(token@, key, ua@, lang@, None, *decode, r);
    }
    if let Some(p) = r {
        what_an_accepted_token_is(token@, key, ua@, lang@, None, *decode, p);
    }
    if raw.len() > 0 && token@ == sealed(raw, key) && reads_as(*decode, raw, Some(payload)) {
        an_authentic_token_is_sealed(token@, key, raw);
        super::passports::a_binding_is_the_mark_of_the_client(key, ua@, lang@);
        let (slice, given, t) = choose|slice: &[u8], given: Option<PassportPayload>, t: i64|
            {
                &&& authentic(token@, key, slice@)
                &&& #[trigger] call_ensures(*decode, (slice,), given)
                &&& #[trigger] crate::passport::is_now(None, t)
                &&& r == crate::passport::accepted(
                    given,
                    crate::passport::binding(key, ua@, lang@),
                    t,
                )
            };
        a_token_carries_one_body(token@, key, slice@, raw);
    }
}

/// What the agent mints: a passport under its own licence key, bound to the client.
pub proof fn what_the_agent_mints(
    agent: &RelintioAgent,
    ttl: i64,
    ua: &str,
    lang: &str,
    r: String,
)
    requires
        call_ensures(RelintioAgent::mint_passport, (agent, ttl, ua, lang), r),
    ensures
        exists|exp: int|
            r@ == #[trigger] minted(exp, agent@.license_key, ua@, lang@),
{
}

// ---------------------------------------------------------------------------
// Screening
// ---------------------------------------------------------------------------

/// A pass token is exchanged where it holds, for the life asked for and this client, and refused
/// otherwise.
pub proof fn what_exchanging_a_token_gives<D: Fn(&[u8]) -> Option<PassportPayload>>(
    agent: &RelintioAgent,
    token: &str,
    path: &str,
    ua: &str,
    lang: &str,
    now: i64,
    decode: &D,
    r: Screening,
    raw: Seq<u8>,
    payload: PassportPayload,
)
    requires
        call_ensures(exchange::<D>, (agent, token, path, ua, lang, Some(now), decode), r),
        now + 604_800 <= i64::MAX,
        raw.len() > 0,
        token@ == sealed(raw, agent@.license_key),
        reads_as(*decode, raw, Some(payload)),
    ensures
        ({
            let key = agent@.license_key;
            let good = now <= payload.exp + 60 && payload.b@ == client_mark(key, ua@, lang@);
            let asked = match payload.ttl {
                Some(ttl) => ttl as int,
                None => 0,
            };
            &&& !good ==> r is InvalidToken
            &&& good ==> (r matches Screening::Granted { location, passport, max_age } && {
                &&& location@ == path@
                &&& asked <= 0 ==> max_age == 86_400
                &&& 0 < asked < 300 ==> max_age == 300
                &&& 300 <= asked <= 604_800 ==> max_age == asked
                &&& asked > 604_800 ==> max_age == 604_800
                &&& passport@ == minted(now + max_age, key, ua@, lang@)
            })
        }),
{
    let key = agent@.license_key;
    assert forall|verdict: Option<PassportPayload>| #[trigger]
        is_verdict(token@, key, ua@, lang@, Some(now), *decode, verdict) implies verdict == (
    if now <= payload.exp + 60 && payload.b@ == client_mark(key, ua@, lang@) {
        Some(payload)
    } else {
        None
    }) by {
        the_verdict_on_a_token(raw, key, ua@, lang@, now, *decode, Some(payload), verdict);
    }
}

/// A visitor is human with a passport that holds, and not without one.
pub proof fn what_asking_for_a_human_gives<D: Fn(&[u8]) -> Option<PassportPayload>>(
    agent: &RelintioAgent,
    cookies: &Vec<(String, String)>,
    ua: &str,
    lang: &str,
    now: i64,
    decode: &D,
    r: bool,
    i: int,
    raw: Seq<u8>,
    payload: PassportPayload,
)
    requires
        call_ensures(is_human::<D>, (agent, cookies, ua, lang, Some(now), decode), r),
    ensures
        0 <= i < cookies@.len() && cookies@[i].0@ == "relintio_passport"@ && raw.len() > 0
            && cookies@[i].1@ == sealed(raw, agent@.license_key) && reads_as(
            *decode,
            raw,
            Some(payload),
        ) && now <= payload.exp + 60 && payload.b@ == client_mark(
            agent@.license_key,
            ua@,
            lang@,
        ) ==> r,
        (forall|k: int|
            0 <= k < cookies@.len() ==> (#[trigger] cookies@[k]).0@ != "relintio_passport"@) ==> !r,
        r ==> exists|k: int, body: Seq<u8>|
            0 <= k < cookies@.len() && (#[trigger] cookies@[k]).1@ == #[trigger] sealed(
                body,
                agent@.license_key,
            ) && cookies@[k].0@ == "relintio_passport"@,
{
    let key = agent@.license_key;
    let shown = pairs(cookies@);
    assert forall|k: int| 0 <= k < shown.len() implies #[trigger] shown[k] == (
        cookies@[k].0@,
        cookies@[k].1@,
    ) by {}
    if 0 <= i < cookies@.len() && raw.len() > 0 && cookies@[i].1@ == sealed(raw, key) && reads_as(
        *decode,
        raw,
        Some(payload),
    ) && !r {
        assert(shown[i].0 == cookies@[i].0@);
        if is_verdict(shown[i].1, key, ua@, lang@, Some(now), *decode, None) {
            the_verdict_on_a_token(raw, key, ua@, lang@, now, *decode, Some(payload), None);
        }
    }
    if r {
        let (k, p) = choose|k: int, p: PassportPayload|
            {
                &&& 0 <= k < shown.len()
                &&& shown[k].0 == crate::passport::PASSPORT_COOKIE@
                &&& #[trigger] is_verdict(shown[k].1, key, ua@, lang@, Some(now), *decode, Some(p))
            };
        what_an_accepted_token_is(shown[k].1, key, ua@, lang@, Some(now), *decode, p);
        let slice = choose|slice: &[u8]|
            {
                &&& slice@.len() > 0
                &&& shown[k].1 == sealed(slice@, key)
                &&& #[trigger] call_ensures(*decode, (slice,), Some(p))
            };
        assert(cookies@[k].1@ == sealed(slice@, key));
    }
}

/// What a grant and a refusal are.
pub proof fn what_granting_and_refusing_give(
    location: String,
    passport: &str,
    max_age: i64,
    granted: Answer,
    refused: Answer,
)
    requires
        call_ensures(grant, (location, passport, max_age), granted),
        call_ensures(refuse, (), refused),
    ensures
        granted.status == 302,
        text_of(granted.location) == Some(location@),
        text_of(granted.set_cookie) == Some(
            "relintio_passport"@ + "="@ + passport@ + "; HttpOnly"@ + "; Path="@ + "/"@
                + "; Max-Age="@ + signed_decimal(max_age as int),
        ),
        refused.status == 403,
        refused.location is None,
        refused.set_cookie is None,
        refused.body@ == "Invalid Token"@,
{
}

/// How a screened request goes on.
pub proof fn what_the_course_of_a_request_is(screening: Screening, r: Course)
    requires
        call_ensures(course, (screening,), r),
    ensures
        screening matches Screening::Granted { location, passport, max_age } ==> (
        r matches Course::React(Reaction::Respond(a)) && a.status == 302 && text_of(a.location)
            == Some(location@) && text_of(a.set_cookie) == Some(
            cookie_text("relintio_passport"@, passport@, "/"@, max_age, true),
        )),
        screening is InvalidToken ==> (r matches Course::React(Reaction::Respond(a)) && a.status
            == 403),
        screening is Human ==> r == Course::React(
            Reaction::Forward { delay_seconds: 0, inject: false },
        ),
        screening matches Screening::Unknown(visit) ==> r == Course::Ask(visit),
{
}

// ---------------------------------------------------------------------------
// Rules
// ---------------------------------------------------------------------------

/// A header pattern with a value tests the named header as it was received, and one without a
/// value only whether it is there.
pub proof fn what_matching_a_header_gives(
    headers: &Headers,
    pattern: &str,
    condition: &str,
    cache: &mut RegexCache,
    r: bool,
    name: Seq<char>,
    value: Seq<char>,
)
    requires
        call_ensures(match_header, (headers, pattern, condition, cache), r),
        forall|i: int| 0 <= i < name.len() ==> #[trigger] name[i] != ':',
    ensures
        ({
            let sent = lookup_any_case(headers@, trimmed(name));
            let meant = trimmed(value);
            &&& trimmed(name).len() == 0 && (pattern@ == name || pattern@ == name + seq![':']
                + value) ==> !r
            &&& trimmed(name).len() > 0 && pattern@ == name ==> r == (sent.len() > 0)
            &&& trimmed(name).len() > 0 && pattern@ == name + seq![':'] + value && meant.len() == 0
                ==> r == (sent.len() > 0)
            &&& trimmed(name).len() > 0 && pattern@ == name + seq![':'] + value && meant.len() > 0
                ==> {
                &&& condition@ == "equals"@ ==> r == alike_texts(sent, meant)
                &&& condition@ == "contains"@ ==> r == has_part(lowered(sent), lowered(meant))
                &&& condition@ == "regex"@ ==> r == (regex_compiles(meant) && regex_matches(
                    meant,
                    sent,
                ))
            }
        }),
{
    let whole = name + seq![':'] + value;
    assert(whole =~= name.push(':') + value);
    crate::text::first_index_of_push(name, value, ':');
    assert(whole.take(name.len() as int) =~= name);
    assert(whole.skip(name.len() as int + 1) =~= value);
    crate::text::no_first_index(name, ':');
    assert(name.take(name.len() as int) =~= name);
    super::matching::what_a_condition_means(
        lookup_any_case(headers@, trimmed(name)),
        trimmed(value),
        condition@,
    );
}

/// One more rule at the end of a policy adds its whole score where it applies and nothing where it
/// does not, up to 100 in all.
pub proof fn what_one_more_rule_gives<'a>(
    policy: &Json,
    longer: &Json,
    before: Seq<Json>,
    rule: &Json,
    facts: &RequestFacts<'a>,
    method: &str,
    within_rate: bool,
    cache: &mut RegexCache,
    other: &mut RegexCache,
    third: &mut RegexCache,
    r: u32,
    s: u32,
    applies: bool,
)
    requires
        call_ensures(score_known, (Some(policy), facts, method, within_rate, cache), r),
        call_ensures(score_known, (Some(longer), facts, method, within_rate, other), s),
        call_ensures(rule_matches, (rule, facts, third), applies),
        list_at(*policy, "rules"@) == Some(before),
        list_at(*longer, "rules"@) == Some(before.push(*rule)),
    ensures
        s <= 100,
        !applies ==> s == r,
        applies ==> match count_at(*rule, "score"@) {
            Some(n) => s == (if r + n > 100 {
                100
            } else {
                r + n
            }),
            None => s == r,
        },
{
    rules_add_up(before, *rule, Seq::empty(), facts@);
    assert(before.push(*rule) + Seq::empty() =~= before.push(*rule));
    assert(before + Seq::<Json>::empty() =~= before);
    what_a_request_scores(Some(*policy), facts@, method@, within_rate);
    what_a_request_scores(Some(*longer), facts@, method@, within_rate);
}

/// A policy without rules scores as none does.
pub proof fn what_no_rules_give<'a>(
    policy: &Json,
    facts: &RequestFacts<'a>,
    method: &str,
    within_rate: bool,
    cache: &mut RegexCache,
    r: u32,
    ua: u32,
    headers: u32,
)
    requires
        call_ensures(score_known, (Some(policy), facts, method, within_rate, cache), r),
        call_ensures(score_user_agent, (facts.user_agent,), ua),
        call_ensures(score_headers, (facts.headers, method), headers),
        list_at(*policy, "rules"@) is None || list_at(*policy, "rules"@) == Some(
            Seq::<Json>::empty(),
        ),
    ensures
        ({
            let total = ua + headers + (if within_rate {
                0int
            } else {
                35
            });
            r == (if total > 100 {
                100
            } else {
                total
            })
        }),
{
    what_a_request_scores(Some(*policy), facts@, method@, within_rate);
}

/// An expression that is looked up is tried on the very text, whatever is kept.
pub proof fn what_trying_an_expression_gives(
    cache: &mut RegexCache,
    pattern: &str,
    text: &str,
    r: bool,
)
    requires
        call_ensures(RegexCache::matches, (cache, pattern, text), r),
    ensures
        r == (regex_compiles(pattern@) && regex_matches(pattern@, text@)),
        final(cache).patterns().contains(pattern@),
        final(cache).patterns().subset_of(old(cache).patterns().insert(pattern@)),
        old(cache).patterns().len() < 256 ==> old(cache).patterns().subset_of(
            final(cache).patterns(),
        ),
{
}

// ---------------------------------------------------------------------------
// Pages and bodies
// ---------------------------------------------------------------------------

/// The script of a policy has one part for each guard that is switched on.
pub proof fn what_building_a_script_gives(injector: &ObsidianInjector, rules: &Json, r: String)
    requires
        call_ensures(ObsidianInjector::build_client_script, (injector, rules), r),
    ensures
        ({
            let none = Seq::<char>::empty();
            let fierce = text_at(*rules, "obsidian_mode"@) == Some("aggressive"@);
            r@ == (if flag_at(*rules, "guard_rightclick"@) {
                RIGHT_CLICK_GUARD@
            } else {
                none
            }) + (if flag_at(*rules, "guard_devtools"@) {
                DEVTOOLS_GUARD@
            } else {
                none
            }) + (if flag_at(*rules, "guard_copy"@) {
                COPY_GUARD@
            } else {
                none
            }) + (if flag_at(*rules, "obsidian_text"@) && fierce {
                TEXT_SCRAMBLER@
            } else {
                none
            }) + (if !flag_at(*rules, "obsidian_css"@) {
                none
            } else if fierce {
                AGGRESSIVE_CLASS_NOISE@
            } else {
                COMPATIBLE_CLASS_NOISE@
            })
        }),
{
    what_the_script_of_a_policy_is(*rules);
}

/// The bodies of the three requests.
pub proof fn what_writing_a_body_gives(
    key: &str,
    domain: &str,
    back: &str,
    now: u64,
    verify: Vec<u8>,
    heartbeat: Vec<u8>,
    challenge: Vec<u8>,
)
    requires
        call_ensures(write_verify_body, (key, domain), verify),
        call_ensures(write_heartbeat_body, (key, domain, now), heartbeat),
        call_ensures(write_challenge_body, (key, back), challenge),
    ensures
        verify@ == json_object(
            seq![
                ("license_key"@, key@),
                ("domain"@, domain@),
                ("agent_kind"@, "rust"@),
                ("agent_version"@, "0.1.2"@),
            ],
            seq![("protocol_version"@, 1u64)],
            seq![("capabilities"@, seq!["custom_rules"@, "telemetry"@])],
        ),
        heartbeat@ == json_object(
            seq![
                ("license_key"@, key@),
                ("domain"@, domain@),
                ("agent_version"@, "0.1.2"@),
                ("agent_kind"@, "rust"@),
            ],
            seq![("timestamp"@, now)],
            Seq::empty(),
        ),
        challenge@ == json_object(
            seq![("license_key"@, key@), ("return_url"@, back@)],
            Seq::empty(),
            Seq::empty(),
        ),
{
}

/// The root of the platform, and what an answer comes to under it.
pub proof fn what_the_root_of_a_platform_is(
    api_url: &str,
    root: Option<String>,
    reply: Option<&Json>,
    r: ChallengeOutcome,
    s: ChallengeOutcome,
    rest: Seq<char>,
)
    requires
        call_ensures(platform_root, (api_url,), root),
        call_ensures(challenge_url, (reply, api_url), r),
        call_ensures(outcome_under, (reply, root), s),
    ensures
        ({
            let base = strip_end(api_url@, CharClass::Slash);
            let none = Seq::<char>::empty();
            &&& host_read(base) == Some("api."@ + rest) ==> text_of(root) == address_read_on(
                base,
                rest,
                none,
                None,
                None,
            )
            &&& (forall|behind: Seq<char>|
                host_read(base) != Some(#[trigger] ("api."@ + behind))) ==> text_of(root)
                == address_read(base, none, None, None)
        }),
        r@ == s@,
{
    where_the_platform_is_found(api_url@, rest);
}

/// A host loses the `api.` that it starts with, and only where it does.
pub proof fn what_stripping_a_host_gives(host: &str, r: Option<String>, rest: Seq<char>)
    requires
        call_ensures(strip_api, (host,), r),
    ensures
        host@ == "api."@ + rest ==> text_of(r) == Some(rest),
        (forall|behind: Seq<char>| host@ != #[trigger] ("api."@ + behind)) ==> r is None,
{
    reveal_strlit("api.");
    holding_is_having_a_part(host@, "api."@);
    assert(("api."@ + rest).skip(4) =~= rest);
}

// ---------------------------------------------------------------------------
// The state of an agent
// ---------------------------------------------------------------------------

/// A new agent is set up as it was told, has no policy and no clients, and fetches at once.
pub proof fn what_a_new_agent_is(
    config: RelintioConfig,
    agent: RelintioAgent,
    shown: &RelintioConfig,
    policy: Option<&Json>,
    sync: SyncState,
)
    requires
        call_ensures(RelintioAgent::new, (config,), agent),
        call_ensures(RelintioAgent::config, (&agent,), shown),
        call_ensures(RelintioAgent::rules, (&agent,), policy),
        call_ensures(RelintioAgent::sync_state, (&agent,), sync),
    ensures
        shown.license_key@ == config.license_key@,
        shown.api_url@ == config.api_url@,
        shown.sync_interval_seconds == config.sync_interval_seconds,
        policy is None,
        sync.next_sync_at == 0,
        sync.synced_at == 0,
        sync.failures == 0,
        !sync.in_progress,
        forall|ip: Seq<char>| !agent@.buckets.contains_key(ip),
{
}

/// A policy that was loaded is the policy that is read, and nothing else changes.
pub proof fn what_loading_a_policy_gives(
    agent: &mut RelintioAgent,
    parsed: Json,
    after: &RelintioAgent,
    policy: Option<&Json>,
    before: SyncState,
    sync: SyncState,
)
    requires
        call_ensures(RelintioAgent::load_cache, (agent, parsed), ()),
        *after == *final(agent),
        call_ensures(RelintioAgent::rules, (after,), policy),
        call_ensures(RelintioAgent::sync_state, (&*old(agent),), before),
        call_ensures(RelintioAgent::sync_state, (after,), sync),
    ensures
        policy == Some(&parsed),
        sync == before,
        final(agent)@.buckets == old(agent)@.buckets,
        final(agent)@.license_key == old(agent)@.license_key,
        final(agent)@.api_url == old(agent)@.api_url,
        final(agent)@.interval == old(agent)@.interval,
{
}

/// A fetch that ends with a policy leaves that policy, one that does not leaves the last; either
/// way nothing is under way, and the next fetch is set.
pub proof fn what_finishing_a_fetch_gives(
    agent: &mut RelintioAgent,
    reply: Option<Json>,
    at: &Moment,
)
    requires
        call_ensures(RelintioAgent::finish_sync, (agent, reply, at), ()),
        old(agent)@.sync.failures <= 5,
    ensures
        ({
            let success = reply matches Some(doc) && list_at(doc, "rules"@) is Some;
            let sync = final(agent)@.sync;
            &&& success ==> final(agent)@.policy == reply && sync.synced_at == seconds(*at)
                && sync.failures == 0
            &&& !success ==> final(agent)@.policy == old(agent)@.policy && sync.synced_at == old(
                agent,
            )@.sync.synced_at && sync.failures > 0
            &&& !sync.in_progress
            &&& at.since_epoch matches Some(t) ==> sync.next_sync_at == held_in_64_bits(
                t.0 + pause(old(agent)@.interval, sync.failures as int, success, 80 + t.1 % 41),
            )
            &&& final(agent)@.buckets == old(agent)@.buckets
        }),
{
    let success = reply matches Some(doc) && list_at(doc, "rules"@) is Some;
    let t = match at.since_epoch {
        Some(t) => t,
        None => (0u64, 0u32),
    };
    let stamped = SyncState {
        synced_at: if success {
            seconds(*at)
        } else {
            old(agent)@.sync.synced_at
        },
        ..old(agent)@.sync
    };
    when_the_next_fetch_is_due(stamped, old(agent)@.interval, success, t.0, t.1);
}

/// What asking the agent for a token gives is what the rate of the client says, and only the
/// buckets change.
pub proof fn what_asking_the_agent_for_a_token_gives(
    agent: &mut RelintioAgent,
    limiter: &mut RateLimiter,
    ip: &str,
    path: &str,
    now: u64,
    r: bool,
    s: bool,
)
    requires
        call_ensures(RelintioAgent::consume_token, (agent, ip, path, now), r),
        call_ensures(RateLimiter::consume_token, (limiter, ip, path, now), s),
        old(limiter)@ == old(agent)@.buckets,
    ensures
        r == s,
        final(agent)@.buckets == final(limiter)@,
        final(agent)@.policy == old(agent)@.policy,
        final(agent)@.sync == old(agent)@.sync,
        final(agent)@.license_key == old(agent)@.license_key,
{
}

/// The mirror of a policy is named after the digest of the licence key.
pub proof fn what_the_mirror_of_a_policy_is_called(key: &str, r: String)
    requires
        call_ensures(cache_file_name, (key,), r),
    ensures
        r@ == "up_rules_"@ + hex_text(md5_digest(encode_utf8(key@))).take(16) + ".json"@,
{
}

/// What starts empty: headers, buckets, patterns and the schedule.
pub proof fn what_starts_empty(
    headers: Headers,
    n: usize,
    limiter: RateLimiter,
    cache: RegexCache,
    sync: SyncState,
    pattern: Seq<char>,
    ip: Seq<char>,
)
    requires
        call_ensures(Headers::new, (), headers),
        call_ensures(Headers::len, (&headers,), n),
        call_ensures(RateLimiter::new, (), limiter),
        call_ensures(RegexCache::new, (), cache),
        call_ensures(SyncState::new, (), sync),
    ensures
        n == 0,
        headers@.len() == 0,
        !limiter@.contains_key(ip),
        !cache.patterns().contains(pattern),
        sync.next_sync_at == 0 && sync.synced_at == 0 && sync.failures == 0 && !sync.in_progress,
{
}

} // verus!
