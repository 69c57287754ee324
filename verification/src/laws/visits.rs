//! Laws of what becomes of a request, call by call.

use vstd::prelude::*;
use crate::agent::{
    accepts_policy, score, scored, synced, Decision, DecisionView, Event,
    RelintioAgent, Step, Visit,
};
use crate::challenge::{challenge_url, ChallengeOutcome};
use crate::clock::{seconds, Moment};
use crate::headers::{lookup, lookup_any_case, pairs, putting_sets_one_header, Headers};
use crate::json::{at as found_at, list_at, Json};
use crate::limits::within_rate;
use crate::middleware::{
    collect_headers, cookies_in, field_views, is_client_address, is_html,
    presented_cookies, resolve_domain, resolve_ip, respond, screen, token_in, up_token,
    well_formed, Arrival, Reaction, Screening,
};
use crate::passport::{minted, PassportPayload};
use crate::rules::FactsView;
use crate::scoring::request_score;
use crate::text::{pieces, text_of};
use crate::utils::normalises;
use super::decisions::{what_follows_from_a_challenge, what_follows_from_a_score};
use super::passports::{client_mark, reads_as, sealed};
use super::screening::{
    a_field_is_found_under_its_name, a_forwarded_request_is_its_first_senders,
    a_good_passport_passes, a_raw_header_value_is_used, a_token_is_exchanged_or_refused,
    an_unsealed_token_is_invalid, how_a_decision_is_answered, is_first_field, no_field_called,
    only_a_good_passport_passes, raw_header, the_forwarded_list_alone_decides,
    what_counts_as_a_page, where_else_the_client_is_found, where_the_domain_is_found,
};
use super::texts::has_part;

verus! {

// ---------------------------------------------------------------------------
// Where a request comes from
// ---------------------------------------------------------------------------

/// The client of a request with a forwarding list is what stands before the first comma of
/// that list, once it is normalised, whatever any other field or the other end says.
pub proof fn what_the_client_of_a_forwarded_request_is<C: Fn(&str) -> Option<String>>(
    arrival: &Arrival,
    canonical: &C,
    r: String,
    i: int,
    first: Seq<char>,
    rest: Seq<char>,
)
    requires
        call_ensures(resolve_ip::<C>, (arrival, canonical), r),
        is_first_field(field_views(arrival.fields@), "x-forwarded-for"@, i),
        ({
            let list = text_of(arrival.fields@[i].1);
            list == Some(first) || list == Some(first + seq![','] + rest)
        }),
        forall|k: int| 0 <= k < first.len() ==> #[trigger] first[k] != ',',
    ensures
        normalises(*canonical, first, r@),
{
    a_forwarded_request_is_its_first_senders(
        field_views(arrival.fields@),
        text_of(arrival.peer),
        i,
        first,
        rest,
        *canonical,
        r@,
    );
}

/// What is the client of one request could be that of any other with the same forwarding list.
pub proof fn requests_with_one_forwarding_list<C: Fn(&str) -> Option<String>>(
    arrival: &Arrival,
    other: &Arrival,
    canonical: &C,
    r: String,
    i: int,
    j: int,
)
    requires
        call_ensures(resolve_ip::<C>, (arrival, canonical), r),
        is_first_field(field_views(arrival.fields@), "x-forwarded-for"@, i),
        is_first_field(field_views(other.fields@), "x-forwarded-for"@, j),
        arrival.fields@[i].1 is Some,
        text_of(arrival.fields@[i].1) == text_of(other.fields@[j].1),
    ensures
        is_client_address(field_views(other.fields@), text_of(other.peer), *canonical, r@),
{
    the_forwarded_list_alone_decides(
        field_views(arrival.fields@),
        text_of(arrival.peer),
        i,
        field_views(other.fields@),
        text_of(other.peer),
        j,
        *canonical,
        r@,
    );
}

/// The client of a request without a forwarding list is the first `X-Real-IP`, once it is
/// normalised, or else the other end as it is, or else this machine.
pub proof fn what_the_client_of_another_request_is<C: Fn(&str) -> Option<String>>(
    arrival: &Arrival,
    canonical: &C,
    r: String,
    i: int,
)
    requires
        call_ensures(resolve_ip::<C>, (arrival, canonical), r),
    ensures
        ({
            let fields = field_views(arrival.fields@);
            &&& is_first_field(fields, "x-forwarded-for"@, i) && arrival.fields@[i].1 is None ==> r@
                == "127.0.0.1"@
            &&& no_field_called(fields, "x-forwarded-for"@) && is_first_field(
                fields,
                "x-real-ip"@,
                i,
            ) ==> match arrival.fields@[i].1 {
                Some(text) => normalises(*canonical, text@, r@),
                None => r@ == "127.0.0.1"@,
            }
            &&& no_field_called(fields, "x-forwarded-for"@) && no_field_called(
                fields,
                "x-real-ip"@,
            ) ==> match arrival.peer {
                Some(end) => r@ == end@,
                None => r@ == "127.0.0.1"@,
            }
        }),
{
    where_else_the_client_is_found(
        field_views(arrival.fields@),
        text_of(arrival.peer),
        i,
        *canonical,
        r@,
    );
}

/// The domain of a request is its first `Host`, or else the host of its own address, or else
/// this machine.
pub proof fn what_the_domain_of_a_request_is(arrival: &Arrival, r: String, i: int)
    requires
        call_ensures(resolve_domain, (arrival,), r),
    ensures
        ({
            let fields = field_views(arrival.fields@);
            &&& is_first_field(fields, "host"@, i) ==> (arrival.fields@[i].1 matches Some(t) ==> r@
                == t@)
            &&& no_field_called(fields, "host"@) || is_first_field(fields, "host"@, i)
                && arrival.fields@[i].1 is None ==> match arrival.uri_host {
                Some(host) => r@ == host@,
                None => r@ == "localhost"@,
            }
        }),
{
    where_the_domain_is_found(field_views(arrival.fields@), text_of(arrival.uri_host), i);
}

/// The headers of a request hold, under a name in lower case, the last of its values that is
/// text, as it was sent.
pub proof fn what_collecting_headers_gives(
    fields: &Vec<(String, Option<String>)>,
    r: Headers,
    name: Seq<char>,
    i: int,
)
    requires
        call_ensures(collect_headers, (fields,), r),
        -1 <= i < fields@.len(),
        i >= 0 ==> crate::text::lowered(fields@[i].0@) == name && fields@[i].1 is Some,
        forall|j: int|
            i < j < fields@.len() ==> crate::text::lowered((#[trigger] fields@[j]).0@) != name
                || fields@[j].1 is None,
    ensures
        i >= 0 ==> lookup(r@, name) == text_of(fields@[i].1),
        i == -1 ==> lookup(r@, name) is None,
{
    let all = field_views(fields@);
    assert forall|j: int| i < j < all.len() implies crate::text::lowered((#[trigger] all[j]).0)
        != name || all[j].1 is None by {
        assert(crate::text::lowered(fields@[j].0@) != name || fields@[j].1 is None);
    }
    a_raw_header_value_is_used(all, name, i);
}

/// The cookies of a request are those of its first `Cookie`, all that are well formed and in
/// their order.
pub proof fn what_the_cookies_of_a_request_are(
    fields: &Vec<(String, Option<String>)>,
    r: Vec<(String, String)>,
    i: int,
)
    requires
        call_ensures(presented_cookies, (fields,), r),
    ensures
        is_first_field(field_views(fields@), "cookie"@, i) ==> match fields@[i].1 {
            Some(text) => pairs(r@) == well_formed(cookies_in(pieces(text@, ';'))),
            None => r@.len() == 0,
        },
        no_field_called(field_views(fields@), "cookie"@) ==> r@.len() == 0,
{
    a_field_is_found_under_its_name(field_views(fields@), "cookie"@, i);
    assert(pairs(r@).len() == r@.len());
}

/// The pass token of a query comes back as it stands there, from the last part that has one.
pub proof fn what_the_pass_token_of_a_query_is(
    query: &str,
    r: Option<String>,
    none: Option<String>,
    i: int,
    token: Seq<char>,
)
    requires
        call_ensures(up_token, (Some(query),), r),
        call_ensures(up_token, (None,), none),
    ensures
        none is None,
        ({
            let parts = pieces(query@, '&');
            &&& 0 <= i < parts.len() && parts[i] == "up_token="@ + token && (forall|
                j: int,
                other: Seq<char>,
            |
                i < j < parts.len() ==> #[trigger] parts[j] != #[trigger] ("up_token="@ + other))
                ==> text_of(r) == Some(token)
            &&& (forall|j: int, other: Seq<char>|
                0 <= j < parts.len() ==> #[trigger] parts[j] != #[trigger] ("up_token="@ + other))
                ==> r is None
        }),
{
    super::screening::the_last_up_token_counts(query@, i, token);
}

// ---------------------------------------------------------------------------
// Screening
// ---------------------------------------------------------------------------

/// What screening gives for a sealed pass token: a passport for this client and the life asked
/// for where it holds, a refusal where it does not, whatever the cookies are.
pub proof fn what_screening_a_token_gives<
    D: Fn(&[u8]) -> Option<PassportPayload>,
    C: Fn(&str) -> Option<String>,
>(
    agent: &RelintioAgent,
    arrival: &Arrival,
    cookies: &Vec<(String, String)>,
    now: i64,
    decode: &D,
    canonical: &C,
    r: Screening,
    token: Seq<char>,
    raw: Seq<u8>,
    payload: PassportPayload,
)
    requires
        call_ensures(
            screen::<D, C>,
            (agent, arrival, cookies, Some(now), decode, canonical),
            r,
        ),
        now + 604_800 <= i64::MAX,
        token_in(text_of(arrival.query)) == Some(token),
        crate::middleware::decoded_token(token) == sealed(raw, agent@.license_key),
        raw.len() > 0,
        reads_as(*decode, raw, Some(payload)),
    ensures
        ({
            let ua = raw_header(*arrival, "user-agent"@);
            let lang = raw_header(*arrival, "accept-language"@);
            let good = now <= payload.exp + 60 && payload.b@ == client_mark(
                agent@.license_key,
                ua,
                lang,
            );
            &&& r is InvalidToken <==> !good
            &&& good ==> (r matches Screening::Granted { location, passport, max_age } && {
                &&& location@ == arrival.path@
                &&& 300 <= max_age <= 604_800
                &&& payload.ttl matches Some(ttl) ==> (300 <= ttl <= 604_800 ==> max_age == ttl)
                &&& payload.ttl is None ==> max_age == 86_400
                &&& passport@ == minted(now + max_age, agent@.license_key, ua, lang)
            })
        }),
{
    a_token_is_exchanged_or_refused(
        *arrival,
        pairs(cookies@),
        agent@.license_key,
        now,
        *decode,
        *canonical,
        r,
        token,
        raw,
        Some(payload),
    );
}

/// What screening gives for a pass token that was not sealed with the licence key: a refusal.
pub proof fn what_screening_a_forged_token_gives<
    D: Fn(&[u8]) -> Option<PassportPayload>,
    C: Fn(&str) -> Option<String>,
>(
    agent: &RelintioAgent,
    arrival: &Arrival,
    cookies: &Vec<(String, String)>,
    now: Option<i64>,
    decode: &D,
    canonical: &C,
    r: Screening,
    token: Seq<char>,
)
    requires
        call_ensures(screen::<D, C>, (agent, arrival, cookies, now, decode, canonical), r),
        token_in(text_of(arrival.query)) == Some(token),
        forall|raw: Seq<u8>|
            raw.len() > 0 ==> crate::middleware::decoded_token(token) != #[trigger] sealed(
                raw,
                agent@.license_key,
            ),
    ensures
        r is InvalidToken,
{
    an_unsealed_token_is_invalid(
        *arrival,
        pairs(cookies@),
        agent@.license_key,
        now,
        *decode,
        *canonical,
        r,
        token,
    );
}

/// What screening gives without a pass token: the visitor passes with a passport that is sealed,
/// not expired and bound to them, and only so; any other request is scored, with its own path and
/// method.
pub proof fn what_screening_a_cookie_gives<
    D: Fn(&[u8]) -> Option<PassportPayload>,
    C: Fn(&str) -> Option<String>,
>(
    agent: &RelintioAgent,
    arrival: &Arrival,
    cookies: &Vec<(String, String)>,
    now: i64,
    decode: &D,
    canonical: &C,
    r: Screening,
    i: int,
    raw: Seq<u8>,
    payload: PassportPayload,
)
    requires
        call_ensures(
            screen::<D, C>,
            (agent, arrival, cookies, Some(now), decode, canonical),
            r,
        ),
        token_in(text_of(arrival.query)) is None,
    ensures
        r is Human || r is Unknown,
        r matches Screening::Unknown(visit) ==> visit.path@ == arrival.path@ && visit.method@
            == arrival.method@,
        ({
            let mark = client_mark(
                agent@.license_key,
                raw_header(*arrival, "user-agent"@),
                raw_header(*arrival, "accept-language"@),
            );
            &&& 0 <= i < cookies@.len() && cookies@[i].0@ == "relintio_passport"@
                && cookies@[i].1@ == sealed(raw, agent@.license_key) && raw.len() > 0 && reads_as(
                *decode,
                raw,
                Some(payload),
            ) && now <= payload.exp + 60 && payload.b@ == mark ==> r is Human
            &&& (forall|k: int| 0 <= k < cookies@.len() ==> (#[trigger] cookies@[k]).0@
                != "relintio_passport"@) ==> r is Unknown
        }),
{
    let shown = pairs(cookies@);
    let key = agent@.license_key;
    if 0 <= i < cookies@.len() && cookies@[i].0@ == "relintio_passport"@ && cookies@[i].1@ == sealed(
        raw,
        key,
    ) && raw.len() > 0 && reads_as(*decode, raw, Some(payload)) && now <= payload.exp + 60
        && payload.b@ == client_mark(
        key,
        raw_header(*arrival, "user-agent"@),
        raw_header(*arrival, "accept-language"@),
    ) {
        a_good_passport_passes(
            *arrival,
            shown,
            i,
            key,
            now,
            *decode,
            *canonical,
            r,
            raw,
            payload,
        );
    }
    if r is Human {
        only_a_good_passport_passes(*arrival, shown, key, Some(now), *decode, *canonical);
        let k = choose|k: int| 0 <= k < shown.len() && (#[trigger] shown[k]).0
            == "relintio_passport"@;
        assert(cookies@[k].0@ == shown[k].0);
    }
}

/// What a decision is answered with.
pub proof fn what_responding_gives(decision: Decision, r: Reaction)
    requires
        call_ensures(respond, (decision,), r),
    ensures
        decision is Allow ==> r == (Reaction::Forward { delay_seconds: 0, inject: true }),
        decision is Slow ==> r == (Reaction::Forward { delay_seconds: 2, inject: false }),
        decision matches Decision::Challenge { redirect_url } ==> (r matches Reaction::Respond(a)
            && a.status == 302 && text_of(a.location) == Some(redirect_url@)),
        decision is Decoy ==> (r matches Reaction::Respond(a) && a.status == 200),
        decision is Block ==> (r matches Reaction::Respond(a) && a.status == 403),
{
    how_a_decision_is_answered(Seq::empty(), r);
    if let Decision::Challenge { redirect_url } = decision {
        how_a_decision_is_answered(redirect_url@, r);
    }
}

/// A response is a page exactly where `text/html` stands somewhere in its content type.
pub proof fn what_asking_for_a_page_gives(content_type: &str, r: bool, none: bool)
    requires
        call_ensures(is_html, (Some(content_type),), r),
        call_ensures(is_html, (None,), none),
    ensures
        r == has_part(content_type@, "text/html"@),
        !none,
{
    what_counts_as_a_page(content_type@);
}

// ---------------------------------------------------------------------------
// Scoring and deciding
// ---------------------------------------------------------------------------

/// A request is scored by what it is: its own address, path, headers and user agent, under the
/// policy of the agent and the rate of this client on this path; the score changes nothing but the
/// buckets and the patterns that are kept.
pub proof fn what_scoring_a_request_gives(
    agent: &mut RelintioAgent,
    ip: &str,
    ua: Option<&str>,
    headers: &Headers,
    method: &str,
    path: &str,
    now: u64,
    r: u32,
)
    requires
        call_ensures(
            RelintioAgent::score_request_at,
            (agent, ip, ua, headers, method, path, now),
            r,
        ),
    ensures
        r == request_score(
            old(agent)@.policy,
            FactsView {
                ip: ip@,
                path: path@,
                user_agent: match ua {
                    Some(t) => t@,
                    None => Seq::empty(),
                },
                headers: headers@,
            },
            method@,
            within_rate(old(agent)@.buckets, ip@, path@, now),
        ),
        final(agent)@.policy == old(agent)@.policy,
        final(agent)@.sync == old(agent)@.sync,
        final(agent)@.license_key == old(agent)@.license_key,
        final(agent)@.api_url == old(agent)@.api_url,
        final(agent)@.interval == old(agent)@.interval,
{
}

/// An answer is taken for the policy exactly where it has an array under `rules`; any other leaves
/// the agent as it was.
pub proof fn what_taking_a_policy_gives(
    agent: &mut RelintioAgent,
    reply: Json,
    at: &Moment,
    r: Result<(), String>,
    accepted: bool,
)
    requires
        call_ensures(RelintioAgent::refresh_rules, (agent, reply, at), r),
        call_ensures(accepts_policy, (&reply,), accepted),
    ensures
        r is Ok <==> list_at(reply, "rules"@) is Some,
        accepted <==> list_at(reply, "rules"@) is Some,
        r is Ok ==> final(agent)@.policy == Some(reply) && final(agent)@.sync.synced_at == seconds(
            *at,
        ),
        r is Err ==> final(agent)@ == old(agent)@,
        final(agent)@.sync.next_sync_at == old(agent)@.sync.next_sync_at,
        final(agent)@.sync.failures == old(agent)@.sync.failures,
        final(agent)@.sync.in_progress == old(agent)@.sync.in_progress,
        final(agent)@.buckets == old(agent)@.buckets,
        final(agent)@.license_key == old(agent)@.license_key,
{
}

/// A request that comes in fetches the policy first exactly where a fetch is due and none is under
/// way, and is scored otherwise, with the decision that its score asks for.
pub proof fn what_evaluating_an_arrival_gives(
    agent: &mut RelintioAgent,
    visit: &Visit,
    at: &Moment,
    r: Step,
)
    requires
        call_ensures(RelintioAgent::evaluate, (agent, visit, Event::Arrived, at), r),
    ensures
        ({
            let sync = old(agent)@.sync;
            let fetching = sync.next_sync_at <= seconds(*at) && !sync.in_progress;
            let n = score(old(agent)@, visit.facts(), visit.method@, seconds(*at));
            &&& r is Sync <==> fetching
            &&& fetching ==> final(agent)@.sync.in_progress && final(agent)@.policy == old(
                agent,
            )@.policy && final(agent)@.buckets == old(agent)@.buckets
            &&& !fetching ==> {
                &&& n < 40 ==> r == Step::Decided(Decision::Allow)
                &&& 40 <= n < 60 ==> r == Step::Decided(Decision::Slow)
                &&& 60 <= n < 75 ==> r is Challenge
                &&& 75 <= n < 85 ==> r == Step::Decided(Decision::Decoy)
                &&& 85 <= n ==> r == Step::Decided(Decision::Block)
                &&& final(agent)@ == scored(old(agent)@, visit.facts(), seconds(*at))
            }
        }),
{
    what_follows_from_a_score(old(agent)@, *visit, *at, r);
}

/// A request whose fetch came to its end is scored under what the agent then has: the new policy
/// where the answer was one, and the last one otherwise.
pub proof fn what_evaluating_after_a_fetch_gives(
    agent: &mut RelintioAgent,
    visit: &Visit,
    reply: Option<Json>,
    at: &Moment,
    r: Step,
)
    requires
        call_ensures(RelintioAgent::evaluate, (agent, visit, Event::Synced(reply), at), r),
    ensures
        ({
            let success = reply matches Some(doc) && list_at(doc, "rules"@) is Some;
            let n = score(
                synced(old(agent)@, reply, *at),
                visit.facts(),
                visit.method@,
                seconds(*at),
            );
            &&& final(agent)@.policy == (if success {
                reply
            } else {
                old(agent)@.policy
            })
            &&& !final(agent)@.sync.in_progress
            &&& n < 40 ==> r == Step::Decided(Decision::Allow)
            &&& 40 <= n < 60 ==> r == Step::Decided(Decision::Slow)
            &&& 60 <= n < 75 ==> r is Challenge
            &&& 75 <= n < 85 ==> r == Step::Decided(Decision::Decoy)
            &&& 85 <= n ==> r == Step::Decided(Decision::Block)
        }),
{
    what_follows_from_a_score(synced(old(agent)@, reply, *at), *visit, *at, r);
}

/// A request whose challenge came to its end is decided by that alone, and changes nothing.
pub proof fn what_evaluating_after_a_challenge_gives(
    agent: &mut RelintioAgent,
    visit: &Visit,
    reply: Json,
    at: &Moment,
    r: Step,
    api_url: &str,
    outcome: ChallengeOutcome,
)
    requires
        call_ensures(
            RelintioAgent::evaluate,
            (agent, visit, Event::Challenged(Some(reply)), at),
            r,
        ),
        api_url@ == old(agent)@.api_url,
        call_ensures(challenge_url, (Some(&reply), api_url), outcome),
    ensures
        final(agent)@ == old(agent)@,
        r matches Step::Decided(decision) && match outcome {
            ChallengeOutcome::Redirect(url) => decision@ == (DecisionView::Challenge {
                redirect_url: url@,
            }),
            ChallengeOutcome::Disabled { block } => decision == (if block {
                Decision::Block
            } else {
                Decision::Allow
            }),
            ChallengeOutcome::Unavailable => decision == Decision::Block,
        },
{
}

/// A request whose challenge could not be had is blocked.
pub proof fn what_evaluating_without_a_challenge_gives(
    agent: &mut RelintioAgent,
    visit: &Visit,
    at: &Moment,
    r: Step,
)
    requires
        call_ensures(RelintioAgent::evaluate, (agent, visit, Event::Challenged(None), at), r),
    ensures
        r == Step::Decided(Decision::Block),
        final(agent)@ == old(agent)@,
{
    what_follows_from_a_challenge(Seq::empty());
}

// ---------------------------------------------------------------------------
// Headers and documents
// ---------------------------------------------------------------------------

/// A header that was put in is found under its very name, and every other one as it was.
pub proof fn what_putting_a_header_in_gives(
    headers: &mut Headers,
    name: String,
    value: String,
    other: Seq<char>,
)
    requires
        call_ensures(Headers::insert, (headers, name, value), ()),
        crate::headers::distinct(old(headers)@),
    ensures
        lookup(final(headers)@, name@) == Some(value@),
        other != name@ ==> lookup(final(headers)@, other) == lookup(old(headers)@, other),
{
    putting_sets_one_header(old(headers)@, name@, value@, other);
}

/// A header is read as it stands: by its very name, or by its name in whatever case.
pub proof fn what_reading_a_header_gives(
    headers: &Headers,
    name: &str,
    r: Option<&str>,
    there: bool,
    value: &str,
)
    requires
        call_ensures(Headers::get, (headers, name), r),
        call_ensures(Headers::contains_key, (headers, name), there),
        call_ensures(Headers::header_value, (headers, name), value),
    ensures
        r matches Some(t) ==> lookup(headers@, name@) == Some(t@),
        r is None ==> lookup(headers@, name@) is None,
        there == r is Some,
        value@ == lookup_any_case(headers@, name@),
{
}

/// A member of a document is read as what it is.
pub proof fn what_reading_a_member_gives(
    doc: &Json,
    name: &str,
    text: Option<&str>,
    flag: bool,
    count: Option<u64>,
    list: Option<&Vec<Json>>,
)
    requires
        call_ensures(Json::get_str, (doc, name), text),
        call_ensures(Json::get_flag, (doc, name), flag),
        call_ensures(Json::get_u64, (doc, name), count),
        call_ensures(Json::get_array, (doc, name), list),
    ensures
        match found_at(*doc, name@) {
            Some(Json::Text(t)) => text matches Some(s) && s@ == t@,
            _ => text is None,
        },
        match found_at(*doc, name@) {
            Some(Json::Bool(b)) => flag == b,
            _ => !flag,
        },
        match found_at(*doc, name@) {
            Some(Json::Unsigned(n)) => count == Some(n),
            _ => count is None,
        },
        match found_at(*doc, name@) {
            Some(Json::Array(items)) => list matches Some(v) && v@ == items@,
            _ => list is None,
        },
{
}

} // verus!
