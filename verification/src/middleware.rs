//! What happens to a request before it is scored, and how a decision is
//! answered.
//!
//! A web framework hands in what it received as an `Arrival`. The passport is
//! looked at first: a pass token is exchanged for a cookie, and a valid cookie
//! goes straight to the handler. Only then is the request scored.

use vstd::prelude::*;
use vstd::utf8::{
    decode_utf8, encode_utf8, encode_utf8_decode_utf8, encode_utf8_valid_utf8, is_ascii_chars,
    is_ascii_chars_encode_utf8, valid_utf8,
};
use crate::agent::{Decision, DecisionView, RelintioAgent, Visit, BLOCK_HTML, DECOY_HTML};
use crate::codec::{percent_decode, percent_decoded, percent_decoded_plain, percent_decoded_text};
use crate::headers::{distinct, lookup, pairs, put, putting_sets_one_header, Headers};
use crate::passport::{
    a_minted_passport_is_bound_to_its_client, a_token_needs_no_escaping, authentic, binding,
    clamp_ttl, clamped, is_binding_text, is_now, is_verdict, minted, reads_minted_bodies, token_text, PassportPayload,
    CLOCK_SKEW_SECONDS, DEFAULT_TTL, MAX_TTL, MIN_TTL, PASSPORT_COOKIE,
};
use crate::text::{
    ascii_lower, begins, contains, eq_ignore_ascii_case, find, first_index, first_index_of_push,
    from_chars, holds, lowered, nothing_to_strip, pieces, pieces_of_one, pieces_of_two, same,
    signed_decimal, split, text_of, to_chars, to_lowercase, trimmed, views, CharClass,
};
use crate::utils::normalises;

verus! {

/// The seconds for which a slowed request waits.
pub const SLOW_SECONDS: u64 = 2;

/// The domain of a request that names none.
pub const DEFAULT_DOMAIN: &'static str = "localhost";

/// The address of a client that cannot be told.
pub const DEFAULT_ADDRESS: &'static str = "127.0.0.1";

/// The path that the passport cookie is sent for.
pub const COOKIE_PATH: &'static str = "/";

/// The answer to a pass token that is not accepted.
pub const INVALID_TOKEN: &'static str = "Invalid Token";

/// A request as a framework received it.
#[derive(Debug)]
pub struct Arrival {
    /// The header fields, the values of one name in their order. A value that is
    /// not text is missing.
    pub fields: Vec<(String, Option<String>)>,
    /// The host of the request's own address.
    pub uri_host: Option<String>,
    pub path: String,
    pub query: Option<String>,
    pub method: String,
    /// The address of the other end, where the framework tells it.
    pub peer: Option<String>,
}

/// The names and values of the fields, in their order.
pub open spec fn field_views(fields: Seq<(String, Option<String>)>) -> Seq<
    (Seq<char>, Option<Seq<char>>),
> {
    fields.map_values(|f: (String, Option<String>)| (f.0@, text_of(f.1)))
}

// ---------------------------------------------------------------------------
// Header fields
// ---------------------------------------------------------------------------

/// The value of the first field called `name`, in whatever case: nothing where
/// there is none, and a missing value where it is not text.
pub open spec fn first_field(
    fields: Seq<(Seq<char>, Option<Seq<char>>)>,
    name: Seq<char>,
) -> Option<Option<Seq<char>>>
    decreases fields.len(),
{
    if fields.len() == 0 {
        None
    } else if ascii_lower(fields[0].0) == ascii_lower(name) {
        Some(fields[0].1)
    } else {
        first_field(fields.skip(1), name)
    }
}

/// The headers that the fields give: names in lower case, values that are not
/// text left out, and the last of several values of one name.
pub open spec fn collected(fields: Seq<(Seq<char>, Option<Seq<char>>)>) -> Seq<
    (Seq<char>, Seq<char>),
>
    decreases fields.len(),
{
    if fields.len() == 0 {
        Seq::empty()
    } else {
        let before = collected(fields.drop_last());
        match fields.last().1 {
            Some(value) => put(before, lowered(fields.last().0), value),
            None => before,
        }
    }
}

/// The value of a collected header; the empty text where there is none.
pub open spec fn header_or_empty(headers: Seq<(Seq<char>, Seq<char>)>, name: Seq<char>) -> Seq<
    char,
> {
    match lookup(headers, name) {
        Some(value) => value,
        None => Seq::empty(),
    }
}

/// The position of the first field called `name`; the number of fields where
/// there is none.
fn find_field(fields: &Vec<(String, Option<String>)>, name: &str) -> (r: usize)
    ensures
        r <= fields@.len(),
        r < fields@.len() ==> first_field(field_views(fields@), name@) == Some(
            text_of(fields@[r as int].1),
        ),
        r == fields@.len() ==> first_field(field_views(fields@), name@) is None,
{
    let mut i: usize = 0;
    let ghost all = field_views(fields@);
    assert(all.skip(0) =~= all);
    while i < fields.len()
        invariant
            i <= fields@.len(),
            all == field_views(fields@),
            first_field(all, name@) == first_field(all.skip(i as int), name@),
        decreases fields@.len() - i,
    {
        if eq_ignore_ascii_case(fields[i].0.as_str(), name) {
            return i;
        }
        assert(all.skip(i as int).skip(1) =~= all.skip(i + 1));
        i = i + 1;
    }
    i
}

/// The headers that the fields give.
pub fn collect_headers(fields: &Vec<(String, Option<String>)>) -> (r: Headers)
    ensures
        r@ == collected(field_views(fields@)),
        distinct(r@),
{
    let mut headers = Headers::new();
    let mut i: usize = 0;
    let ghost all = field_views(fields@);
    assert(all.take(0) =~= Seq::empty());
    while i < fields.len()
        invariant
            i <= fields@.len(),
            all == field_views(fields@),
            headers@ == collected(all.take(i as int)),
            distinct(headers@),
        decreases fields@.len() - i,
    {
        assert(all.take(i + 1).drop_last() =~= all.take(i as int));
        if let Some(value) = &fields[i].1 {
            headers.insert(to_lowercase(fields[i].0.as_str()), value.as_str().to_owned());
        }
        i = i + 1;
    }
    assert(all.take(all.len() as int) =~= all);
    headers
}

/// The domain of a request: what the `Host` field says, or else the request's
/// own address, or else this machine.
pub open spec fn domain_of(
    fields: Seq<(Seq<char>, Option<Seq<char>>)>,
    uri_host: Option<Seq<char>>,
) -> Seq<char> {
    match first_field(fields, "host"@) {
        Some(Some(host)) => host,
        _ => match uri_host {
            Some(host) => host,
            None => DEFAULT_DOMAIN@,
        },
    }
}

/// The domain of a request.
///
/// The authority is read from the `Host` field first: the request line of
/// ordinary traffic carries only the path.
pub fn resolve_domain(arrival: &Arrival) -> (r: String)
    ensures
        r@ == domain_of(field_views(arrival.fields@), text_of(arrival.uri_host)),
{
    let i: usize = find_field(&arrival.fields, "host");
    if i < arrival.fields.len() {
        if let Some(host) = &arrival.fields[i].1 {
            return host.as_str().to_owned();
        }
    }
    match &arrival.uri_host {
        Some(host) => host.as_str().to_owned(),
        None => DEFAULT_DOMAIN.to_owned(),
    }
}

/// Where the address of a client is taken from.
pub enum AddressView {
    /// This text, once it is normalised.
    Reported(Seq<char>),
    /// This address.
    Known(Seq<char>),
}

/// Where the address of a client is taken from: the first entry of
/// `X-Forwarded-For`, or else `X-Real-IP`, or else the other end of the
/// connection. A field that is there but is not text gives nothing.
pub open spec fn address_of(
    fields: Seq<(Seq<char>, Option<Seq<char>>)>,
    peer: Option<Seq<char>>,
) -> AddressView {
    match first_field(fields, "x-forwarded-for"@) {
        Some(Some(list)) => AddressView::Reported(pieces(list, ',')[0]),
        Some(None) => AddressView::Known(DEFAULT_ADDRESS@),
        None => match first_field(fields, "x-real-ip"@) {
            Some(Some(address)) => AddressView::Reported(address),
            Some(None) => AddressView::Known(DEFAULT_ADDRESS@),
            None => match peer {
                Some(address) => AddressView::Known(address),
                None => AddressView::Known(DEFAULT_ADDRESS@),
            },
        },
    }
}

/// `r` is the address that is taken for the client.
pub open spec fn is_client_address<C: Fn(&str) -> Option<String>>(
    fields: Seq<(Seq<char>, Option<Seq<char>>)>,
    peer: Option<Seq<char>>,
    canonical: C,
    r: Seq<char>,
) -> bool {
    match address_of(fields, peer) {
        AddressView::Reported(text) => normalises(canonical, text, r),
        AddressView::Known(text) => r == text,
    }
}

/// The address that is taken for the client.
pub fn resolve_ip<C: Fn(&str) -> Option<String>>(arrival: &Arrival, canonical: &C) -> (r: String)
    requires
        forall|text: &str| call_requires(*canonical, (text,)),
    ensures
        is_client_address(
            field_views(arrival.fields@),
            text_of(arrival.peer),
            *canonical,
            r@,
        ),
{
    let i: usize = find_field(&arrival.fields, "x-forwarded-for");
    if i < arrival.fields.len() {
        return match &arrival.fields[i].1 {
            Some(list) => {
                let parts = split(list.as_str(), ',');
                assert(views(parts@)[0] == parts@[0]@);
                crate::utils::normalize_ip(parts[0].as_str(), canonical)
            },
            None => DEFAULT_ADDRESS.to_owned(),
        };
    }
    let j: usize = find_field(&arrival.fields, "x-real-ip");
    if j < arrival.fields.len() {
        return match &arrival.fields[j].1 {
            Some(address) => crate::utils::normalize_ip(address.as_str(), canonical),
            None => DEFAULT_ADDRESS.to_owned(),
        };
    }
    match &arrival.peer {
        Some(address) => address.as_str().to_owned(),
        None => DEFAULT_ADDRESS.to_owned(),
    }
}

// ---------------------------------------------------------------------------
// Tokens and cookies
// ---------------------------------------------------------------------------

/// The value of the last `name=value` among the parts of a query: what stands
/// behind the first equals sign of a part is the value, whatever it holds. A part
/// without an equals sign has none.
pub open spec fn parameter(parts: Seq<Seq<char>>, name: Seq<char>) -> Option<Seq<char>>
    decreases parts.len(),
{
    if parts.len() == 0 {
        None
    } else {
        let part = parts.last();
        let cut = first_index(part, '=');
        if cut < part.len() && part.take(cut) == name {
            Some(part.skip(cut + 1))
        } else {
            parameter(parts.drop_last(), name)
        }
    }
}

/// The pass token in a query, still percent-encoded.
pub open spec fn token_in(query: Option<Seq<char>>) -> Option<Seq<char>> {
    match query {
        Some(text) => parameter(pieces(text, '&'), "up_token"@),
        None => None,
    }
}

/// A pass token after percent-decoding. Where the decoded bytes are UTF-8 it is
/// their text.
pub open spec fn decoded_token(token: Seq<char>) -> Seq<char> {
    let bytes = percent_decoded(encode_utf8(token));
    if valid_utf8(bytes) {
        decode_utf8(bytes)
    } else {
        percent_decoded_text(token)
    }
}

/// The pass token in a query, still percent-encoded.
pub fn up_token(query: Option<&str>) -> (r: Option<String>)
    ensures
        text_of(r) == token_in(
            match query {
                Some(text) => Some(text@),
                None => None,
            },
        ),
{
    let text = match query {
        Some(text) => text,
        None => {
            return None;
        },
    };
    let parts = split(text, '&');
    let ghost all = pieces(text@, '&');
    let mut n: usize = parts.len();
    assert(all.take(all.len() as int) =~= all);
    while n > 0
        invariant
            n <= parts@.len(),
            query == Some(text),
            all == pieces(text@, '&'),
            views(parts@) == all,
            parameter(all, "up_token"@) == parameter(all.take(n as int), "up_token"@),
        decreases n,
    {
        assert(all[n - 1] == parts@[n - 1]@);
        assert(all.take(n as int).last() == parts@[n - 1]@);
        assert(all.take(n as int).drop_last() =~= all.take(n - 1));
        let part = to_chars(parts[n - 1].as_str());
        let cut: usize = find(&part, '=');
        if cut < part.len() {
            assert(part@.take(cut as int) =~= part@.subrange(0, cut as int));
            let name = from_chars(&part, 0, cut);
            if same(name.as_str(), "up_token") {
                assert(part@.skip(cut + 1) =~= part@.subrange(cut + 1, part@.len() as int));
                return Some(from_chars(&part, cut + 1, part.len()));
            }
        }
        n = n - 1;
    }
    None
}

/// The cookie in one part of a `Cookie` field: what stands before the first
/// equals sign and what stands behind it, trimmed. A part without an equals sign
/// or without a name is no cookie.
pub open spec fn cookie_in(part: Seq<char>) -> Option<(Seq<char>, Seq<char>)> {
    let text = trimmed(part);
    let cut = first_index(text, '=');
    let name = trimmed(text.take(cut));
    if cut < text.len() && name.len() > 0 {
        Some((name, trimmed(text.skip(cut + 1))))
    } else {
        None
    }
}

/// What comes of the parts of a `Cookie` field, one by one; blank parts are
/// passed over.
pub open spec fn cookies_in(parts: Seq<Seq<char>>) -> Seq<Option<(Seq<char>, Seq<char>)>>
    decreases parts.len(),
{
    if parts.len() == 0 {
        Seq::empty()
    } else if trimmed(parts.last()).len() == 0 {
        cookies_in(parts.drop_last())
    } else {
        cookies_in(parts.drop_last()).push(cookie_in(parts.last()))
    }
}

/// What comes of each part that was parsed.
pub open spec fn parsed_views(list: Seq<Option<(String, String)>>) -> Seq<
    Option<(Seq<char>, Seq<char>)>,
> {
    list.map_values(
        |c: Option<(String, String)>|
            match c {
                Some(pair) => Some((pair.0@, pair.1@)),
                None => None,
            },
    )
}

/// `Cookie::split_parse` of the cookie crate: the field is cut at every `;`,
/// parts of nothing but white space are passed over, and each other part is
/// parsed by itself, without percent-decoding.
#[verifier::external_body]
pub(crate) fn split_cookies(text: &str) -> (r: Vec<Option<(String, String)>>)
    ensures
        parsed_views(r@) == cookies_in(pieces(text@, ';')),
{
    cookie::Cookie::split_parse(text)
        .map(|c| c.ok().map(|c| (c.name().to_string(), c.value().to_string())))
        .collect()
}

/// The cookies among what was parsed.
pub open spec fn well_formed(list: Seq<Option<(Seq<char>, Seq<char>)>>) -> Seq<
    (Seq<char>, Seq<char>),
>
    decreases list.len(),
{
    if list.len() == 0 {
        Seq::empty()
    } else {
        match list.last() {
            Some(cookie) => well_formed(list.drop_last()).push(cookie),
            None => well_formed(list.drop_last()),
        }
    }
}

/// The cookies of the first `Cookie` field.
pub open spec fn cookies_of(fields: Seq<(Seq<char>, Option<Seq<char>>)>) -> Seq<
    (Seq<char>, Seq<char>),
> {
    match first_field(fields, "cookie"@) {
        Some(Some(text)) => well_formed(cookies_in(pieces(text, ';'))),
        _ => Seq::empty(),
    }
}

/// The cookies of the first `Cookie` field.
pub fn presented_cookies(fields: &Vec<(String, Option<String>)>) -> (r: Vec<(String, String)>)
    ensures
        pairs(r@) == cookies_of(field_views(fields@)),
{
    let mut cookies: Vec<(String, String)> = Vec::new();
    assert(pairs(cookies@) =~= Seq::empty());
    let i: usize = find_field(fields, "cookie");
    if i < fields.len() {
        if let Some(text) = &fields[i].1 {
            let parsed = split_cookies(text.as_str());
            let ghost all = parsed_views(parsed@);
            let mut k: usize = 0;
            assert(all.take(0) =~= Seq::empty());
            while k < parsed.len()
                invariant
                    k <= parsed@.len(),
                    all == parsed_views(parsed@),
                    pairs(cookies@) == well_formed(all.take(k as int)),
                decreases parsed@.len() - k,
            {
                assert(all.take(k + 1).drop_last() =~= all.take(k as int));
                if let Some(cookie) = &parsed[k] {
                    let ghost before = cookies@;
                    cookies.push((cookie.0.as_str().to_owned(), cookie.1.as_str().to_owned()));
                    assert(pairs(cookies@) =~= pairs(before).push((cookie.0@, cookie.1@)));
                }
                k = k + 1;
            }
            assert(all.take(all.len() as int) =~= all);
        }
    }
    cookies
}

/// The value of a `Set-Cookie` field with a path, an age and, where asked for,
/// `HttpOnly`.
pub open spec fn cookie_text(
    name: Seq<char>,
    value: Seq<char>,
    path: Seq<char>,
    max_age: i64,
    http_only: bool,
) -> Seq<char> {
    name + "="@ + value + (if http_only {
        "; HttpOnly"@
    } else {
        Seq::empty()
    }) + "; Path="@ + path + "; Max-Age="@ + signed_decimal(max_age as int)
}

/// `Cookie::build` of the cookie crate with a path, an age in seconds and whether
/// it is `HttpOnly`, written with `to_string`.
#[verifier::external_body]
pub(crate) fn set_cookie(
    name: &str,
    value: &str,
    path: &str,
    max_age: i64,
    http_only: bool,
) -> (r: String)
    ensures
        r@ == cookie_text(name@, value@, path@, max_age, http_only),
{
    cookie::Cookie::build((name, value))
        .path(path)
        .max_age(cookie::time::Duration::seconds(max_age))
        .http_only(http_only)
        .build()
        .to_string()
}

// ---------------------------------------------------------------------------
// Screening
// ---------------------------------------------------------------------------

/// What is to be done with a request before it is scored.
#[derive(Debug)]
pub enum Screening {
    /// The pass token was accepted: send the visitor back to the path, with a
    /// passport that lives so many seconds.
    Granted { location: String, passport: String, max_age: i64 },
    /// The pass token was not accepted.
    InvalidToken,
    /// The visitor holds a passport.
    Human,
    /// Nothing is known of the visitor: this is to be scored.
    Unknown(Visit),
}

/// A time that is given leaves room for the life of a passport.
pub open spec fn leaves_room(now: Option<i64>) -> bool {
    now matches Some(n) ==> n + MAX_TTL <= i64::MAX
}

/// `r` is what comes of exchanging a pass token for a passport: a passport for
/// as long as the token asks, within bounds, where the token is accepted, and a
/// refusal where it is not.
pub open spec fn is_exchange<D: Fn(&[u8]) -> Option<PassportPayload>>(
    token: Seq<char>,
    path: Seq<char>,
    license_key: Seq<char>,
    user_agent: Seq<char>,
    accept_language: Seq<char>,
    now: Option<i64>,
    decode: D,
    r: Screening,
) -> bool {
    exists|verdict: Option<PassportPayload>|
        {
            &&& #[trigger] is_verdict(
                token,
                license_key,
                user_agent,
                accept_language,
                now,
                decode,
                verdict,
            )
            &&& match verdict {
                Some(payload) => r matches Screening::Granted { location, passport, max_age } && {
                    &&& location@ == path
                    &&& max_age == clamped(
                        match payload.ttl {
                            Some(ttl) => ttl as int,
                            None => 0,
                        },
                    )
                    &&& exists|t: i64|
                        {
                            &&& #[trigger] is_now(now, t)
                            &&& passport@ == minted(
                                t.wrapping_add(max_age) as int,
                                license_key,
                                user_agent,
                                accept_language,
                            )
                        }
                },
                None => r is InvalidToken,
            }
        }
}

/// Exchanges a pass token, decoded, for a passport, at the time given or by the
/// clock.
pub fn exchange<D: Fn(&[u8]) -> Option<PassportPayload>>(
    agent: &RelintioAgent,
    token: &str,
    path: &str,
    user_agent: &str,
    accept_language: &str,
    now: Option<i64>,
    decode: &D,
) -> (r: Screening)
    requires
        forall|raw: &[u8]| call_requires(*decode, (raw,)),
        leaves_room(now),
    ensures
        is_exchange(
            token@,
            path@,
            agent@.license_key,
            user_agent@,
            accept_language@,
            now,
            *decode,
            r,
        ),
{
    let license_key = agent.config().license_key.as_str();
    let verdict = crate::passport::verify_passport(
        token,
        license_key,
        user_agent,
        accept_language,
        now,
        decode,
    );
    let ghost given = verdict;
    assert(is_verdict(
        token@,
        agent@.license_key,
        user_agent@,
        accept_language@,
        now,
        *decode,
        given,
    ));
    match verdict {
        Some(payload) => {
            let asked: i64 = match payload.ttl {
                Some(ttl) => ttl,
                None => 0,
            };
            let max_age: i64 = clamp_ttl(asked);
            let passport = crate::passport::mint_passport(
                max_age,
                license_key,
                user_agent,
                accept_language,
                now,
            );
            Screening::Granted { location: path.to_owned(), passport, max_age }
        },
        None => Screening::InvalidToken,
    }
}

/// One of the cookies is a passport that is accepted.
pub open spec fn some_passport<D: Fn(&[u8]) -> Option<PassportPayload>>(
    cookies: Seq<(Seq<char>, Seq<char>)>,
    license_key: Seq<char>,
    user_agent: Seq<char>,
    accept_language: Seq<char>,
    now: Option<i64>,
    decode: D,
) -> bool {
    exists|i: int, payload: PassportPayload|
        {
            &&& 0 <= i < cookies.len()
            &&& cookies[i].0 == PASSPORT_COOKIE@
            &&& #[trigger] is_verdict(
                cookies[i].1,
                license_key,
                user_agent,
                accept_language,
                now,
                decode,
                Some(payload),
            )
        }
}

/// None of the cookies is a passport that is accepted.
pub open spec fn no_passport<D: Fn(&[u8]) -> Option<PassportPayload>>(
    cookies: Seq<(Seq<char>, Seq<char>)>,
    license_key: Seq<char>,
    user_agent: Seq<char>,
    accept_language: Seq<char>,
    now: Option<i64>,
    decode: D,
) -> bool {
    forall|i: int|
        0 <= i < cookies.len() && (#[trigger] cookies[i]).0 == PASSPORT_COOKIE@ ==> is_verdict(
            cookies[i].1,
            license_key,
            user_agent,
            accept_language,
            now,
            decode,
            None,
        )
}

/// Whether one of the cookies is a passport that is accepted.
pub fn is_human<D: Fn(&[u8]) -> Option<PassportPayload>>(
    agent: &RelintioAgent,
    cookies: &Vec<(String, String)>,
    user_agent: &str,
    accept_language: &str,
    now: Option<i64>,
    decode: &D,
) -> (r: bool)
    requires
        forall|raw: &[u8]| call_requires(*decode, (raw,)),
    ensures
        r ==> some_passport(
            pairs(cookies@),
            agent@.license_key,
            user_agent@,
            accept_language@,
            now,
            *decode,
        ),
        !r ==> no_passport(
            pairs(cookies@),
            agent@.license_key,
            user_agent@,
            accept_language@,
            now,
            *decode,
        ),
{
    let mut i: usize = 0;
    let ghost all = pairs(cookies@);
    while i < cookies.len()
        invariant
            i <= cookies@.len(),
            all == pairs(cookies@),
            forall|raw: &[u8]| call_requires(*decode, (raw,)),
            forall|k: int|
                0 <= k < i && (#[trigger] all[k]).0 == PASSPORT_COOKIE@ ==> is_verdict(
                    all[k].1,
                    agent@.license_key,
                    user_agent@,
                    accept_language@,
                    now,
                    *decode,
                    None,
                ),
        decreases cookies@.len() - i,
    {
        assert(all[i as int] == (cookies@[i as int].0@, cookies@[i as int].1@));
        if same(cookies[i].0.as_str(), PASSPORT_COOKIE) {
            let verdict = crate::passport::verify_passport(
                cookies[i].1.as_str(),
                agent.config().license_key.as_str(),
                user_agent,
                accept_language,
                now,
                decode,
            );
            if let Some(payload) = verdict {
                assert(is_verdict(
                    all[i as int].1,
                    agent@.license_key,
                    user_agent@,
                    accept_language@,
                    now,
                    *decode,
                    Some(payload),
                ));
                return true;
            }
        }
        i = i + 1;
    }
    false
}

/// `visit` is the request in the form in which it is scored.
pub open spec fn is_visit<C: Fn(&str) -> Option<String>>(
    arrival: Arrival,
    canonical: C,
    visit: Visit,
) -> bool {
    let fields = field_views(arrival.fields@);
    &&& is_client_address(fields, text_of(arrival.peer), canonical, visit.ip@)
    &&& visit.headers@ == collected(fields)
    &&& visit.agent() == lookup(collected(fields), "user-agent"@)
    &&& visit.method@ == arrival.method@
    &&& visit.path@ == arrival.path@
    &&& visit.domain@ == domain_of(fields, text_of(arrival.uri_host))
}

/// `r` is what comes of screening a request: a pass token in the query is
/// exchanged or refused and nothing else is looked at; without one, a passport
/// among the cookies passes the visitor; without that, the request is to be
/// scored.
pub open spec fn is_screening<
    D: Fn(&[u8]) -> Option<PassportPayload>,
    C: Fn(&str) -> Option<String>,
>(
    arrival: Arrival,
    cookies: Seq<(Seq<char>, Seq<char>)>,
    license_key: Seq<char>,
    now: Option<i64>,
    decode: D,
    canonical: C,
    r: Screening,
) -> bool {
    let headers = collected(field_views(arrival.fields@));
    let user_agent = header_or_empty(headers, "user-agent"@);
    let accept_language = header_or_empty(headers, "accept-language"@);
    match token_in(text_of(arrival.query)) {
        Some(token) => is_exchange(
            decoded_token(token),
            arrival.path@,
            license_key,
            user_agent,
            accept_language,
            now,
            decode,
            r,
        ),
        None => match r {
            Screening::Human => some_passport(
                cookies,
                license_key,
                user_agent,
                accept_language,
                now,
                decode,
            ),
            Screening::Unknown(visit) => {
                &&& no_passport(cookies, license_key, user_agent, accept_language, now, decode)
                &&& is_visit(arrival, canonical, visit)
            },
            _ => false,
        },
    }
}

/// Screens a request, at the time given or by the clock.
///
/// The raw header values are used as they are for the binding of a passport:
/// normalising them here would diverge from the challenge server.
pub fn screen<D: Fn(&[u8]) -> Option<PassportPayload>, C: Fn(&str) -> Option<String>>(
    agent: &RelintioAgent,
    arrival: &Arrival,
    cookies: &Vec<(String, String)>,
    now: Option<i64>,
    decode: &D,
    canonical: &C,
) -> (r: Screening)
    requires
        leaves_room(now),
        forall|raw: &[u8]| call_requires(*decode, (raw,)),
        forall|text: &str| call_requires(*canonical, (text,)),
    ensures
        is_screening(*arrival, pairs(cookies@), agent@.license_key, now, *decode, *canonical, r),
{
    proof {
        reveal_strlit("");
        assert(""@ =~= Seq::<char>::empty());
    }
    let headers = collect_headers(&arrival.fields);
    let user_agent = match headers.get("user-agent") {
        Some(ua) => Some(ua.to_owned()),
        None => None,
    };
    let ua_header = match &user_agent {
        Some(ua) => ua.as_str(),
        None => "",
    };
    let lang_header = match headers.get("accept-language") {
        Some(lang) => lang.to_owned(),
        None => String::new(),
    };
    let query = match &arrival.query {
        Some(text) => Some(text.as_str()),
        None => None,
    };
    if let Some(token) = up_token(query) {
        let decoded = percent_decode(token.as_str());
        return exchange(
            agent,
            decoded.as_str(),
            arrival.path.as_str(),
            ua_header,
            lang_header.as_str(),
            now,
            decode,
        );
    }
    if is_human(agent, cookies, ua_header, lang_header.as_str(), now, decode) {
        return Screening::Human;
    }
    let ip = resolve_ip(arrival, canonical);
    let domain = resolve_domain(arrival);
    Screening::Unknown(
        Visit {
            ip,
            user_agent,
            headers,
            method: arrival.method.as_str().to_owned(),
            path: arrival.path.as_str().to_owned(),
            domain,
        },
    )
}

// ---------------------------------------------------------------------------
// Answers
// ---------------------------------------------------------------------------

/// A response that the agent gives itself.
#[derive(Debug)]
pub struct Answer {
    pub status: u16,
    pub location: Option<String>,
    pub set_cookie: Option<String>,
    pub content_type: Option<&'static str>,
    pub body: &'static str,
}

/// What is done with a request in the end.
#[derive(Debug)]
pub enum Reaction {
    /// Hand it to the handler, after so many seconds; `inject` where the
    /// protection script goes into the page that comes back.
    Forward { delay_seconds: u64, inject: bool },
    /// Answer it.
    Respond(Answer),
}

/// An answer is a redirect to `location`.
pub open spec fn is_redirect(answer: Answer, location: Seq<char>) -> bool {
    &&& answer.status == 302
    &&& text_of(answer.location) == Some(location)
    &&& answer.content_type is None
    &&& answer.body@ == Seq::<char>::empty()
}

/// An answer is a page of its own.
pub open spec fn is_page_answer(
    answer: Answer,
    status: u16,
    content_type: Seq<char>,
    body: Seq<char>,
) -> bool {
    &&& answer.status == status
    &&& answer.location is None
    &&& answer.set_cookie is None
    &&& answer.content_type matches Some(t) && t@ == content_type
    &&& answer.body@ == body
}

/// `reaction` is how a decision is answered: what is allowed passes, with the
/// script in its pages; what is slowed passes after two seconds; a challenge is
/// a redirect; a decoy is a maintenance page, and a block is a refusal.
pub open spec fn answers(decision: DecisionView, reaction: Reaction) -> bool {
    match decision {
        DecisionView::Allow => reaction == (Reaction::Forward { delay_seconds: 0, inject: true }),
        DecisionView::Slow => reaction == (Reaction::Forward {
            delay_seconds: SLOW_SECONDS,
            inject: false,
        }),
        DecisionView::Challenge { redirect_url } => reaction matches Reaction::Respond(answer)
            && is_redirect(answer, redirect_url) && answer.set_cookie is None,
        DecisionView::Decoy => reaction matches Reaction::Respond(answer) && is_page_answer(
            answer,
            200,
            "text/html"@,
            DECOY_HTML@,
        ),
        DecisionView::Block => reaction matches Reaction::Respond(answer) && is_page_answer(
            answer,
            403,
            "text/html"@,
            BLOCK_HTML@,
        ),
    }
}

/// The answer that sends a visitor on.
fn redirect(location: String, set_cookie: Option<String>) -> (r: Answer)
    ensures
        is_redirect(r, location@),
        r.set_cookie == set_cookie,
{
    proof {
        reveal_strlit("");
        assert(""@ =~= Seq::<char>::empty());
    }
    Answer { status: 302, location: Some(location), set_cookie, content_type: None, body: "" }
}

/// How a decision is answered.
pub fn respond(decision: Decision) -> (r: Reaction)
    ensures
        answers(decision@, r),
{
    match decision {
        Decision::Allow => Reaction::Forward { delay_seconds: 0, inject: true },
        Decision::Slow => Reaction::Forward { delay_seconds: SLOW_SECONDS, inject: false },
        Decision::Challenge { redirect_url } => Reaction::Respond(redirect(redirect_url, None)),
        Decision::Decoy => Reaction::Respond(
            Answer {
                status: 200,
                location: None,
                set_cookie: None,
                content_type: Some("text/html"),
                body: RelintioAgent::decoy_html(),
            },
        ),
        Decision::Block => Reaction::Respond(
            Answer {
                status: 403,
                location: None,
                set_cookie: None,
                content_type: Some("text/html"),
                body: RelintioAgent::block_html(),
            },
        ),
    }
}

/// The answer to an accepted pass token: back to the path, without the token,
/// with the passport as a cookie for the whole site that scripts cannot read.
pub fn grant(location: String, passport: &str, max_age: i64) -> (r: Answer)
    ensures
        is_redirect(r, location@),
        text_of(r.set_cookie) == Some(
            cookie_text(PASSPORT_COOKIE@, passport@, COOKIE_PATH@, max_age, true),
        ),
{
    let cookie = set_cookie(PASSPORT_COOKIE, passport, COOKIE_PATH, max_age, true);
    redirect(location, Some(cookie))
}

/// The answer to a pass token that is not accepted.
pub fn refuse() -> (r: Answer)
    ensures
        is_page_answer(r, 403, "text/plain"@, INVALID_TOKEN@),
{
    Answer {
        status: 403,
        location: None,
        set_cookie: None,
        content_type: Some("text/plain"),
        body: INVALID_TOKEN,
    }
}

/// How a request goes on once it was screened.
#[derive(Debug)]
pub enum Course {
    /// It is done with in this way.
    React(Reaction),
    /// This is to be scored first.
    Ask(Visit),
}

/// `course` is how a request goes on that was screened with this outcome: an
/// accepted token is a redirect with the passport as a cookie, a token that is not
/// accepted is a refusal, a visitor with a passport goes straight to the handler,
/// and any other is scored.
pub open spec fn takes_course(screening: Screening, course: Course) -> bool {
    match screening {
        Screening::Granted { location, passport, max_age } => {
            &&& course matches Course::React(Reaction::Respond(answer))
            &&& is_redirect(answer, location@)
            &&& text_of(answer.set_cookie) == Some(
                cookie_text(PASSPORT_COOKIE@, passport@, COOKIE_PATH@, max_age, true),
            )
        },
        Screening::InvalidToken => {
            &&& course matches Course::React(Reaction::Respond(answer))
            &&& is_page_answer(answer, 403, "text/plain"@, INVALID_TOKEN@)
        },
        Screening::Human => course == Course::React(
            Reaction::Forward { delay_seconds: 0, inject: false },
        ),
        Screening::Unknown(visit) => course == Course::Ask(visit),
    }
}

/// How a request goes on once it was screened.
pub fn course(screening: Screening) -> (r: Course)
    ensures
        takes_course(screening, r),
{
    match screening {
        Screening::Granted { location, passport, max_age } => Course::React(
            Reaction::Respond(grant(location, passport.as_str(), max_age)),
        ),
        Screening::InvalidToken => Course::React(Reaction::Respond(refuse())),
        Screening::Human => Course::React(Reaction::Forward { delay_seconds: 0, inject: false }),
        Screening::Unknown(visit) => Course::Ask(visit),
    }
}

/// A response is a page by its content type.
pub open spec fn names_html(content_type: Option<Seq<char>>) -> bool {
    content_type matches Some(t) && holds(t, "text/html"@)
}

/// Whether a response is a page by its content type.
pub fn is_html(content_type: Option<&str>) -> (r: bool)
    ensures
        r == names_html(
            match content_type {
                Some(t) => Some(t@),
                None => None,
            },
        ),
{
    match content_type {
        Some(t) => contains(t, "text/html"),
        None => false,
    }
}

// ---------------------------------------------------------------------------
// Laws
// ---------------------------------------------------------------------------

/// A pass token that was not signed with the licence key is refused, whatever
/// cookies come with it: it is never a way through.
pub proof fn a_forged_token_is_refused<
    D: Fn(&[u8]) -> Option<PassportPayload>,
    C: Fn(&str) -> Option<String>,
>(
    arrival: Arrival,
    cookies: Seq<(Seq<char>, Seq<char>)>,
    license_key: Seq<char>,
    now: Option<i64>,
    decode: D,
    canonical: C,
    r: Screening,
    token: Seq<char>,
)
    requires
        is_screening(arrival, cookies, license_key, now, decode, canonical, r),
        token_in(text_of(arrival.query)) == Some(token),
        forall|raw: Seq<u8>| !authentic(decoded_token(token), license_key, raw),
    ensures
        r is InvalidToken,
{
}

/// A request with a forged pass token is answered with a refusal, and the handler
/// never sees it.
pub proof fn a_forged_token_is_answered_with_a_refusal<
    D: Fn(&[u8]) -> Option<PassportPayload>,
    C: Fn(&str) -> Option<String>,
>(
    arrival: Arrival,
    cookies: Seq<(Seq<char>, Seq<char>)>,
    license_key: Seq<char>,
    now: Option<i64>,
    decode: D,
    canonical: C,
    r: Screening,
    token: Seq<char>,
    course: Course,
)
    requires
        is_screening(arrival, cookies, license_key, now, decode, canonical, r),
        takes_course(r, course),
        token_in(text_of(arrival.query)) == Some(token),
        forall|raw: Seq<u8>| !authentic(decoded_token(token), license_key, raw),
    ensures
        course matches Course::React(Reaction::Respond(answer)) && is_page_answer(
            answer,
            403,
            "text/plain"@,
            INVALID_TOKEN@,
        ),
{
    a_forged_token_is_refused(
        arrival,
        cookies,
        license_key,
        now,
        decode,
        canonical,
        r,
        token,
    );
}

/// A request with a pass token is answered at once: it is never scored, and its
/// cookies are not looked at.
pub proof fn a_token_is_never_passed_over<
    D: Fn(&[u8]) -> Option<PassportPayload>,
    C: Fn(&str) -> Option<String>,
>(
    arrival: Arrival,
    cookies: Seq<(Seq<char>, Seq<char>)>,
    license_key: Seq<char>,
    now: Option<i64>,
    decode: D,
    canonical: C,
    r: Screening,
)
    requires
        is_screening(arrival, cookies, license_key, now, decode, canonical, r),
        token_in(text_of(arrival.query)) is Some,
    ensures
        r is Granted || r is InvalidToken,
{
}

/// A part of a query that a name, an equals sign and a value make up is cut there.
proof fn part_with_a_name(part: Seq<char>, name: Seq<char>, value: Seq<char>)
    requires
        part =~= name.push('=') + value,
        forall|i: int| 0 <= i < name.len() ==> name[i] != '=',
    ensures
        first_index(part, '=') == name.len(),
        part.take(name.len() as int) == name,
        part.skip(name.len() as int + 1) == value,
{
    first_index_of_push(name, value, '=');
    assert(part.take(name.len() as int) =~= name);
    assert(part.skip(name.len() as int + 1) =~= value);
}

/// A name that one of the parts gives a value to has a value.
proof fn some_part_has_the_name(parts: Seq<Seq<char>>, name: Seq<char>, i: int)
    requires
        0 <= i < parts.len(),
        first_index(parts[i], '=') < parts[i].len(),
        parts[i].take(first_index(parts[i], '=')) == name,
    ensures
        parameter(parts, name) is Some,
    decreases parts.len(),
{
    if i < parts.len() - 1 {
        some_part_has_the_name(parts.drop_last(), name, i);
    }
}

/// A query with a part that starts with `up_token=` holds a pass token, whatever
/// stands behind the equals sign: such a request is answered at once, and never
/// scored.
pub proof fn every_up_token_is_answered<
    D: Fn(&[u8]) -> Option<PassportPayload>,
    C: Fn(&str) -> Option<String>,
>(
    arrival: Arrival,
    query: Seq<char>,
    i: int,
    cookies: Seq<(Seq<char>, Seq<char>)>,
    license_key: Seq<char>,
    now: Option<i64>,
    decode: D,
    canonical: C,
    r: Screening,
)
    requires
        text_of(arrival.query) == Some(query),
        0 <= i < pieces(query, '&').len(),
        begins(pieces(query, '&')[i], "up_token="@),
        is_screening(arrival, cookies, license_key, now, decode, canonical, r),
    ensures
        token_in(Some(query)) is Some,
        r is Granted || r is InvalidToken,
{
    reveal_strlit("up_token=");
    reveal_strlit("up_token");
    let part = pieces(query, '&')[i];
    let value = part.skip(9);
    assert(part.subrange(0, 9) =~= "up_token="@);
    assert("up_token="@ =~= "up_token"@.push('='));
    assert(part =~= part.subrange(0, 9) + value);
    part_with_a_name(part, "up_token"@, value);
    some_part_has_the_name(pieces(query, '&'), "up_token"@, i);
}

/// A token that was put into a query as it is comes out of it as it was, and
/// percent-decoding leaves it alone.
pub proof fn a_token_travels_in_a_query_unchanged(
    raw: Seq<u8>,
    license_key: Seq<char>,
    before: Seq<char>,
)
    ensures
        token_in(Some("up_token="@ + token_text(raw, license_key))) == Some(
            token_text(raw, license_key),
        ),
        token_in(Some(before.push('&') + ("up_token="@ + token_text(raw, license_key)))) == Some(
            token_text(raw, license_key),
        ),
        decoded_token(token_text(raw, license_key)) == token_text(raw, license_key),
{
    reveal_strlit("up_token=");
    reveal_strlit("up_token");
    let token = token_text(raw, license_key);
    assert forall|i: int| 0 <= i < token.len() implies {
        &&& #[trigger] token[i] != '%'
        &&& token[i] != '&'
        &&& token[i] != '='
        &&& '\0' <= token[i] <= '\u{7f}'
    } by {
        a_token_needs_no_escaping(raw, license_key, i);
    }
    let part = "up_token="@ + token;
    part_with_a_name(part, "up_token"@, token);
    assert(part =~= "up_token"@.push('=') + token);
    pieces_of_one(part, '&');
    assert(seq![part].last() == part);
    pieces_of_two(before, part, '&');
    assert((pieces(before, '&') + seq![part]).last() == part);
    assert(is_ascii_chars(token));
    is_ascii_chars_encode_utf8(token);
    percent_decoded_plain(encode_utf8(token));
    encode_utf8_decode_utf8(token);
    encode_utf8_valid_utf8(token);
}

/// A passport that a client sends back as its cookie is found among its cookies
/// as it was set.
pub proof fn a_passport_cookie_comes_back_unchanged(raw: Seq<u8>, license_key: Seq<char>)
    ensures
        well_formed(
            cookies_in(
                pieces(PASSPORT_COOKIE@ + "="@ + token_text(raw, license_key), ';'),
            ),
        ) == seq![(PASSPORT_COOKIE@, token_text(raw, license_key))],
{
    reveal_strlit("relintio_passport");
    reveal_strlit("=");
    reveal_strlit("v2.");
    let token = token_text(raw, license_key);
    let name = PASSPORT_COOKIE@;
    let text = name + "="@ + token;
    assert forall|i: int| 0 <= i < token.len() implies {
        &&& #[trigger] token[i] != ';'
        &&& ' ' < token[i] <= '\u{7f}'
    } by {
        a_token_needs_no_escaping(raw, license_key, i);
    }
    assert(text =~= name.push('=') + token);
    pieces_of_one(text, ';');
    nothing_to_strip(text, CharClass::Space);
    nothing_to_strip(name, CharClass::Space);
    nothing_to_strip(token, CharClass::Space);
    first_index_of_push(name, token, '=');
    assert(text.take(name.len() as int) =~= name);
    assert(text.skip(name.len() + 1int) =~= token);
    assert(cookie_in(text) == Some((name, token)));
    let parts = seq![text];
    assert(parts.drop_last() =~= Seq::empty());
    assert(parts.last() == text);
    assert(cookies_in(parts.drop_last()) =~= Seq::empty());
    let found = cookies_in(parts);
    assert(found =~= seq![Some((name, token))]);
    assert(found.drop_last() =~= Seq::empty());
    assert(found.last() == Some((name, token)));
    assert(well_formed(found.drop_last()) =~= Seq::empty());
    assert(well_formed(found) =~= seq![(name, token)]);
}

/// The value of the last field with this name in lower case that is text.
pub open spec fn last_value(
    fields: Seq<(Seq<char>, Option<Seq<char>>)>,
    name: Seq<char>,
) -> Option<Seq<char>>
    decreases fields.len(),
{
    if fields.len() == 0 {
        None
    } else if fields.last().1 is Some && lowered(fields.last().0) == name {
        fields.last().1
    } else {
        last_value(fields.drop_last(), name)
    }
}

/// No name occurs twice among the collected headers, and of several fields with
/// one name the last one that is text counts.
pub proof fn the_last_readable_value_counts(
    fields: Seq<(Seq<char>, Option<Seq<char>>)>,
    name: Seq<char>,
)
    ensures
        distinct(collected(fields)),
        lookup(collected(fields), name) == last_value(fields, name),
    decreases fields.len(),
{
    if fields.len() > 0 {
        let before = collected(fields.drop_last());
        the_last_readable_value_counts(fields.drop_last(), name);
        match fields.last().1 {
            Some(value) => {
                putting_sets_one_header(before, lowered(fields.last().0), value, name);
            },
            None => {},
        }
    }
}

/// A visitor passes as human only with a passport cookie that was signed with
/// the licence key.
pub proof fn only_a_signed_passport_passes<
    D: Fn(&[u8]) -> Option<PassportPayload>,
    C: Fn(&str) -> Option<String>,
>(
    arrival: Arrival,
    cookies: Seq<(Seq<char>, Seq<char>)>,
    license_key: Seq<char>,
    now: Option<i64>,
    decode: D,
    canonical: C,
)
    requires
        is_screening(arrival, cookies, license_key, now, decode, canonical, Screening::Human),
    ensures
        exists|i: int, raw: Seq<u8>|
            0 <= i < cookies.len() && cookies[i].0 == PASSPORT_COOKIE@ && #[trigger] authentic(
                cookies[i].1,
                license_key,
                raw,
            ),
{
}

/// A granted passport lives between five minutes and a week, whatever the token
/// asked for.
pub proof fn a_granted_passport_has_a_plausible_life<D: Fn(&[u8]) -> Option<PassportPayload>>(
    token: Seq<char>,
    path: Seq<char>,
    license_key: Seq<char>,
    user_agent: Seq<char>,
    accept_language: Seq<char>,
    now: Option<i64>,
    decode: D,
    r: Screening,
)
    requires
        is_exchange(token, path, license_key, user_agent, accept_language, now, decode, r),
    ensures
        r matches Screening::Granted { location, passport, max_age } ==> location@ == path
            && MIN_TTL <= max_age <= MAX_TTL,
{
}

/// A pass token that has not expired is exchanged, from the client that it was
/// issued to: the visitor is sent back to the path with a passport for a day, as
/// the token asks for no other life.
pub proof fn a_valid_token_is_exchanged<D: Fn(&[u8]) -> Option<PassportPayload>>(
    exp: i64,
    path: Seq<char>,
    license_key: Seq<char>,
    user_agent: Seq<char>,
    accept_language: Seq<char>,
    now: i64,
    decode: D,
    r: Screening,
)
    requires
        reads_minted_bodies(decode),
        is_binding_text(binding(license_key, user_agent, accept_language)),
        now <= exp + CLOCK_SKEW_SECONDS,
        leaves_room(Some(now)),
        is_exchange(
            minted(exp as int, license_key, user_agent, accept_language),
            path,
            license_key,
            user_agent,
            accept_language,
            Some(now),
            decode,
            r,
        ),
    ensures
        r matches Screening::Granted { location, passport, max_age } && {
            &&& location@ == path
            &&& max_age == DEFAULT_TTL
            &&& passport@ == minted(now + DEFAULT_TTL, license_key, user_agent, accept_language)
        },
{
    let token = minted(exp as int, license_key, user_agent, accept_language);
    let verdict = choose|verdict: Option<PassportPayload>|
        {
            &&& #[trigger] is_verdict(
                token,
                license_key,
                user_agent,
                accept_language,
                Some(now),
                decode,
                verdict,
            )
            &&& match verdict {
                Some(payload) => r matches Screening::Granted { location, passport, max_age }
                    && max_age == clamped(
                    match payload.ttl {
                        Some(ttl) => ttl as int,
                        None => 0,
                    },
                ),
                None => r is InvalidToken,
            }
        };
    a_minted_passport_is_bound_to_its_client(
        exp,
        license_key,
        user_agent,
        accept_language,
        user_agent,
        accept_language,
        now,
        decode,
        verdict,
    );
}

/// A visitor who comes back with the passport that was minted for this client is
/// not scored again until it has expired.
pub proof fn a_passport_passes_its_visitor<
    D: Fn(&[u8]) -> Option<PassportPayload>,
    C: Fn(&str) -> Option<String>,
>(
    exp: i64,
    arrival: Arrival,
    cookies: Seq<(Seq<char>, Seq<char>)>,
    i: int,
    license_key: Seq<char>,
    now: i64,
    decode: D,
    canonical: C,
    r: Screening,
)
    requires
        reads_minted_bodies(decode),
        is_binding_text(
            binding(
                license_key,
                header_or_empty(collected(field_views(arrival.fields@)), "user-agent"@),
                header_or_empty(collected(field_views(arrival.fields@)), "accept-language"@),
            ),
        ),
        now <= exp + CLOCK_SKEW_SECONDS,
        token_in(text_of(arrival.query)) is None,
        0 <= i < cookies.len(),
        cookies[i].0 == PASSPORT_COOKIE@,
        cookies[i].1 == minted(
            exp as int,
            license_key,
            header_or_empty(collected(field_views(arrival.fields@)), "user-agent"@),
            header_or_empty(collected(field_views(arrival.fields@)), "accept-language"@),
        ),
        is_screening(arrival, cookies, license_key, Some(now), decode, canonical, r),
    ensures
        r is Human,
{
    let headers = collected(field_views(arrival.fields@));
    let user_agent = header_or_empty(headers, "user-agent"@);
    let accept_language = header_or_empty(headers, "accept-language"@);
    if no_passport(cookies, license_key, user_agent, accept_language, Some(now), decode) {
        assert(cookies[i].0 == PASSPORT_COOKIE@);
        a_minted_passport_is_bound_to_its_client(
            exp,
            license_key,
            user_agent,
            accept_language,
            user_agent,
            accept_language,
            now,
            decode,
            None,
        );
    }
}

} // verus!
