//! Laws of screening: whose request it is, and what it is answered.

use vstd::prelude::*;
use vstd::utf8::{decode_utf8, encode_utf8, valid_utf8};
use crate::agent::{DecisionView, Visit, BLOCK_HTML, DECOY_HTML};
use crate::codec::{percent_decoded, percent_decoded_text};
use crate::headers::lookup;
use crate::middleware::{
    address_of, answers, cookie_text, decoded_token, domain_of, field_views,
    first_field, header_or_empty, is_client_address, is_screening, last_value,
    leaves_room, names_html, parameter, takes_course, the_last_readable_value_counts, token_in,
    well_formed, AddressView, Arrival, Course, Reaction, Screening,
};
use crate::passport::{is_now, is_verdict, minted, PassportPayload};
use crate::text::{
    first_index, lowered, pieces, pieces_of_one, pieces_of_two, signed_decimal,
    text_of,
};
use crate::utils::normalises;
use super::passports::{
    an_unsealed_token_is_refused, client_mark, reads_as, sealed, the_life_of_a_passport,
    the_verdict_on_a_token, what_an_accepted_token_is,
};
use super::texts::{
    alike_texts, case_is_ignored_between_alike_texts, has_part, holding_is_having_a_part,
    the_first_position_is_the_first,
};

verus! {

// ---------------------------------------------------------------------------
// Header fields
// ---------------------------------------------------------------------------

/// No field has a name that is alike to this one up to the case of letters.
pub open spec fn no_field_called(
    fields: Seq<(Seq<char>, Option<Seq<char>>)>,
    name: Seq<char>,
) -> bool {
    forall|j: int| 0 <= j < fields.len() ==> !alike_texts((#[trigger] fields[j]).0, name)
}

/// The first field whose name is alike to this one up to the case of letters.
pub open spec fn is_first_field(
    fields: Seq<(Seq<char>, Option<Seq<char>>)>,
    name: Seq<char>,
    i: int,
) -> bool {
    &&& 0 <= i < fields.len()
    &&& alike_texts(fields[i].0, name)
    &&& forall|j: int| 0 <= j < i ==> !alike_texts((#[trigger] fields[j]).0, name)
}

/// A field is found under its name in whatever case, the first one where there are
/// several, and none is made up.
pub proof fn a_field_is_found_under_its_name(
    fields: Seq<(Seq<char>, Option<Seq<char>>)>,
    name: Seq<char>,
    i: int,
)
    ensures
        is_first_field(fields, name, i) ==> first_field(fields, name) == Some(fields[i].1),
        no_field_called(fields, name) ==> first_field(fields, name) is None,
    decreases fields.len(),
{
    if fields.len() > 0 {
        case_is_ignored_between_alike_texts(fields[0].0, name);
        let rest = fields.skip(1);
        a_field_is_found_under_its_name(rest, name, i - 1);
        if no_field_called(fields, name) {
            assert(!alike_texts(fields[0].0, name));
            assert forall|j: int| 0 <= j < rest.len() implies !alike_texts(
                (#[trigger] rest[j]).0,
                name,
            ) by {
                assert(rest[j] == fields[j + 1]);
            }
        }
        if is_first_field(fields, name, i) && i > 0 {
            assert(!alike_texts(fields[0].0, name));
            assert forall|j: int| 0 <= j < i - 1 implies !alike_texts(
                (#[trigger] rest[j]).0,
                name,
            ) by {
                assert(rest[j] == fields[j + 1]);
            }
            assert(rest[i - 1] == fields[i]);
        }
    }
}

/// The value of a header for a passport is the raw value of the last field with that
/// name in lower case that is text; the empty text where there is none.
pub proof fn a_raw_header_value_is_used(
    fields: Seq<(Seq<char>, Option<Seq<char>>)>,
    name: Seq<char>,
    i: int,
)
    requires
        -1 <= i < fields.len(),
        i >= 0 ==> lowered(fields[i].0) == name && fields[i].1 is Some,
        forall|j: int|
            i < j < fields.len() ==> lowered((#[trigger] fields[j]).0) != name || fields[j].1 is None,
    ensures
        i >= 0 ==> header_or_empty(crate::middleware::collected(fields), name) == fields[i].1->0,
        i >= 0 ==> lookup(crate::middleware::collected(fields), name) == Some(fields[i].1->0),
        i == -1 ==> header_or_empty(crate::middleware::collected(fields), name) == Seq::<
            char,
        >::empty(),
        i == -1 ==> lookup(crate::middleware::collected(fields), name) is None,
{
    the_last_readable_value_counts(fields, name);
    last_value_is_the_last(fields, name, i);
}

/// The last value is that of the last field that is text.
proof fn last_value_is_the_last(
    fields: Seq<(Seq<char>, Option<Seq<char>>)>,
    name: Seq<char>,
    i: int,
)
    requires
        -1 <= i < fields.len(),
        i >= 0 ==> lowered(fields[i].0) == name && fields[i].1 is Some,
        forall|j: int|
            i < j < fields.len() ==> lowered((#[trigger] fields[j]).0) != name || fields[j].1 is None,
    ensures
        i >= 0 ==> last_value(fields, name) == fields[i].1,
        i == -1 ==> last_value(fields, name) is None,
    decreases fields.len(),
{
    if fields.len() > 0 && i < fields.len() - 1 {
        let end = fields.len() - 1;
        assert(lowered(fields[end].0) != name || fields[end].1 is None);
        let rest = fields.drop_last();
        assert forall|j: int| i < j < rest.len() implies lowered((#[trigger] rest[j]).0) != name
            || rest[j].1 is None by {
            assert(rest[j] == fields[j]);
        }
        last_value_is_the_last(rest, name, i);
    }
}

/// The fields of an arrival are what it holds, one for one.
pub proof fn fields_are_taken_as_they_are(arrival: Arrival, i: int)
    requires
        0 <= i < arrival.fields@.len(),
    ensures
        field_views(arrival.fields@).len() == arrival.fields@.len(),
        field_views(arrival.fields@)[i].0 == arrival.fields@[i].0@,
        arrival.fields@[i].1 matches Some(t) ==> field_views(arrival.fields@)[i].1 == Some(t@),
        arrival.fields@[i].1 is None ==> field_views(arrival.fields@)[i].1 is None,
{
}

// ---------------------------------------------------------------------------
// Addresses and domains
// ---------------------------------------------------------------------------

/// What stands before the first comma of a list, or the whole of it.
proof fn first_entry(first: Seq<char>, rest: Seq<char>)
    requires
        forall|i: int| 0 <= i < first.len() ==> #[trigger] first[i] != ',',
    ensures
        pieces(first, ',')[0] == first,
        pieces(first + seq![','] + rest, ',')[0] == first,
{
    pieces_of_one(first, ',');
    pieces_of_two(first, rest, ',');
    assert(first + seq![','] + rest =~= first.push(',') + rest);
}

/// Where the first `X-Forwarded-For` is text, the client is what stands before its
/// first comma, once it is normalised, whatever any other field or the other end of the
/// connection says.
pub proof fn a_forwarded_request_is_its_first_senders<C: Fn(&str) -> Option<String>>(
    fields: Seq<(Seq<char>, Option<Seq<char>>)>,
    peer: Option<Seq<char>>,
    i: int,
    first: Seq<char>,
    rest: Seq<char>,
    canonical: C,
    r: Seq<char>,
)
    requires
        is_first_field(fields, "x-forwarded-for"@, i),
        fields[i].1 == Some(first) || fields[i].1 == Some(first + seq![','] + rest),
        forall|k: int| 0 <= k < first.len() ==> #[trigger] first[k] != ',',
    ensures
        address_of(fields, peer) == AddressView::Reported(first),
        is_client_address(fields, peer, canonical, r) == normalises(canonical, first, r),
{
    a_field_is_found_under_its_name(fields, "x-forwarded-for"@, i);
    first_entry(first, rest);
}

/// Two requests whose first `X-Forwarded-For` is the same text have one client address,
/// whatever else differs between them.
pub proof fn the_forwarded_list_alone_decides<C: Fn(&str) -> Option<String>>(
    fields: Seq<(Seq<char>, Option<Seq<char>>)>,
    peer: Option<Seq<char>>,
    i: int,
    other_fields: Seq<(Seq<char>, Option<Seq<char>>)>,
    other_peer: Option<Seq<char>>,
    j: int,
    canonical: C,
    r: Seq<char>,
)
    requires
        is_first_field(fields, "x-forwarded-for"@, i),
        is_first_field(other_fields, "x-forwarded-for"@, j),
        fields[i].1 is Some,
        fields[i].1 == other_fields[j].1,
    ensures
        is_client_address(fields, peer, canonical, r) == is_client_address(
            other_fields,
            other_peer,
            canonical,
            r,
        ),
{
    a_field_is_found_under_its_name(fields, "x-forwarded-for"@, i);
    a_field_is_found_under_its_name(other_fields, "x-forwarded-for"@, j);
}

/// Without an `X-Forwarded-For` the client is what the first `X-Real-IP` says, once it is
/// normalised; without that too it is the other end of the connection, as it is; and
/// where that is not known either, or the field that counts is not text, this machine.
pub proof fn where_else_the_client_is_found<C: Fn(&str) -> Option<String>>(
    fields: Seq<(Seq<char>, Option<Seq<char>>)>,
    peer: Option<Seq<char>>,
    i: int,
    canonical: C,
    r: Seq<char>,
)
    ensures
        is_first_field(fields, "x-forwarded-for"@, i) && fields[i].1 is None ==> (is_client_address(
            fields,
            peer,
            canonical,
            r,
        ) <==> r == "127.0.0.1"@),
        no_field_called(fields, "x-forwarded-for"@) ==> {
            &&& is_first_field(fields, "x-real-ip"@, i) ==> match fields[i].1 {
                Some(text) => is_client_address(fields, peer, canonical, r) == normalises(
                    canonical,
                    text,
                    r,
                ),
                None => is_client_address(fields, peer, canonical, r) == (r == "127.0.0.1"@),
            }
            &&& no_field_called(fields, "x-real-ip"@) ==> match peer {
                Some(address) => is_client_address(fields, peer, canonical, r) == (r == address),
                None => is_client_address(fields, peer, canonical, r) == (r == "127.0.0.1"@),
            }
        },
{
    a_field_is_found_under_its_name(fields, "x-forwarded-for"@, i);
    a_field_is_found_under_its_name(fields, "x-real-ip"@, i);
}

/// The domain is what the first `Host` says, as it is; otherwise the host of the
/// request's own address; otherwise this machine.
pub proof fn where_the_domain_is_found(
    fields: Seq<(Seq<char>, Option<Seq<char>>)>,
    uri_host: Option<Seq<char>>,
    i: int,
)
    ensures
        is_first_field(fields, "host"@, i) && fields[i].1 is Some ==> domain_of(fields, uri_host)
            == fields[i].1->0,
        no_field_called(fields, "host"@) || is_first_field(fields, "host"@, i) && fields[i].1 is None
            ==> {
            &&& uri_host matches Some(host) ==> domain_of(fields, uri_host) == host
            &&& uri_host is None ==> domain_of(fields, uri_host) == "localhost"@
        },
{
    a_field_is_found_under_its_name(fields, "host"@, i);
}

// ---------------------------------------------------------------------------
// Tokens and cookies
// ---------------------------------------------------------------------------

/// A part of a query gives a pass token: it is `up_token=` and then the token.
pub open spec fn gives_token(part: Seq<char>, token: Seq<char>) -> bool {
    part == "up_token="@ + token
}

/// No part of a query gives a pass token.
pub open spec fn gives_no_token(part: Seq<char>) -> bool {
    forall|token: Seq<char>| part != #[trigger] ("up_token="@ + token)
}

/// Where a part of a query is cut, and what it gives.
proof fn what_a_part_gives(part: Seq<char>, token: Seq<char>)
    ensures
        gives_token(part, token) ==> {
            &&& first_index(part, '=') == 8
            &&& part.take(8) == "up_token"@
            &&& part.skip(9) == token
        },
        gives_no_token(part) ==> !(first_index(part, '=') < part.len() && part.take(
            first_index(part, '='),
        ) == "up_token"@),
{
    reveal_strlit("up_token=");
    reveal_strlit("up_token");
    the_first_position_is_the_first(part, '=');
    if gives_token(part, token) {
        let name = "up_token"@;
        assert(part =~= name.push('=') + token);
        crate::text::first_index_of_push(name, token, '=');
        assert(part.take(8) =~= name);
        assert(part.skip(9) =~= token);
    }
    let cut = first_index(part, '=');
    if cut < part.len() && part.take(cut) == "up_token"@ {
        assert(part.take(cut).len() == 8);
        assert(part =~= part.take(8) + seq!['='] + part.skip(9));
        assert("up_token="@ =~= "up_token"@ + seq!['=']);
        assert(part =~= "up_token="@ + part.skip(9));
    }
}

/// The pass token of a query is what the last part that starts with `up_token=` holds
/// behind it, whatever that is; there is none where no part starts so, or there is no
/// query.
pub proof fn the_last_up_token_counts(query: Seq<char>, i: int, token: Seq<char>)
    ensures
        ({
            let parts = pieces(query, '&');
            &&& 0 <= i < parts.len() && gives_token(parts[i], token) && (forall|j: int|
                i < j < parts.len() ==> gives_no_token(#[trigger] parts[j])) ==> token_in(
                Some(query),
            ) == Some(token)
            &&& (forall|j: int| 0 <= j < parts.len() ==> gives_no_token(#[trigger] parts[j]))
                ==> token_in(Some(query)) is None
        }),
        token_in(None) is None,
{
    let parts = pieces(query, '&');
    if 0 <= i < parts.len() && gives_token(parts[i], token) && (forall|j: int|
        i < j < parts.len() ==> gives_no_token(#[trigger] parts[j])) {
        the_last_part_counts(parts, i, token);
    }
    if forall|j: int| 0 <= j < parts.len() ==> gives_no_token(#[trigger] parts[j]) {
        no_part_counts(parts);
    }
}

/// The last part that gives a token counts.
proof fn the_last_part_counts(parts: Seq<Seq<char>>, i: int, token: Seq<char>)
    requires
        0 <= i < parts.len(),
        gives_token(parts[i], token),
        forall|j: int| i < j < parts.len() ==> gives_no_token(#[trigger] parts[j]),
    ensures
        parameter(parts, "up_token"@) == Some(token),
    decreases parts.len(),
{
    what_a_part_gives(parts.last(), token);
    if i < parts.len() - 1 {
        assert(gives_no_token(parts[parts.len() - 1]));
        let rest = parts.drop_last();
        assert forall|j: int| i < j < rest.len() implies gives_no_token(#[trigger] rest[j]) by {
            assert(rest[j] == parts[j]);
        }
        the_last_part_counts(rest, i, token);
    } else {
        reveal_strlit("up_token=");
        assert(parts.last().len() >= 9);
    }
}

/// Parts that give no token have none.
proof fn no_part_counts(parts: Seq<Seq<char>>)
    requires
        forall|j: int| 0 <= j < parts.len() ==> gives_no_token(#[trigger] parts[j]),
    ensures
        parameter(parts, "up_token"@) is None,
    decreases parts.len(),
{
    if parts.len() > 0 {
        assert(gives_no_token(parts[parts.len() - 1]));
        what_a_part_gives(parts.last(), Seq::empty());
        let rest = parts.drop_last();
        assert forall|j: int| 0 <= j < rest.len() implies gives_no_token(#[trigger] rest[j]) by {
            assert(rest[j] == parts[j]);
        }
        no_part_counts(rest);
    }
}

/// A pass token is percent-decoded, once, and nothing else is done to it.
pub proof fn a_token_is_percent_decoded(token: Seq<char>)
    ensures
        valid_utf8(percent_decoded(encode_utf8(token))) ==> decoded_token(token) == decode_utf8(
            percent_decoded(encode_utf8(token)),
        ),
        !valid_utf8(percent_decoded(encode_utf8(token))) ==> decoded_token(token)
            == percent_decoded_text(token),
{
}

/// Of what was parsed the cookies are kept, all of them and in their order.
pub proof fn every_cookie_is_kept(
    before: Seq<Option<(Seq<char>, Seq<char>)>>,
    cookie: (Seq<char>, Seq<char>),
)
    ensures
        well_formed(Seq::<Option<(Seq<char>, Seq<char>)>>::empty()) == Seq::<
            (Seq<char>, Seq<char>),
        >::empty(),
        well_formed(before.push(Some(cookie))) == well_formed(before).push(cookie),
        well_formed(before.push(None)) == well_formed(before),
{
    assert(before.push(Some(cookie)).drop_last() =~= before);
    assert(before.push(None).drop_last() =~= before);
}

/// The cookie of a passport is sent for the whole site, for as long as the passport
/// lives, and scripts cannot read it; nothing else is said of it.
pub proof fn what_the_passport_cookie_says(passport: Seq<char>, max_age: i64)
    ensures
        cookie_text("relintio_passport"@, passport, "/"@, max_age, true)
            == "relintio_passport"@ + "="@ + passport + "; HttpOnly"@ + "; Path="@ + "/"@
            + "; Max-Age="@ + signed_decimal(max_age as int),
{
}

// ---------------------------------------------------------------------------
// Outcomes
// ---------------------------------------------------------------------------

/// What a request brings for its passport: the raw values of two headers.
pub open spec fn raw_header(arrival: Arrival, name: Seq<char>) -> Seq<char> {
    header_or_empty(crate::middleware::collected(field_views(arrival.fields@)), name)
}

/// A request with a pass token is answered by that token alone: sealed, read as a payload
/// that has not been expired for more than 60 seconds and bound to the raw user agent and
/// language of the request, it is exchanged for a passport for this client, for the life
/// that it asks for within bounds, and the visitor goes back to the path; otherwise it is
/// invalid.
pub proof fn a_token_is_exchanged_or_refused<
    D: Fn(&[u8]) -> Option<PassportPayload>,
    C: Fn(&str) -> Option<String>,
>(
    arrival: Arrival,
    cookies: Seq<(Seq<char>, Seq<char>)>,
    key: Seq<char>,
    now: i64,
    decode: D,
    canonical: C,
    r: Screening,
    token: Seq<char>,
    raw: Seq<u8>,
    payload: Option<PassportPayload>,
)
    requires
        leaves_room(Some(now)),
        token_in(text_of(arrival.query)) == Some(token),
        decoded_token(token) == sealed(raw, key),
        raw.len() > 0,
        reads_as(decode, raw, payload),
        is_screening(arrival, cookies, key, Some(now), decode, canonical, r),
    ensures
        ({
            let ua = raw_header(arrival, "user-agent"@);
            let lang = raw_header(arrival, "accept-language"@);
            let good = payload matches Some(p) && now <= p.exp + 60 && p.b@ == client_mark(
                key,
                ua,
                lang,
            );
            &&& !good ==> r is InvalidToken
            &&& good ==> (r matches Screening::Granted { location, passport, max_age } && {
                let asked = match payload->0.ttl {
                    Some(ttl) => ttl as int,
                    None => 0,
                };
                &&& location@ == arrival.path@
                &&& max_age == (if asked <= 0 {
                    86_400int
                } else if asked < 300 {
                    300
                } else if asked > 604_800 {
                    604_800
                } else {
                    asked
                })
                &&& passport@ == minted(now + max_age, key, ua, lang)
            })
        }),
{
    let ua = raw_header(arrival, "user-agent"@);
    let lang = raw_header(arrival, "accept-language"@);
    let verdict = choose|verdict: Option<PassportPayload>|
        {
            &&& #[trigger] is_verdict(
                decoded_token(token),
                key,
                ua,
                lang,
                Some(now),
                decode,
                verdict,
            )
            &&& match verdict {
                Some(p) => r matches Screening::Granted { location, passport, max_age } && {
                    &&& location@ == arrival.path@
                    &&& max_age == crate::passport::clamped(
                        match p.ttl {
                            Some(ttl) => ttl as int,
                            None => 0,
                        },
                    )
                    &&& exists|t: i64|
                        {
                            &&& #[trigger] is_now(Some(now), t)
                            &&& passport@ == minted(t.wrapping_add(max_age) as int, key, ua, lang)
                        }
                },
                None => r is InvalidToken,
            }
        };
    the_verdict_on_a_token(raw, key, ua, lang, now, decode, payload, verdict);
}

/// Whatever the clock says, a passport is granted only for a pass token that is sealed, reads as
/// a payload bound to the raw user agent and language of the request, and asks for that life; the
/// passport is for this client, and the visitor goes back to the path.
pub proof fn what_a_grant_is<
    D: Fn(&[u8]) -> Option<PassportPayload>,
    C: Fn(&str) -> Option<String>,
>(
    arrival: Arrival,
    cookies: Seq<(Seq<char>, Seq<char>)>,
    key: Seq<char>,
    now: Option<i64>,
    decode: D,
    canonical: C,
    location: String,
    passport: String,
    max_age: i64,
)
    requires
        is_screening(
            arrival,
            cookies,
            key,
            now,
            decode,
            canonical,
            Screening::Granted { location, passport, max_age },
        ),
    ensures
        location@ == arrival.path@,
        token_in(text_of(arrival.query)) is Some,
        ({
            let ua = raw_header(arrival, "user-agent"@);
            let lang = raw_header(arrival, "accept-language"@);
            let token = decoded_token(token_in(text_of(arrival.query))->0);
            &&& exists|slice: &[u8], payload: PassportPayload|
                {
                    &&& slice@.len() > 0
                    &&& token == sealed(slice@, key)
                    &&& #[trigger] call_ensures(decode, (slice,), Some(payload))
                    &&& payload.b@ == client_mark(key, ua, lang)
                    &&& now matches Some(n) ==> n <= payload.exp + 60
                    &&& match payload.ttl {
                        Some(ttl) => {
                            &&& ttl <= 0 ==> max_age == 86_400
                            &&& 0 < ttl < 300 ==> max_age == 300
                            &&& 300 <= ttl <= 604_800 ==> max_age == ttl
                            &&& ttl > 604_800 ==> max_age == 604_800
                        },
                        None => max_age == 86_400,
                    }
                }
            &&& exists|exp: int| passport@ == #[trigger] minted(exp, key, ua, lang)
        }),
{
    let ua = raw_header(arrival, "user-agent"@);
    let lang = raw_header(arrival, "accept-language"@);
    let token = decoded_token(token_in(text_of(arrival.query))->0);
    let verdict = choose|verdict: Option<PassportPayload>|
        {
            &&& #[trigger] is_verdict(token, key, ua, lang, now, decode, verdict)
            &&& verdict matches Some(p) && max_age == crate::passport::clamped(
                match p.ttl {
                    Some(ttl) => ttl as int,
                    None => 0,
                },
            )
        };
    let payload = verdict->0;
    what_an_accepted_token_is(token, key, ua, lang, now, decode, payload);
    the_life_of_a_passport(
        match payload.ttl {
            Some(ttl) => ttl as int,
            None => 0,
        },
    );
    let slice = choose|slice: &[u8]|
        {
            &&& slice@.len() > 0
            &&& token == sealed(slice@, key)
            &&& #[trigger] call_ensures(decode, (slice,), Some(payload))
        };
    assert(call_ensures(decode, (slice,), Some(payload)));
}

/// A request with a pass token that no bytes give, sealed with the licence key, is
/// invalid, whatever its cookies are.
pub proof fn an_unsealed_token_is_invalid<
    D: Fn(&[u8]) -> Option<PassportPayload>,
    C: Fn(&str) -> Option<String>,
>(
    arrival: Arrival,
    cookies: Seq<(Seq<char>, Seq<char>)>,
    key: Seq<char>,
    now: Option<i64>,
    decode: D,
    canonical: C,
    r: Screening,
    token: Seq<char>,
)
    requires
        token_in(text_of(arrival.query)) == Some(token),
        forall|raw: Seq<u8>| raw.len() > 0 ==> decoded_token(token) != #[trigger] sealed(raw, key),
        is_screening(arrival, cookies, key, now, decode, canonical, r),
    ensures
        r is InvalidToken,
{
    let ua = raw_header(arrival, "user-agent"@);
    let lang = raw_header(arrival, "accept-language"@);
    assert forall|verdict: Option<PassportPayload>| #[trigger]
        is_verdict(decoded_token(token), key, ua, lang, now, decode, verdict) implies verdict is None by {
        an_unsealed_token_is_refused(decoded_token(token), key, ua, lang, now, decode, verdict);
    }
}

/// A request without a pass token passes where one of its cookies is called
/// `relintio_passport` and is sealed, read as a payload that has not been expired for
/// more than 60 seconds and bound to the raw user agent and language of the request.
pub proof fn a_good_passport_passes<
    D: Fn(&[u8]) -> Option<PassportPayload>,
    C: Fn(&str) -> Option<String>,
>(
    arrival: Arrival,
    cookies: Seq<(Seq<char>, Seq<char>)>,
    i: int,
    key: Seq<char>,
    now: i64,
    decode: D,
    canonical: C,
    r: Screening,
    raw: Seq<u8>,
    payload: PassportPayload,
)
    requires
        token_in(text_of(arrival.query)) is None,
        0 <= i < cookies.len(),
        cookies[i].0 == "relintio_passport"@,
        cookies[i].1 == sealed(raw, key),
        raw.len() > 0,
        reads_as(decode, raw, Some(payload)),
        now <= payload.exp + 60,
        payload.b@ == client_mark(
            key,
            raw_header(arrival, "user-agent"@),
            raw_header(arrival, "accept-language"@),
        ),
        is_screening(arrival, cookies, key, Some(now), decode, canonical, r),
    ensures
        r is Human,
{
    let ua = raw_header(arrival, "user-agent"@);
    let lang = raw_header(arrival, "accept-language"@);
    if r is Unknown {
        assert(cookies[i].0 == crate::passport::PASSPORT_COOKIE@);
        the_verdict_on_a_token(raw, key, ua, lang, now, decode, Some(payload), None);
    }
}

/// A request without a pass token passes only so: with a cookie called
/// `relintio_passport` that is sealed and reads as a payload that has not been expired
/// for more than 60 seconds and is bound to the raw user agent and language of the
/// request.
pub proof fn only_a_good_passport_passes<
    D: Fn(&[u8]) -> Option<PassportPayload>,
    C: Fn(&str) -> Option<String>,
>(
    arrival: Arrival,
    cookies: Seq<(Seq<char>, Seq<char>)>,
    key: Seq<char>,
    now: Option<i64>,
    decode: D,
    canonical: C,
)
    requires
        is_screening(arrival, cookies, key, now, decode, canonical, Screening::Human),
    ensures
        token_in(text_of(arrival.query)) is None,
        exists|i: int, slice: &[u8], payload: PassportPayload|
            {
                &&& 0 <= i < cookies.len()
                &&& (#[trigger] cookies[i]).0 == "relintio_passport"@
                &&& slice@.len() > 0
                &&& cookies[i].1 == sealed(slice@, key)
                &&& #[trigger] call_ensures(decode, (slice,), Some(payload))
                &&& now matches Some(n) ==> n <= payload.exp + 60
                &&& payload.b@ == client_mark(
                    key,
                    raw_header(arrival, "user-agent"@),
                    raw_header(arrival, "accept-language"@),
                )
            },
{
    let ua = raw_header(arrival, "user-agent"@);
    let lang = raw_header(arrival, "accept-language"@);
    let (i, payload) = choose|i: int, payload: PassportPayload|
        {
            &&& 0 <= i < cookies.len()
            &&& cookies[i].0 == crate::passport::PASSPORT_COOKIE@
            &&& #[trigger] is_verdict(cookies[i].1, key, ua, lang, now, decode, Some(payload))
        };
    what_an_accepted_token_is(cookies[i].1, key, ua, lang, now, decode, payload);
    let slice = choose|slice: &[u8]|
        {
            &&& slice@.len() > 0
            &&& cookies[i].1 == sealed(slice@, key)
            &&& #[trigger] call_ensures(decode, (slice,), Some(payload))
        };
    assert(cookies[i].0 == "relintio_passport"@ && call_ensures(decode, (slice,), Some(payload)));
}

/// A request that is handed on to be scored is scored as it came: with its own path and
/// method, its headers and its user agent as they were sent, its domain and its client.
pub proof fn a_request_is_scored_as_it_came<
    D: Fn(&[u8]) -> Option<PassportPayload>,
    C: Fn(&str) -> Option<String>,
>(
    arrival: Arrival,
    cookies: Seq<(Seq<char>, Seq<char>)>,
    key: Seq<char>,
    now: Option<i64>,
    decode: D,
    canonical: C,
    visit: Visit,
)
    requires
        is_screening(arrival, cookies, key, now, decode, canonical, Screening::Unknown(visit)),
    ensures
        token_in(text_of(arrival.query)) is None,
        visit.path@ == arrival.path@,
        visit.method@ == arrival.method@,
        visit.headers@ == crate::middleware::collected(field_views(arrival.fields@)),
        text_of(visit.user_agent) == lookup(
            crate::middleware::collected(field_views(arrival.fields@)),
            "user-agent"@,
        ),
        visit.domain@ == domain_of(field_views(arrival.fields@), text_of(arrival.uri_host)),
        is_client_address(
            field_views(arrival.fields@),
            text_of(arrival.peer),
            canonical,
            visit.ip@,
        ),
{
}

/// How a screened request goes on: a granted one is sent back to its path with the
/// passport as a cookie, an invalid token is refused with status 403, a human goes
/// straight to the handler, and any other request is scored.
pub proof fn how_a_screened_request_goes_on(
    location: String,
    passport: String,
    max_age: i64,
    visit: Visit,
    course: Course,
)
    ensures
        takes_course(Screening::Granted { location, passport, max_age }, course) <==> (
        course matches Course::React(Reaction::Respond(a)) && {
            &&& a.status == 302
            &&& text_of(a.location) == Some(location@)
            &&& text_of(a.set_cookie) == Some(
                cookie_text("relintio_passport"@, passport@, "/"@, max_age, true),
            )
            &&& a.content_type is None
            &&& a.body@ == Seq::<char>::empty()
        }),
        takes_course(Screening::InvalidToken, course) <==> (course matches Course::React(
            Reaction::Respond(a),
        ) && {
            &&& a.status == 403
            &&& a.location is None
            &&& a.set_cookie is None
            &&& a.content_type matches Some(t) && t@ == "text/plain"@
            &&& a.body@ == "Invalid Token"@
        }),
        takes_course(Screening::Human, course) <==> course == Course::React(
            Reaction::Forward { delay_seconds: 0, inject: false },
        ),
        takes_course(Screening::Unknown(visit), course) <==> course == Course::Ask(visit),
{
}

/// How a decision is answered: what is allowed goes to the handler with the script in its
/// pages, what is slowed goes to it two seconds later, a challenge is a redirect to the
/// very address, a decoy is a page with status 200 and a block a page with status 403.
pub proof fn how_a_decision_is_answered(url: Seq<char>, reaction: Reaction)
    ensures
        answers(DecisionView::Allow, reaction) <==> reaction == (Reaction::Forward {
            delay_seconds: 0,
            inject: true,
        }),
        answers(DecisionView::Slow, reaction) <==> reaction == (Reaction::Forward {
            delay_seconds: 2,
            inject: false,
        }),
        answers(DecisionView::Challenge { redirect_url: url }, reaction) <==> (
        reaction matches Reaction::Respond(a) && {
            &&& a.status == 302
            &&& text_of(a.location) == Some(url)
            &&& a.set_cookie is None
            &&& a.content_type is None
            &&& a.body@ == Seq::<char>::empty()
        }),
        answers(DecisionView::Decoy, reaction) <==> (reaction matches Reaction::Respond(a) && {
            &&& a.status == 200
            &&& a.location is None
            &&& a.set_cookie is None
            &&& a.content_type matches Some(t) && t@ == "text/html"@
            &&& a.body@ == DECOY_HTML@
        }),
        answers(DecisionView::Block, reaction) <==> (reaction matches Reaction::Respond(a) && {
            &&& a.status == 403
            &&& a.location is None
            &&& a.set_cookie is None
            &&& a.content_type matches Some(t) && t@ == "text/html"@
            &&& a.body@ == BLOCK_HTML@
        }),
{
}

/// A response is a page exactly where `text/html` stands somewhere in its content type.
pub proof fn what_counts_as_a_page(content_type: Seq<char>)
    ensures
        names_html(Some(content_type)) <==> has_part(content_type, "text/html"@),
        !names_html(None),
{
    holding_is_having_a_part(content_type, "text/html"@);
}

} // verus!
