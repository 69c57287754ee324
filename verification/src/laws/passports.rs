//! Laws of passports and signatures.

use vstd::prelude::*;
use vstd::utf8::encode_utf8;
use crate::clock::{nanoseconds, seconds, signed_seconds, Moment};
use crate::codec::{base64url, hex_text, hmac_sha256, sha256};
use crate::passport::{
    a_token_carries_one_body, accepted, authentic, binding, clamped, is_now, is_verdict, minted,
    nonce, signature, signing, PassportPayload,
};
use crate::text::{decimal, signed_decimal};

verus! {

/// What a client is known by: the first 16 hexadecimal digits of the digest of the
/// licence key, the user agent and the accepted language, as they are, with bars
/// between them.
pub open spec fn client_mark(key: Seq<char>, ua: Seq<char>, lang: Seq<char>) -> Seq<char> {
    hex_text(sha256(encode_utf8(key + seq!['|'] + ua + seq!['|'] + lang))).take(16)
}

/// The token that carries some bytes under a licence key.
pub open spec fn sealed(raw: Seq<u8>, key: Seq<char>) -> Seq<char> {
    seq!['v', '2', '.'] + base64url(raw) + seq!['.'] + base64url(
        hmac_sha256(encode_utf8(key), raw),
    )
}

/// `decode` reads these bytes as `out`, and as nothing else.
pub open spec fn reads_as<F: Fn(&[u8]) -> Option<PassportPayload>>(
    decode: F,
    raw: Seq<u8>,
    out: Option<PassportPayload>,
) -> bool {
    forall|slice: &[u8], given: Option<PassportPayload>|
        slice@ == raw && #[trigger] call_ensures(decode, (slice,), given) ==> given == out
}

/// The mark of a client is made of the raw values.
pub proof fn a_binding_is_the_mark_of_the_client(key: Seq<char>, ua: Seq<char>, lang: Seq<char>)
    ensures
        binding(key, ua, lang) == client_mark(key, ua, lang),
{
    reveal_strlit("|");
    assert("|"@ =~= seq!['|']);
}

/// A token is authentic for some bytes exactly where it is those bytes, sealed with the
/// licence key, and they are not empty.
pub proof fn an_authentic_token_is_sealed(value: Seq<char>, key: Seq<char>, raw: Seq<u8>)
    ensures
        authentic(value, key, raw) <==> raw.len() > 0 && value == sealed(raw, key),
{
    reveal_strlit("v2.");
    reveal_strlit(".");
    assert("v2."@ =~= seq!['v', '2', '.']);
    assert("."@ =~= seq!['.']);
}

/// The verdict on a token at a given time: the payload that its body reads as where that
/// has not been expired for more than 60 seconds and is bound to this very client,
/// whatever else the payload says, and nothing otherwise.
pub proof fn the_verdict_on_a_token<F: Fn(&[u8]) -> Option<PassportPayload>>(
    raw: Seq<u8>,
    key: Seq<char>,
    ua: Seq<char>,
    lang: Seq<char>,
    now: i64,
    decode: F,
    payload: Option<PassportPayload>,
    r: Option<PassportPayload>,
)
    requires
        raw.len() > 0,
        reads_as(decode, raw, payload),
        is_verdict(sealed(raw, key), key, ua, lang, Some(now), decode, r),
    ensures
        payload is None ==> r is None,
        payload matches Some(p) ==> (now <= p.exp + 60 && p.b@ == client_mark(key, ua, lang)
            ==> r == payload),
        payload matches Some(p) ==> (now > p.exp + 60 ==> r is None),
        payload matches Some(p) ==> (p.b@ != client_mark(key, ua, lang) ==> r is None),
{
    let value = sealed(raw, key);
    an_authentic_token_is_sealed(value, key, raw);
    a_binding_is_the_mark_of_the_client(key, ua, lang);
    let (slice, given, t) = choose|slice: &[u8], given: Option<PassportPayload>, t: i64|
        {
            &&& authentic(value, key, slice@)
            &&& #[trigger] call_ensures(decode, (slice,), given)
            &&& #[trigger] is_now(Some(now), t)
            &&& r == accepted(given, binding(key, ua, lang), t)
        };
    a_token_carries_one_body(value, key, slice@, raw);
}

/// A token that is accepted at a given time has not been expired for more than 60
/// seconds, is bound to this very client, and carries bytes, sealed with the licence
/// key, that read as the payload.
pub proof fn what_an_accepted_token_is<F: Fn(&[u8]) -> Option<PassportPayload>>(
    value: Seq<char>,
    key: Seq<char>,
    ua: Seq<char>,
    lang: Seq<char>,
    now: Option<i64>,
    decode: F,
    payload: PassportPayload,
)
    requires
        is_verdict(value, key, ua, lang, now, decode, Some(payload)),
    ensures
        now matches Some(n) ==> n <= payload.exp + 60,
        payload.b@ == client_mark(key, ua, lang),
        exists|slice: &[u8]|
            {
                &&& slice@.len() > 0
                &&& value == sealed(slice@, key)
                &&& #[trigger] call_ensures(decode, (slice,), Some(payload))
            },
{
    a_binding_is_the_mark_of_the_client(key, ua, lang);
    let (slice, given, t) = choose|slice: &[u8], given: Option<PassportPayload>, t: i64|
        {
            &&& authentic(value, key, slice@)
            &&& #[trigger] call_ensures(decode, (slice,), given)
            &&& #[trigger] is_now(now, t)
            &&& Some(payload) == accepted(given, binding(key, ua, lang), t)
        };
    an_authentic_token_is_sealed(value, key, slice@);
    assert(call_ensures(decode, (slice,), Some(payload)));
}

/// A token that no bytes give, sealed with the licence key, is refused.
pub proof fn an_unsealed_token_is_refused<F: Fn(&[u8]) -> Option<PassportPayload>>(
    value: Seq<char>,
    key: Seq<char>,
    ua: Seq<char>,
    lang: Seq<char>,
    now: Option<i64>,
    decode: F,
    r: Option<PassportPayload>,
)
    requires
        forall|raw: Seq<u8>| raw.len() > 0 ==> value != #[trigger] sealed(raw, key),
        is_verdict(value, key, ua, lang, now, decode, r),
    ensures
        r is None,
{
    assert forall|raw: Seq<u8>| !authentic(value, key, raw) by {
        an_authentic_token_is_sealed(value, key, raw);
        assert(raw.len() > 0 ==> value != sealed(raw, key));
    }
}

/// A minted passport is its body, sealed: version 2, the expiry, and the mark of the
/// client.
pub proof fn a_minted_passport_is_its_body_sealed(
    exp: int,
    key: Seq<char>,
    ua: Seq<char>,
    lang: Seq<char>,
)
    ensures
        minted(exp, key, ua, lang) == sealed(
            encode_utf8(
                "{\"v\":2,\"exp\":"@ + signed_decimal(exp) + ",\"b\":\""@ + client_mark(
                    key,
                    ua,
                    lang,
                ) + "\"}"@,
            ),
            key,
        ),
{
    a_binding_is_the_mark_of_the_client(key, ua, lang);
    reveal_strlit("v2.");
    reveal_strlit(".");
    assert("v2."@ =~= seq!['v', '2', '.']);
    assert("."@ =~= seq!['.']);
}

/// The life of a passport is the one that was asked for, but no shorter than five
/// minutes and no longer than a week; a day where none was asked for.
pub proof fn the_life_of_a_passport(ttl: int)
    ensures
        ttl <= 0 ==> clamped(ttl) == 86_400,
        0 < ttl < 300 ==> clamped(ttl) == 300,
        300 <= ttl <= 604_800 ==> clamped(ttl) == ttl,
        ttl > 604_800 ==> clamped(ttl) == 604_800,
{
}

/// A request is signed over its version, its timestamp, its nonce and the digest of its
/// body, with colons between them.
pub proof fn what_a_signature_covers(
    body: Seq<u8>,
    key: Seq<char>,
    timestamp: i64,
    once: Seq<char>,
)
    ensures
        signature(body, key, timestamp, once) == hex_text(
            hmac_sha256(
                encode_utf8(key),
                encode_utf8(
                    "v1:"@ + signed_decimal(timestamp as int) + ":"@ + once + ":"@ + hex_text(
                        sha256(body),
                    ),
                ),
            ),
        ),
{
}

/// The headers of a signed request: the seconds of the clock, the first 24 hexadecimal
/// digits of the digest of its nanoseconds and the body, and the signature under both.
pub proof fn what_the_signing_headers_are(body: Seq<u8>, key: Seq<char>, at: Moment)
    ensures
        ({
            let once = hex_text(sha256(encode_utf8(decimal(nanoseconds(at))) + body)).take(24);
            &&& nonce(body, at) == once
            &&& signing(body, key, at) == seq![
                ("X-Relintio-Timestamp"@, signed_decimal(seconds(at) as i64 as int)),
                ("X-Relintio-Nonce"@, once),
                (
                    "X-Relintio-Signature"@,
                    "v1="@ + signature(body, key, seconds(at) as i64, once),
                ),
            ]
        }),
{
    assert(signed_seconds(at) == seconds(at) as i64);
}

/// A reading of the clock counts from the epoch, in seconds and in nanoseconds.
pub proof fn how_the_clock_is_read(s: u64, n: u32)
    ensures
        seconds(Moment { since_epoch: Some((s, n)) }) == s,
        nanoseconds(Moment { since_epoch: Some((s, n)) }) == 1_000_000_000 * s + n,
        seconds(Moment { since_epoch: None }) == 0,
        nanoseconds(Moment { since_epoch: None }) == 0,
{
}

} // verus!
