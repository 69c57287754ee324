//! Passports and request signatures, version 2 of the agent protocol.
//!
//! Nothing here touches the network: a passport can be verified with the
//! licence key alone, so the edge keeps deciding when the control plane cannot
//! be reached.

use vstd::prelude::*;
use vstd::string::StringExecFns;
use vstd::utf8::{encode_utf8, encode_utf8_decode_utf8, is_ascii_chars_encode_utf8};
use crate::clock::{nanoseconds, signed_seconds, Moment};
use crate::codec::{
    base64url, base64url_alphabet, base64url_decode, base64url_encode, base64url_injective,
    hex_encode, hex_text, hex_text_is_hex, hex_text_is_injective, hmac_sha256, hmac_sha256_code, hmac_sha256_verify,
    is_hex_digit, sha256, sha256_digest, short_hex,
};
use crate::headers::pairs;
use crate::text::{
    begins, decimal, decimal_is_ascii, decimal_is_injective, decimal_text, joined,
    joining_pieces_gives_the_text, pieces, pieces_of_one, pieces_of_two, signed_decimal,
    signed_decimal_is_injective, signed_decimal_text, split, starts_with, views,
};

verus! {

/// The cookie that is set once a visitor has passed the challenge.
pub const PASSPORT_COOKIE: &'static str = "relintio_passport";

/// Absorbs clock drift between the challenge server and this agent.
pub const CLOCK_SKEW_SECONDS: i64 = 60;

/// The shortest life of a passport, in seconds.
pub const MIN_TTL: i64 = 300;

/// The longest life of a passport, in seconds.
pub const MAX_TTL: i64 = 604_800;

/// The life of a passport for which none was asked, in seconds.
pub const DEFAULT_TTL: i64 = 86_400;

/// The decoded body of a version 2 token.
#[derive(Debug, Clone)]
pub struct PassportPayload {
    pub v: i64,
    pub exp: i64,
    pub b: String,
    pub ttl: Option<i64>,
    pub jti: Option<String>,
}

// ---------------------------------------------------------------------------
// What a passport is
// ---------------------------------------------------------------------------

/// The client identity that a passport is tied to: the first 16 hexadecimal
/// digits of a digest over the licence key and the raw header values.
pub open spec fn binding(
    license_key: Seq<char>,
    user_agent: Seq<char>,
    accept_language: Seq<char>,
) -> Seq<char> {
    hex_text(
        sha256(encode_utf8(license_key + "|"@ + user_agent + "|"@ + accept_language)),
    ).take(16)
}

/// The form of a binding: 16 hexadecimal digits.
pub open spec fn is_binding_text(text: Seq<char>) -> bool {
    &&& text.len() == 16
    &&& forall|i: int| 0 <= i < 16 ==> is_hex_digit(#[trigger] text[i])
}

/// The body of a passport that this agent mints.
pub open spec fn payload_text(exp: int, bound_to: Seq<char>) -> Seq<char> {
    "{\"v\":2,\"exp\":"@ + signed_decimal(exp) + ",\"b\":\""@ + bound_to + "\"}"@
}

/// The token with this body and this code.
pub open spec fn token_of(raw: Seq<u8>, code: Seq<u8>) -> Seq<char> {
    "v2."@ + base64url(raw) + "."@ + base64url(code)
}

/// The token that carries `raw`, signed with `license_key`.
pub open spec fn token_text(raw: Seq<u8>, license_key: Seq<char>) -> Seq<char> {
    token_of(raw, hmac_sha256(encode_utf8(license_key), raw))
}

/// `value` is a token that carries `raw` and was signed with `license_key`.
pub open spec fn authentic(value: Seq<char>, license_key: Seq<char>, raw: Seq<u8>) -> bool {
    raw.len() > 0 && value == token_text(raw, license_key)
}

/// The passport of a client that expires at `exp`.
pub open spec fn minted(
    exp: int,
    license_key: Seq<char>,
    user_agent: Seq<char>,
    accept_language: Seq<char>,
) -> Seq<char> {
    token_text(
        encode_utf8(payload_text(exp, binding(license_key, user_agent, accept_language))),
        license_key,
    )
}

/// A payload holds at `now` for the client whose binding is `expected`: it has
/// not expired, the clock drift allowed for, and it is bound to that client.
pub open spec fn holds_for(payload: PassportPayload, expected: Seq<char>, now: i64) -> bool {
    &&& payload.exp + CLOCK_SKEW_SECONDS >= now
    &&& payload.b@ == expected
}

/// What comes of a payload: itself where it holds, nothing otherwise.
pub open spec fn accepted(
    payload: Option<PassportPayload>,
    expected: Seq<char>,
    now: i64,
) -> Option<PassportPayload> {
    match payload {
        Some(p) => if holds_for(p, expected, now) {
            Some(p)
        } else {
            None
        },
        None => None,
    }
}

/// `t` is the time given, or some reading of the clock where none is.
pub open spec fn is_now(now: Option<i64>, t: i64) -> bool {
    now matches Some(n) ==> t == n
}

/// `r` is a verdict on a token that a client presents, with `decode` to read the
/// body: nothing where the token was not signed with this licence key, and
/// otherwise what comes of the payload that was read in the body that the token
/// carries.
pub open spec fn is_verdict<F: Fn(&[u8]) -> Option<PassportPayload>>(
    value: Seq<char>,
    license_key: Seq<char>,
    user_agent: Seq<char>,
    accept_language: Seq<char>,
    now: Option<i64>,
    decode: F,
    r: Option<PassportPayload>,
) -> bool {
    &&& (forall|raw: Seq<u8>| !authentic(value, license_key, raw)) ==> r is None
    &&& (exists|raw: Seq<u8>| authentic(value, license_key, raw)) ==> exists|
        raw: &[u8],
        payload: Option<PassportPayload>,
        t: i64,
    |
        {
            &&& authentic(value, license_key, raw@)
            &&& #[trigger] call_ensures(decode, (raw,), payload)
            &&& #[trigger] is_now(now, t)
            &&& r == accepted(payload, binding(license_key, user_agent, accept_language), t)
        }
}

/// The text that a request signature covers, for the digest of a body.
pub open spec fn signing_base(digest: Seq<u8>, timestamp: i64, nonce: Seq<char>) -> Seq<char> {
    "v1:"@ + signed_decimal(timestamp as int) + ":"@ + nonce + ":"@ + hex_text(digest)
}

/// The text that a request signature covers.
pub open spec fn signing_text(body: Seq<u8>, timestamp: i64, nonce: Seq<char>) -> Seq<char> {
    signing_base(sha256(body), timestamp, nonce)
}

/// The signature of one request.
pub open spec fn signature(
    body: Seq<u8>,
    license_key: Seq<char>,
    timestamp: i64,
    nonce: Seq<char>,
) -> Seq<char> {
    hex_text(
        hmac_sha256(encode_utf8(license_key), encode_utf8(signing_text(body, timestamp, nonce))),
    )
}

/// The bytes that the nonce of a request is a digest of: the nanosecond clock
/// and the body.
pub open spec fn nonce_input(body: Seq<u8>, at: Moment) -> Seq<u8> {
    encode_utf8(decimal(nanoseconds(at))) + body
}

/// The nonce of a request that is signed at `at`: the first 24 hexadecimal
/// digits of a digest over the nanosecond clock and the body.
pub open spec fn nonce(body: Seq<u8>, at: Moment) -> Seq<char> {
    hex_text(sha256(nonce_input(body, at))).take(24)
}

/// The headers of a request that is signed at `at`.
pub open spec fn signing(body: Seq<u8>, license_key: Seq<char>, at: Moment) -> Seq<
    (Seq<char>, Seq<char>),
> {
    seq![
        ("X-Relintio-Timestamp"@, signed_decimal(signed_seconds(at) as int)),
        ("X-Relintio-Nonce"@, nonce(body, at)),
        (
            "X-Relintio-Signature"@,
            "v1="@ + signature(body, license_key, signed_seconds(at), nonce(body, at)),
        ),
    ]
}

/// The form of the signing headers: a nonce of 24 hexadecimal digits and a
/// signature of 64, under the version `v1`.
pub open spec fn well_formed_signing(headers: Seq<(Seq<char>, Seq<char>)>) -> bool {
    &&& headers.len() == 3
    &&& headers[1].1.len() == 24
    &&& forall|i: int| 0 <= i < 24 ==> is_hex_digit(#[trigger] headers[1].1[i])
    &&& headers[2].1.len() == 67
    &&& begins(headers[2].1, "v1="@)
    &&& forall|i: int| 3 <= i < 67 ==> is_hex_digit(#[trigger] headers[2].1[i])
}

// ---------------------------------------------------------------------------
// Passports
// ---------------------------------------------------------------------------

/// The time given, or the clock's where none is.
pub fn now_or(now: Option<i64>) -> (r: i64)
    ensures
        is_now(now, r),
{
    match now {
        Some(n) => n,
        None => Moment::now().signed_seconds(),
    }
}

/// The client identity that a passport is tied to.
///
/// `user_agent` and `accept_language` are the raw header values as received:
/// trimming or lowercasing them makes this agent disagree with the challenge
/// server, which locks every visitor out.
pub fn passport_binding(license_key: &str, user_agent: &str, accept_language: &str) -> (r: String)
    ensures
        r@ == binding(license_key@, user_agent@, accept_language@),
        is_binding_text(r@),
{
    let mut text = license_key.to_owned();
    text.append("|");
    text.append(user_agent);
    text.append("|");
    text.append(accept_language);
    let digest = sha256_digest(text.as_str().as_bytes());
    short_hex(digest.as_slice(), 16)
}

/// Byte comparison that does not return early.
pub fn constant_time_eq(a: &[u8], b: &[u8]) -> (r: bool)
    ensures
        r == (a@ == b@),
{
    if a.len() != b.len() {
        return false;
    }
    let mut diff: u8 = 0;
    let mut i: usize = 0;
    while i < a.len()
        invariant
            i <= a@.len(),
            a@.len() == b@.len(),
            diff == 0 <==> (forall|j: int| 0 <= j < i ==> a@[j] == b@[j]),
        decreases a@.len() - i,
    {
        let x: u8 = a[i];
        let y: u8 = b[i];
        assert((diff | (x ^ y)) == 0 <==> diff == 0 && x == y) by (bit_vector);
        diff = diff | (x ^ y);
        i = i + 1;
    }
    if diff == 0 {
        assert(a@ =~= b@);
    }
    diff == 0
}

/// The pieces of a token.
proof fn token_pieces(raw: Seq<u8>, code: Seq<u8>)
    ensures
        begins(token_of(raw, code), "v2."@),
        pieces(token_of(raw, code), '.') == seq!["v2"@, base64url(raw), base64url(code)],
{
    reveal_strlit("v2.");
    reveal_strlit("v2");
    reveal_strlit(".");
    let first = base64url(raw);
    let second = base64url(code);
    let value = token_of(raw, code);
    assert forall|i: int| 0 <= i < first.len() implies first[i] != '.' by {
        base64url_alphabet(raw, i);
    }
    assert forall|i: int| 0 <= i < second.len() implies second[i] != '.' by {
        base64url_alphabet(code, i);
    }
    pieces_of_one("v2"@, '.');
    pieces_of_one(first, '.');
    pieces_of_one(second, '.');
    pieces_of_two(first, second, '.');
    pieces_of_two("v2"@, first.push('.') + second, '.');
    assert(value =~= "v2"@.push('.') + (first.push('.') + second));
    assert(value.subrange(0, 3) =~= "v2."@);
    assert(seq!["v2"@] + (seq![first] + seq![second]) =~= seq!["v2"@, first, second]);
}

/// A token has one body and one code.
proof fn token_parts_are_unique(raw: Seq<u8>, code: Seq<u8>, other: Seq<u8>, other_code: Seq<u8>)
    requires
        token_of(raw, code) == token_of(other, other_code),
    ensures
        raw == other,
        code == other_code,
{
    token_pieces(raw, code);
    token_pieces(other, other_code);
    let p = seq!["v2"@, base64url(raw), base64url(code)];
    let q = seq!["v2"@, base64url(other), base64url(other_code)];
    assert(p[1] == q[1] && p[2] == q[2]);
    base64url_injective(raw, other);
    base64url_injective(code, other_code);
}

/// A text that starts with `v2.` and has three pieces is put together from
/// them.
proof fn three_pieces(value: Seq<char>)
    requires
        begins(value, "v2."@),
        pieces(value, '.').len() == 3,
    ensures
        value == "v2."@ + pieces(value, '.')[1] + "."@ + pieces(value, '.')[2],
{
    reveal_strlit("v2.");
    reveal_strlit("v2");
    reveal_strlit(".");
    joining_pieces_gives_the_text(value, '.');
    let p = pieces(value, '.');
    assert(p.drop_last().drop_last().len() == 1);
    assert(joined(p.drop_last().drop_last(), '.') == p[0]);
    assert(joined(p.drop_last(), '.') == p[0].push('.') + p[1]);
    assert(value == (p[0].push('.') + p[1]).push('.') + p[2]);
    assert(value.subrange(0, 3)[0] == 'v');
    assert(value.subrange(0, 3)[1] == '2');
    assert(value.subrange(0, 3)[2] == '.');
    assert(value[p[0].len() as int] == '.');
    if p[0].len() > 2 {
        assert(p[0][2] == value[2]);
    }
    assert(p[0] =~= "v2"@);
    assert(value =~= "v2."@ + p[1] + "."@ + p[2]);
}

/// The body and the code of a token.
pub fn token_parts(value: &str) -> (r: Option<(Vec<u8>, Vec<u8>)>)
    ensures
        match r {
            Some(parts) => value@ == token_of(parts.0@, parts.1@),
            None => forall|raw: Seq<u8>, code: Seq<u8>| value@ != #[trigger] token_of(raw, code),
        },
{
    proof {
        assert forall|raw: Seq<u8>, code: Seq<u8>| value@ == #[trigger] token_of(raw, code) implies {
            &&& begins(value@, "v2."@)
            &&& pieces(value@, '.').len() == 3
            &&& pieces(value@, '.')[1] == base64url(raw)
            &&& pieces(value@, '.')[2] == base64url(code)
        } by {
            token_pieces(raw, code);
        }
    }
    if !starts_with(value, "v2.") {
        return None;
    }
    let parts = split(value, '.');
    assert(views(parts@).len() == parts@.len());
    if parts.len() != 3 {
        return None;
    }
    assert(pieces(value@, '.')[1] == parts@[1]@);
    assert(pieces(value@, '.')[2] == parts@[2]@);
    let raw = match base64url_decode(parts[1].as_str()) {
        Some(raw) => raw,
        None => {
            return None;
        },
    };
    let code = match base64url_decode(parts[2].as_str()) {
        Some(code) => code,
        None => {
            return None;
        },
    };
    proof {
        three_pieces(value@);
    }
    Some((raw, code))
}

/// The bytes that a token carries, where it was signed with this licence key.
pub fn authenticate(value: &str, license_key: &str) -> (r: Option<Vec<u8>>)
    ensures
        match r {
            Some(raw) => authentic(value@, license_key@, raw@),
            None => forall|raw: Seq<u8>| !authentic(value@, license_key@, raw),
        },
{
    let ghost key = encode_utf8(license_key@);
    let (raw, code) = match token_parts(value) {
        Some(parts) => parts,
        None => {
            assert forall|raw: Seq<u8>| !authentic(value@, license_key@, raw) by {
                assert(token_text(raw, license_key@) == token_of(raw, hmac_sha256(key, raw)));
            }
            return None;
        },
    };
    proof {
        assert forall|other: Seq<u8>| #[trigger] authentic(value@, license_key@, other) implies {
            &&& other == raw@
            &&& code@ == hmac_sha256(key, raw@)
        } by {
            token_parts_are_unique(raw@, code@, other, hmac_sha256(key, other));
        }
    }
    if raw.len() == 0 {
        return None;
    }
    if !hmac_sha256_verify(license_key.as_bytes(), raw.as_slice(), code.as_slice()) {
        return None;
    }
    Some(raw)
}

/// The payload, where it holds at `now` for the client whose binding is
/// `expected`.
pub fn accept_payload(payload: PassportPayload, expected: &str, now: i64) -> (r: Option<
    PassportPayload,
>)
    ensures
        r == accepted(Some(payload), expected@, now),
{
    if payload.exp as i128 + (CLOCK_SKEW_SECONDS as i128) < now as i128 {
        return None;
    }
    proof {
        encode_utf8_decode_utf8(payload.b@);
        encode_utf8_decode_utf8(expected@);
    }
    if !constant_time_eq(payload.b.as_str().as_bytes(), expected.as_bytes()) {
        return None;
    }
    Some(payload)
}

/// Verify a version 2 pass token or passport cookie.
///
/// `decode` reads the JSON body of the token. Nothing comes back where the value
/// is malformed, forged or expired, where its body cannot be read, or where it
/// is bound to a different client.
pub fn verify_passport<F: Fn(&[u8]) -> Option<PassportPayload>>(
    value: &str,
    license_key: &str,
    user_agent: &str,
    accept_language: &str,
    now: Option<i64>,
    decode: &F,
) -> (r: Option<PassportPayload>)
    requires
        forall|raw: &[u8]| call_requires(*decode, (raw,)),
    ensures
        is_verdict(value@, license_key@, user_agent@, accept_language@, now, *decode, r),
{
    let raw = match authenticate(value, license_key) {
        Some(raw) => raw,
        None => {
            return None;
        },
    };
    let body = raw.as_slice();
    let decoded = decode(body);
    let t: i64 = now_or(now);
    let ghost given = decoded;
    assert(call_ensures(*decode, (body,), given) && is_now(now, t));
    match decoded {
        Some(payload) => {
            let expected = passport_binding(license_key, user_agent, accept_language);
            accept_payload(payload, expected.as_str(), t)
        },
        None => None,
    }
}

/// The token with this body and this code.
pub fn write_token(raw: &[u8], code: &[u8]) -> (r: String)
    ensures
        r@ == token_of(raw@, code@),
{
    let first = base64url_encode(raw);
    let second = base64url_encode(code);
    let mut token = String::new();
    token.append("v2.");
    token.append(first.as_str());
    token.append(".");
    token.append(second.as_str());
    assert(token@ =~= token_of(raw@, code@));
    token
}

/// The passport of a client that expires at `exp`.
///
/// The body is put together by hand, so that the order of its fields and the
/// separators are fixed: the signature covers these exact bytes.
pub fn mint_until(exp: i64, license_key: &str, user_agent: &str, accept_language: &str) -> (r:
    String)
    ensures
        r@ == minted(exp as int, license_key@, user_agent@, accept_language@),
        is_binding_text(binding(license_key@, user_agent@, accept_language@)),
{
    let bound_to = passport_binding(license_key, user_agent, accept_language);
    let digits = signed_decimal_text(exp);
    let mut raw = String::new();
    raw.append("{\"v\":2,\"exp\":");
    raw.append(digits.as_str());
    raw.append(",\"b\":\"");
    raw.append(bound_to.as_str());
    raw.append("\"}");
    assert(raw@ =~= payload_text(exp as int, bound_to@));
    let body = raw.as_str().as_bytes();
    let code = hmac_sha256_code(license_key.as_bytes(), body);
    write_token(body, code.as_slice())
}

/// The cookie value that this agent sets after a successful exchange: a
/// passport that expires `ttl` seconds from now.
pub fn mint_passport(
    ttl: i64,
    license_key: &str,
    user_agent: &str,
    accept_language: &str,
    now: Option<i64>,
) -> (r: String)
    requires
        now matches Some(n) ==> i64::MIN <= n + ttl <= i64::MAX,
    ensures
        exists|t: i64|
            {
                &&& #[trigger] is_now(now, t)
                &&& r@ == minted(
                    t.wrapping_add(ttl) as int,
                    license_key@,
                    user_agent@,
                    accept_language@,
                )
            },
        now matches Some(n) ==> r@ == minted(n + ttl, license_key@, user_agent@, accept_language@),
        is_binding_text(binding(license_key@, user_agent@, accept_language@)),
{
    let t: i64 = now_or(now);
    assert(is_now(now, t));
    mint_until(t.wrapping_add(ttl), license_key, user_agent, accept_language)
}

/// A plausible life for a passport, in seconds.
pub open spec fn clamped(ttl: int) -> int {
    if ttl <= 0 {
        DEFAULT_TTL as int
    } else if ttl < MIN_TTL {
        MIN_TTL as int
    } else if ttl > MAX_TTL {
        MAX_TTL as int
    } else {
        ttl
    }
}

/// Keep a signed-but-implausible life inside sane bounds.
pub fn clamp_ttl(ttl: i64) -> (r: i64)
    ensures
        r == clamped(ttl as int),
        MIN_TTL <= r <= MAX_TTL,
{
    if ttl <= 0 {
        DEFAULT_TTL
    } else if ttl < MIN_TTL {
        MIN_TTL
    } else if ttl > MAX_TTL {
        MAX_TTL
    } else {
        ttl
    }
}

// ---------------------------------------------------------------------------
// Request signatures
// ---------------------------------------------------------------------------

/// The text that a request signature covers, for the digest of a body.
pub fn write_signing_base(digest: &[u8], timestamp: i64, nonce: &str) -> (r: String)
    ensures
        r@ == signing_base(digest@, timestamp, nonce@),
{
    let body_hash = hex_encode(digest);
    let digits = signed_decimal_text(timestamp);
    let mut base = String::new();
    base.append("v1:");
    base.append(digits.as_str());
    base.append(":");
    base.append(nonce);
    base.append(":");
    base.append(body_hash.as_str());
    assert(base@ =~= signing_base(digest@, timestamp, nonce@));
    base
}

/// The signature of one request.
///
/// `body` is the exact bytes that will be transmitted.
pub fn sign_request(body: &[u8], license_key: &str, timestamp: i64, nonce: &str) -> (r: String)
    ensures
        r@ == signature(body@, license_key@, timestamp, nonce@),
        r@.len() == 64,
{
    let digest = sha256_digest(body);
    let base = write_signing_base(digest.as_slice(), timestamp, nonce);
    let code = hmac_sha256_code(license_key.as_bytes(), base.as_str().as_bytes());
    hex_encode(code.as_slice())
}

/// The headers of a request that is signed at `at`.
pub fn signing_headers_at(body: &[u8], license_key: &str, at: &Moment) -> (r: Vec<(String, String)>)
    ensures
        pairs(r@) == signing(body@, license_key@, *at),
        well_formed_signing(pairs(r@)),
        sha256(nonce_input(body@, *at)).len() == 32,
{
    let timestamp: i64 = at.signed_seconds();
    let clock = decimal_text(at.unix_nanoseconds());
    let mut seed: Vec<u8> = vstd::slice::slice_to_vec(clock.as_str().as_bytes());
    seed.extend_from_slice(body);
    assert(seed@ =~= nonce_input(body@, *at));
    let digest = sha256_digest(seed.as_slice());
    let once = short_hex(digest.as_slice(), 24);
    let mut value = "v1=".to_owned();
    let signed = sign_request(body, license_key, timestamp, once.as_str());
    value.append(signed.as_str());
    let mut headers: Vec<(String, String)> = Vec::new();
    headers.push(("X-Relintio-Timestamp".to_owned(), signed_decimal_text(timestamp)));
    headers.push(("X-Relintio-Nonce".to_owned(), once));
    headers.push(("X-Relintio-Signature".to_owned(), value));
    assert(pairs(headers@) =~= signing(body@, license_key@, *at));
    proof {
        let made = pairs(headers@);
        reveal_strlit("v1=");
        assert forall|i: int| 0 <= i < 24 implies is_hex_digit(#[trigger] made[1].1[i]) by {
            hex_text_is_hex(digest@, i);
        }
        assert forall|i: int| 3 <= i < 67 implies is_hex_digit(#[trigger] made[2].1[i]) by {
            hex_text_is_hex(
                hmac_sha256(
                    encode_utf8(license_key@),
                    encode_utf8(signing_text(body@, timestamp, once@)),
                ),
                i - 3,
            );
        }
        assert(made[2].1.subrange(0, 3) =~= "v1="@);
    }
    headers
}

/// Ready-made headers for one request, with a fresh nonce: the nonce takes in
/// the nanosecond clock and the body.
pub fn signing_headers(body: &[u8], license_key: &str) -> (r: Vec<(String, String)>)
    ensures
        exists|at: Moment|
            {
                &&& pairs(r@) == #[trigger] signing(body@, license_key@, at)
                &&& sha256(nonce_input(body@, at)).len() == 32
            },
        well_formed_signing(pairs(r@)),
{
    let at = Moment::now();
    signing_headers_at(body, license_key, &at)
}

// ---------------------------------------------------------------------------
// Laws
// ---------------------------------------------------------------------------

/// Only a token that starts with `v2.` is authentic under any key.
pub proof fn only_version_two_is_authentic(value: Seq<char>, license_key: Seq<char>, raw: Seq<u8>)
    requires
        authentic(value, license_key, raw),
    ensures
        begins(value, "v2."@),
{
    token_pieces(raw, hmac_sha256(encode_utf8(license_key), raw));
}

/// A token carries one body.
pub proof fn a_token_carries_one_body(
    value: Seq<char>,
    license_key: Seq<char>,
    raw: Seq<u8>,
    other: Seq<u8>,
)
    requires
        authentic(value, license_key, raw),
        authentic(value, license_key, other),
    ensures
        raw == other,
{
    let key = encode_utf8(license_key);
    token_parts_are_unique(raw, hmac_sha256(key, raw), other, hmac_sha256(key, other));
}

/// A token holds only ASCII characters, no white space, and nothing that means
/// anything in a query or among cookies.
pub proof fn a_token_needs_no_escaping(raw: Seq<u8>, license_key: Seq<char>, i: int)
    requires
        0 <= i < token_text(raw, license_key).len(),
    ensures
        token_text(raw, license_key)[i] != '%',
        token_text(raw, license_key)[i] != '&',
        token_text(raw, license_key)[i] != '=',
        token_text(raw, license_key)[i] != ';',
        token_text(raw, license_key)[i] > ' ',
        '\0' <= token_text(raw, license_key)[i] <= '\u{7f}',
{
    reveal_strlit("v2.");
    reveal_strlit(".");
    let code = hmac_sha256(encode_utf8(license_key), raw);
    let first = base64url(raw);
    if 3 <= i < 3 + first.len() {
        base64url_alphabet(raw, i - 3);
    } else if i > 3 + first.len() {
        base64url_alphabet(code, i - 4 - first.len());
    }
}

/// A minted passport is authentic under the licence key that it was minted with,
/// and carries its payload.
pub proof fn a_minted_passport_is_authentic(
    exp: int,
    license_key: Seq<char>,
    user_agent: Seq<char>,
    accept_language: Seq<char>,
)
    ensures
        authentic(
            minted(exp, license_key, user_agent, accept_language),
            license_key,
            encode_utf8(payload_text(exp, binding(license_key, user_agent, accept_language))),
        ),
{
    reveal_strlit("{\"v\":2,\"exp\":");
    let text = payload_text(exp, binding(license_key, user_agent, accept_language));
    assert(text.len() > 0);
    encode_utf8_decode_utf8(text);
    if encode_utf8(text).len() == 0 {
        assert(encode_utf8(text) =~= encode_utf8(Seq::empty()));
        encode_utf8_decode_utf8(Seq::empty());
    }
}

/// The payload that this agent mints: of version 2, with this expiry and this
/// binding, and nothing else.
pub open spec fn is_minted_payload(payload: PassportPayload, exp: i64, bound_to: Seq<char>) -> bool {
    &&& payload.v == 2
    &&& payload.exp == exp
    &&& payload.b@ == bound_to
    &&& payload.ttl is None
    &&& payload.jti is None
}

/// A minted body says one thing: it has one expiry and one binding.
pub proof fn a_minted_body_says_one_thing(
    exp: i64,
    bound_to: Seq<char>,
    other_exp: i64,
    other_bound_to: Seq<char>,
)
    requires
        is_binding_text(bound_to),
        is_binding_text(other_bound_to),
        encode_utf8(payload_text(exp as int, bound_to)) == encode_utf8(
            payload_text(other_exp as int, other_bound_to),
        ),
    ensures
        exp == other_exp,
        bound_to == other_bound_to,
{
    let text = payload_text(exp as int, bound_to);
    let other = payload_text(other_exp as int, other_bound_to);
    encode_utf8_decode_utf8(text);
    encode_utf8_decode_utf8(other);
    let head = "{\"v\":2,\"exp\":"@.len() as int;
    let middle = ",\"b\":\""@.len() as int;
    let digits = signed_decimal(exp as int);
    let other_digits = signed_decimal(other_exp as int);
    assert(digits.len() == other_digits.len());
    let end = head + digits.len();
    assert(digits =~= text.subrange(head, end));
    assert(other_digits =~= other.subrange(head, end));
    assert(bound_to =~= text.subrange(end + middle, end + middle + 16));
    assert(other_bound_to =~= other.subrange(end + middle, end + middle + 16));
    signed_decimal_is_injective(exp as int, other_exp as int);
}

/// `decode` reads a body that this agent mints as the payload that was put in.
pub open spec fn reads_minted_bodies<F: Fn(&[u8]) -> Option<PassportPayload>>(decode: F) -> bool {
    forall|raw: &[u8], exp: i64, bound_to: Seq<char>, out: Option<PassportPayload>|
        #![trigger call_ensures(decode, (raw,), out), payload_text(exp as int, bound_to)]
        is_binding_text(bound_to) && raw@ == encode_utf8(payload_text(exp as int, bound_to))
            && call_ensures(decode, (raw,), out) ==> {
            &&& out is Some
            &&& is_minted_payload(out->0, exp, bound_to)
        }
}

/// A passport is accepted from the client that it was minted for until it has
/// expired, and a minute longer, and then it comes back as it was minted; it is
/// not accepted from a client with another binding, nor after that.
pub proof fn a_minted_passport_is_bound_to_its_client<F: Fn(&[u8]) -> Option<PassportPayload>>(
    exp: i64,
    license_key: Seq<char>,
    user_agent: Seq<char>,
    accept_language: Seq<char>,
    presented_user_agent: Seq<char>,
    presented_accept_language: Seq<char>,
    now: i64,
    decode: F,
    r: Option<PassportPayload>,
)
    requires
        reads_minted_bodies(decode),
        is_binding_text(binding(license_key, user_agent, accept_language)),
        is_verdict(
            minted(exp as int, license_key, user_agent, accept_language),
            license_key,
            presented_user_agent,
            presented_accept_language,
            Some(now),
            decode,
            r,
        ),
    ensures
        r is Some <==> {
            &&& now <= exp + CLOCK_SKEW_SECONDS
            &&& binding(license_key, presented_user_agent, presented_accept_language) == binding(
                license_key,
                user_agent,
                accept_language,
            )
        },
        r matches Some(p) ==> is_minted_payload(
            p,
            exp,
            binding(license_key, user_agent, accept_language),
        ),
{
    let bound_to = binding(license_key, user_agent, accept_language);
    let value = minted(exp as int, license_key, user_agent, accept_language);
    let body = encode_utf8(payload_text(exp as int, bound_to));
    a_minted_passport_is_authentic(exp as int, license_key, user_agent, accept_language);
    let (raw, payload, t) = choose|raw: &[u8], payload: Option<PassportPayload>, t: i64|
        {
            &&& authentic(value, license_key, raw@)
            &&& #[trigger] call_ensures(decode, (raw,), payload)
            &&& #[trigger] is_now(Some(now), t)
            &&& r == accepted(
                payload,
                binding(license_key, presented_user_agent, presented_accept_language),
                t,
            )
        };
    a_token_carries_one_body(value, license_key, raw@, body);
}

/// A passport that was minted for one client and licence is worthless to any
/// other: where the bindings differ it is refused, whatever the licence key that
/// it is presented under and whatever the time.
pub proof fn a_minted_passport_is_worthless_elsewhere<F: Fn(&[u8]) -> Option<PassportPayload>>(
    exp: i64,
    license_key: Seq<char>,
    user_agent: Seq<char>,
    accept_language: Seq<char>,
    other_license_key: Seq<char>,
    other_user_agent: Seq<char>,
    other_accept_language: Seq<char>,
    now: Option<i64>,
    decode: F,
    r: Option<PassportPayload>,
)
    requires
        reads_minted_bodies(decode),
        is_binding_text(binding(license_key, user_agent, accept_language)),
        binding(other_license_key, other_user_agent, other_accept_language) != binding(
            license_key,
            user_agent,
            accept_language,
        ),
        is_verdict(
            minted(exp as int, license_key, user_agent, accept_language),
            other_license_key,
            other_user_agent,
            other_accept_language,
            now,
            decode,
            r,
        ),
    ensures
        r is None,
{
    let bound_to = binding(license_key, user_agent, accept_language);
    let expected = binding(other_license_key, other_user_agent, other_accept_language);
    let value = minted(exp as int, license_key, user_agent, accept_language);
    let body = encode_utf8(payload_text(exp as int, bound_to));
    if exists|raw: Seq<u8>| authentic(value, other_license_key, raw) {
        let (raw, payload, t) = choose|raw: &[u8], payload: Option<PassportPayload>, t: i64|
            {
                &&& authentic(value, other_license_key, raw@)
                &&& #[trigger] call_ensures(decode, (raw,), payload)
                &&& #[trigger] is_now(now, t)
                &&& r == accepted(payload, expected, t)
            };
        token_parts_are_unique(
            body,
            hmac_sha256(encode_utf8(license_key), body),
            raw@,
            hmac_sha256(encode_utf8(other_license_key), raw@),
        );
    }
}

/// Nonces are digests of different bytes: at two readings of the clock that
/// differ, whether the two requests have the same body or the readings are
/// written with the same number of digits; and at one reading for two bodies
/// that differ.
pub proof fn nonces_digest_different_bytes(
    body: Seq<u8>,
    at: Moment,
    other_body: Seq<u8>,
    other_at: Moment,
)
    requires
        ({
            let digits = decimal(nanoseconds(at));
            let other_digits = decimal(nanoseconds(other_at));
            ||| nanoseconds(at) != nanoseconds(other_at) && (body == other_body || digits.len()
                == other_digits.len())
            ||| nanoseconds(at) == nanoseconds(other_at) && body != other_body
        }),
    ensures
        nonce_input(body, at) != nonce_input(other_body, other_at),
{
    let digits = decimal(nanoseconds(at));
    let other_digits = decimal(nanoseconds(other_at));
    let first = encode_utf8(digits);
    let other_first = encode_utf8(other_digits);
    decimal_is_ascii(nanoseconds(at));
    decimal_is_ascii(nanoseconds(other_at));
    is_ascii_chars_encode_utf8(digits);
    is_ascii_chars_encode_utf8(other_digits);
    let input = first + body;
    let other_input = other_first + other_body;
    if input == other_input {
        assert(input.len() == other_input.len());
        assert(first.len() == other_first.len());
        assert(first =~= input.take(first.len() as int));
        assert(other_first =~= other_input.take(first.len() as int));
        assert(body =~= input.skip(first.len() as int));
        assert(other_body =~= other_input.skip(first.len() as int));
        encode_utf8_decode_utf8(digits);
        encode_utf8_decode_utf8(other_digits);
        decimal_is_injective(nanoseconds(at), nanoseconds(other_at));
    }
}

/// The digests of two different inputs differ within their first twelve bytes.
pub open spec fn no_prefix_collision(a: Seq<u8>, b: Seq<u8>) -> bool {
    a != b ==> sha256(a).take(12) != sha256(b).take(12)
}

/// Nonces differ where the first twelve bytes of the two digests do.
pub proof fn nonces_differ_where_digests_do(
    body: Seq<u8>,
    at: Moment,
    other_body: Seq<u8>,
    other_at: Moment,
)
    requires
        sha256(nonce_input(body, at)).len() == 32,
        sha256(nonce_input(other_body, other_at)).len() == 32,
        sha256(nonce_input(body, at)).take(12) != sha256(nonce_input(other_body, other_at)).take(
            12,
        ),
    ensures
        nonce(body, at) != nonce(other_body, other_at),
{
    if nonce(body, at) == nonce(other_body, other_at) {
        hex_text_is_injective(
            sha256(nonce_input(body, at)),
            sha256(nonce_input(other_body, other_at)),
            12,
        );
    }
}

/// A nonce is fresh: two requests that are signed at different readings of the
/// clock have different nonces, as do two with different bodies that are signed
/// at one reading, unless their digests collide. Two bodies that differ at two
/// readings that differ need readings with the same number of digits.
pub proof fn nonces_are_fresh(body: Seq<u8>, at: Moment, other_body: Seq<u8>, other_at: Moment)
    requires
        sha256(nonce_input(body, at)).len() == 32,
        sha256(nonce_input(other_body, other_at)).len() == 32,
        no_prefix_collision(nonce_input(body, at), nonce_input(other_body, other_at)),
        ({
            let digits = decimal(nanoseconds(at));
            let other_digits = decimal(nanoseconds(other_at));
            ||| nanoseconds(at) != nanoseconds(other_at) && (body == other_body || digits.len()
                == other_digits.len())
            ||| nanoseconds(at) == nanoseconds(other_at) && body != other_body
        }),
    ensures
        nonce(body, at) != nonce(other_body, other_at),
{
    nonces_digest_different_bytes(body, at, other_body, other_at);
    nonces_differ_where_digests_do(body, at, other_body, other_at);
}

/// A payload that holds at one time held before it: nothing but its expiry ends
/// it.
pub proof fn a_payload_holds_until_it_expires(
    payload: PassportPayload,
    expected: Seq<char>,
    now: i64,
    before: i64,
)
    requires
        holds_for(payload, expected, now),
        before <= now,
    ensures
        holds_for(payload, expected, before),
{
}

/// The life of a passport is always within its bounds, one within them is kept,
/// and bounding it again changes nothing.
pub proof fn clamping_keeps_within_bounds(ttl: int)
    ensures
        MIN_TTL <= clamped(ttl) <= MAX_TTL,
        MIN_TTL <= ttl <= MAX_TTL ==> clamped(ttl) == ttl,
        clamped(clamped(ttl)) == clamped(ttl),
{
}

} // verus!
