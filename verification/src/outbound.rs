//! The requests that the agent sends to the control plane.

use vstd::prelude::*;
use vstd::string::StringExecFns;
use crate::clock::{nanoseconds, signed_seconds, Moment};
use crate::codec::sha256;
use crate::headers::pairs;
use crate::passport::{
    no_prefix_collision, nonce_input, nonces_are_fresh, nonces_digest_different_bytes, signature,
    signing, signing_headers_at,
};
use crate::text::{decimal, signed_decimal, strip_end, trim_end_matches, CharClass};

verus! {

/// The version that the agent reports.
pub const AGENT_VERSION: &'static str = "0.1.2";

/// The kind of agent that it reports.
pub const AGENT_KIND: &'static str = "rust";

/// The version of the protocol that it speaks.
pub const PROTOCOL_VERSION: u64 = 1;

/// The seconds after which a heartbeat is given up.
pub const HEARTBEAT_TIMEOUT_SECONDS: u64 = 2;

/// The seconds after which any other request is given up.
pub const REQUEST_TIMEOUT_SECONDS: u64 = 10;

/// One POST request, ready to be sent: these bytes, under these headers.
#[derive(Debug)]
pub struct OutboundRequest {
    pub url: String,
    pub headers: Vec<(String, String)>,
    pub body: Vec<u8>,
    /// The seconds after which it is given up.
    pub timeout_seconds: u64,
}

// ---------------------------------------------------------------------------
// Bodies
// ---------------------------------------------------------------------------

/// Names and numbers, in their order.
pub open spec fn counts(list: Seq<(String, u64)>) -> Seq<(Seq<char>, u64)> {
    list.map_values(|m: (String, u64)| (m.0@, m.1))
}

/// Names and lists of texts, in their order.
pub open spec fn word_lists(list: Seq<(String, Vec<String>)>) -> Seq<(Seq<char>, Seq<Seq<char>>)> {
    list.map_values(|m: (String, Vec<String>)| (m.0@, m.1@.map_values(|t: String| t@)))
}

/// The JSON text of an object with these members: the texts, the numbers and the
/// lists of texts, as serde_json writes it.
pub uninterp spec fn json_object(
    texts: Seq<(Seq<char>, Seq<char>)>,
    numbers: Seq<(Seq<char>, u64)>,
    lists: Seq<(Seq<char>, Seq<Seq<char>>)>,
) -> Seq<u8>;

/// `serde_json::to_vec` of a `serde_json::Map` with these members. A map whose
/// keys are texts can always be written. The bytes are a function of the
/// members, named `json_object`; how they are set out is not stated.
#[verifier::external_body]
pub(crate) fn json_bytes(
    texts: &Vec<(String, String)>,
    numbers: &Vec<(String, u64)>,
    lists: &Vec<(String, Vec<String>)>,
) -> (r: Vec<u8>)
    ensures
        r@ == json_object(pairs(texts@), counts(numbers@), word_lists(lists@)),
{
    let mut map = serde_json::Map::new();
    for (name, text) in texts {
        map.insert(name.clone(), serde_json::Value::from(text.as_str()));
    }
    for (name, number) in numbers {
        map.insert(name.clone(), serde_json::Value::from(*number));
    }
    for (name, words) in lists {
        map.insert(name.clone(), serde_json::Value::from(words.clone()));
    }
    serde_json::to_vec(&map).expect("a map with text keys is always written")
}

/// The body of a request for the policy.
pub open spec fn verify_body(license_key: Seq<char>, domain: Seq<char>) -> Seq<u8> {
    json_object(
        seq![
            ("license_key"@, license_key),
            ("domain"@, domain),
            ("agent_kind"@, AGENT_KIND@),
            ("agent_version"@, AGENT_VERSION@),
        ],
        seq![("protocol_version"@, PROTOCOL_VERSION)],
        seq![("capabilities"@, seq!["custom_rules"@, "telemetry"@])],
    )
}

/// The body of a heartbeat at `now`.
pub open spec fn heartbeat_body(license_key: Seq<char>, domain: Seq<char>, now: u64) -> Seq<u8> {
    json_object(
        seq![
            ("license_key"@, license_key),
            ("domain"@, domain),
            ("agent_version"@, AGENT_VERSION@),
            ("agent_kind"@, AGENT_KIND@),
        ],
        seq![("timestamp"@, now)],
        Seq::empty(),
    )
}

/// The body of a request for a challenge.
pub open spec fn challenge_body(license_key: Seq<char>, return_url: Seq<char>) -> Seq<u8> {
    json_object(
        seq![("license_key"@, license_key), ("return_url"@, return_url)],
        Seq::empty(),
        Seq::empty(),
    )
}

/// The body of a request for the policy.
pub fn write_verify_body(license_key: &str, domain: &str) -> (r: Vec<u8>)
    ensures
        r@ == verify_body(license_key@, domain@),
{
    let mut texts: Vec<(String, String)> = Vec::new();
    texts.push(("license_key".to_owned(), license_key.to_owned()));
    texts.push(("domain".to_owned(), domain.to_owned()));
    texts.push(("agent_kind".to_owned(), AGENT_KIND.to_owned()));
    texts.push(("agent_version".to_owned(), AGENT_VERSION.to_owned()));
    let mut numbers: Vec<(String, u64)> = Vec::new();
    numbers.push(("protocol_version".to_owned(), PROTOCOL_VERSION));
    let mut capabilities: Vec<String> = Vec::new();
    capabilities.push("custom_rules".to_owned());
    capabilities.push("telemetry".to_owned());
    let ghost words = capabilities@;
    let mut lists: Vec<(String, Vec<String>)> = Vec::new();
    lists.push(("capabilities".to_owned(), capabilities));
    proof {
        assert(pairs(texts@) =~= seq![
            ("license_key"@, license_key@),
            ("domain"@, domain@),
            ("agent_kind"@, AGENT_KIND@),
            ("agent_version"@, AGENT_VERSION@),
        ]);
        assert(counts(numbers@) =~= seq![("protocol_version"@, PROTOCOL_VERSION)]);
        assert(words.map_values(|t: String| t@) =~= seq!["custom_rules"@, "telemetry"@]);
        assert(word_lists(lists@) =~= seq![
            ("capabilities"@, seq!["custom_rules"@, "telemetry"@]),
        ]);
    }
    json_bytes(&texts, &numbers, &lists)
}

/// The body of a heartbeat at `now`.
pub fn write_heartbeat_body(license_key: &str, domain: &str, now: u64) -> (r: Vec<u8>)
    ensures
        r@ == heartbeat_body(license_key@, domain@, now),
{
    let mut texts: Vec<(String, String)> = Vec::new();
    texts.push(("license_key".to_owned(), license_key.to_owned()));
    texts.push(("domain".to_owned(), domain.to_owned()));
    texts.push(("agent_version".to_owned(), AGENT_VERSION.to_owned()));
    texts.push(("agent_kind".to_owned(), AGENT_KIND.to_owned()));
    let mut numbers: Vec<(String, u64)> = Vec::new();
    numbers.push(("timestamp".to_owned(), now));
    let lists: Vec<(String, Vec<String>)> = Vec::new();
    proof {
        assert(pairs(texts@) =~= seq![
            ("license_key"@, license_key@),
            ("domain"@, domain@),
            ("agent_version"@, AGENT_VERSION@),
            ("agent_kind"@, AGENT_KIND@),
        ]);
        assert(counts(numbers@) =~= seq![("timestamp"@, now)]);
        assert(word_lists(lists@) =~= Seq::empty());
    }
    json_bytes(&texts, &numbers, &lists)
}

/// The body of a request for a challenge.
pub fn write_challenge_body(license_key: &str, return_url: &str) -> (r: Vec<u8>)
    ensures
        r@ == challenge_body(license_key@, return_url@),
{
    let mut texts: Vec<(String, String)> = Vec::new();
    texts.push(("license_key".to_owned(), license_key.to_owned()));
    texts.push(("return_url".to_owned(), return_url.to_owned()));
    let numbers: Vec<(String, u64)> = Vec::new();
    let lists: Vec<(String, Vec<String>)> = Vec::new();
    proof {
        assert(pairs(texts@) =~= seq![("license_key"@, license_key@), ("return_url"@, return_url@)]);
        assert(counts(numbers@) =~= Seq::empty());
        assert(word_lists(lists@) =~= Seq::empty());
    }
    json_bytes(&texts, &numbers, &lists)
}

// ---------------------------------------------------------------------------
// Requests
// ---------------------------------------------------------------------------

/// The address of a route of the control plane.
pub open spec fn endpoint(api_url: Seq<char>, route: Seq<char>) -> Seq<char> {
    strip_end(api_url, CharClass::Slash) + route
}

/// The headers of a request with this body that is signed at `at`.
pub open spec fn request_headers(body: Seq<u8>, license_key: Seq<char>, at: Moment) -> Seq<
    (Seq<char>, Seq<char>),
> {
    seq![("Content-Type"@, "application/json"@)] + signing(body, license_key, at)
}

/// `request` carries `body` to `url`, and its headers sign exactly these bytes,
/// under a nonce from a digest of 32 bytes.
pub open spec fn is_signed_post(
    request: OutboundRequest,
    url: Seq<char>,
    body: Seq<u8>,
    license_key: Seq<char>,
    at: Moment,
) -> bool {
    &&& request.url@ == url
    &&& request.body@ == body
    &&& pairs(request.headers@) == request_headers(body, license_key, at)
    &&& sha256(nonce_input(body, at)).len() == 32
}

/// The address of a route of the control plane. A trailing `/` of the base is
/// dropped.
pub fn endpoint_url(api_url: &str, route: &str) -> (r: String)
    ensures
        r@ == endpoint(api_url@, route@),
{
    let mut url = trim_end_matches(api_url, CharClass::Slash);
    url.append(route);
    url
}

/// One POST with the signature that the control plane requires.
///
/// The body is written once, and these same bytes are both signed and sent:
/// the server hashes exactly what it received.
pub fn signed_post(
    url: String,
    body: Vec<u8>,
    license_key: &str,
    at: &Moment,
    timeout_seconds: u64,
) -> (r: OutboundRequest)
    ensures
        is_signed_post(r, url@, body@, license_key@, *at),
        r.timeout_seconds == timeout_seconds,
{
    let signed = signing_headers_at(body.as_slice(), license_key, at);
    let mut headers: Vec<(String, String)> = Vec::new();
    headers.push(("Content-Type".to_owned(), "application/json".to_owned()));
    let ghost first = headers@;
    let ghost rest = signed@;
    let mut all = signed;
    headers.append(&mut all);
    assert(headers@ =~= first + rest);
    assert(pairs(headers@) =~= pairs(first) + pairs(rest));
    assert(pairs(first) =~= seq![("Content-Type"@, "application/json"@)]);
    OutboundRequest { url, headers, body, timeout_seconds }
}

// ---------------------------------------------------------------------------
// Laws
// ---------------------------------------------------------------------------

/// A trailing `/` of the base address makes no difference.
pub proof fn a_trailing_slash_makes_no_difference(api_url: Seq<char>, route: Seq<char>)
    ensures
        endpoint(api_url.push('/'), route) == endpoint(api_url, route),
{
    assert(api_url.push('/').drop_last() =~= api_url);
}

/// The signature of a request covers the bytes that it carries: it is the
/// signature of its body at its own timestamp and under its own nonce.
pub proof fn a_request_signs_the_bytes_it_carries(
    request: OutboundRequest,
    url: Seq<char>,
    body: Seq<u8>,
    license_key: Seq<char>,
    at: Moment,
)
    requires
        is_signed_post(request, url, body, license_key, at),
    ensures
        ({
            let headers = pairs(request.headers@);
            let stamp = signed_seconds(at);
            &&& headers.len() == 4
            &&& headers[1] == ("X-Relintio-Timestamp"@, signed_decimal(stamp as int))
            &&& headers[2].0 == "X-Relintio-Nonce"@
            &&& headers[3] == (
                "X-Relintio-Signature"@,
                "v1="@ + signature(request.body@, license_key, stamp, headers[2].1),
            )
        }),
{
}

/// Two requests that are signed at different readings of the clock carry
/// different nonces, unless the digests that these are taken from collide, where
/// their bodies are the same or the readings are written with the same number of
/// digits.
pub proof fn requests_have_nonces_of_their_own(
    request: OutboundRequest,
    url: Seq<char>,
    at: Moment,
    other: OutboundRequest,
    other_url: Seq<char>,
    other_at: Moment,
    license_key: Seq<char>,
)
    requires
        is_signed_post(request, url, request.body@, license_key, at),
        is_signed_post(other, other_url, other.body@, license_key, other_at),
        no_prefix_collision(
            nonce_input(request.body@, at),
            nonce_input(other.body@, other_at),
        ),
        nanoseconds(at) != nanoseconds(other_at),
        request.body@ == other.body@ || decimal(nanoseconds(at)).len() == decimal(
            nanoseconds(other_at),
        ).len(),
    ensures
        nonce_input(request.body@, at) != nonce_input(other.body@, other_at),
        pairs(request.headers@)[2].1 != pairs(other.headers@)[2].1,
{
    nonces_digest_different_bytes(request.body@, at, other.body@, other_at);
    nonces_are_fresh(request.body@, at, other.body@, other_at);
}

} // verus!
