//! Laws of what is exchanged with the control plane.

use vstd::prelude::*;
use vstd::utf8::encode_utf8;
use crate::agent::{RelintioAgent, RelintioConfig};
use crate::challenge::{
    address_read, address_read_on, host_read, outcome, outcome_under, return_address, return_url,
    root_of, token_page, token_url, ChallengeOutcome, OutcomeView,
};
use crate::clock::Moment;
use crate::codec::{percent_encoded, sha256};
use crate::headers::pairs;
use crate::json::{text_at, Json};
use crate::outbound::{
    challenge_body, endpoint, endpoint_url, heartbeat_body, is_signed_post, json_object,
    signed_post, verify_body, OutboundRequest,
};
use crate::passport::{nonce_input, signing};
use crate::text::{begins, strip_end, CharClass};
use super::texts::holding_is_having_a_part;

verus! {

/// A domain without the two names of this machine, and not one of them with a port.
pub open spec fn is_elsewhere(domain: Seq<char>) -> bool {
    &&& domain != "localhost"@
    &&& domain != "127.0.0.1"@
    &&& forall|port: Seq<char>| domain != #[trigger] ("localhost:"@ + port)
    &&& forall|port: Seq<char>| domain != #[trigger] ("127.0.0.1:"@ + port)
}

/// A visitor comes back to the very page: over `http` on this machine, with or without a
/// port, and over `https` anywhere else.
pub proof fn where_a_visitor_comes_back_to(
    domain: Seq<char>,
    path: Seq<char>,
    port: Seq<char>,
)
    ensures
        return_address("localhost"@, path) == "http"@ + "://"@ + "localhost"@ + path,
        return_address("127.0.0.1"@, path) == "http"@ + "://"@ + "127.0.0.1"@ + path,
        return_address("localhost:"@ + port, path) == "http"@ + "://"@ + ("localhost:"@ + port)
            + path,
        return_address("127.0.0.1:"@ + port, path) == "http"@ + "://"@ + ("127.0.0.1:"@ + port)
            + path,
        is_elsewhere(domain) ==> return_address(domain, path) == "https"@ + "://"@ + domain + path,
{
    holding_is_having_a_part("localhost:"@ + port, "localhost:"@);
    holding_is_having_a_part("127.0.0.1:"@ + port, "127.0.0.1:"@);
    holding_is_having_a_part(domain, "localhost:"@);
    holding_is_having_a_part(domain, "127.0.0.1:"@);
}

/// A token is redeemed under the root of the platform, percent-encoded.
pub proof fn where_a_token_is_redeemed(root: Seq<char>, token: Seq<char>)
    ensures
        token_page(root, token) == strip_end(root, CharClass::Slash) + "/security-check?token="@
            + percent_encoded(encode_utf8(token)),
{
}

/// The platform is found beside its interface: a host that starts with `api.` loses that and
/// nothing else, any other host stays, and path, query and fragment go.
pub proof fn where_the_platform_is_found(api_url: Seq<char>, rest: Seq<char>)
    ensures
        ({
            let base = strip_end(api_url, CharClass::Slash);
            let none = Seq::<char>::empty();
            &&& host_read(base) == Some("api."@ + rest) ==> root_of(api_url) == address_read_on(
                base,
                rest,
                none,
                None,
                None,
            )
            &&& (forall|behind: Seq<char>|
                host_read(base) != Some(#[trigger] ("api."@ + behind))) ==> root_of(api_url)
                == address_read(base, none, None, None)
        }),
{
    reveal_strlit("api.");
    let base = strip_end(api_url, CharClass::Slash);
    holding_is_having_a_part("api."@ + rest, "api."@);
    assert(("api."@ + rest).skip(4) =~= rest);
    if let Some(host) = host_read(base) {
        holding_is_having_a_part(host, "api."@);
        if begins(host, "api."@) {
            let behind = choose|behind: Seq<char>| host == #[trigger] ("api."@ + behind);
            assert(host_read(base) == Some("api."@ + behind));
        }
    }
}

/// What an answer of the control plane comes to, case by case.
pub proof fn what_an_answer_comes_to(
    body: Json,
    root: Option<Seq<char>>,
    rest: Seq<char>,
    token: Seq<char>,
)
    ensures
        outcome(None, root) == OutcomeView::Unavailable,
        text_at(body, "status"@) == Some("challenge_disabled"@) && text_at(body, "fallback"@)
            == Some("allow"@) ==> outcome(Some(body), root) == (OutcomeView::Disabled {
            block: false,
        }),
        text_at(body, "status"@) == Some("challenge_disabled"@) && text_at(body, "fallback"@)
            != Some("allow"@) ==> outcome(Some(body), root) == (OutcomeView::Disabled {
            block: true,
        }),
        text_at(body, "status"@) != Some("challenge_disabled"@) ==> {
            &&& text_at(body, "challenge_url"@) == Some("https://"@ + rest) ==> outcome(
                Some(body),
                root,
            ) == OutcomeView::Redirect("https://"@ + rest)
            &&& text_at(body, "challenge_url"@) == Some("http://"@ + rest) ==> outcome(
                Some(body),
                root,
            ) == OutcomeView::Redirect("http://"@ + rest)
            &&& (forall|behind: Seq<char>|
                {
                    &&& text_at(body, "challenge_url"@) != Some(#[trigger] ("https://"@ + behind))
                    &&& text_at(body, "challenge_url"@) != Some("http://"@ + behind)
                }) ==> {
                &&& text_at(body, "token"@) == Some(token) ==> match root {
                    Some(place) => outcome(Some(body), root) == OutcomeView::Redirect(
                        token_page(place, token),
                    ),
                    None => outcome(Some(body), root) == OutcomeView::Unavailable,
                }
                &&& text_at(body, "token"@) is None ==> outcome(Some(body), root)
                    == OutcomeView::Unavailable
            }
        },
{
    holding_is_having_a_part("https://"@ + rest, "https://"@);
    holding_is_having_a_part("http://"@ + rest, "http://"@);
    if let Some(url) = text_at(body, "challenge_url"@) {
        holding_is_having_a_part(url, "https://"@);
        holding_is_having_a_part(url, "http://"@);
        if begins(url, "https://"@) {
            let behind = choose|behind: Seq<char>| url == #[trigger] ("https://"@ + behind);
            assert(text_at(body, "challenge_url"@) == Some("https://"@ + behind));
        }
        if begins(url, "http://"@) {
            let behind = choose|behind: Seq<char>| url == #[trigger] ("http://"@ + behind);
            assert(text_at(body, "challenge_url"@) == Some("http://"@ + behind));
            assert(("https://"@ + behind).len() >= behind.len());
        }
    }
}

/// A route stands right behind the base address, without the slashes at its end.
pub proof fn where_a_route_is(api_url: Seq<char>, route: Seq<char>)
    ensures
        endpoint(api_url, route) == strip_end(api_url, CharClass::Slash) + route,
{
}

/// What the bodies say: who asks, for which domain, and what is needed for the route.
pub proof fn what_the_bodies_say(key: Seq<char>, domain: Seq<char>, back: Seq<char>, now: u64)
    ensures
        verify_body(key, domain) == json_object(
            seq![
                ("license_key"@, key),
                ("domain"@, domain),
                ("agent_kind"@, "rust"@),
                ("agent_version"@, "0.1.2"@),
            ],
            seq![("protocol_version"@, 1u64)],
            seq![("capabilities"@, seq!["custom_rules"@, "telemetry"@])],
        ),
        heartbeat_body(key, domain, now) == json_object(
            seq![
                ("license_key"@, key),
                ("domain"@, domain),
                ("agent_version"@, "0.1.2"@),
                ("agent_kind"@, "rust"@),
            ],
            seq![("timestamp"@, now)],
            Seq::empty(),
        ),
        challenge_body(key, back) == json_object(
            seq![("license_key"@, key), ("return_url"@, back)],
            Seq::empty(),
            Seq::empty(),
        ),
{
}

/// A signed request carries its body to its address, as JSON, and signs exactly these
/// bytes.
pub proof fn what_a_signed_request_is(
    request: OutboundRequest,
    url: Seq<char>,
    body: Seq<u8>,
    key: Seq<char>,
    at: Moment,
)
    ensures
        is_signed_post(request, url, body, key, at) <==> {
            &&& request.url@ == url
            &&& request.body@ == body
            &&& pairs(request.headers@) == seq![("Content-Type"@, "application/json"@)] + signing(
                body,
                key,
                at,
            )
            &&& sha256(nonce_input(body, at)).len() == 32
        },
{
}

// ---------------------------------------------------------------------------
// Calls
// ---------------------------------------------------------------------------

/// What comes back for the way back: the very domain and path, behind `http` on this machine
/// and behind `https` anywhere else.
pub proof fn what_the_way_back_is(domain: &str, path: &str, r: String, port: Seq<char>)
    requires
        call_ensures(return_url, (domain, path), r),
    ensures
        domain@ == "localhost"@ || domain@ == "127.0.0.1"@ || domain@ == "localhost:"@ + port
            || domain@ == "127.0.0.1:"@ + port ==> r@ == "http"@ + "://"@ + domain@ + path@,
        is_elsewhere(domain@) ==> r@ == "https"@ + "://"@ + domain@ + path@,
{
    where_a_visitor_comes_back_to(domain@, path@, port);
}

/// What comes back for a token: the page on which it is redeemed, under the root without the
/// slashes at its end.
pub proof fn what_the_page_of_a_token_is(root: &str, token: &str, r: String)
    requires
        call_ensures(token_url, (root, token), r),
    ensures
        r@ == strip_end(root@, CharClass::Slash) + "/security-check?token="@ + percent_encoded(
            encode_utf8(token@),
        ),
{
}

/// What comes back for an answer of the control plane: a challenge that is switched off says
/// whether to block, an address of the web is taken as it is, and otherwise a token is
/// redeemed under the root; without any of these, or without an answer, there is no challenge.
pub proof fn what_reading_an_answer_gives(
    body: &Json,
    root: Option<String>,
    r: ChallengeOutcome,
    none: ChallengeOutcome,
    rest: Seq<char>,
)
    requires
        call_ensures(outcome_under, (Some(body), root), r),
        call_ensures(outcome_under, (None, root), none),
    ensures
        none is Unavailable,
        text_at(*body, "status"@) == Some("challenge_disabled"@) ==> r == (
        ChallengeOutcome::Disabled { block: text_at(*body, "fallback"@) != Some("allow"@) }),
        text_at(*body, "status"@) != Some("challenge_disabled"@) && (text_at(
            *body,
            "challenge_url"@,
        ) == Some("https://"@ + rest) || text_at(*body, "challenge_url"@) == Some(
            "http://"@ + rest,
        )) ==> (r matches ChallengeOutcome::Redirect(url) && text_at(*body, "challenge_url"@)
            == Some(url@)),
        text_at(*body, "status"@) != Some("challenge_disabled"@) && text_at(
            *body,
            "challenge_url"@,
        ) is None ==> match (text_at(*body, "token"@), root) {
            (Some(token), Some(place)) => r matches ChallengeOutcome::Redirect(url) && url@
                == strip_end(place@, CharClass::Slash) + "/security-check?token="@
                + percent_encoded(encode_utf8(token)),
            _ => r is Unavailable,
        },
{
    let token = match text_at(*body, "token"@) {
        Some(token) => token,
        None => Seq::empty(),
    };
    let place = match root {
        Some(place) => Some(place@),
        None => None,
    };
    what_an_answer_comes_to(*body, place, rest, token);
}

/// What comes back for a route: it stands right behind the base address.
pub proof fn what_the_address_of_a_route_is(api_url: &str, route: &str, r: String)
    requires
        call_ensures(endpoint_url, (api_url, route), r),
    ensures
        r@ == strip_end(api_url@, CharClass::Slash) + route@,
{
}

/// What comes back for a request to be signed: the address, the body and the time limit as
/// they were handed in, and headers that sign exactly these bytes.
pub proof fn what_signing_a_post_gives(
    url: String,
    body: Vec<u8>,
    key: &str,
    at: &Moment,
    limit: u64,
    r: OutboundRequest,
)
    requires
        call_ensures(signed_post, (url, body, key, at, limit), r),
    ensures
        r.url@ == url@,
        r.body@ == body@,
        r.timeout_seconds == limit,
        pairs(r.headers@) == seq![("Content-Type"@, "application/json"@)] + signing(
            body@,
            key@,
            *at,
        ),
{
}

/// What the agent sends: the policy is asked for, a heartbeat given and a challenge asked for
/// each on its own route, in the name of its own licence, for this very domain; a heartbeat is
/// waited for two seconds and anything else ten.
pub proof fn what_the_agent_sends(
    agent: &RelintioAgent,
    domain: &str,
    path: &str,
    at: &Moment,
    verify: OutboundRequest,
    heartbeat: OutboundRequest,
    challenge: OutboundRequest,
    config: &RelintioConfig,
)
    requires
        call_ensures(RelintioAgent::config, (agent,), config),
        call_ensures(RelintioAgent::refresh_request, (agent, domain, at), verify),
        call_ensures(RelintioAgent::heartbeat_at, (agent, domain, at), heartbeat),
        call_ensures(RelintioAgent::challenge_request, (agent, domain, path, at), challenge),
    ensures
        ({
            let key = config.license_key@;
            let base = strip_end(config.api_url@, CharClass::Slash);
            &&& verify.url@ == base + "/agent/verify"@
            &&& verify.body@ == verify_body(key, domain@)
            &&& verify.timeout_seconds == 10
            &&& heartbeat.url@ == base + "/agent/heartbeat"@
            &&& heartbeat.body@ == heartbeat_body(
                key,
                domain@,
                match at.since_epoch {
                    Some(t) => t.0,
                    None => 0,
                },
            )
            &&& heartbeat.timeout_seconds == 2
            &&& challenge.url@ == base + "/agent/challenge/init"@
            &&& challenge.body@ == challenge_body(key, return_address(domain@, path@))
            &&& challenge.timeout_seconds == 10
            &&& pairs(verify.headers@) == seq![("Content-Type"@, "application/json"@)] + signing(
                verify.body@,
                key,
                *at,
            )
            &&& pairs(heartbeat.headers@) == seq![("Content-Type"@, "application/json"@)] + signing(
                heartbeat.body@,
                key,
                *at,
            )
            &&& pairs(challenge.headers@) == seq![("Content-Type"@, "application/json"@)] + signing(
                challenge.body@,
                key,
                *at,
            )
        }),
{
}

} // verus!
