//! Where a visitor is sent to be challenged, and what the control plane's answer
//! means.

use vstd::prelude::*;
use vstd::string::StringExecFns;
use vstd::utf8::encode_utf8;
use crate::codec::{percent_encode, percent_encoded};
use crate::json::{text_at, Json};
use crate::text::{
    begins, from_chars, same, slice_of, starts_with, strip_end, text_of, to_chars,
    trim_end_matches, CharClass,
};

verus! {

/// The result of asking the control plane to start a challenge.
#[derive(Debug, Clone, PartialEq, Eq)]
pub enum ChallengeOutcome {
    /// Send the visitor here.
    Redirect(String),
    /// The licence has the challenge switched off. `block` carries the chosen
    /// fallback, so this is not the same as no challenge being available.
    Disabled { block: bool },
    /// The control plane could not be reached, or its answer is of no use. No
    /// challenge was issued, so nothing was passed.
    Unavailable,
}

/// What a `ChallengeOutcome` says.
pub enum OutcomeView {
    Redirect(Seq<char>),
    Disabled { block: bool },
    Unavailable,
}

impl ChallengeOutcome {
    /// What it says.
    pub open spec fn view(&self) -> OutcomeView {
        match *self {
            ChallengeOutcome::Redirect(url) => OutcomeView::Redirect(url@),
            ChallengeOutcome::Disabled { block } => OutcomeView::Disabled { block },
            ChallengeOutcome::Unavailable => OutcomeView::Unavailable,
        }
    }
}

// ---------------------------------------------------------------------------
// Addresses
// ---------------------------------------------------------------------------

/// The host of the address that the url crate reads in a text: nothing where it
/// reads none, or the address has no host.
pub uninterp spec fn host_read(text: Seq<char>) -> Option<Seq<char>>;

/// The text of the address that the url crate reads in a text, once its path, its
/// query and its fragment were set; nothing where it reads none.
pub uninterp spec fn address_read(
    text: Seq<char>,
    path: Seq<char>,
    query: Option<Seq<char>>,
    fragment: Option<Seq<char>>,
) -> Option<Seq<char>>;

/// The text of the address that the url crate reads in a text, once its host, its
/// path, its query and its fragment were set; nothing where it reads none, or does
/// not take the host.
pub uninterp spec fn address_read_on(
    text: Seq<char>,
    host: Seq<char>,
    path: Seq<char>,
    query: Option<Seq<char>>,
    fragment: Option<Seq<char>>,
) -> Option<Seq<char>>;

/// `Url::parse` and `Url::host_str`: the host in the address that is read in the
/// text, named `host_read`.
#[verifier::external_body]
pub(crate) fn read_host(text: &str) -> (r: Option<String>)
    ensures
        text_of(r) == host_read(text@),
{
    reqwest::Url::parse(text).ok()?.host_str().map(str::to_string)
}

/// `Url::parse`, then `Url::set_path`, `Url::set_query`, `Url::set_fragment` and
/// `Url::as_str`, on one address: its text alone does not fix where its parts
/// start, so these calls have one name together, `address_read`.
#[verifier::external_body]
pub(crate) fn read_address(
    text: &str,
    path: &str,
    query: Option<&str>,
    fragment: Option<&str>,
) -> (r: Option<String>)
    ensures
        text_of(r) == address_read(text@, path@, slice_of(query), slice_of(fragment)),
{
    let mut url = reqwest::Url::parse(text).ok()?;
    url.set_path(path);
    url.set_query(query);
    url.set_fragment(fragment);
    Some(url.as_str().to_string())
}

/// `Url::parse`, then `Url::set_host`, `Url::set_path`, `Url::set_query`,
/// `Url::set_fragment` and `Url::as_str`, on one address: these calls have one
/// name together, `address_read_on`.
#[verifier::external_body]
pub(crate) fn read_address_on(
    text: &str,
    host: &str,
    path: &str,
    query: Option<&str>,
    fragment: Option<&str>,
) -> (r: Option<String>)
    ensures
        text_of(r) == address_read_on(
            text@,
            host@,
            path@,
            slice_of(query),
            slice_of(fragment),
        ),
{
    let mut url = reqwest::Url::parse(text).ok()?;
    url.set_host(Some(host)).ok()?;
    url.set_path(path);
    url.set_query(query);
    url.set_fragment(fragment);
    Some(url.as_str().to_string())
}

/// A host without the `api.` that it starts with; nothing where it does not
/// start so.
pub fn strip_api(host: &str) -> (r: Option<String>)
    ensures
        match r {
            Some(rest) => begins(host@, "api."@) && rest@ == host@.skip(4),
            None => !begins(host@, "api."@),
        },
{
    if !starts_with(host, "api.") {
        return None;
    }
    let chars = to_chars(host);
    proof {
        reveal_strlit("api.");
        assert(chars@.skip(4) =~= chars@.subrange(4, chars@.len() as int));
    }
    Some(from_chars(&chars, 4, chars.len()))
}

/// The root of the platform that the control plane at `api_url` belongs to: its
/// address without a path, a query or a fragment, on a host without the `api.`
/// that it starts with.
pub open spec fn root_of(api_url: Seq<char>) -> Option<Seq<char>> {
    let base = strip_end(api_url, CharClass::Slash);
    match host_read(base) {
        Some(host) => if begins(host, "api."@) {
            address_read_on(base, host.skip(4), Seq::empty(), None, None)
        } else {
            address_read(base, Seq::empty(), None, None)
        },
        None => address_read(base, Seq::empty(), None, None),
    }
}

/// The root of the platform that the control plane at `api_url` belongs to.
pub fn platform_root(api_url: &str) -> (r: Option<String>)
    ensures
        text_of(r) == root_of(api_url@),
{
    proof {
        reveal_strlit("");
        assert(""@ =~= Seq::<char>::empty());
    }
    let base = trim_end_matches(api_url, CharClass::Slash);
    if let Some(host) = read_host(base.as_str()) {
        if let Some(root_host) = strip_api(host.as_str()) {
            return read_address_on(base.as_str(), root_host.as_str(), "", None, None);
        }
    }
    read_address(base.as_str(), "", None, None)
}

// ---------------------------------------------------------------------------
// The challenge
// ---------------------------------------------------------------------------

/// A domain of this machine itself, with or without a port.
pub open spec fn is_local(domain: Seq<char>) -> bool {
    ||| domain == "localhost"@
    ||| begins(domain, "localhost:"@)
    ||| domain == "127.0.0.1"@
    ||| begins(domain, "127.0.0.1:"@)
}

/// Where the visitor comes back to after the challenge.
pub open spec fn return_address(domain: Seq<char>, path: Seq<char>) -> Seq<char> {
    (if is_local(domain) {
        "http"@
    } else {
        "https"@
    }) + "://"@ + domain + path
}

/// Where the visitor comes back to after the challenge.
pub fn return_url(domain: &str, path: &str) -> (r: String)
    ensures
        r@ == return_address(domain@, path@),
{
    let local = same(domain, "localhost") || starts_with(domain, "localhost:") || same(
        domain,
        "127.0.0.1",
    ) || starts_with(domain, "127.0.0.1:");
    let mut url = if local {
        "http".to_owned()
    } else {
        "https".to_owned()
    };
    url.append("://");
    url.append(domain);
    url.append(path);
    url
}

/// The page on which a token is redeemed, under the root of the platform.
pub open spec fn token_page(root: Seq<char>, token: Seq<char>) -> Seq<char> {
    strip_end(root, CharClass::Slash) + "/security-check?token="@ + percent_encoded(
        encode_utf8(token),
    )
}

/// The page on which a token is redeemed, under the root of the platform.
pub fn token_url(root: &str, token: &str) -> (r: String)
    ensures
        r@ == token_page(root@, token@),
{
    let mut url = trim_end_matches(root, CharClass::Slash);
    let encoded = percent_encode(token);
    url.append("/security-check?token=");
    url.append(encoded.as_str());
    url
}

/// An address with a scheme of the web.
pub open spec fn is_absolute(url: Seq<char>) -> bool {
    begins(url, "https://"@) || begins(url, "http://"@)
}

/// What an answer of the control plane comes to. No answer, or one that names
/// nothing to send the visitor to, is no challenge; a challenge that is switched
/// off blocks unless it says `allow`; an absolute address wins over a token.
pub open spec fn outcome(reply: Option<Json>, root: Option<Seq<char>>) -> OutcomeView {
    match reply {
        None => OutcomeView::Unavailable,
        Some(body) => {
            let address = text_at(body, "challenge_url"@);
            if text_at(body, "status"@) == Some("challenge_disabled"@) {
                OutcomeView::Disabled { block: text_at(body, "fallback"@) != Some("allow"@) }
            } else if address is Some && is_absolute(address->0) {
                OutcomeView::Redirect(address->0)
            } else {
                match (text_at(body, "token"@), root) {
                    (Some(token), Some(root)) => OutcomeView::Redirect(token_page(root, token)),
                    _ => OutcomeView::Unavailable,
                }
            }
        },
    }
}

/// What an answer of the control plane comes to, under the root of the platform.
pub fn outcome_under(reply: Option<&Json>, root: Option<String>) -> (r: ChallengeOutcome)
    ensures
        r@ == outcome(
            match reply {
                Some(body) => Some(*body),
                None => None,
            },
            text_of(root),
        ),
{
    let body = match reply {
        Some(body) => body,
        None => {
            return ChallengeOutcome::Unavailable;
        },
    };
    // The challenge is switched off, or the plan does not have it: a policy
    // answer that carries what to do instead.
    if let Some(status) = body.get_str("status") {
        if same(status, "challenge_disabled") {
            let allow = match body.get_str("fallback") {
                Some(fallback) => same(fallback, "allow"),
                None => false,
            };
            return ChallengeOutcome::Disabled { block: !allow };
        }
    }
    if let Some(url) = body.get_str("challenge_url") {
        if starts_with(url, "https://") || starts_with(url, "http://") {
            return ChallengeOutcome::Redirect(url.to_owned());
        }
    }
    match body.get_str("token") {
        Some(token) => match root {
            Some(root) => ChallengeOutcome::Redirect(token_url(root.as_str(), token)),
            None => ChallengeOutcome::Unavailable,
        },
        None => ChallengeOutcome::Unavailable,
    }
}

/// What an answer of the control plane at `api_url` comes to.
pub fn challenge_url(reply: Option<&Json>, api_url: &str) -> (r: ChallengeOutcome)
    ensures
        r@ == outcome(
            match reply {
                Some(body) => Some(*body),
                None => None,
            },
            root_of(api_url@),
        ),
{
    let root = platform_root(api_url);
    outcome_under(reply, root)
}

// ---------------------------------------------------------------------------
// Laws
// ---------------------------------------------------------------------------

/// A challenge that is switched off lets a visitor through only where the answer
/// says `allow`: an answer that names no fallback blocks.
pub proof fn only_an_explicit_allow_disables_blocking(body: Json, root: Option<Seq<char>>)
    requires
        text_at(body, "status"@) == Some("challenge_disabled"@),
    ensures
        outcome(Some(body), root) == (OutcomeView::Disabled {
            block: text_at(body, "fallback"@) != Some("allow"@),
        }),
        text_at(body, "fallback"@) is None ==> outcome(Some(body), root) == (OutcomeView::Disabled {
            block: true,
        }),
{
}

/// An absolute address in an answer wins, whether or not the answer has a token
/// too.
pub proof fn an_absolute_address_wins(body: Json, root: Option<Seq<char>>, address: Seq<char>)
    requires
        text_at(body, "status"@) != Some("challenge_disabled"@),
        text_at(body, "challenge_url"@) == Some(address),
        is_absolute(address),
    ensures
        outcome(Some(body), root) == OutcomeView::Redirect(address),
{
}

} // verus!
