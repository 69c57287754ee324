//! The agent: its policy, its schedule and its decisions.

use vstd::prelude::*;
use vstd::string::StringExecFns;
use vstd::utf8::encode_utf8;
use crate::challenge::{
    challenge_url, outcome, return_address, return_url, root_of, ChallengeOutcome, OutcomeView,
};
use crate::clock::{nanoseconds, seconds, Moment};
use crate::codec::{hex_text, md5_digest, md5_hex};
use crate::headers::{pairs, Headers};
use crate::json::{list_at, text_at, Json};
use crate::limits::{buckets_after, within_rate, RateLimiter, TokenBucket};
use crate::obsidian::{injected, ObsidianInjector, MAX_BODY_BYTES, SCRIPT_ID};
use crate::outbound::{
    challenge_body, endpoint, endpoint_url, heartbeat_body, is_signed_post,
    requests_have_nonces_of_their_own, signed_post, verify_body, write_challenge_body, write_heartbeat_body, write_verify_body, OutboundRequest,
    HEARTBEAT_TIMEOUT_SECONDS, REQUEST_TIMEOUT_SECONDS,
};
use crate::passport::{
    is_now, is_verdict, minted, no_prefix_collision, nonce_input, PassportPayload,
};
use crate::rules::{FactsView, RegexCache, RequestFacts};
use crate::scoring::{
    kept_by_rules, policy_rules, request_score, score_known, BOT_KEYWORD, EMPTY_USER_AGENT,
    HEADLESS_KEYWORD, NO_ACCEPT, POST_WITHOUT_REFERER, RATE_BURST,
};
use crate::sync::{
    base_delay, due, failures_after, jitter, scheduled, SyncState, MIN_DELAY_SECONDS,
};
use crate::text::{decimal, from_chars, same, to_chars};

verus! {

/// The page of a decoy.
pub const DECOY_HTML: &'static str = "<!DOCTYPE html><html><head><meta charset=\"utf-8\"><title>Scheduled Maintenance</title><style>body{background:#0a0a0a;color:#aaa;font-family:system-ui;display:flex;justify-content:center;align-items:center;min-height:100vh;margin:0}.box{text-align:center;max-width:480px}h1{font-size:1.5rem;color:#fff;margin:0 0 1rem}p{color:#666;font-size:.875rem}</style></head><body><div class=\"box\"><h1>Scheduled Maintenance</h1><p>We are currently performing scheduled maintenance. Please try again later.</p><p style=\"color:#444;font-size:.75rem;margin-top:2rem\">ETA: ~15 minutes</p></div></body></html>";

/// The page of a block.
pub const BLOCK_HTML: &'static str = "<!DOCTYPE html><html><head><meta charset=\"utf-8\"><title>Access Denied</title><style>body{background:#050507;color:#fff;font-family:system-ui;display:flex;align-items:center;justify-content:center;height:100vh;margin:0}.card{background:#0E0E10;padding:40px;border-radius:20px;border:1px solid rgba(255,255,255,.1);text-align:center}h1{color:#ef4444;margin:0 0 1rem}</style></head><body><div class=\"card\"><h1>Access Blocked</h1><p>Security policies have flagged this request as suspicious.</p></div></body></html>";

/// What becomes of a request.
#[derive(Debug, Clone, PartialEq, Eq)]
pub enum Decision {
    Allow,
    Slow,
    Challenge { redirect_url: String },
    Decoy,
    Block,
}

/// What a `Decision` says.
pub enum DecisionView {
    Allow,
    Slow,
    Challenge { redirect_url: Seq<char> },
    Decoy,
    Block,
}

impl Decision {
    /// What it says.
    pub open spec fn view(&self) -> DecisionView {
        match *self {
            Decision::Allow => DecisionView::Allow,
            Decision::Slow => DecisionView::Slow,
            Decision::Challenge { redirect_url } => DecisionView::Challenge {
                redirect_url: redirect_url@,
            },
            Decision::Decoy => DecisionView::Decoy,
            Decision::Block => DecisionView::Block,
        }
    }
}

/// How an agent is set up.
#[derive(Debug, Clone)]
pub struct RelintioConfig {
    /// Keys every signature and every passport.
    pub license_key: String,
    /// The base address of the control plane.
    pub api_url: String,
    /// How often the policy is fetched, in seconds.
    pub sync_interval_seconds: u64,
}

/// One request that is to be decided on.
#[derive(Debug)]
pub struct Visit {
    pub ip: String,
    pub user_agent: Option<String>,
    pub headers: Headers,
    pub method: String,
    pub path: String,
    pub domain: String,
}

/// A text that may be missing; the empty one where it is.
pub open spec fn or_empty(text: Option<Seq<char>>) -> Seq<char> {
    match text {
        Some(t) => t,
        None => Seq::empty(),
    }
}

impl Visit {
    /// The user agent, where the request names one.
    pub open spec fn agent(&self) -> Option<Seq<char>> {
        match self.user_agent {
            Some(ua) => Some(ua@),
            None => None,
        }
    }

    /// What the rules look at.
    pub open spec fn facts(&self) -> FactsView {
        FactsView {
            ip: self.ip@,
            path: self.path@,
            user_agent: or_empty(self.agent()),
            headers: self.headers@,
        }
    }
}

// ---------------------------------------------------------------------------
// Tiers
// ---------------------------------------------------------------------------

/// The score at which a tier starts; zero for a name that is no tier.
pub open spec fn tier_start(tier: Seq<char>) -> u32 {
    if tier == "SLOW"@ {
        40
    } else if tier == "CHALLENGE"@ {
        60
    } else if tier == "DECOY"@ {
        75
    } else if tier == "BLOCK"@ {
        85
    } else {
        0
    }
}

/// The score at which a tier starts.
pub fn threshold(tier: &str) -> (r: u32)
    ensures
        r == tier_start(tier@),
{
    if same(tier, "SLOW") {
        40
    } else if same(tier, "CHALLENGE") {
        60
    } else if same(tier, "DECOY") {
        75
    } else if same(tier, "BLOCK") {
        85
    } else {
        0
    }
}

/// A score that sends a visitor to the challenge.
pub open spec fn in_challenge_band(score: int) -> bool {
    tier_start("CHALLENGE"@) <= score < tier_start("DECOY"@)
}

/// What becomes of a visitor in the challenge band. Only a redirect, and a
/// licence that switched the challenge off and chose to allow, do not block.
pub open spec fn after_challenge(outcome: OutcomeView) -> DecisionView {
    match outcome {
        OutcomeView::Redirect(url) => DecisionView::Challenge { redirect_url: url },
        OutcomeView::Disabled { block } => if block {
            DecisionView::Block
        } else {
            DecisionView::Allow
        },
        OutcomeView::Unavailable => DecisionView::Block,
    }
}

/// What becomes of a request with a score outside the challenge band.
pub open spec fn by_score(score: int) -> DecisionView {
    if score >= tier_start("BLOCK"@) {
        DecisionView::Block
    } else if score >= tier_start("DECOY"@) {
        DecisionView::Decoy
    } else if score >= tier_start("SLOW"@) {
        DecisionView::Slow
    } else {
        DecisionView::Allow
    }
}

/// The names of the tiers differ.
proof fn the_tiers_differ()
    ensures
        tier_start("ALLOW"@) == 0,
        tier_start("SLOW"@) == 40,
        tier_start("CHALLENGE"@) == 60,
        tier_start("DECOY"@) == 75,
        tier_start("BLOCK"@) == 85,
{
    reveal_strlit("ALLOW");
    reveal_strlit("SLOW");
    reveal_strlit("CHALLENGE");
    reveal_strlit("DECOY");
    reveal_strlit("BLOCK");
    assert("ALLOW"@[0] == 'A' && "SLOW"@[0] == 'S' && "CHALLENGE"@[0] == 'C');
    assert("DECOY"@[0] == 'D' && "BLOCK"@[0] == 'B');
}

/// What becomes of a visitor in the challenge band.
pub fn decide_challenge(outcome: ChallengeOutcome) -> (r: Decision)
    ensures
        r@ == after_challenge(outcome@),
{
    match outcome {
        ChallengeOutcome::Redirect(redirect_url) => Decision::Challenge { redirect_url },
        ChallengeOutcome::Disabled { block } => if block {
            Decision::Block
        } else {
            Decision::Allow
        },
        ChallengeOutcome::Unavailable => Decision::Block,
    }
}

/// What becomes of a request with this score; nothing yet where it has to be
/// challenged first.
pub fn decide_score(score: u32) -> (r: Option<Decision>)
    ensures
        match r {
            Some(d) => !in_challenge_band(score as int) && d@ == by_score(score as int),
            None => in_challenge_band(score as int),
        },
{
    proof {
        the_tiers_differ();
    }
    if score >= threshold("BLOCK") {
        return Some(Decision::Block);
    }
    if score >= threshold("DECOY") {
        return Some(Decision::Decoy);
    }
    if score >= threshold("CHALLENGE") {
        return None;
    }
    if score >= threshold("SLOW") {
        return Some(Decision::Slow);
    }
    Some(Decision::Allow)
}

// ---------------------------------------------------------------------------
// The agent
// ---------------------------------------------------------------------------

/// The agent.
///
/// It holds its state in memory; what it needs from outside (the network, the
/// disk) comes in as values, and what it wants sent goes out as values.
pub struct RelintioAgent {
    config: RelintioConfig,
    rules: Option<Json>,
    sync: SyncState,
    limiter: RateLimiter,
    regexes: RegexCache,
}

/// The state of an agent.
#[verifier::ext_equal]
pub struct AgentView {
    /// The licence key.
    pub license_key: Seq<char>,
    /// The base address of the control plane.
    pub api_url: Seq<char>,
    /// The interval between two fetches of the policy, in seconds.
    pub interval: u64,
    /// The policy that is enforced.
    pub policy: Option<Json>,
    /// Where the fetching of the policy stands.
    pub sync: SyncState,
    /// The token buckets, by address.
    pub buckets: Map<Seq<char>, TokenBucket>,
    /// The patterns that are kept compiled.
    pub patterns: Set<Seq<char>>,
}

/// What happens to a request on its way to a decision.
#[derive(Debug)]
pub enum Event {
    /// The request has come in.
    Arrived,
    /// The fetch of the policy has come to its end: with this answer, or with
    /// none that could be read.
    Synced(Option<Json>),
    /// The request for a challenge has come to its end: with this answer, or
    /// with none that could be read.
    Challenged(Option<Json>),
}

/// What is to be done next for a request.
#[derive(Debug)]
pub enum Step {
    /// Fetch the policy with this request, and go on with `Event::Synced`.
    Sync(OutboundRequest),
    /// Ask for a challenge with this request, and go on with
    /// `Event::Challenged`.
    Challenge(OutboundRequest),
    /// The decision.
    Decided(Decision),
}

/// An answer is a policy where it has a list of rules, were it an empty one. An
/// unknown status, an error envelope or an empty object is not.
pub open spec fn is_policy(reply: Json) -> bool {
    list_at(reply, "rules"@) is Some
}

/// Whether an answer is a policy.
pub fn accepts_policy(reply: &Json) -> (r: bool)
    ensures
        r == is_policy(*reply),
{
    reply.get_array("rules").is_some()
}

/// Why an answer is not taken for a policy.
pub open spec fn refusal(reply: Json) -> Seq<char> {
    "/agent/verify answered without a rules array (status: "@ + (match text_at(reply, "status"@) {
        Some(status) => status,
        None => "none"@,
    }) + "); keeping the last policy"@
}

/// The agent after it took an answer for its policy, or did not.
pub open spec fn refreshed(agent: AgentView, reply: Json, at: Moment) -> AgentView {
    if is_policy(reply) {
        AgentView {
            policy: Some(reply),
            sync: SyncState { synced_at: seconds(at), ..agent.sync },
            ..agent
        }
    } else {
        agent
    }
}

/// The agent after a fetch has come to its end.
pub open spec fn synced(agent: AgentView, reply: Option<Json>, at: Moment) -> AgentView {
    let success = reply is Some && is_policy(reply->0);
    let taken = match reply {
        Some(doc) => refreshed(agent, doc, at),
        None => agent,
    };
    AgentView {
        sync: SyncState {
            in_progress: false,
            ..scheduled(taken.sync, taken.interval, success, at)
        },
        ..taken
    }
}

/// The score of a request at `now`.
pub open spec fn score(agent: AgentView, facts: FactsView, method: Seq<char>, now: u64) -> int {
    request_score(
        agent.policy,
        facts,
        method,
        within_rate(agent.buckets, facts.ip, facts.path, now),
    )
}

/// The agent after it scored a request at `now`: a token is asked for, and the
/// patterns of the rules are kept.
pub open spec fn scored(agent: AgentView, facts: FactsView, now: u64) -> AgentView {
    AgentView {
        buckets: buckets_after(agent.buckets, facts.ip, facts.path, now),
        patterns: kept_by_rules(agent.patterns, policy_rules(agent.policy)),
        ..agent
    }
}

/// `step` is what follows from the score of a visit.
pub open spec fn follows_score(agent: AgentView, visit: Visit, at: Moment, step: Step) -> bool {
    let n = score(agent, visit.facts(), visit.method@, seconds(at));
    match step {
        Step::Sync(_) => false,
        Step::Challenge(request) => {
            &&& in_challenge_band(n)
            &&& is_signed_post(
                request,
                endpoint(agent.api_url, "/agent/challenge/init"@),
                challenge_body(agent.license_key, return_address(visit.domain@, visit.path@)),
                agent.license_key,
                at,
            )
            &&& request.timeout_seconds == REQUEST_TIMEOUT_SECONDS
        },
        Step::Decided(decision) => !in_challenge_band(n) && decision@ == by_score(n),
    }
}

/// `step` asks for the policy.
pub open spec fn asks_for_policy(agent: AgentView, visit: Visit, at: Moment, step: Step) -> bool {
    match step {
        Step::Sync(request) => {
            &&& is_signed_post(
                request,
                endpoint(agent.api_url, "/agent/verify"@),
                verify_body(agent.license_key, visit.domain@),
                agent.license_key,
                at,
            )
            &&& request.timeout_seconds == REQUEST_TIMEOUT_SECONDS
        },
        _ => false,
    }
}

/// The name of the file that mirrors the policy of a licence.
pub open spec fn cache_name(license_key: Seq<char>) -> Seq<char> {
    "up_rules_"@ + hex_text(md5_digest(encode_utf8(license_key))).take(16) + ".json"@
}

/// The name of a mirror, from the hexadecimal digest of the licence key.
pub fn mirror_name(digest: &str) -> (r: String)
    requires
        digest@.len() >= 16,
    ensures
        r@ == "up_rules_"@ + digest@.take(16) + ".json"@,
{
    let digits = to_chars(digest);
    assert(digits@.take(16) =~= digits@.subrange(0, 16));
    let hash = from_chars(&digits, 0, 16);
    let mut name = "up_rules_".to_owned();
    name.append(hash.as_str());
    name.append(".json");
    name
}

/// The name of the file that mirrors the policy of a licence.
pub fn cache_file_name(license_key: &str) -> (r: String)
    ensures
        r@ == cache_name(license_key@),
{
    let digest = md5_hex(license_key.as_bytes());
    mirror_name(digest.as_str())
}

impl RelintioAgent {
    /// The state.
    pub closed spec fn view(&self) -> AgentView {
        AgentView {
            license_key: self.config.license_key@,
            api_url: self.config.api_url@,
            interval: self.config.sync_interval_seconds,
            policy: self.rules,
            sync: self.sync,
            buckets: self.limiter@,
            patterns: self.regexes.patterns(),
        }
    }

    /// The parts of the state keep within their bounds.
    pub closed spec fn wf(&self) -> bool {
        &&& self.sync.wf()
        &&& self.limiter.wf()
        &&& self.regexes.wf()
    }

    /// An agent that has fetched nothing yet.
    pub fn new(config: RelintioConfig) -> (r: RelintioAgent)
        ensures
            r.wf(),
            r@ == (AgentView {
                license_key: config.license_key@,
                api_url: config.api_url@,
                interval: config.sync_interval_seconds,
                policy: None,
                sync: SyncState {
                    synced_at: 0,
                    next_sync_at: 0,
                    failures: 0,
                    in_progress: false,
                },
                buckets: Map::empty(),
                patterns: Set::empty(),
            }),
    {
        RelintioAgent {
            config,
            rules: None,
            sync: SyncState::new(),
            limiter: RateLimiter::new(),
            regexes: RegexCache::new(),
        }
    }

    /// Takes over the policy that was mirrored on disk, so that a restart is not
    /// a cold start.
    pub fn load_cache(&mut self, parsed: Json)
        requires
            old(self).wf(),
        ensures
            final(self).wf(),
            final(self)@ == (AgentView { policy: Some(parsed), ..old(self)@ }),
    {
        self.rules = Some(parsed);
    }

    /// How the agent is set up.
    pub fn config(&self) -> (r: &RelintioConfig)
        ensures
            r.license_key@ == self@.license_key,
            r.api_url@ == self@.api_url,
            r.sync_interval_seconds == self@.interval,
    {
        &self.config
    }

    /// The policy that is enforced.
    pub fn rules(&self) -> (r: Option<&Json>)
        ensures
            match r {
                Some(policy) => self@.policy == Some(*policy),
                None => self@.policy is None,
            },
    {
        match &self.rules {
            Some(policy) => Some(policy),
            None => None,
        }
    }

    /// Where the fetching of the policy stands.
    pub fn sync_state(&self) -> (r: SyncState)
        ensures
            r == self@.sync,
    {
        self.sync
    }

    /// Verify a version 2 pass token or passport cookie against the client of a
    /// request.
    ///
    /// The payload comes back, so that the caller can honour the life that the
    /// challenge server asked for.
    pub fn verify_passport<F: Fn(&[u8]) -> Option<PassportPayload>>(
        &self,
        token: &str,
        user_agent: &str,
        accept_language: &str,
        decode: &F,
    ) -> (r: Option<PassportPayload>)
        requires
            forall|raw: &[u8]| call_requires(*decode, (raw,)),
        ensures
            is_verdict(
                token@,
                self@.license_key,
                user_agent@,
                accept_language@,
                None,
                *decode,
                r,
            ),
    {
        crate::passport::verify_passport(
            token,
            self.config.license_key.as_str(),
            user_agent,
            accept_language,
            None,
            decode,
        )
    }

    /// The cookie value to set once a pass token has been accepted.
    pub fn mint_passport(&self, ttl: i64, user_agent: &str, accept_language: &str) -> (r: String)
        ensures
            exists|t: i64|
                {
                    &&& #[trigger] is_now(None, t)
                    &&& r@ == minted(
                        t.wrapping_add(ttl) as int,
                        self@.license_key,
                        user_agent@,
                        accept_language@,
                    )
                },
    {
        crate::passport::mint_passport(
            ttl,
            self.config.license_key.as_str(),
            user_agent,
            accept_language,
            None,
        )
    }

    /// The request that fetches the policy.
    pub fn refresh_request(&self, domain: &str, at: &Moment) -> (r: OutboundRequest)
        ensures
            is_signed_post(
                r,
                endpoint(self@.api_url, "/agent/verify"@),
                verify_body(self@.license_key, domain@),
                self@.license_key,
                *at,
            ),
            r.timeout_seconds == REQUEST_TIMEOUT_SECONDS,
    {
        let url = endpoint_url(self.config.api_url.as_str(), "/agent/verify");
        let body = write_verify_body(self.config.license_key.as_str(), domain);
        signed_post(url, body, self.config.license_key.as_str(), at, REQUEST_TIMEOUT_SECONDS)
    }

    /// Takes an answer for the policy.
    ///
    /// An answer without a list of rules is not a policy: the last one stays in
    /// force, and the fetch counts as failed. An explicit empty list is a real,
    /// empty policy.
    pub fn refresh_rules(&mut self, reply: Json, at: &Moment) -> (r: Result<(), String>)
        requires
            old(self).wf(),
        ensures
            final(self).wf(),
            final(self)@ == refreshed(old(self)@, reply, *at),
            r is Ok <==> is_policy(reply),
            r matches Err(why) ==> why@ == refusal(reply),
    {
        if !accepts_policy(&reply) {
            let status = match reply.get_str("status") {
                Some(status) => status,
                None => "none",
            };
            let mut why = "/agent/verify answered without a rules array (status: ".to_owned();
            why.append(status);
            why.append("); keeping the last policy");
            return Err(why);
        }
        self.rules = Some(reply);
        self.sync.synced_at = at.unix_seconds();
        Ok(())
    }

    /// The heartbeat that is sent at `at`.
    pub fn heartbeat_at(&self, domain: &str, at: &Moment) -> (r: OutboundRequest)
        ensures
            is_signed_post(
                r,
                endpoint(self@.api_url, "/agent/heartbeat"@),
                heartbeat_body(self@.license_key, domain@, seconds(*at)),
                self@.license_key,
                *at,
            ),
            r.timeout_seconds == HEARTBEAT_TIMEOUT_SECONDS,
    {
        let url = endpoint_url(self.config.api_url.as_str(), "/agent/heartbeat");
        let body = write_heartbeat_body(
            self.config.license_key.as_str(),
            domain,
            at.unix_seconds(),
        );
        signed_post(url, body, self.config.license_key.as_str(), at, HEARTBEAT_TIMEOUT_SECONDS)
    }

    /// The heartbeat that is sent now.
    pub fn send_heartbeat(&self, domain: &str) -> (r: OutboundRequest)
        ensures
            exists|at: Moment|
                is_signed_post(
                    r,
                    endpoint(self@.api_url, "/agent/heartbeat"@),
                    heartbeat_body(self@.license_key, domain@, #[trigger] seconds(at)),
                    self@.license_key,
                    at,
                ),
            r.timeout_seconds == HEARTBEAT_TIMEOUT_SECONDS,
    {
        let at = Moment::now();
        self.heartbeat_at(domain, &at)
    }

    /// The request that asks for a challenge.
    pub fn challenge_request(&self, domain: &str, path: &str, at: &Moment) -> (r: OutboundRequest)
        ensures
            is_signed_post(
                r,
                endpoint(self@.api_url, "/agent/challenge/init"@),
                challenge_body(self@.license_key, return_address(domain@, path@)),
                self@.license_key,
                *at,
            ),
            r.timeout_seconds == REQUEST_TIMEOUT_SECONDS,
    {
        let url = endpoint_url(self.config.api_url.as_str(), "/agent/challenge/init");
        let back = return_url(domain, path);
        let body = write_challenge_body(self.config.license_key.as_str(), back.as_str());
        signed_post(url, body, self.config.license_key.as_str(), at, REQUEST_TIMEOUT_SECONDS)
    }

    /// Takes a token from the bucket of a client, where there is one.
    pub fn consume_token(&mut self, ip: &str, path: &str, now: u64) -> (r: bool)
        requires
            old(self).wf(),
        ensures
            final(self).wf(),
            r == within_rate(old(self)@.buckets, ip@, path@, now),
            final(self)@ == (AgentView {
                buckets: buckets_after(old(self)@.buckets, ip@, path@, now),
                ..old(self)@
            }),
    {
        self.limiter.consume_token(ip, path, now)
    }

    /// Scores a request at `now` (seconds since the epoch).
    pub fn score_request_at(
        &mut self,
        ip: &str,
        user_agent: Option<&str>,
        headers: &Headers,
        method: &str,
        path: &str,
        now: u64,
    ) -> (r: u32)
        requires
            old(self).wf(),
        ensures
            final(self).wf(),
            r == score(old(self)@, facts_of(ip, user_agent, headers, path), method@, now),
            final(self)@ == scored(
                old(self)@,
                facts_of(ip, user_agent, headers, path),
                now,
            ),
    {
        proof {
            reveal_strlit("");
            assert(""@ =~= Seq::<char>::empty());
        }
        let ua = match user_agent {
            Some(ua) => ua,
            None => "",
        };
        let granted = self.consume_token(ip, path, now);
        let facts = RequestFacts { ip, path, user_agent: ua, headers };
        let policy = match &self.rules {
            Some(policy) => Some(policy),
            None => None,
        };
        score_known(policy, &facts, method, granted, &mut self.regexes)
    }

    /// Evaluates the request against the protection rules.
    pub fn score_request(
        &mut self,
        ip: &str,
        user_agent: Option<&str>,
        headers: &Headers,
        method: &str,
        path: &str,
    ) -> (r: u32)
        requires
            old(self).wf(),
        ensures
            final(self).wf(),
            exists|now: u64|
                {
                    &&& r == #[trigger] score(
                        old(self)@,
                        facts_of(ip, user_agent, headers, path),
                        method@,
                        now,
                    )
                    &&& final(self)@ == scored(
                        old(self)@,
                        facts_of(ip, user_agent, headers, path),
                        now,
                    )
                },
    {
        let now: u64 = Moment::now().unix_seconds();
        self.score_request_at(ip, user_agent, headers, method, path, now)
    }

    /// Ends a fetch of the policy: takes the answer, and sets the time of the
    /// next fetch.
    pub fn finish_sync(&mut self, reply: Option<Json>, at: &Moment)
        requires
            old(self).wf(),
        ensures
            final(self).wf(),
            final(self)@ == synced(old(self)@, reply, *at),
    {
        let success = match reply {
            Some(doc) => self.refresh_rules(doc, at).is_ok(),
            None => false,
        };
        self.sync.schedule_next_sync(self.config.sync_interval_seconds, success, at);
        self.sync.in_progress = false;
    }

    /// Scores a visit, and decides on it or asks for a challenge.
    fn judge(&mut self, visit: &Visit, at: &Moment) -> (r: Step)
        requires
            old(self).wf(),
        ensures
            final(self).wf(),
            final(self)@ == scored(old(self)@, visit.facts(), seconds(*at)),
            follows_score(old(self)@, *visit, *at, r),
    {
        let now: u64 = at.unix_seconds();
        let ua = match &visit.user_agent {
            Some(ua) => Some(ua.as_str()),
            None => None,
        };
        let n: u32 = self.score_request_at(
            visit.ip.as_str(),
            ua,
            &visit.headers,
            visit.method.as_str(),
            visit.path.as_str(),
            now,
        );
        match decide_score(n) {
            Some(decision) => Step::Decided(decision),
            None => Step::Challenge(
                self.challenge_request(visit.domain.as_str(), visit.path.as_str(), at),
            ),
        }
    }

    /// Evaluates the full decision path, one step at a time.
    ///
    /// The policy is fetched first where a fetch is due and none is under way.
    /// Then the request is scored, and a score in the challenge band asks for a
    /// challenge before it is decided.
    pub fn evaluate(&mut self, visit: &Visit, event: Event, at: &Moment) -> (r: Step)
        requires
            old(self).wf(),
        ensures
            final(self).wf(),
            match event {
                Event::Arrived => if due(old(self)@.sync, seconds(*at)) {
                    &&& asks_for_policy(old(self)@, *visit, *at, r)
                    &&& final(self)@ == (AgentView {
                        sync: SyncState { in_progress: true, ..old(self)@.sync },
                        ..old(self)@
                    })
                } else {
                    &&& follows_score(old(self)@, *visit, *at, r)
                    &&& final(self)@ == scored(old(self)@, visit.facts(), seconds(*at))
                },
                Event::Synced(reply) => {
                    &&& follows_score(synced(old(self)@, reply, *at), *visit, *at, r)
                    &&& final(self)@ == scored(
                        synced(old(self)@, reply, *at),
                        visit.facts(),
                        seconds(*at),
                    )
                },
                Event::Challenged(reply) => {
                    &&& r matches Step::Decided(decision) && decision@ == after_challenge(
                        outcome(reply, root_of(old(self)@.api_url)),
                    )
                    &&& final(self)@ == old(self)@
                },
            },
    {
        match event {
            Event::Arrived => {
                let now: u64 = at.unix_seconds();
                if self.sync.claim(now) {
                    return Step::Sync(self.refresh_request(visit.domain.as_str(), at));
                }
                self.judge(visit, at)
            },
            Event::Synced(reply) => {
                self.finish_sync(reply, at);
                self.judge(visit, at)
            },
            Event::Challenged(reply) => {
                let body = match &reply {
                    Some(body) => Some(body),
                    None => None,
                };
                let outcome = challenge_url(body, self.config.api_url.as_str());
                Step::Decided(decide_challenge(outcome))
            },
        }
    }

    /// Puts the protection script of the policy into a page.
    pub fn inject(&self, body: &[u8]) -> (r: Vec<u8>)
        ensures
            r@ == page_after(self@.policy, body@),
    {
        let injector = ObsidianInjector::new();
        match &self.rules {
            Some(policy) => injector.inject_into_html(body, policy),
            None => vstd::slice::slice_to_vec(body),
        }
    }

    /// The page of a decoy.
    pub fn decoy_html() -> (r: &'static str)
        ensures
            r@ == DECOY_HTML@,
    {
        DECOY_HTML
    }

    /// The page of a block.
    pub fn block_html() -> (r: &'static str)
        ensures
            r@ == BLOCK_HTML@,
    {
        BLOCK_HTML
    }
}

/// What the rules look at in a request.
pub open spec fn facts_of(
    ip: &str,
    user_agent: Option<&str>,
    headers: &Headers,
    path: &str,
) -> FactsView {
    FactsView {
        ip: ip@,
        path: path@,
        user_agent: match user_agent {
            Some(ua) => ua@,
            None => Seq::empty(),
        },
        headers: headers@,
    }
}

/// A page after the protection script of a policy was put in; without a policy
/// it stays as it is.
pub open spec fn page_after(policy: Option<Json>, body: Seq<u8>) -> Seq<u8> {
    match policy {
        Some(rules) => injected(
            ObsidianInjector { script_id: SCRIPT_ID, max_body_bytes: MAX_BODY_BYTES },
            body,
            rules,
        ),
        None => body,
    }
}

// ---------------------------------------------------------------------------
// Laws
// ---------------------------------------------------------------------------

/// The tiers: up to 39 a request passes, up to 59 it is slowed down, up to 74 it
/// is challenged, up to 84 it gets a decoy, and from 85 on it is blocked.
pub proof fn the_tiers_cover_every_score(n: int)
    ensures
        n < 40 ==> !in_challenge_band(n) && by_score(n) == DecisionView::Allow,
        40 <= n < 60 ==> !in_challenge_band(n) && by_score(n) == DecisionView::Slow,
        60 <= n < 75 <==> in_challenge_band(n),
        75 <= n < 85 ==> by_score(n) == DecisionView::Decoy,
        n >= 85 ==> by_score(n) == DecisionView::Block,
{
    the_tiers_differ();
}

/// No single built-in signal reaches the block tier on its own.
pub proof fn no_single_signal_blocks()
    ensures
        EMPTY_USER_AGENT < tier_start("BLOCK"@),
        HEADLESS_KEYWORD < tier_start("BLOCK"@),
        BOT_KEYWORD < tier_start("BLOCK"@),
        NO_ACCEPT < tier_start("BLOCK"@),
        POST_WITHOUT_REFERER < tier_start("BLOCK"@),
        RATE_BURST < tier_start("BLOCK"@),
{
    the_tiers_differ();
}

/// The challenge fails closed: where no answer came, or one that names neither a
/// fallback nor anything to send the visitor to, the visitor is blocked.
pub proof fn a_challenge_that_was_not_issued_blocks(reply: Option<Json>, root: Option<Seq<char>>)
    requires
        reply matches Some(body) ==> {
            &&& text_at(body, "status"@) != Some("challenge_disabled"@)
            &&& text_at(body, "challenge_url"@) is None
            &&& text_at(body, "token"@) is None
        },
    ensures
        after_challenge(outcome(reply, root)) == DecisionView::Block,
{
}

/// There is one way through the challenge band: the licence has switched the
/// challenge off and chose `allow`.
pub proof fn only_the_licence_lets_a_suspect_through(reply: Option<Json>, root: Option<Seq<char>>)
    ensures
        after_challenge(outcome(reply, root)) == DecisionView::Allow <==> (reply matches Some(body)
            && {
            &&& text_at(body, "status"@) == Some("challenge_disabled"@)
            &&& text_at(body, "fallback"@) == Some("allow"@)
        }),
{
}

/// An answer that is not a policy changes nothing that is enforced: the policy
/// stays, every request scores as before, and the fetch counts as failed.
pub proof fn an_answer_without_rules_keeps_the_policy(
    agent: AgentView,
    reply: Option<Json>,
    at: Moment,
    facts: FactsView,
    method: Seq<char>,
    now: u64,
)
    requires
        reply matches Some(body) ==> !is_policy(body),
    ensures
        synced(agent, reply, at).policy == agent.policy,
        synced(agent, reply, at).sync.synced_at == agent.sync.synced_at,
        synced(agent, reply, at).sync.failures == failures_after(agent.sync.failures, false),
        score(synced(agent, reply, at), facts, method, now) == score(agent, facts, method, now),
{
}

/// An answer with a list of rules is stored as it is, and counts as a success;
/// an empty list is a policy too.
pub proof fn a_policy_is_stored(agent: AgentView, reply: Json, at: Moment)
    requires
        list_at(reply, "rules"@) is Some,
    ensures
        synced(agent, Some(reply), at).policy == Some(reply),
        synced(agent, Some(reply), at).sync.synced_at == seconds(at),
        synced(agent, Some(reply), at).sync.failures == 0,
{
}

/// However it ends, a fetch that has come to its end sets a later time for the
/// next one and lets it start then, and leaves the buckets and the set-up alone.
pub proof fn a_fetch_always_ends(agent: AgentView, reply: Option<Json>, at: Moment, now: u64)
    ensures
        !synced(agent, reply, at).sync.in_progress,
        due(synced(agent, reply, at).sync, now) <==> now >= synced(
            agent,
            reply,
            at,
        ).sync.next_sync_at,
        seconds(at) + MIN_DELAY_SECONDS <= u64::MAX ==> seconds(at) + MIN_DELAY_SECONDS <= synced(
            agent,
            reply,
            at,
        ).sync.next_sync_at,
        synced(agent, reply, at).buckets == agent.buckets,
        synced(agent, reply, at).license_key == agent.license_key,
        synced(agent, reply, at).api_url == agent.api_url,
        synced(agent, reply, at).interval == agent.interval,
{
}

/// A fetch that was claimed and came to nothing, as when its request went away,
/// does not hold up the next one: once it is ended, the policy stays, nothing is
/// due for eight seconds, and a fetch is due again from `next_sync_at` on, which
/// is six minutes later at most.
pub proof fn an_abandoned_fetch_is_taken_up_again(agent: AgentView, at: Moment, now: u64)
    requires
        agent.sync.in_progress,
        seconds(at) + 360 <= u64::MAX,
    ensures
        !due(agent.sync, now),
        ({
            let ended = synced(agent, None, at);
            &&& ended.policy == agent.policy
            &&& due(ended.sync, now) <==> now >= ended.sync.next_sync_at
            &&& seconds(at) + MIN_DELAY_SECONDS <= ended.sync.next_sync_at <= seconds(at) + 360
        }),
{
    let failures = failures_after(agent.sync.failures, false);
    let base = base_delay(agent.interval, failures, false);
    let j = jitter(at);
    assert(base * j <= 300 * 120) by (nonlinear_arith)
        requires
            base <= 300,
            0 <= j <= 120,
    ;
}

/// Two heartbeats that are sent at different readings of the clock carry different
/// nonces, unless the digests that these are taken from collide, where they are
/// sent in one second or the readings are written with the same number of digits.
pub proof fn heartbeats_have_nonces_of_their_own(
    agent: AgentView,
    domain: Seq<char>,
    request: OutboundRequest,
    at: Moment,
    other: OutboundRequest,
    other_at: Moment,
)
    requires
        is_signed_post(
            request,
            endpoint(agent.api_url, "/agent/heartbeat"@),
            heartbeat_body(agent.license_key, domain, seconds(at)),
            agent.license_key,
            at,
        ),
        is_signed_post(
            other,
            endpoint(agent.api_url, "/agent/heartbeat"@),
            heartbeat_body(agent.license_key, domain, seconds(other_at)),
            agent.license_key,
            other_at,
        ),
        no_prefix_collision(
            nonce_input(request.body@, at),
            nonce_input(other.body@, other_at),
        ),
        nanoseconds(at) != nanoseconds(other_at),
        seconds(at) == seconds(other_at) || decimal(nanoseconds(at)).len() == decimal(
            nanoseconds(other_at),
        ).len(),
    ensures
        pairs(request.headers@)[2].1 != pairs(other.headers@)[2].1,
{
    let url = endpoint(agent.api_url, "/agent/heartbeat"@);
    requests_have_nonces_of_their_own(request, url, at, other, url, other_at, agent.license_key);
}

/// Scoring a request changes neither the policy nor the schedule.
pub proof fn scoring_keeps_the_policy(agent: AgentView, facts: FactsView, now: u64)
    ensures
        scored(agent, facts, now).policy == agent.policy,
        scored(agent, facts, now).sync == agent.sync,
{
}

} // verus!
