//! Laws of decisions.

use vstd::prelude::*;
use vstd::utf8::encode_utf8;
use crate::agent::{
    after_challenge, asks_for_policy, by_score, cache_name, facts_of, follows_score,
    in_challenge_band, is_policy, refreshed, refusal, score, scored, synced,
    the_tiers_cover_every_score, AgentView, DecisionView, Step, Visit,
};
use crate::challenge::{return_address, OutcomeView};
use crate::clock::{seconds, Moment};
use crate::codec::{hex_text, md5_digest};
use crate::headers::Headers;
use crate::json::{list_at, text_at, Json};
use crate::limits::{buckets_after, within_rate};
use crate::outbound::{challenge_body, endpoint, is_signed_post, verify_body};
use crate::rules::FactsView;
use crate::scoring::request_score;
use crate::sync::{scheduled, SyncState};

verus! {

/// A request is scored under the policy and the rate of its own client on its own path.
pub proof fn what_decides_a_score(
    agent: AgentView,
    facts: FactsView,
    method: Seq<char>,
    now: u64,
)
    ensures
        score(agent, facts, method, now) == request_score(
            agent.policy,
            facts,
            method,
            within_rate(agent.buckets, facts.ip, facts.path, now),
        ),
        scored(agent, facts, now).buckets == buckets_after(
            agent.buckets,
            facts.ip,
            facts.path,
            now,
        ),
        scored(agent, facts, now).policy == agent.policy,
        scored(agent, facts, now).sync == agent.sync,
        scored(agent, facts, now).license_key == agent.license_key,
        scored(agent, facts, now).api_url == agent.api_url,
        scored(agent, facts, now).interval == agent.interval,
{
}

/// The rules see the request as it is; a user agent that is missing is an empty one.
pub proof fn the_rules_see_the_request_as_it_is(
    visit: Visit,
    ip: &str,
    ua: &str,
    headers: &Headers,
    path: &str,
)
    ensures
        visit.facts().ip == visit.ip@,
        visit.facts().path == visit.path@,
        visit.facts().headers == visit.headers@,
        visit.user_agent matches Some(t) ==> visit.facts().user_agent == t@,
        visit.user_agent is None ==> visit.facts().user_agent == Seq::<char>::empty(),
        facts_of(ip, Some(ua), headers, path) == (FactsView {
            ip: ip@,
            path: path@,
            user_agent: ua@,
            headers: headers@,
        }),
        facts_of(ip, None, headers, path) == (FactsView {
            ip: ip@,
            path: path@,
            user_agent: Seq::empty(),
            headers: headers@,
        }),
{
}

/// What follows from a score: up to 39 the request is allowed, up to 59 slowed, from 75 on
/// it gets a decoy and from 85 on it is blocked; in between a challenge is asked for, with
/// the way back to this very page, and nothing is decided yet.
pub proof fn what_follows_from_a_score(agent: AgentView, visit: Visit, at: Moment, step: Step)
    ensures
        ({
            let n = score(agent, visit.facts(), visit.method@, seconds(at));
            follows_score(agent, visit, at, step) <==> match step {
                Step::Sync(_) => false,
                Step::Decided(d) => {
                    ||| n < 40 && d@ == DecisionView::Allow
                    ||| 40 <= n < 60 && d@ == DecisionView::Slow
                    ||| 75 <= n < 85 && d@ == DecisionView::Decoy
                    ||| n >= 85 && d@ == DecisionView::Block
                },
                Step::Challenge(request) => {
                    &&& 60 <= n < 75
                    &&& request.timeout_seconds == 10
                    &&& is_signed_post(
                        request,
                        endpoint(agent.api_url, "/agent/challenge/init"@),
                        challenge_body(
                            agent.license_key,
                            return_address(visit.domain@, visit.path@),
                        ),
                        agent.license_key,
                        at,
                    )
                },
            }
        }),
{
    let n = score(agent, visit.facts(), visit.method@, seconds(at));
    the_tiers_cover_every_score(n);
}

/// What becomes of a visitor in the challenge band, for each outcome.
pub proof fn what_follows_from_a_challenge(url: Seq<char>)
    ensures
        after_challenge(OutcomeView::Redirect(url)) == (DecisionView::Challenge {
            redirect_url: url,
        }),
        after_challenge(OutcomeView::Disabled { block: true }) == DecisionView::Block,
        after_challenge(OutcomeView::Disabled { block: false }) == DecisionView::Allow,
        after_challenge(OutcomeView::Unavailable) == DecisionView::Block,
{
}

/// The policy is asked for with a signed request to its own route, for this domain.
pub proof fn how_the_policy_is_asked_for(agent: AgentView, visit: Visit, at: Moment, step: Step)
    ensures
        asks_for_policy(agent, visit, at, step) <==> (step matches Step::Sync(request) && {
            &&& request.timeout_seconds == 10
            &&& is_signed_post(
                request,
                endpoint(agent.api_url, "/agent/verify"@),
                verify_body(agent.license_key, visit.domain@),
                agent.license_key,
                at,
            )
        }),
{
}

/// An answer is a policy exactly where there is an array under `rules`, and is then stored
/// as it is; any other leaves everything as it was, with its status in the reason.
pub proof fn what_becomes_of_an_answer(agent: AgentView, reply: Json, at: Moment)
    ensures
        is_policy(reply) <==> list_at(reply, "rules"@) is Some,
        is_policy(reply) ==> refreshed(agent, reply, at) == (AgentView {
            policy: Some(reply),
            sync: SyncState { synced_at: seconds(at), ..agent.sync },
            ..agent
        }),
        !is_policy(reply) ==> refreshed(agent, reply, at) == agent,
        text_at(reply, "status"@) matches Some(status) ==> refusal(reply)
            == "/agent/verify answered without a rules array (status: "@ + status
            + "); keeping the last policy"@,
        text_at(reply, "status"@) is None ==> refusal(reply)
            == "/agent/verify answered without a rules array (status: "@ + "none"@
            + "); keeping the last policy"@,
{
}

/// The end of a fetch: a policy is stored and counts as a success, anything else as a
/// failure that changes no policy; either way the next fetch is scheduled and nothing is
/// under way.
pub proof fn how_a_fetch_ends(agent: AgentView, reply: Option<Json>, at: Moment)
    ensures
        ({
            let success = reply matches Some(doc) && list_at(doc, "rules"@) is Some;
            let ended = synced(agent, reply, at);
            let stamped = SyncState {
                synced_at: if success {
                    seconds(at)
                } else {
                    agent.sync.synced_at
                },
                ..agent.sync
            };
            &&& ended.policy == (if success {
                reply
            } else {
                agent.policy
            })
            &&& ended.sync == (SyncState {
                in_progress: false,
                ..scheduled(stamped, agent.interval, success, at)
            })
            &&& ended.buckets == agent.buckets
            &&& ended.patterns == agent.patterns
            &&& ended.license_key == agent.license_key
            &&& ended.api_url == agent.api_url
            &&& ended.interval == agent.interval
        }),
{
}

/// The mirror of a policy is named after the first 16 hexadecimal digits of the MD5 digest
/// of the licence key.
pub proof fn how_the_mirror_is_named(license_key: Seq<char>)
    ensures
        cache_name(license_key) == "up_rules_"@ + hex_text(
            md5_digest(encode_utf8(license_key)),
        ).take(16) + ".json"@,
{
}

/// The challenge band and the other tiers share no score.
pub proof fn a_score_has_one_tier(n: int)
    ensures
        in_challenge_band(n) <==> 60 <= n <= 74,
        n <= 39 ==> by_score(n) == DecisionView::Allow,
        40 <= n <= 59 ==> by_score(n) == DecisionView::Slow,
        75 <= n <= 84 ==> by_score(n) == DecisionView::Decoy,
        85 <= n ==> by_score(n) == DecisionView::Block,
{
    the_tiers_cover_every_score(n);
}

} // verus!
