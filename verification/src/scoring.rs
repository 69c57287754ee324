//! How suspicious a request is.
//!
//! Signals are additive, and the total is clamped to 100.

use vstd::prelude::*;
use crate::headers::{lookup, Headers};
use crate::json::{count_at, list_at, Json};
use crate::rules::{kept_by_rule, rule_applies, rule_matches, FactsView, RegexCache, RequestFacts};
use crate::text::{ascii_lower, contains, eq_ignore_ascii_case, holds, lowered, to_lowercase};

verus! {

/// The highest score.
pub const MAX_SCORE: u32 = 100;

/// The weight of an empty user agent.
pub const EMPTY_USER_AGENT: u32 = 40;

/// The weight of a word that a headless browser gives itself away by.
pub const HEADLESS_KEYWORD: u32 = 25;

/// The weight of a word that a bot names itself by.
pub const BOT_KEYWORD: u32 = 35;

/// The weight of a missing `Accept`.
pub const NO_ACCEPT: u32 = 15;

/// The weight of a POST without a `Referer`.
pub const POST_WITHOUT_REFERER: u32 = 20;

/// The weight of a bucket without a token.
pub const RATE_BURST: u32 = 35;

// ---------------------------------------------------------------------------
// Signals
// ---------------------------------------------------------------------------

/// A user agent, in lower case, that names a headless browser.
pub open spec fn names_headless(ua: Seq<char>) -> bool {
    ||| holds(ua, "puppeteer"@)
    ||| holds(ua, "playwright"@)
    ||| holds(ua, "phantomjs"@)
    ||| holds(ua, "headlesschrome"@)
    ||| holds(ua, "selenium"@)
}

/// A user agent, in lower case, that names a bot.
pub open spec fn names_bot(ua: Seq<char>) -> bool {
    ||| holds(ua, "googlebot"@)
    ||| holds(ua, "bingbot"@)
    ||| holds(ua, "yandex"@)
    ||| holds(ua, "baiduspider"@)
    ||| holds(ua, "curl"@)
    ||| holds(ua, "wget"@)
    ||| holds(ua, "httpclient"@)
    ||| holds(ua, "python-urllib"@)
}

/// `weight` where the signal fires, nothing otherwise.
pub open spec fn fires(signal: bool, weight: u32) -> int {
    if signal {
        weight as int
    } else {
        0
    }
}

/// What the words in a user agent add, in lower case. The two lists of words are
/// looked at independently.
pub open spec fn word_score(ua: Seq<char>) -> int {
    fires(names_headless(ua), HEADLESS_KEYWORD) + fires(names_bot(ua), BOT_KEYWORD)
}

/// What a user agent adds. An empty one skips both lists of words.
pub open spec fn user_agent_score(ua: Seq<char>) -> int {
    if ua.len() == 0 {
        EMPTY_USER_AGENT as int
    } else {
        word_score(lowered(ua))
    }
}

/// A header is there under neither of its two spellings.
pub open spec fn lacks(
    headers: Seq<(Seq<char>, Seq<char>)>,
    name: Seq<char>,
    spelling: Seq<char>,
) -> bool {
    lookup(headers, name) is None && lookup(headers, spelling) is None
}

/// What the method and the headers add.
pub open spec fn header_score(headers: Seq<(Seq<char>, Seq<char>)>, method: Seq<char>) -> int {
    fires(lacks(headers, "accept"@, "Accept"@), NO_ACCEPT) + fires(
        ascii_lower(method) == ascii_lower("POST"@) && lacks(headers, "referer"@, "Referer"@),
        POST_WITHOUT_REFERER,
    )
}

/// What the built-in signals add.
pub open spec fn signal_score(facts: FactsView, method: Seq<char>, within_rate: bool) -> int {
    user_agent_score(facts.user_agent) + header_score(facts.headers, method) + fires(
        !within_rate,
        RATE_BURST,
    )
}

/// What the words in a user agent add, in lower case.
pub fn score_words(l: &str) -> (r: u32)
    ensures
        r == word_score(l@),
        r <= 60,
{
    let headless = contains(l, "puppeteer") || contains(l, "playwright") || contains(l, "phantomjs")
        || contains(l, "headlesschrome") || contains(l, "selenium");
    let bot = contains(l, "googlebot") || contains(l, "bingbot") || contains(l, "yandex")
        || contains(l, "baiduspider") || contains(l, "curl") || contains(l, "wget") || contains(
        l,
        "httpclient",
    ) || contains(l, "python-urllib");
    let mut score: u32 = 0;
    if headless {
        score = score + HEADLESS_KEYWORD;
    }
    if bot {
        score = score + BOT_KEYWORD;
    }
    score
}

/// What a user agent adds.
pub fn score_user_agent(ua: &str) -> (r: u32)
    ensures
        r == user_agent_score(ua@),
        r <= 60,
{
    if ua.is_empty() {
        return EMPTY_USER_AGENT;
    }
    let lower = to_lowercase(ua);
    score_words(lower.as_str())
}

/// What the method and the headers add.
pub fn score_headers(headers: &Headers, method: &str) -> (r: u32)
    ensures
        r == header_score(headers@, method@),
        r <= 35,
{
    let mut score: u32 = 0;
    if !headers.contains_key("accept") && !headers.contains_key("Accept") {
        score = score + NO_ACCEPT;
    }
    if eq_ignore_ascii_case(method, "POST") && !headers.contains_key("referer")
        && !headers.contains_key("Referer") {
        score = score + POST_WITHOUT_REFERER;
    }
    score
}

// ---------------------------------------------------------------------------
// Rules
// ---------------------------------------------------------------------------

/// The rules of a policy; none where there is no policy, or it has no list of
/// them.
pub open spec fn policy_rules(policy: Option<Json>) -> Seq<Json> {
    match policy {
        Some(doc) => match list_at(doc, "rules"@) {
            Some(rules) => rules,
            None => Seq::empty(),
        },
        None => Seq::empty(),
    }
}

/// The score that a rule carries: its whole number.
pub open spec fn rule_score(rule: Json) -> int {
    match count_at(rule, "score"@) {
        Some(n) => n as int,
        None => 0,
    }
}

/// The sum of the scores of the rules that apply.
pub open spec fn rules_score(rules: Seq<Json>, facts: FactsView) -> int
    decreases rules.len(),
{
    if rules.len() == 0 {
        0
    } else {
        rules_score(rules.drop_last(), facts) + (if rule_applies(rules.last(), facts) {
            rule_score(rules.last())
        } else {
            0
        })
    }
}

/// The patterns that are kept after the rules were tested one by one.
pub open spec fn kept_by_rules(kept: Set<Seq<char>>, rules: Seq<Json>) -> Set<Seq<char>>
    decreases rules.len(),
{
    if rules.len() == 0 {
        kept
    } else {
        kept_by_rule(kept_by_rules(kept, rules.drop_last()), rules.last())
    }
}

/// A score, clamped.
pub open spec fn clamped_score(n: int) -> int {
    if n > MAX_SCORE {
        MAX_SCORE as int
    } else {
        n
    }
}

/// The score of a request: the signals and the rules, clamped.
pub open spec fn request_score(
    policy: Option<Json>,
    facts: FactsView,
    method: Seq<char>,
    within_rate: bool,
) -> int {
    clamped_score(
        signal_score(facts, method, within_rate) + rules_score(policy_rules(policy), facts),
    )
}

/// A number as far as 32 bits hold it.
pub open spec fn held_in_32_bits(n: int) -> int {
    if n > u32::MAX {
        u32::MAX as int
    } else {
        n
    }
}

/// The score that a rule carries, as far as 32 bits hold it: far beyond the
/// highest score that counts.
fn score_of_rule(rule: &Json) -> (r: u32)
    ensures
        r == held_in_32_bits(rule_score(*rule)),
{
    match rule.get_u64("score") {
        Some(n) => if n > u32::MAX as u64 {
            u32::MAX
        } else {
            n as u32
        },
        None => 0,
    }
}

/// The rules of a policy add nothing below zero.
proof fn rules_only_add(rules: Seq<Json>, facts: FactsView)
    ensures
        rules_score(rules, facts) >= 0,
    decreases rules.len(),
{
    if rules.len() > 0 {
        rules_only_add(rules.drop_last(), facts);
    }
}

/// The score of a request for which the built-in signals and the rate are known.
pub fn score_known(
    policy: Option<&Json>,
    facts: &RequestFacts,
    method: &str,
    within_rate: bool,
    cache: &mut RegexCache,
) -> (r: u32)
    requires
        old(cache).wf(),
    ensures
        r == request_score(
            match policy {
                Some(doc) => Some(*doc),
                None => None,
            },
            facts@,
            method@,
            within_rate,
        ),
        final(cache).wf(),
        final(cache).patterns() == kept_by_rules(
            old(cache).patterns(),
            policy_rules(
                match policy {
                    Some(doc) => Some(*doc),
                    None => None,
                },
            ),
        ),
{
    let mut score: u32 = score_user_agent(facts.user_agent) + score_headers(facts.headers, method);
    if !within_rate {
        score = score + RATE_BURST;
    }
    let ghost base = score as int;
    let list = match policy {
        Some(doc) => doc.get_array("rules"),
        None => None,
    };
    if let Some(rules) = list {
        let mut i: usize = 0;
        assert(rules@.take(0) =~= Seq::empty());
        while i < rules.len()
            invariant
                i <= rules@.len(),
                base >= 0,
                cache.wf(),
                cache.patterns() == kept_by_rules(old(cache).patterns(), rules@.take(i as int)),
                base + rules_score(rules@.take(i as int), facts@) >= 0,
                score == held_in_32_bits(base + rules_score(rules@.take(i as int), facts@)),
            decreases rules@.len() - i,
        {
            assert(rules@.take(i + 1).drop_last() =~= rules@.take(i as int));
            proof {
                rules_only_add(rules@.take(i as int), facts@);
                rules_only_add(rules@.take(i + 1), facts@);
            }
            if rule_matches(&rules[i], facts, cache) {
                let added: u32 = score_of_rule(&rules[i]);
                score = score.saturating_add(added);
            }
            i = i + 1;
        }
        assert(rules@.take(rules@.len() as int) =~= rules@);
    }
    if score > MAX_SCORE {
        MAX_SCORE
    } else {
        score
    }
}

// ---------------------------------------------------------------------------
// Laws
// ---------------------------------------------------------------------------

/// A score is between nothing and the highest.
pub proof fn a_score_is_clamped(
    policy: Option<Json>,
    facts: FactsView,
    method: Seq<char>,
    within_rate: bool,
)
    ensures
        0 <= request_score(policy, facts, method, within_rate) <= MAX_SCORE,
{
    rules_only_add(policy_rules(policy), facts);
}

/// Signals are additive: a request is scored by the sum of what the user agent,
/// the headers, the rate and the rules add, up to the highest score.
pub proof fn signals_are_additive(
    policy: Option<Json>,
    facts: FactsView,
    method: Seq<char>,
    within_rate: bool,
)
    ensures
        request_score(policy, facts, method, within_rate) == clamped_score(
            user_agent_score(facts.user_agent) + header_score(facts.headers, method) + fires(
                !within_rate,
                RATE_BURST,
            ) + rules_score(policy_rules(policy), facts),
        ),
{
}

/// The two lists of words are looked at independently: a user agent with a word
/// of each adds 60.
pub proof fn both_word_lists_count(ua: Seq<char>)
    requires
        ua.len() > 0,
        names_headless(lowered(ua)),
        names_bot(lowered(ua)),
    ensures
        user_agent_score(ua) == 60,
{
}

/// An empty user agent adds 40 and is not looked at further.
pub proof fn an_empty_user_agent_adds_forty()
    ensures
        user_agent_score(Seq::empty()) == 40,
{
}

/// Without a policy the built-in signals still score, and so they do under a
/// policy without rules.
pub proof fn without_rules_the_signals_score(
    policy: Option<Json>,
    facts: FactsView,
    method: Seq<char>,
    within_rate: bool,
)
    requires
        policy_rules(policy).len() == 0,
    ensures
        request_score(policy, facts, method, within_rate) == clamped_score(
            signal_score(facts, method, within_rate),
        ),
{
}

/// Rules only add: a request never scores less under a policy than without one.
pub proof fn rules_never_lower_a_score(
    policy: Option<Json>,
    facts: FactsView,
    method: Seq<char>,
    within_rate: bool,
)
    ensures
        request_score(None, facts, method, within_rate) <= request_score(
            policy,
            facts,
            method,
            within_rate,
        ),
{
    rules_only_add(policy_rules(policy), facts);
}

/// A rule that applies adds its own score to those of the rules before it; one
/// that does not apply adds nothing.
pub proof fn each_rule_that_applies_adds_its_score(
    rules: Seq<Json>,
    rule: Json,
    facts: FactsView,
)
    ensures
        rules_score(rules.push(rule), facts) == rules_score(rules, facts) + (if rule_applies(
            rule,
            facts,
        ) {
            rule_score(rule)
        } else {
            0
        }),
{
    assert(rules.push(rule).drop_last() =~= rules);
}

/// A larger score in a rule that applies never gives a lower total, and one of
/// 100 or more gives the highest, however large it is.
pub proof fn a_larger_rule_score_never_lowers_the_total(
    rules: Seq<Json>,
    rule: Json,
    larger: Json,
    facts: FactsView,
    method: Seq<char>,
    within_rate: bool,
)
    requires
        rule_applies(rule, facts),
        rule_applies(larger, facts),
        rule_score(rule) <= rule_score(larger),
    ensures
        ({
            let signals = signal_score(facts, method, within_rate);
            let total = clamped_score(signals + rules_score(rules.push(rule), facts));
            let larger_total = clamped_score(signals + rules_score(rules.push(larger), facts));
            &&& total <= larger_total
            &&& rule_score(larger) >= MAX_SCORE ==> larger_total == MAX_SCORE
        }),
{
    rules_only_add(rules, facts);
    each_rule_that_applies_adds_its_score(rules, rule, facts);
    each_rule_that_applies_adds_its_score(rules, larger, facts);
}

} // verus!
