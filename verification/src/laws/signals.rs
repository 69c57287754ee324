//! Laws of scoring.

use vstd::prelude::*;
use crate::headers::lookup;
use crate::json::{count_at, list_at, Json};
use crate::rules::{rule_applies, FactsView};
use crate::scoring::{
    header_score, policy_rules, request_score, rule_score, rules_score, user_agent_score,
    word_score,
};
use crate::text::{holds, lowered};
use super::documents::a_header_is_looked_up_by_its_name;
use super::texts::{
    a_part_is_held, alike_texts, case_is_ignored_between_alike_texts, has_part,
    holding_is_having_a_part,
};

verus! {

/// One of the words that headless browsers give themselves away by stands somewhere
/// in a text.
pub open spec fn has_headless_word(l: Seq<char>) -> bool {
    ||| has_part(l, "puppeteer"@)
    ||| has_part(l, "playwright"@)
    ||| has_part(l, "phantomjs"@)
    ||| has_part(l, "headlesschrome"@)
    ||| has_part(l, "selenium"@)
}

/// One of the words that bots name themselves by stands somewhere in a text.
pub open spec fn has_bot_word(l: Seq<char>) -> bool {
    ||| has_part(l, "googlebot"@)
    ||| has_part(l, "bingbot"@)
    ||| has_part(l, "yandex"@)
    ||| has_part(l, "baiduspider"@)
    ||| has_part(l, "curl"@)
    ||| has_part(l, "wget"@)
    ||| has_part(l, "httpclient"@)
    ||| has_part(l, "python-urllib"@)
}

/// Having a part is holding it, for each of the words.
proof fn words_are_held_where_they_stand(l: Seq<char>)
    ensures
        has_part(l, "puppeteer"@) == holds(l, "puppeteer"@),
        has_part(l, "playwright"@) == holds(l, "playwright"@),
        has_part(l, "phantomjs"@) == holds(l, "phantomjs"@),
        has_part(l, "headlesschrome"@) == holds(l, "headlesschrome"@),
        has_part(l, "selenium"@) == holds(l, "selenium"@),
        has_part(l, "googlebot"@) == holds(l, "googlebot"@),
        has_part(l, "bingbot"@) == holds(l, "bingbot"@),
        has_part(l, "yandex"@) == holds(l, "yandex"@),
        has_part(l, "baiduspider"@) == holds(l, "baiduspider"@),
        has_part(l, "curl"@) == holds(l, "curl"@),
        has_part(l, "wget"@) == holds(l, "wget"@),
        has_part(l, "httpclient"@) == holds(l, "httpclient"@),
        has_part(l, "python-urllib"@) == holds(l, "python-urllib"@),
{
    holding_is_having_a_part(l, "puppeteer"@);
    holding_is_having_a_part(l, "playwright"@);
    holding_is_having_a_part(l, "phantomjs"@);
    holding_is_having_a_part(l, "headlesschrome"@);
    holding_is_having_a_part(l, "selenium"@);
    holding_is_having_a_part(l, "googlebot"@);
    holding_is_having_a_part(l, "bingbot"@);
    holding_is_having_a_part(l, "yandex"@);
    holding_is_having_a_part(l, "baiduspider"@);
    holding_is_having_a_part(l, "curl"@);
    holding_is_having_a_part(l, "wget"@);
    holding_is_having_a_part(l, "httpclient"@);
    holding_is_having_a_part(l, "python-urllib"@);
}

/// A word of a bot adds 35 wherever it stands, whatever stands before and behind it.
pub proof fn a_bot_word_counts_wherever_it_stands(before: Seq<char>, after: Seq<char>)
    ensures
        word_score(before + "googlebot"@ + after) >= 35,
        word_score(before + "bingbot"@ + after) >= 35,
        word_score(before + "yandex"@ + after) >= 35,
        word_score(before + "baiduspider"@ + after) >= 35,
        word_score(before + "curl"@ + after) >= 35,
        word_score(before + "wget"@ + after) >= 35,
        word_score(before + "httpclient"@ + after) >= 35,
        word_score(before + "python-urllib"@ + after) >= 35,
{
    a_part_is_held(before, "googlebot"@, after);
    a_part_is_held(before, "bingbot"@, after);
    a_part_is_held(before, "yandex"@, after);
    a_part_is_held(before, "baiduspider"@, after);
    a_part_is_held(before, "curl"@, after);
    a_part_is_held(before, "wget"@, after);
    a_part_is_held(before, "httpclient"@, after);
    a_part_is_held(before, "python-urllib"@, after);
}

/// A word of a headless browser adds 25 wherever it stands, whatever stands before
/// and behind it.
pub proof fn a_headless_word_counts_wherever_it_stands(before: Seq<char>, after: Seq<char>)
    ensures
        word_score(before + "puppeteer"@ + after) >= 25,
        word_score(before + "playwright"@ + after) >= 25,
        word_score(before + "phantomjs"@ + after) >= 25,
        word_score(before + "headlesschrome"@ + after) >= 25,
        word_score(before + "selenium"@ + after) >= 25,
{
    a_part_is_held(before, "puppeteer"@, after);
    a_part_is_held(before, "playwright"@, after);
    a_part_is_held(before, "phantomjs"@, after);
    a_part_is_held(before, "headlesschrome"@, after);
    a_part_is_held(before, "selenium"@, after);
}

/// A user agent with a word of a bot in its lower-case form adds at least 35, and
/// one with a word of a headless browser at least 25, wherever the word stands.
pub proof fn a_user_agent_is_looked_through_whole(
    ua: Seq<char>,
    before: Seq<char>,
    after: Seq<char>,
)
    requires
        ua.len() > 0,
    ensures
        lowered(ua) == before + "googlebot"@ + after ==> user_agent_score(ua) >= 35,
        lowered(ua) == before + "bingbot"@ + after ==> user_agent_score(ua) >= 35,
        lowered(ua) == before + "yandex"@ + after ==> user_agent_score(ua) >= 35,
        lowered(ua) == before + "baiduspider"@ + after ==> user_agent_score(ua) >= 35,
        lowered(ua) == before + "curl"@ + after ==> user_agent_score(ua) >= 35,
        lowered(ua) == before + "wget"@ + after ==> user_agent_score(ua) >= 35,
        lowered(ua) == before + "httpclient"@ + after ==> user_agent_score(ua) >= 35,
        lowered(ua) == before + "python-urllib"@ + after ==> user_agent_score(ua) >= 35,
        lowered(ua) == before + "puppeteer"@ + after ==> user_agent_score(ua) >= 25,
        lowered(ua) == before + "playwright"@ + after ==> user_agent_score(ua) >= 25,
        lowered(ua) == before + "phantomjs"@ + after ==> user_agent_score(ua) >= 25,
        lowered(ua) == before + "headlesschrome"@ + after ==> user_agent_score(ua) >= 25,
        lowered(ua) == before + "selenium"@ + after ==> user_agent_score(ua) >= 25,
{
    a_bot_word_counts_wherever_it_stands(before, after);
    a_headless_word_counts_wherever_it_stands(before, after);
}

/// What a user agent adds: 40 where it is empty, and otherwise 25 where a word of a
/// headless browser stands in its lower-case form and 35 where a word of a bot does,
/// and nothing where neither does.
pub proof fn what_a_user_agent_adds(ua: Seq<char>, l: Seq<char>)
    ensures
        word_score(l) == (if has_headless_word(l) {
            25int
        } else {
            0
        }) + (if has_bot_word(l) {
            35int
        } else {
            0
        }),
        ua.len() == 0 ==> user_agent_score(ua) == 40,
        ua.len() > 0 ==> user_agent_score(ua) == (if has_headless_word(lowered(ua)) {
            25int
        } else {
            0
        }) + (if has_bot_word(lowered(ua)) {
            35int
        } else {
            0
        }),
{
    words_are_held_where_they_stand(l);
    words_are_held_where_they_stand(lowered(ua));
}

/// No header has this very name.
pub open spec fn nobody_called(headers: Seq<(Seq<char>, Seq<char>)>, name: Seq<char>) -> bool {
    forall|i: int| 0 <= i < headers.len() ==> (#[trigger] headers[i]).0 != name
}

/// A header is looked up exactly where there is one of that name.
proof fn looked_up_where_called(headers: Seq<(Seq<char>, Seq<char>)>, name: Seq<char>)
    ensures
        lookup(headers, name) is None <==> nobody_called(headers, name),
{
    if nobody_called(headers, name) {
        a_header_is_looked_up_by_its_name(headers, name, headers.len() as int);
    } else {
        first_called(headers, name, 0);
    }
}

/// Where there is a header of a name from some place on, one is found.
proof fn first_called(headers: Seq<(Seq<char>, Seq<char>)>, name: Seq<char>, from: int)
    requires
        0 <= from <= headers.len(),
        forall|j: int| 0 <= j < from ==> (#[trigger] headers[j]).0 != name,
        !nobody_called(headers, name),
    ensures
        lookup(headers, name) is Some,
    decreases headers.len() - from,
{
    if from < headers.len() {
        if headers[from].0 == name {
            a_header_is_looked_up_by_its_name(headers, name, from);
        } else {
            first_called(headers, name, from + 1);
        }
    }
}

/// What the headers add: 15 where there is neither an `accept` nor an `Accept`, and
/// 20 where the method is POST, in whatever case, and there is neither a `referer` nor
/// a `Referer`; no other header and no other method changes that.
pub proof fn what_the_headers_add(headers: Seq<(Seq<char>, Seq<char>)>, method: Seq<char>)
    ensures
        header_score(headers, method) == (if nobody_called(headers, "accept"@) && nobody_called(
            headers,
            "Accept"@,
        ) {
            15int
        } else {
            0
        }) + (if alike_texts(method, "POST"@) && nobody_called(headers, "referer"@)
            && nobody_called(headers, "Referer"@) {
            20int
        } else {
            0
        }),
{
    looked_up_where_called(headers, "accept"@);
    looked_up_where_called(headers, "Accept"@);
    looked_up_where_called(headers, "referer"@);
    looked_up_where_called(headers, "Referer"@);
    case_is_ignored_between_alike_texts(method, "POST"@);
}

/// The score of a request: what its user agent and its headers add, 35 where it is
/// over its rate, and what the rules add, but never more than 100.
pub proof fn what_a_request_scores(
    policy: Option<Json>,
    facts: FactsView,
    method: Seq<char>,
    within_rate: bool,
)
    ensures
        ({
            let total = user_agent_score(facts.user_agent) + header_score(facts.headers, method)
                + (if within_rate {
                0int
            } else {
                35
            }) + rules_score(policy_rules(policy), facts);
            request_score(policy, facts, method, within_rate) == (if total > 100 {
                100
            } else {
                total
            })
        }),
{
}

/// The rules of a policy add up: none add nothing, and one more adds its whole score
/// where it applies and nothing where it does not, wherever it stands in the list.
pub proof fn rules_add_up(before: Seq<Json>, rule: Json, after: Seq<Json>, facts: FactsView)
    ensures
        rules_score(Seq::<Json>::empty(), facts) == 0,
        rules_score(before.push(rule) + after, facts) == rules_score(before + after, facts) + (
        if rule_applies(rule, facts) {
            rule_score(rule)
        } else {
            0
        }),
    decreases after.len(),
{
    let all = before.push(rule) + after;
    let without = before + after;
    if after.len() == 0 {
        assert(all =~= before.push(rule));
        assert(all.drop_last() =~= before);
        assert(without =~= before);
    } else {
        rules_add_up(before, rule, after.drop_last(), facts);
        assert(all.drop_last() =~= before.push(rule) + after.drop_last());
        assert(without.drop_last() =~= before + after.drop_last());
        assert(all.last() == after.last());
        assert(without.last() == after.last());
    }
}

/// The score of a rule is the whole number under `score`, and nothing where there is
/// none; the rules of a policy are the list under `rules`, and none where there is no
/// such list.
pub proof fn scores_and_rules_are_read_from_the_policy(rule: Json, policy: Json)
    ensures
        rule_score(rule) == (match count_at(rule, "score"@) {
            Some(n) => n as int,
            None => 0,
        }),
        policy_rules(Some(policy)) == (match list_at(policy, "rules"@) {
            Some(rules) => rules,
            None => Seq::<Json>::empty(),
        }),
        policy_rules(None) == Seq::<Json>::empty(),
{
}

} // verus!
