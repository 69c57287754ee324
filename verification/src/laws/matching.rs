//! Laws of rules.

use vstd::prelude::*;
use crate::headers::lookup_any_case;
use crate::json::{text_at, Json};
use crate::rules::{
    kept_after, pattern_name, pattern_value, regex_compiles, regex_matches,
    rule_applies, rule_text, value_matches, FactsView, REGEX_CACHE_LIMIT,
};
use crate::text::{first_index, first_index_of_push, lowered, no_first_index, trimmed};
use super::texts::{
    alike_texts, case_is_ignored_between_alike_texts, has_part, holding_is_having_a_part,
};

verus! {

/// The words of the rules differ from each other.
proof fn the_words_of_rules_differ()
    ensures
        "equals"@.len() == 6,
        "contains"@.len() == 8,
        "regex"@.len() == 5,
        "ip"@.len() == 2,
        "user_agent"@.len() == 10,
        "path"@.len() == 4,
        "header"@.len() == 6,
        "ip"@ != "path"@,
        "equals"@ != "contains"@,
{
    reveal_strlit("equals");
    reveal_strlit("contains");
    reveal_strlit("regex");
    reveal_strlit("ip");
    reveal_strlit("user_agent");
    reveal_strlit("path");
    reveal_strlit("header");
}

/// A value meets `equals` where it is alike to the pattern up to the case of letters,
/// `contains` where the pattern stands somewhere in it, both in lower case, and `regex`
/// where the pattern compiles and has a match in the value, character for character as
/// it is; it meets no other condition.
pub proof fn what_a_condition_means(candidate: Seq<char>, pattern: Seq<char>, other: Seq<char>)
    ensures
        value_matches(candidate, pattern, "equals"@) == alike_texts(candidate, pattern),
        value_matches(candidate, pattern, "contains"@) == has_part(
            lowered(candidate),
            lowered(pattern),
        ),
        value_matches(candidate, pattern, "regex"@) == (regex_compiles(pattern) && regex_matches(
            pattern,
            candidate,
        )),
        other != "equals"@ && other != "contains"@ && other != "regex"@ ==> !value_matches(
            candidate,
            pattern,
            other,
        ),
{
    the_words_of_rules_differ();
    case_is_ignored_between_alike_texts(candidate, pattern);
    holding_is_having_a_part(lowered(candidate), lowered(pattern));
}

/// A rule with the condition `regex` applies exactly where its pattern compiles and has
/// a match in the very field that its type names, as it was received.
pub proof fn an_expression_is_tried_on_the_field_as_received(
    rule: Json,
    facts: FactsView,
    pattern: Seq<char>,
)
    requires
        text_at(rule, "condition"@) == Some("regex"@),
        text_at(rule, "pattern"@) == Some(pattern),
    ensures
        text_at(rule, "type"@) == Some("ip"@) ==> rule_applies(rule, facts) == (regex_compiles(
            pattern,
        ) && regex_matches(pattern, facts.ip)),
        text_at(rule, "type"@) == Some("user_agent"@) ==> rule_applies(rule, facts) == (
        regex_compiles(pattern) && regex_matches(pattern, facts.user_agent)),
        text_at(rule, "type"@) == Some("path"@) ==> rule_applies(rule, facts) == (regex_compiles(
            pattern,
        ) && regex_matches(pattern, facts.path)),
{
    the_words_of_rules_differ();
}

/// A rule with the condition `equals` applies exactly where the very field that its
/// type names is alike to the pattern up to the case of letters.
pub proof fn a_value_equals_the_whole_field(rule: Json, facts: FactsView, pattern: Seq<char>)
    requires
        text_at(rule, "condition"@) == Some("equals"@),
        text_at(rule, "pattern"@) == Some(pattern),
    ensures
        text_at(rule, "type"@) == Some("ip"@) ==> rule_applies(rule, facts) == alike_texts(
            facts.ip,
            pattern,
        ),
        text_at(rule, "type"@) == Some("user_agent"@) ==> rule_applies(rule, facts) == alike_texts(
            facts.user_agent,
            pattern,
        ),
        text_at(rule, "type"@) == Some("path"@) ==> rule_applies(rule, facts) == alike_texts(
            facts.path,
            pattern,
        ),
{
    the_words_of_rules_differ();
    what_a_condition_means(facts.ip, pattern, "equals"@);
    what_a_condition_means(facts.user_agent, pattern, "equals"@);
    what_a_condition_means(facts.path, pattern, "equals"@);
}

/// A rule with the condition `contains` applies exactly where the pattern stands
/// somewhere in the very field that its type names, both in lower case.
pub proof fn a_value_stands_anywhere_in_the_field(rule: Json, facts: FactsView, pattern: Seq<char>)
    requires
        text_at(rule, "condition"@) == Some("contains"@),
        text_at(rule, "pattern"@) == Some(pattern),
    ensures
        text_at(rule, "type"@) == Some("ip"@) ==> rule_applies(rule, facts) == has_part(
            lowered(facts.ip),
            lowered(pattern),
        ),
        text_at(rule, "type"@) == Some("user_agent"@) ==> rule_applies(rule, facts) == has_part(
            lowered(facts.user_agent),
            lowered(pattern),
        ),
        text_at(rule, "type"@) == Some("path"@) ==> rule_applies(rule, facts) == has_part(
            lowered(facts.path),
            lowered(pattern),
        ),
{
    the_words_of_rules_differ();
    what_a_condition_means(facts.ip, pattern, "contains"@);
    what_a_condition_means(facts.user_agent, pattern, "contains"@);
    what_a_condition_means(facts.path, pattern, "contains"@);
}

/// A member of a rule that is missing counts as the empty text, and one that is there
/// as it stands.
pub proof fn a_missing_member_counts_as_empty(rule: Json, name: Seq<char>)
    ensures
        text_at(rule, name) is None ==> rule_text(rule, name) == Seq::<char>::empty(),
        text_at(rule, name) matches Some(t) ==> rule_text(rule, name) == t,
{
}

/// A rule without a pattern is tested with the empty one: it stands in every field, equals the
/// empty field, and is an expression like any other; a header rule without one applies nowhere.
pub proof fn a_rule_without_a_pattern(rule: Json, facts: FactsView, field: Seq<char>)
    requires
        text_at(rule, "pattern"@) is None,
    ensures
        ({
            let empty = Seq::<char>::empty();
            let named = {
                ||| text_at(rule, "type"@) == Some("ip"@) && field == facts.ip
                ||| text_at(rule, "type"@) == Some("user_agent"@) && field == facts.user_agent
                ||| text_at(rule, "type"@) == Some("path"@) && field == facts.path
            };
            &&& named && text_at(rule, "condition"@) == Some("contains"@) ==> rule_applies(
                rule,
                facts,
            ) == has_part(lowered(field), lowered(empty))
            &&& named && text_at(rule, "condition"@) == Some("equals"@) ==> rule_applies(
                rule,
                facts,
            ) == (field.len() == 0)
            &&& named && text_at(rule, "condition"@) == Some("regex"@) ==> rule_applies(
                rule,
                facts,
            ) == (regex_compiles(empty) && regex_matches(empty, field))
            &&& text_at(rule, "type"@) == Some("header"@) ==> !rule_applies(rule, facts)
        }),
{
    the_words_of_rules_differ();
    let empty = Seq::<char>::empty();
    what_a_condition_means(field, empty, "equals"@);
    if field.len() == 0 {
        assert(alike_texts(field, empty));
    }
    assert(empty.take(first_index(empty, ':')) =~= empty);
    assert(trimmed(empty) == empty);
}

/// A header rule tests one header: with a value behind the first colon it applies
/// exactly where the value of the named header, as received, meets the condition with
/// that value; with nothing but white space there, or without a colon, exactly where
/// the named header has a value that is not empty; and without a name nowhere.
pub proof fn a_header_rule_tests_the_named_header(
    rule: Json,
    facts: FactsView,
    name: Seq<char>,
    value: Seq<char>,
    condition: Seq<char>,
)
    requires
        text_at(rule, "type"@) == Some("header"@),
        text_at(rule, "condition"@) == Some(condition),
        condition == "equals"@ || condition == "contains"@ || condition == "regex"@,
        forall|i: int| 0 <= i < name.len() ==> #[trigger] name[i] != ':',
    ensures
        text_at(rule, "pattern"@) == Some(name + seq![':'] + value) && trimmed(name).len() > 0
            && trimmed(value).len() > 0 ==> {
            let sent = lookup_any_case(facts.headers, trimmed(name));
            &&& condition == "equals"@ ==> rule_applies(rule, facts) == alike_texts(
                sent,
                trimmed(value),
            )
            &&& condition == "contains"@ ==> rule_applies(rule, facts) == has_part(
                lowered(sent),
                lowered(trimmed(value)),
            )
            &&& condition == "regex"@ ==> rule_applies(rule, facts) == (regex_compiles(
                trimmed(value),
            ) && regex_matches(trimmed(value), sent))
        },
        text_at(rule, "pattern"@) == Some(name + seq![':'] + value) && trimmed(name).len() > 0
            && trimmed(value).len() == 0 ==> rule_applies(rule, facts) == (lookup_any_case(
            facts.headers,
            trimmed(name),
        ).len() > 0),
        text_at(rule, "pattern"@) == Some(name) && trimmed(name).len() > 0 ==> rule_applies(
            rule,
            facts,
        ) == (lookup_any_case(facts.headers, trimmed(name)).len() > 0),
        trimmed(name).len() == 0 && (text_at(rule, "pattern"@) == Some(name) || text_at(
            rule,
            "pattern"@,
        ) == Some(name + seq![':'] + value)) ==> !rule_applies(rule, facts),
{
    the_words_of_rules_differ();
    let whole = name + seq![':'] + value;
    assert(whole =~= name.push(':') + value);
    first_index_of_push(name, value, ':');
    assert(whole.take(name.len() as int) =~= name);
    assert(whole.skip(name.len() as int + 1) =~= value);
    assert(pattern_name(whole) == trimmed(name));
    assert(pattern_value(whole) == trimmed(value));
    no_first_index(name, ':');
    assert(name.take(name.len() as int) =~= name);
    assert(pattern_name(name) == trimmed(name));
    assert(pattern_value(name).len() == 0);
    what_a_condition_means(
        lookup_any_case(facts.headers, trimmed(name)),
        trimmed(value),
        condition,
    );
}

/// A rule applies only with one of the three conditions and one of the four types.
pub proof fn no_other_rule_applies(rule: Json, facts: FactsView)
    ensures
        rule_applies(rule, facts) ==> {
            &&& text_at(rule, "condition"@) == Some("equals"@) || text_at(rule, "condition"@)
                == Some("contains"@) || text_at(rule, "condition"@) == Some("regex"@)
            &&& text_at(rule, "type"@) == Some("ip"@) || text_at(rule, "type"@) == Some(
                "user_agent"@,
            ) || text_at(rule, "type"@) == Some("path"@) || text_at(rule, "type"@) == Some(
                "header"@,
            )
        },
{
    the_words_of_rules_differ();
}

/// A pattern that was looked up is kept, the others stay unless there were 256 of them,
/// and none is made up.
pub proof fn a_pattern_that_was_looked_up_is_kept(
    kept: Set<Seq<char>>,
    pattern: Seq<char>,
    other: Seq<char>,
)
    ensures
        kept_after(kept, pattern).contains(pattern),
        kept_after(kept, pattern).contains(other) && other != pattern ==> kept.contains(other),
        kept.contains(other) && (kept.len() < 256 || kept.contains(pattern)) ==> kept_after(
            kept,
            pattern,
        ).contains(other),
        REGEX_CACHE_LIMIT == 256,
{
}

} // verus!
