//! Evaluation of one synced rule against one request.
//!
//! An unrecognised type or condition never matches: a rule that quietly means
//! something other than what its author wrote is worse than one that does
//! nothing.

use vstd::hash_map::StringHashMap;
use vstd::prelude::*;
use crate::headers::{lookup_any_case, Headers};
use crate::json::{text_at, Json};
use crate::text::{
    ascii_lower, contains, eq_ignore_ascii_case, find, first_index, first_index_of_push, from_chars,
    holds, lowered, no_first_index, same, to_chars, to_lowercase, trim, trimmed,
};

verus! {

/// The request as the rule matcher sees it.
pub struct RequestFacts<'a> {
    pub ip: &'a str,
    pub path: &'a str,
    pub user_agent: &'a str,
    pub headers: &'a Headers,
}

/// What a rule can look at.
pub struct FactsView {
    pub ip: Seq<char>,
    pub path: Seq<char>,
    pub user_agent: Seq<char>,
    pub headers: Seq<(Seq<char>, Seq<char>)>,
}

impl<'a> RequestFacts<'a> {
    /// What a rule can look at.
    pub open spec fn view(&self) -> FactsView {
        FactsView {
            ip: self.ip@,
            path: self.path@,
            user_agent: self.user_agent@,
            headers: self.headers@,
        }
    }
}

// ---------------------------------------------------------------------------
// Regular expressions
// ---------------------------------------------------------------------------

/// A compiled expression of the regex crate.
#[verifier::external_type_specification]
#[verifier::external_body]
pub struct ExRegex(regex::Regex);

/// The pattern that an expression was compiled from. Every expression here is made
/// by `compile`, with the options of `Regex::new`; what is said of its matches would
/// not hold of one that was built with others.
pub uninterp spec fn regex_source(expression: regex::Regex) -> Seq<char>;

/// The regex crate, as it was built, compiles this pattern. Its limit on the size
/// of an expression counts memory, so a pattern near that limit may compile where
/// addresses have 32 bits and not where they have 64.
pub uninterp spec fn regex_compiles(pattern: Seq<char>) -> bool;

/// The expression of this pattern has a match somewhere in this text.
pub uninterp spec fn regex_matches(pattern: Seq<char>, text: Seq<char>) -> bool;

/// The pattern is an expression, and it has a match somewhere in the text.
pub open spec fn regex_accepts(pattern: Seq<char>, text: Seq<char>) -> bool {
    regex_compiles(pattern) && regex_matches(pattern, text)
}

/// `Regex::new`: an expression of the given pattern, where it compiles.
#[verifier::external_body]
pub(crate) fn compile(pattern: &str) -> (r: Option<regex::Regex>)
    ensures
        r is Some <==> regex_compiles(pattern@),
        r matches Some(expression) ==> regex_source(expression) == pattern@,
{
    regex::Regex::new(pattern).ok()
}

/// `Regex::is_match`, of an expression that `compile` made: whether there is a
/// match anywhere in the text.
#[verifier::external_body]
pub(crate) fn is_match(expression: &regex::Regex, text: &str) -> (r: bool)
    ensures
        r == regex_matches(regex_source(*expression), text@),
{
    expression.is_match(text)
}

/// The most patterns that are kept compiled at a time.
pub const REGEX_CACHE_LIMIT: usize = 256;

/// Rule patterns, compiled once and kept.
///
/// The patterns are those that the control plane has sent; the limit is there
/// so that a pathological rule set cannot grow the cache without bound. A
/// pattern that does not compile is kept as a miss, so that it is not compiled
/// again on every request.
pub struct RegexCache {
    compiled: StringHashMap<Option<regex::Regex>>,
}

impl RegexCache {
    /// The patterns that are kept.
    pub closed spec fn patterns(&self) -> Set<Seq<char>> {
        self.compiled@.dom()
    }

    /// Every pattern is kept with what compiling it gives, and there are no more
    /// of them than the limit.
    pub closed spec fn wf(&self) -> bool {
        &&& self.compiled@.dom().finite()
        &&& self.compiled@.len() <= REGEX_CACHE_LIMIT
        &&& forall|p: Seq<char>| #[trigger]
            self.compiled@.contains_key(p) ==> match self.compiled@[p] {
                Some(expression) => regex_source(expression) == p && regex_compiles(p),
                None => !regex_compiles(p),
            }
    }

    /// There are never more patterns than the limit.
    pub proof fn stays_within_the_limit(&self)
        requires
            self.wf(),
        ensures
            self.patterns().finite(),
            self.patterns().len() <= REGEX_CACHE_LIMIT,
    {
    }

    /// An empty cache.
    pub fn new() -> (r: RegexCache)
        ensures
            r.wf(),
            r.patterns() == Set::<Seq<char>>::empty(),
    {
        let r = RegexCache { compiled: StringHashMap::new() };
        assert(r.patterns() =~= Set::<Seq<char>>::empty());
        r
    }

    /// Compile a rule pattern once and keep it; a full cache is emptied first.
    pub fn rule_regex(&mut self, pattern: &str) -> (r: Option<&regex::Regex>)
        requires
            old(self).wf(),
        ensures
            match r {
                Some(expression) => regex_compiles(pattern@) && regex_source(*expression)
                    == pattern@,
                None => !regex_compiles(pattern@),
            },
            final(self).wf(),
            final(self).patterns() == kept_after(old(self).patterns(), pattern@),
    {
        if !self.compiled.contains_key(pattern) {
            if self.compiled.len() >= REGEX_CACHE_LIMIT {
                self.compiled.clear();
            }
            let ghost before = self.compiled@;
            let expression = compile(pattern);
            self.compiled.insert(pattern.to_owned(), expression);
            assert(self.compiled@.dom() =~= before.dom().insert(pattern@));
            assert(before.dom().finite());
        }
        match self.compiled.get(pattern) {
            Some(Some(expression)) => Some(expression),
            _ => None,
        }
    }

    /// Whether `pattern` is an expression with a match somewhere in `text`.
    pub fn matches(&mut self, pattern: &str, text: &str) -> (r: bool)
        requires
            old(self).wf(),
        ensures
            r == regex_accepts(pattern@, text@),
            final(self).wf(),
            final(self).patterns() == kept_after(old(self).patterns(), pattern@),
    {
        match self.rule_regex(pattern) {
            Some(expression) => is_match(expression, text),
            None => false,
        }
    }
}

/// The patterns that are kept after one was looked up.
pub open spec fn kept_after(kept: Set<Seq<char>>, pattern: Seq<char>) -> Set<Seq<char>> {
    if kept.contains(pattern) {
        kept
    } else if kept.len() >= REGEX_CACHE_LIMIT {
        Set::empty().insert(pattern)
    } else {
        kept.insert(pattern)
    }
}

// ---------------------------------------------------------------------------
// What a rule means
// ---------------------------------------------------------------------------

/// `condition` is one that this agent can evaluate.
pub open spec fn known_condition(condition: Seq<char>) -> bool {
    condition == "equals"@ || condition == "contains"@ || condition == "regex"@
}

/// `candidate` meets `condition` with respect to `pattern`. `equals` and
/// `contains` both fold case: an IPv6 address carries hexadecimal letters that
/// runtimes render in different cases.
pub open spec fn value_matches(
    candidate: Seq<char>,
    pattern: Seq<char>,
    condition: Seq<char>,
) -> bool {
    if condition == "equals"@ {
        ascii_lower(candidate) == ascii_lower(pattern)
    } else if condition == "contains"@ {
        holds(lowered(candidate), lowered(pattern))
    } else if condition == "regex"@ {
        regex_accepts(pattern, candidate)
    } else {
        false
    }
}

/// The header name in a header pattern: what stands before the first colon.
pub open spec fn pattern_name(pattern: Seq<char>) -> Seq<char> {
    trimmed(pattern.take(first_index(pattern, ':')))
}

/// The value in a header pattern: what stands behind the first colon.
pub open spec fn pattern_value(pattern: Seq<char>) -> Seq<char> {
    let cut = first_index(pattern, ':');
    if cut < pattern.len() {
        trimmed(pattern.skip(cut + 1))
    } else {
        Seq::empty()
    }
}

/// A bare name asks that the header is present with a value that is not empty;
/// `Name: value` tests the named header against the value. White space around
/// the name and the value is not significant.
pub open spec fn header_matches(
    headers: Seq<(Seq<char>, Seq<char>)>,
    pattern: Seq<char>,
    condition: Seq<char>,
) -> bool {
    let name = pattern_name(pattern);
    let value = pattern_value(pattern);
    let present = lookup_any_case(headers, name);
    if name.len() == 0 {
        false
    } else if value.len() == 0 {
        present.len() > 0
    } else {
        value_matches(present, value, condition)
    }
}

/// The string member of a rule; the empty text where there is none.
pub open spec fn rule_text(rule: Json, name: Seq<char>) -> Seq<char> {
    match text_at(rule, name) {
        Some(t) => t,
        None => Seq::empty(),
    }
}

/// The rule applies to the request.
pub open spec fn rule_applies(rule: Json, facts: FactsView) -> bool {
    let pattern = rule_text(rule, "pattern"@);
    let condition = rule_text(rule, "condition"@);
    let kind = rule_text(rule, "type"@);
    &&& known_condition(condition)
    &&& if kind == "ip"@ {
        value_matches(facts.ip, pattern, condition)
    } else if kind == "user_agent"@ {
        value_matches(facts.user_agent, pattern, condition)
    } else if kind == "path"@ {
        value_matches(facts.path, pattern, condition)
    } else if kind == "header"@ {
        header_matches(facts.headers, pattern, condition)
    } else {
        false
    }
}

/// The patterns that are kept after a value was tested: only `regex` looks one
/// up.
pub open spec fn kept_by_value(
    kept: Set<Seq<char>>,
    pattern: Seq<char>,
    condition: Seq<char>,
) -> Set<Seq<char>> {
    if condition == "regex"@ {
        kept_after(kept, pattern)
    } else {
        kept
    }
}

/// The patterns that are kept after a header was tested.
pub open spec fn kept_by_header(
    kept: Set<Seq<char>>,
    pattern: Seq<char>,
    condition: Seq<char>,
) -> Set<Seq<char>> {
    if pattern_name(pattern).len() == 0 || pattern_value(pattern).len() == 0 {
        kept
    } else {
        kept_by_value(kept, pattern_value(pattern), condition)
    }
}

/// The patterns that are kept after a rule was tested.
pub open spec fn kept_by_rule(kept: Set<Seq<char>>, rule: Json) -> Set<Seq<char>> {
    let pattern = rule_text(rule, "pattern"@);
    let condition = rule_text(rule, "condition"@);
    let kind = rule_text(rule, "type"@);
    if !known_condition(condition) {
        kept
    } else if kind == "ip"@ || kind == "user_agent"@ || kind == "path"@ {
        kept_by_value(kept, pattern, condition)
    } else if kind == "header"@ {
        kept_by_header(kept, pattern, condition)
    } else {
        kept
    }
}

// ---------------------------------------------------------------------------
// Matching
// ---------------------------------------------------------------------------

/// No two of the conditions are the same, and none is empty.
proof fn the_conditions_differ()
    ensures
        "equals"@ != "contains"@,
        "equals"@ != "regex"@,
        "contains"@ != "regex"@,
        !known_condition(Seq::empty()),
{
    reveal_strlit("equals");
    reveal_strlit("contains");
    reveal_strlit("regex");
    assert("equals"@.len() == 6 && "contains"@.len() == 8 && "regex"@.len() == 5);
}

/// Whether `candidate` meets `condition` with respect to `pattern`.
pub fn match_value(candidate: &str, pattern: &str, condition: &str, cache: &mut RegexCache) -> (r:
    bool)
    requires
        old(cache).wf(),
    ensures
        r == value_matches(candidate@, pattern@, condition@),
        final(cache).wf(),
        final(cache).patterns() == kept_by_value(old(cache).patterns(), pattern@, condition@),
{
    proof {
        the_conditions_differ();
    }
    if same(condition, "equals") {
        eq_ignore_ascii_case(candidate, pattern)
    } else if same(condition, "contains") {
        let lower = to_lowercase(candidate);
        let part = to_lowercase(pattern);
        contains(lower.as_str(), part.as_str())
    } else if same(condition, "regex") {
        cache.matches(pattern, candidate)
    } else {
        false
    }
}

/// Whether the headers meet a header pattern.
pub fn match_header(headers: &Headers, pattern: &str, condition: &str, cache: &mut RegexCache) -> (r:
    bool)
    requires
        old(cache).wf(),
    ensures
        r == header_matches(headers@, pattern@, condition@),
        final(cache).wf(),
        final(cache).patterns() == kept_by_header(old(cache).patterns(), pattern@, condition@),
{
    let chars = to_chars(pattern);
    let cut: usize = find(&chars, ':');
    assert(chars@.take(cut as int) =~= chars@.subrange(0, cut as int));
    let name = trim(from_chars(&chars, 0, cut).as_str());
    let value = if cut < chars.len() {
        assert(chars@.skip(cut + 1) =~= chars@.subrange(cut + 1, chars@.len() as int));
        trim(from_chars(&chars, cut + 1, chars.len()).as_str())
    } else {
        String::new()
    };
    if name.as_str().is_empty() {
        return false;
    }
    let present = headers.header_value(name.as_str());
    if value.as_str().is_empty() {
        return !present.is_empty();
    }
    match_value(present, value.as_str(), condition, cache)
}

/// Whether the rule applies to this request.
pub fn rule_matches(rule: &Json, facts: &RequestFacts, cache: &mut RegexCache) -> (r: bool)
    requires
        old(cache).wf(),
    ensures
        r == rule_applies(*rule, facts@),
        final(cache).wf(),
        final(cache).patterns() == kept_by_rule(old(cache).patterns(), *rule),
{
    proof {
        reveal_strlit("");
        assert(""@ =~= Seq::<char>::empty());
    }
    let pattern = match rule.get_str("pattern") {
        Some(t) => t,
        None => "",
    };
    let condition = match rule.get_str("condition") {
        Some(t) => t,
        None => "",
    };
    // Checked before the type, or the presence form of a header rule would match
    // on a condition that this agent cannot evaluate.
    if !same(condition, "equals") && !same(condition, "contains") && !same(condition, "regex") {
        return false;
    }
    let kind = match rule.get_str("type") {
        Some(t) => t,
        None => "",
    };
    if same(kind, "ip") {
        match_value(facts.ip, pattern, condition, cache)
    } else if same(kind, "user_agent") {
        match_value(facts.user_agent, pattern, condition, cache)
    } else if same(kind, "path") {
        match_value(facts.path, pattern, condition, cache)
    } else if same(kind, "header") {
        match_header(facts.headers, pattern, condition, cache)
    } else {
        false
    }
}

// ---------------------------------------------------------------------------
// Laws
// ---------------------------------------------------------------------------

/// A rule with a condition or a type that is not known never applies, whatever
/// the request, and leaves the kept patterns as they are.
pub proof fn an_unrecognised_rule_never_applies(
    rule: Json,
    facts: FactsView,
    kept: Set<Seq<char>>,
)
    requires
        ({
            let kind = rule_text(rule, "type"@);
            ||| !known_condition(rule_text(rule, "condition"@))
            ||| kind != "ip"@ && kind != "user_agent"@ && kind != "path"@ && kind != "header"@
        }),
    ensures
        !rule_applies(rule, facts),
        kept_by_rule(kept, rule) == kept,
{
}

/// A rule that states no condition never applies.
pub proof fn a_rule_without_a_condition_never_applies(rule: Json, facts: FactsView)
    requires
        text_at(rule, "condition"@) is None,
    ensures
        !rule_applies(rule, facts),
{
    the_conditions_differ();
}

/// A pattern that does not compile never matches.
pub proof fn a_broken_pattern_never_matches(candidate: Seq<char>, pattern: Seq<char>)
    requires
        !regex_compiles(pattern),
    ensures
        !value_matches(candidate, pattern, "regex"@),
{
    the_conditions_differ();
}

/// `equals` does not tell two spellings of a value or of a pattern apart that
/// differ only in the case of ASCII letters.
pub proof fn equals_ignores_case(
    candidate: Seq<char>,
    pattern: Seq<char>,
    other_candidate: Seq<char>,
    other_pattern: Seq<char>,
)
    requires
        ascii_lower(candidate) == ascii_lower(other_candidate),
        ascii_lower(pattern) == ascii_lower(other_pattern),
    ensures
        value_matches(candidate, pattern, "equals"@) == value_matches(
            other_candidate,
            other_pattern,
            "equals"@,
        ),
{
}

/// White space around the name and the value of a header pattern is not
/// significant: two patterns whose names and values differ only in the white
/// space around them mean the same.
pub proof fn space_around_the_colon_is_not_significant(
    headers: Seq<(Seq<char>, Seq<char>)>,
    name: Seq<char>,
    value: Seq<char>,
    other_name: Seq<char>,
    other_value: Seq<char>,
    condition: Seq<char>,
)
    requires
        forall|i: int| 0 <= i < name.len() ==> name[i] != ':',
        forall|i: int| 0 <= i < other_name.len() ==> other_name[i] != ':',
        trimmed(name) == trimmed(other_name),
        trimmed(value) == trimmed(other_value),
    ensures
        header_matches(headers, name.push(':') + value, condition) == header_matches(
            headers,
            other_name.push(':') + other_value,
            condition,
        ),
{
    pattern_parts(name, value);
    pattern_parts(other_name, other_value);
}

/// The parts of a header pattern with a colon.
proof fn pattern_parts(name: Seq<char>, value: Seq<char>)
    requires
        forall|i: int| 0 <= i < name.len() ==> name[i] != ':',
    ensures
        pattern_name(name.push(':') + value) == trimmed(name),
        pattern_value(name.push(':') + value) == trimmed(value),
{
    let pattern = name.push(':') + value;
    first_index_of_push(name, value, ':');
    assert(pattern.take(name.len() as int) =~= name);
    assert(pattern.skip(name.len() as int + 1) =~= value);
}

/// A header pattern without a value asks only that the header is there with a
/// value that is not empty.
pub proof fn a_bare_name_tests_presence(
    headers: Seq<(Seq<char>, Seq<char>)>,
    name: Seq<char>,
    condition: Seq<char>,
)
    requires
        forall|i: int| 0 <= i < name.len() ==> name[i] != ':',
        trimmed(name).len() > 0,
    ensures
        header_matches(headers, name, condition) == (lookup_any_case(headers, trimmed(name)).len()
            > 0),
{
    no_first_index(name, ':');
    assert(name.take(name.len() as int) =~= name);
}

} // verus!
