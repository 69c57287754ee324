//! Laws of JSON documents and of headers.

use vstd::prelude::*;
use crate::headers::{lookup, lookup_any_case, position};
use crate::json::{at, count_at, flag_at, list_at, member, text_at, Json};
use super::texts::{alike_texts, case_is_ignored_between_alike_texts};

verus! {

/// The first member with a name is found, in any members.
proof fn the_first_member_counts(members: Seq<(String, Json)>, name: Seq<char>, i: int)
    requires
        0 <= i < members.len(),
        members[i].0@ == name,
        forall|j: int| 0 <= j < i ==> (#[trigger] members[j]).0@ != name,
    ensures
        member(members, name) == Some(members[i].1),
    decreases members.len(),
{
    if i > 0 {
        assert(members[0].0@ != name);
        let rest = members.skip(1);
        assert forall|j: int| 0 <= j < i - 1 implies (#[trigger] rest[j]).0@ != name by {
            assert(rest[j] == members[j + 1]);
        }
        the_first_member_counts(rest, name, i - 1);
    }
}

/// No member with a name is found where there is none.
proof fn no_member_is_made_up(members: Seq<(String, Json)>, name: Seq<char>)
    requires
        forall|j: int| 0 <= j < members.len() ==> (#[trigger] members[j]).0@ != name,
    ensures
        member(members, name) is None,
    decreases members.len(),
{
    if members.len() > 0 {
        assert(members[0].0@ != name);
        let rest = members.skip(1);
        assert forall|j: int| 0 <= j < rest.len() implies (#[trigger] rest[j]).0@ != name by {
            assert(rest[j] == members[j + 1]);
        }
        no_member_is_made_up(rest, name);
    }
}

/// A member of an object is found under its own name, character for character.
pub proof fn a_member_is_found_under_its_name(members: Vec<(String, Json)>, i: int)
    requires
        0 <= i < members@.len(),
        forall|j: int| 0 <= j < i ==> (#[trigger] members@[j]).0@ != members@[i].0@,
    ensures
        at(Json::Object(members), members@[i].0@) == Some(members@[i].1),
{
    the_first_member_counts(members@, members@[i].0@, i);
}

/// Nothing is found under a name that no member has, and nothing in a document that
/// is no object.
pub proof fn nothing_is_found_under_another_name(doc: Json, name: Seq<char>)
    requires
        doc matches Json::Object(members) ==> forall|j: int|
            0 <= j < members@.len() ==> (#[trigger] members@[j]).0@ != name,
    ensures
        at(doc, name) is None,
{
    if let Json::Object(members) = doc {
        no_member_is_made_up(members@, name);
    }
}

/// A member is read as what it is: a text as a text, `true` as a flag, a whole
/// number as a number and an array as a list, and none of them as anything else.
pub proof fn a_member_is_read_as_what_it_is(doc: Json, name: Seq<char>)
    ensures
        text_at(doc, name) == (match at(doc, name) {
            Some(Json::Text(t)) => Some(t@),
            _ => None::<Seq<char>>,
        }),
        flag_at(doc, name) == (match at(doc, name) {
            Some(Json::Bool(b)) => b,
            _ => false,
        }),
        count_at(doc, name) == (match at(doc, name) {
            Some(Json::Unsigned(n)) => Some(n),
            _ => None::<u64>,
        }),
        list_at(doc, name) == (match at(doc, name) {
            Some(Json::Array(items)) => Some(items@),
            _ => None::<Seq<Json>>,
        }),
{
}

/// Where the first header with a name stands.
proof fn position_of_the_first(list: Seq<(Seq<char>, Seq<char>)>, name: Seq<char>, i: int)
    requires
        0 <= i <= list.len(),
        i < list.len() ==> list[i].0 == name,
        forall|j: int| 0 <= j < i ==> (#[trigger] list[j]).0 != name,
    ensures
        position(list, name) == i,
    decreases list.len(),
{
    if i > 0 {
        assert(list[0].0 != name);
        let rest = list.skip(1);
        assert forall|j: int| 0 <= j < i - 1 implies (#[trigger] rest[j]).0 != name by {
            assert(rest[j] == list[j + 1]);
        }
        position_of_the_first(rest, name, i - 1);
    }
}

/// The value of a header is that of the first with its very name, as it stands.
pub proof fn a_header_is_looked_up_by_its_name(
    list: Seq<(Seq<char>, Seq<char>)>,
    name: Seq<char>,
    i: int,
)
    requires
        0 <= i <= list.len(),
        i < list.len() ==> list[i].0 == name,
        forall|j: int| 0 <= j < i ==> (#[trigger] list[j]).0 != name,
    ensures
        i < list.len() ==> lookup(list, name) == Some(list[i].1),
        i == list.len() ==> lookup(list, name) is None,
{
    position_of_the_first(list, name, i);
}

/// For a rule, the value of a header is that of the first whose name is alike up to
/// the case of letters, as it stands; the empty text where there is none.
pub proof fn a_header_is_found_in_whatever_case(
    list: Seq<(Seq<char>, Seq<char>)>,
    name: Seq<char>,
    i: int,
)
    requires
        0 <= i <= list.len(),
        i < list.len() ==> alike_texts(list[i].0, name),
        forall|j: int| 0 <= j < i ==> !alike_texts((#[trigger] list[j]).0, name),
    ensures
        i < list.len() ==> lookup_any_case(list, name) == list[i].1,
        i == list.len() ==> lookup_any_case(list, name).len() == 0,
    decreases list.len(),
{
    if list.len() > 0 {
        case_is_ignored_between_alike_texts(list[0].0, name);
        if i > 0 {
            assert(!alike_texts(list[0].0, name));
            let rest = list.skip(1);
            assert forall|j: int| 0 <= j < i - 1 implies !alike_texts((#[trigger] rest[j]).0, name) by {
                assert(rest[j] == list[j + 1]);
            }
            a_header_is_found_in_whatever_case(rest, name, i - 1);
        }
    }
}

} // verus!
