//! The headers of a request, by name.

use vstd::prelude::*;
use crate::text::{ascii_lower, eq_ignore_ascii_case, same};

verus! {

/// The headers of one request. No name occurs twice; two names that differ only
/// in case are two names.
#[derive(Debug)]
pub struct Headers {
    entries: Vec<(String, String)>,
}

/// The names and values of a list of headers, in their order.
pub open spec fn pairs(list: Seq<(String, String)>) -> Seq<(Seq<char>, Seq<char>)> {
    list.map_values(|h: (String, String)| (h.0@, h.1@))
}

/// The position of the first header called `name`; the length of the list where
/// there is none.
pub open spec fn position(list: Seq<(Seq<char>, Seq<char>)>, name: Seq<char>) -> int
    decreases list.len(),
{
    if list.len() == 0 || list[0].0 == name {
        0
    } else {
        1 + position(list.skip(1), name)
    }
}

/// The value of the header called `name`.
pub open spec fn lookup(list: Seq<(Seq<char>, Seq<char>)>, name: Seq<char>) -> Option<Seq<char>> {
    let i = position(list, name);
    if i < list.len() {
        Some(list[i].1)
    } else {
        None
    }
}

/// The value of the first header called `name` in whatever case; the empty text
/// where there is none.
pub open spec fn lookup_any_case(list: Seq<(Seq<char>, Seq<char>)>, name: Seq<char>) -> Seq<char>
    decreases list.len(),
{
    if list.len() == 0 {
        Seq::empty()
    } else if ascii_lower(list[0].0) == ascii_lower(name) {
        list[0].1
    } else {
        lookup_any_case(list.skip(1), name)
    }
}

/// The list after a header was put in: one of that name has a new value, a new
/// name comes last.
pub open spec fn put(
    list: Seq<(Seq<char>, Seq<char>)>,
    name: Seq<char>,
    value: Seq<char>,
) -> Seq<(Seq<char>, Seq<char>)> {
    let i = position(list, name);
    if i < list.len() {
        list.update(i, (name, value))
    } else {
        list.push((name, value))
    }
}

/// No name occurs twice.
pub open spec fn distinct(list: Seq<(Seq<char>, Seq<char>)>) -> bool {
    forall|i: int, j: int| 0 <= i < j < list.len() ==> list[i].0 != list[j].0
}

/// Where `position` points.
proof fn position_points(list: Seq<(Seq<char>, Seq<char>)>, name: Seq<char>)
    ensures
        0 <= position(list, name) <= list.len(),
        position(list, name) < list.len() ==> list[position(list, name)].0 == name,
        forall|j: int| 0 <= j < position(list, name) ==> (#[trigger] list[j]).0 != name,
    decreases list.len(),
{
    if list.len() > 0 && list[0].0 != name {
        let rest = list.skip(1);
        position_points(rest, name);
        assert forall|j: int| 0 <= j < position(list, name) implies (#[trigger] list[j]).0
            != name by {
            if j > 0 {
                assert(rest[j - 1] == list[j]);
            }
        }
    }
}

/// Putting a header in keeps the names distinct, gives that name its new value
/// and leaves every other name as it was.
pub proof fn putting_sets_one_header(
    list: Seq<(Seq<char>, Seq<char>)>,
    name: Seq<char>,
    value: Seq<char>,
    other: Seq<char>,
)
    requires
        distinct(list),
    ensures
        distinct(put(list, name, value)),
        lookup(put(list, name, value), name) == Some(value),
        other != name ==> lookup(put(list, name, value), other) == lookup(list, other),
{
    let after = put(list, name, value);
    position_points(list, name);
    position_points(list, other);
    position_points(after, name);
    position_points(after, other);
    let i = position(list, name);
    if i < list.len() {
        assert(after[i].0 == name);
    } else {
        assert(after[list.len() as int].0 == name);
    }
    assert(lookup(after, name) == Some(value)) by {
        let k = position(after, name);
        assert(after[k].0 == name);
        if k < list.len() && k != i {
            assert(list[k].0 == name);
        }
    }
    if other != name {
        let k = position(list, other);
        let m = position(after, other);
        if k < list.len() {
            assert(after[k].0 == other);
            assert(after[m].0 == other);
            assert(after[m] == list[m]);
        } else if m < after.len() {
            assert(after[m].0 == other);
            assert(m < list.len());
            assert(list[m].0 == other);
        }
    }
}

/// Names are matched without regard to case: two spellings of one name find the
/// same value.
pub proof fn lookup_ignores_case(
    list: Seq<(Seq<char>, Seq<char>)>,
    name: Seq<char>,
    spelling: Seq<char>,
)
    requires
        ascii_lower(name) == ascii_lower(spelling),
    ensures
        lookup_any_case(list, name) == lookup_any_case(list, spelling),
    decreases list.len(),
{
    if list.len() > 0 {
        lookup_ignores_case(list.skip(1), name, spelling);
    }
}

impl Headers {
    /// The names and values, in their order.
    pub closed spec fn view(&self) -> Seq<(Seq<char>, Seq<char>)> {
        pairs(self.entries@)
    }

    /// No name occurs twice.
    #[verifier::type_invariant]
    spec fn names_are_distinct(self) -> bool {
        distinct(pairs(self.entries@))
    }

    /// No headers.
    pub fn new() -> (r: Headers)
        ensures
            r@ == Seq::<(Seq<char>, Seq<char>)>::empty(),
            distinct(r@),
    {
        let r = Headers { entries: Vec::new() };
        assert(r@ =~= Seq::empty());
        r
    }

    /// The position of the header called `name`; the number of headers where
    /// there is none.
    fn index_of(&self, name: &str) -> (r: usize)
        ensures
            r == position(self@, name@),
            r <= self@.len(),
    {
        let mut i: usize = 0;
        assert(self@.skip(0) =~= self@);
        while i < self.entries.len()
            invariant
                i <= self@.len(),
                self@.len() == self.entries@.len(),
                position(self@, name@) == i + position(self@.skip(i as int), name@),
            decreases self@.len() - i,
        {
            if same(self.entries[i].0.as_str(), name) {
                return i;
            }
            assert(self@.skip(i as int).skip(1) =~= self@.skip(i + 1));
            i = i + 1;
        }
        i
    }

    /// Puts a header in; a header of that name has its value replaced.
    pub fn insert(&mut self, name: String, value: String)
        ensures
            final(self)@ == put(old(self)@, name@, value@),
            distinct(final(self)@),
    {
        let ghost before = self@;
        proof {
            use_type_invariant(&*self);
            putting_sets_one_header(before, name@, value@, name@);
        }
        let i: usize = self.index_of(name.as_str());
        let ghost pair = (name@, value@);
        let mut list: Vec<(String, String)> = Vec::new();
        assert(distinct(pairs(list@)));
        core::mem::swap(&mut self.entries, &mut list);
        if i < list.len() {
            list.set(i, (name, value));
            assert(pairs(list@) =~= before.update(i as int, pair));
        } else {
            list.push((name, value));
            assert(pairs(list@) =~= before.push(pair));
        }
        self.entries = list;
    }

    /// The number of headers. No name occurs twice among them.
    pub fn len(&self) -> (r: usize)
        ensures
            r == self@.len(),
            distinct(self@),
    {
        proof {
            use_type_invariant(self);
        }
        self.entries.len()
    }

    /// The value of the header called `name`.
    pub fn get(&self, name: &str) -> (r: Option<&str>)
        ensures
            match r {
                Some(v) => lookup(self@, name@) == Some(v@),
                None => lookup(self@, name@) is None,
            },
    {
        let i: usize = self.index_of(name);
        if i < self.entries.len() {
            Some(self.entries[i].1.as_str())
        } else {
            None
        }
    }

    /// Whether there is a header called `name`.
    pub fn contains_key(&self, name: &str) -> (r: bool)
        ensures
            r == (lookup(self@, name@) is Some),
    {
        self.index_of(name) < self.entries.len()
    }

    /// The value of the first header called `name` in whatever case; the empty
    /// text where there is none.
    ///
    /// Header names are case-insensitive on the wire, so they are matched that
    /// way here rather than relying on the casing that was collected.
    pub fn header_value(&self, name: &str) -> (r: &str)
        ensures
            r@ == lookup_any_case(self@, name@),
    {
        let mut i: usize = 0;
        assert(self@.skip(0) =~= self@);
        while i < self.entries.len()
            invariant
                i <= self@.len(),
                self@.len() == self.entries@.len(),
                lookup_any_case(self@, name@) == lookup_any_case(self@.skip(i as int), name@),
            decreases self@.len() - i,
        {
            if eq_ignore_ascii_case(self.entries[i].0.as_str(), name) {
                return self.entries[i].1.as_str();
            }
            assert(self@.skip(i as int).skip(1) =~= self@.skip(i + 1));
            i = i + 1;
        }
        proof {
            reveal_strlit("");
            assert(""@ =~= Seq::<char>::empty());
        }
        ""
    }
}

} // verus!
