//! Laws of texts.

use vstd::prelude::*;
use vstd::utf8::is_ascii_chars;
use crate::text::{
    ascii_lower, ascii_lower_char, begins, decimal, first_index, holds, in_class, last_index,
    lowercase, lowered, occurs_at, signed_decimal, strip, strip_end, strip_start, trimmed,
    CharClass,
};

verus! {

/// Two characters are the same, or one is an ASCII capital and the other its small
/// letter.
pub open spec fn alike(a: char, b: char) -> bool {
    ||| a == b
    ||| 'A' <= a <= 'Z' && b as u32 == a as u32 + 32
    ||| 'A' <= b <= 'Z' && a as u32 == b as u32 + 32
}

/// Two texts are as long as each other, and alike at every position.
pub open spec fn alike_texts(a: Seq<char>, b: Seq<char>) -> bool {
    &&& a.len() == b.len()
    &&& forall|i: int| 0 <= i < a.len() ==> alike(#[trigger] a[i], b[i])
}

/// A text is made of something, then a part, then something else.
pub open spec fn has_part(s: Seq<char>, part: Seq<char>) -> bool {
    exists|before: Seq<char>, after: Seq<char>| s == #[trigger] (before + part + after)
}

/// The characters that count as white space.
pub open spec fn blank(c: char) -> bool {
    ||| c == '\t'
    ||| c == '\n'
    ||| c == '\u{b}'
    ||| c == '\u{c}'
    ||| c == '\r'
    ||| c == ' '
    ||| c == '\u{85}'
    ||| c == '\u{a0}'
    ||| c == '\u{1680}'
    ||| '\u{2000}' <= c <= '\u{200a}'
    ||| c == '\u{2028}'
    ||| c == '\u{2029}'
    ||| c == '\u{202f}'
    ||| c == '\u{205f}'
    ||| c == '\u{3000}'
}

/// A text holds a part exactly where it is made of something, that part, and
/// something else; it begins with a part exactly where nothing stands before it.
pub proof fn holding_is_having_a_part(s: Seq<char>, part: Seq<char>)
    ensures
        holds(s, part) <==> has_part(s, part),
        begins(s, part) <==> exists|after: Seq<char>| s == #[trigger] (part + after),
{
    if holds(s, part) {
        let i = choose|i: int| occurs_at(s, part, i);
        let before = s.take(i);
        let after = s.skip(i + part.len());
        assert(s =~= before + part + after);
    }
    if has_part(s, part) {
        let (before, after) = choose|before: Seq<char>, after: Seq<char>|
            s == #[trigger] (before + part + after);
        let i = before.len() as int;
        assert(s.subrange(i, i + part.len()) =~= part);
        assert(occurs_at(s, part, i));
    }
    if begins(s, part) {
        let after = s.skip(part.len() as int);
        assert(s =~= part + after);
    }
    if exists|after: Seq<char>| s == #[trigger] (part + after) {
        let after = choose|after: Seq<char>| s == #[trigger] (part + after);
        assert(s.subrange(0, part.len() as int) =~= part);
    }
}

/// What stands anywhere in a text is held by it.
pub proof fn a_part_is_held(before: Seq<char>, part: Seq<char>, after: Seq<char>)
    ensures
        holds(before + part + after, part),
{
    holding_is_having_a_part(before + part + after, part);
}

/// In lower case the ASCII capitals of an ASCII text change, to the small letters
/// at the same places, and nothing else does; any other text is mapped as Unicode
/// says.
pub proof fn lower_case_changes_capitals_only(s: Seq<char>)
    ensures
        is_ascii_chars(s) ==> {
            &&& lowered(s).len() == s.len()
            &&& forall|i: int|
                0 <= i < s.len() ==> #[trigger] lowered(s)[i] == (if 'A' <= s[i] <= 'Z' {
                    (s[i] as u32 + 32) as char
                } else {
                    s[i]
                })
        },
        !is_ascii_chars(s) ==> lowered(s) == lowercase(s),
{
}

/// Characters have one small letter exactly where they are alike.
proof fn small_letters_of_alike_characters(a: char, b: char)
    ensures
        ascii_lower_char(a) == ascii_lower_char(b) <==> alike(a, b),
{
}

/// Case is ignored exactly between texts that are alike at every position.
pub proof fn case_is_ignored_between_alike_texts(a: Seq<char>, b: Seq<char>)
    ensures
        ascii_lower(a) == ascii_lower(b) <==> alike_texts(a, b),
{
    if ascii_lower(a) == ascii_lower(b) {
        assert(ascii_lower(a).len() == ascii_lower(b).len());
        assert forall|i: int| 0 <= i < a.len() implies alike(#[trigger] a[i], b[i]) by {
            assert(ascii_lower(a)[i] == ascii_lower(b)[i]);
            small_letters_of_alike_characters(a[i], b[i]);
        }
    }
    if alike_texts(a, b) {
        assert forall|i: int| 0 <= i < a.len() implies ascii_lower(a)[i] == ascii_lower(b)[i] by {
            assert(alike(a[i], b[i]));
            small_letters_of_alike_characters(a[i], b[i]);
        }
        assert(ascii_lower(a) =~= ascii_lower(b));
    }
}

/// What is taken from the start of a text when it is stripped.
proof fn stripped_from_the_start(s: Seq<char>, class: CharClass) -> (before: Seq<char>)
    ensures
        s == before + strip_start(s, class),
        forall|i: int| 0 <= i < before.len() ==> in_class(class, #[trigger] before[i]),
        strip_start(s, class).len() > 0 ==> !in_class(class, strip_start(s, class)[0]),
    decreases s.len(),
{
    if s.len() > 0 && in_class(class, s[0]) {
        let rest = stripped_from_the_start(s.skip(1), class);
        let before = seq![s[0]] + rest;
        assert(s =~= seq![s[0]] + s.skip(1));
        assert(before + strip_start(s, class) =~= seq![s[0]] + (rest + strip_start(s, class)));
        assert(s =~= before + strip_start(s, class));
        before
    } else {
        assert(s =~= Seq::<char>::empty() + s);
        Seq::empty()
    }
}

/// What is taken from the end of a text when it is stripped.
proof fn stripped_from_the_end(s: Seq<char>, class: CharClass) -> (after: Seq<char>)
    ensures
        s == strip_end(s, class) + after,
        forall|i: int| 0 <= i < after.len() ==> in_class(class, #[trigger] after[i]),
        strip_end(s, class).len() > 0 ==> !in_class(class, strip_end(s, class).last()),
    decreases s.len(),
{
    if s.len() > 0 && in_class(class, s.last()) {
        let rest = stripped_from_the_end(s.drop_last(), class);
        let after = rest.push(s.last());
        assert(s =~= s.drop_last().push(s.last()));
        assert(strip_end(s, class) + after =~= (strip_end(s, class) + rest).push(s.last()));
        assert(s =~= strip_end(s, class) + after);
        after
    } else {
        assert(s =~= s + Seq::<char>::empty());
        Seq::empty()
    }
}

/// The class of white space holds exactly the characters that are blank.
pub proof fn white_space_is_blank(c: char)
    ensures
        in_class(CharClass::Space, c) <==> blank(c),
{
}

/// Trimming takes away white space and nothing else, at both ends and as much of
/// it as there is.
pub proof fn trimming_takes_the_white_space_around(s: Seq<char>)
    ensures
        exists|before: Seq<char>, after: Seq<char>|
            {
                &&& s == #[trigger] (before + trimmed(s) + after)
                &&& forall|i: int| 0 <= i < before.len() ==> blank(#[trigger] before[i])
                &&& forall|i: int| 0 <= i < after.len() ==> blank(#[trigger] after[i])
            },
        trimmed(s).len() > 0 ==> !blank(trimmed(s)[0]) && !blank(trimmed(s).last()),
{
    let middle = strip_start(s, CharClass::Space);
    let before = stripped_from_the_start(s, CharClass::Space);
    let after = stripped_from_the_end(middle, CharClass::Space);
    assert(s =~= before + trimmed(s) + after);
    assert forall|i: int| 0 <= i < before.len() implies blank(#[trigger] before[i]) by {
        white_space_is_blank(before[i]);
    }
    assert forall|i: int| 0 <= i < after.len() implies blank(#[trigger] after[i]) by {
        white_space_is_blank(after[i]);
    }
    if trimmed(s).len() > 0 {
        assert(trimmed(s)[0] == middle[0]);
        white_space_is_blank(trimmed(s)[0]);
        white_space_is_blank(trimmed(s).last());
    }
}

/// Stripping brackets takes away brackets and nothing else, at both ends and as
/// many as there are.
pub proof fn stripping_takes_the_brackets_around(s: Seq<char>)
    ensures
        exists|before: Seq<char>, after: Seq<char>|
            {
                &&& s == #[trigger] (before + strip(s, CharClass::Bracket) + after)
                &&& forall|i: int|
                    0 <= i < before.len() ==> #[trigger] before[i] == '[' || before[i] == ']'
                &&& forall|i: int|
                    0 <= i < after.len() ==> #[trigger] after[i] == '[' || after[i] == ']'
            },
        strip(s, CharClass::Bracket).len() > 0 ==> {
            let inner = strip(s, CharClass::Bracket);
            &&& inner[0] != '[' && inner[0] != ']'
            &&& inner.last() != '[' && inner.last() != ']'
        },
{
    let middle = strip_start(s, CharClass::Bracket);
    let before = stripped_from_the_start(s, CharClass::Bracket);
    let after = stripped_from_the_end(middle, CharClass::Bracket);
    assert(s =~= before + strip(s, CharClass::Bracket) + after);
    if strip(s, CharClass::Bracket).len() > 0 {
        assert(strip(s, CharClass::Bracket)[0] == middle[0]);
    }
}

/// Stripping slashes from the end takes away slashes and nothing else, as many as
/// there are.
pub proof fn stripping_takes_the_slashes_at_the_end(s: Seq<char>)
    ensures
        exists|after: Seq<char>|
            {
                &&& s == #[trigger] (strip_end(s, CharClass::Slash) + after)
                &&& forall|i: int| 0 <= i < after.len() ==> #[trigger] after[i] == '/'
            },
        strip_end(s, CharClass::Slash).len() > 0 ==> strip_end(s, CharClass::Slash).last() != '/',
{
    let after = stripped_from_the_end(s, CharClass::Slash);
    assert(s == strip_end(s, CharClass::Slash) + after);
}

/// The first position of a character is the first: it stands there, and nowhere
/// before.
pub proof fn the_first_position_is_the_first(s: Seq<char>, c: char)
    ensures
        0 <= first_index(s, c) <= s.len(),
        first_index(s, c) < s.len() ==> s[first_index(s, c)] == c,
        forall|i: int| 0 <= i < first_index(s, c) ==> #[trigger] s[i] != c,
    decreases s.len(),
{
    if s.len() > 0 && s[0] != c {
        the_first_position_is_the_first(s.skip(1), c);
        assert forall|i: int| 0 <= i < first_index(s, c) implies #[trigger] s[i] != c by {
            if i > 0 {
                assert(s.skip(1)[i - 1] == s[i]);
            }
        }
    }
}

/// The last position of a character is the last: it stands there, and nowhere
/// behind; -1 says that it stands nowhere.
pub proof fn the_last_position_is_the_last(s: Seq<char>, c: char)
    ensures
        -1 <= last_index(s, c) < s.len(),
        last_index(s, c) >= 0 ==> s[last_index(s, c)] == c,
        forall|i: int| last_index(s, c) < i < s.len() ==> #[trigger] s[i] != c,
    decreases s.len(),
{
    if s.len() > 0 && s.last() != c {
        the_last_position_is_the_last(s.drop_last(), c);
        assert forall|i: int| last_index(s, c) < i < s.len() implies #[trigger] s[i] != c by {
            if i < s.len() - 1 {
                assert(s.drop_last()[i] == s[i]);
            }
        }
    }
}

/// A number is written digit by digit, the highest first, with a minus sign in
/// front where it is negative.
pub proof fn numbers_are_written_digit_by_digit(n: nat, higher: nat, d: nat)
    requires
        d < 10,
    ensures
        decimal(d) == seq![(48 + d) as char],
        higher > 0 ==> decimal((10 * higher + d) as nat) == decimal(higher).push((48 + d) as char),
        signed_decimal(n as int) == decimal(n),
        n > 0 ==> signed_decimal(-(n as int)) == seq!['-'] + decimal(n),
{
    if higher > 0 {
        assert((10 * higher + d) / 10 == higher);
        assert((10 * higher + d) % 10 == d);
    }
}

} // verus!
