//! Addresses: their normal form, and the networks that they belong to.
//!
//! The reader of addresses is handed in: what it takes for an address is its
//! own affair, and what is made of it is stated here.

use vstd::arithmetic::div_mod::{lemma_basic_div, lemma_div_denominator};
use vstd::arithmetic::power2::{lemma2_to64, lemma_pow2_adds, lemma_pow2_pos, pow2};
use vstd::bits::{lemma_u128_shr_is_div, lemma_u32_shr_is_div};
use vstd::prelude::*;
use crate::text::{
    from_chars, last_index, pieces, rfind, split, strip, stripping_twice_changes_nothing, text_of,
    to_chars, trim, trim_matches, trimmed, views, CharClass,
};

verus! {

/// An address of either family, as a number.
#[derive(Clone, Copy, PartialEq, Eq, Structural, Debug)]
pub enum IpAddress {
    V4(u32),
    V6(u128),
}

/// `reader`, called on the text `s`, can give `out`.
pub open spec fn reads<T, F: Fn(&str) -> Option<T>>(reader: F, s: Seq<char>, out: Option<T>) -> bool {
    exists|text: &str| text@ == s && #[trigger] call_ensures(reader, (text,), out)
}

/// The part of an address before its port, without brackets.
pub open spec fn host_part(s: Seq<char>) -> Seq<char> {
    strip(s.take(last_index(s, ':')), CharClass::Bracket)
}

/// A text in brackets.
pub open spec fn in_brackets(s: Seq<char>) -> bool {
    s.len() > 0 && s[0] == '[' && s.last() == ']'
}

/// `r` is what a trimmed text becomes that is no address, with or without
/// brackets around it: the canonical form of its host part where it has a port
/// and that part is an address, and the text itself otherwise.
pub open spec fn normalises_host<F: Fn(&str) -> Option<String>>(
    canonical: F,
    cleaned: Seq<char>,
    r: Seq<char>,
) -> bool {
    if last_index(cleaned, ':') == -1 {
        r == cleaned
    } else {
        exists|host: Option<String>|
            {
                &&& #[trigger] reads(canonical, host_part(cleaned), host)
                &&& match host {
                    Some(t) => r == t@,
                    None => r == cleaned,
                }
            }
    }
}

/// `r` is what a trimmed text becomes that is no address as it stands: the
/// canonical form of what stands in its brackets where that is an address, and
/// otherwise what its host part makes of it.
pub open spec fn normalises_brackets<F: Fn(&str) -> Option<String>>(
    canonical: F,
    cleaned: Seq<char>,
    r: Seq<char>,
) -> bool {
    if in_brackets(cleaned) {
        exists|inner: Option<String>|
            {
                &&& #[trigger] reads(canonical, strip(cleaned, CharClass::Bracket), inner)
                &&& match inner {
                    Some(t) => r == t@,
                    None => normalises_host(canonical, cleaned, r),
                }
            }
    } else {
        normalises_host(canonical, cleaned, r)
    }
}

/// `r` is what the address text `text` becomes, with `canonical` to read
/// addresses: it is asked for the trimmed text first, then for what stands in
/// brackets, and then for what stands before a port.
pub open spec fn normalises<F: Fn(&str) -> Option<String>>(
    canonical: F,
    text: Seq<char>,
    r: Seq<char>,
) -> bool {
    exists|whole: Option<String>|
        {
            &&& #[trigger] reads(canonical, trimmed(text), whole)
            &&& match whole {
                Some(t) => r == t@,
                None => normalises_brackets(canonical, trimmed(text), r),
            }
        }
}

/// What becomes of a trimmed text that is no address, with or without brackets
/// around it.
fn normalize_host<F: Fn(&str) -> Option<String>>(cleaned: &str, canonical: &F) -> (r: String)
    requires
        forall|text: &str| call_requires(*canonical, (text,)),
    ensures
        normalises_host(*canonical, cleaned@, r@),
{
    let chars = to_chars(cleaned);
    match rfind(&chars, ':') {
        Some(i) => {
            assert(chars@.take(i as int) =~= chars@.subrange(0, i as int));
            let host = from_chars(&chars, 0, i);
            let host_clean = trim_matches(host.as_str(), CharClass::Bracket);
            let part = host_clean.as_str();
            let found = canonical(part);
            let ghost given = found;
            assert(reads(*canonical, host_part(cleaned@), given));
            match found {
                Some(t) => t,
                None => cleaned.to_owned(),
            }
        },
        None => cleaned.to_owned(),
    }
}

/// Normalize an address (removes port numbers or brackets).
///
/// `canonical` gives the canonical form of a text that is an address, and
/// nothing for any other text.
pub fn normalize_ip<F: Fn(&str) -> Option<String>>(ip_str: &str, canonical: &F) -> (r: String)
    requires
        forall|text: &str| call_requires(*canonical, (text,)),
    ensures
        normalises(*canonical, ip_str@, r@),
{
    let cleaned = trim(ip_str);
    let text = cleaned.as_str();
    let whole = canonical(text);
    let ghost first = whole;
    assert(reads(*canonical, cleaned@, first));
    if let Some(t) = whole {
        return t;
    }
    let chars = to_chars(text);
    if chars.len() > 0 && chars[0] == '[' && chars[chars.len() - 1] == ']' {
        let bare = trim_matches(text, CharClass::Bracket);
        let part = bare.as_str();
        let inner = canonical(part);
        let ghost second = inner;
        assert(reads(*canonical, strip(cleaned@, CharClass::Bracket), second));
        if let Some(t) = inner {
            return t;
        }
    }
    normalize_host(text, canonical)
}

// ---------------------------------------------------------------------------
// Networks
// ---------------------------------------------------------------------------

/// The length of an address of its family, in bits.
pub open spec fn width(ip: IpAddress) -> nat {
    match ip {
        IpAddress::V4(_) => 32,
        IpAddress::V6(_) => 128,
    }
}

/// The number that an address is.
pub open spec fn number(ip: IpAddress) -> nat {
    match ip {
        IpAddress::V4(a) => a as nat,
        IpAddress::V6(a) => a as nat,
    }
}

/// The leading `n` bits of an address.
pub open spec fn leading_bits(ip: IpAddress, n: nat) -> nat {
    number(ip) / pow2((width(ip) - n) as nat)
}

/// The address lies in the network of the given prefix length: both are of one
/// family, and they agree in the leading bits.
pub open spec fn in_prefix(ip: IpAddress, subnet: IpAddress, prefix_len: u8) -> bool {
    &&& width(ip) == width(subnet)
    &&& prefix_len <= width(ip)
    &&& leading_bits(ip, prefix_len as nat) == leading_bits(subnet, prefix_len as nat)
}

/// A text of decimal digits.
pub open spec fn all_digits(s: Seq<char>) -> bool {
    s.len() > 0 && forall|i: int| 0 <= i < s.len() ==> '0' <= #[trigger] s[i] && s[i] <= '9'
}

/// The number that decimal digits spell.
pub open spec fn digits_value(s: Seq<char>) -> nat
    decreases s.len(),
{
    if s.len() == 0 {
        0
    } else {
        digits_value(s.drop_last()) * 10 + (s.last() as nat - 48) as nat
    }
}

/// The prefix length that a text gives: decimal digits, with or without a plus
/// sign, that spell a number below 256.
pub open spec fn prefix_value(s: Seq<char>) -> Option<u8> {
    let digits = if s.len() > 0 && s[0] == '+' {
        s.skip(1)
    } else {
        s
    };
    if all_digits(digits) && digits_value(digits) <= 255 {
        Some(digits_value(digits) as u8)
    } else {
        None
    }
}

/// The prefix length of a range: what stands behind its slash, or that of a
/// single address of the family of `ip` where there is no slash.
pub open spec fn range_prefix(ip: IpAddress, parts: Seq<Seq<char>>) -> Option<u8> {
    if parts.len() > 1 {
        prefix_value(parts[1])
    } else {
        match ip {
            IpAddress::V4(_) => Some(32u8),
            IpAddress::V6(_) => Some(128u8),
        }
    }
}

/// The address lies in the range whose parts are given and whose first part
/// reads as `subnet`.
pub open spec fn in_range(
    ip: IpAddress,
    subnet: Option<IpAddress>,
    parts: Seq<Seq<char>>,
) -> bool {
    match (subnet, range_prefix(ip, parts)) {
        (Some(network), Some(prefix_len)) => in_prefix(ip, network, prefix_len),
        _ => false,
    }
}

/// A number of more digits is not smaller.
proof fn digits_value_grows(s: Seq<char>, n: int)
    requires
        all_digits(s),
        0 <= n <= s.len(),
    ensures
        digits_value(s.take(n)) <= digits_value(s),
    decreases s.len() - n,
{
    if n == s.len() {
        assert(s.take(n) =~= s);
    } else {
        digits_value_grows(s, n + 1);
        assert(s.take(n + 1).drop_last() =~= s.take(n));
    }
}

/// The prefix length that a text gives.
pub fn parse_prefix(s: &str) -> (r: Option<u8>)
    ensures
        r == prefix_value(s@),
{
    let v = to_chars(s);
    let start: usize = if v.len() > 0 && v[0] == '+' {
        1
    } else {
        0
    };
    let ghost digits = if v@.len() > 0 && v@[0] == '+' {
        v@.skip(1)
    } else {
        v@
    };
    assert(digits =~= v@.skip(start as int));
    if start >= v.len() {
        return None;
    }
    let mut value: u32 = 0;
    let mut i: usize = start;
    assert(digits.take(0) =~= Seq::<char>::empty());
    while i < v.len()
        invariant
            start <= i <= v@.len(),
            start < v@.len(),
            v@ == s@,
            digits == v@.skip(start as int),
            digits == (if s@.len() > 0 && s@[0] == '+' {
                s@.skip(1)
            } else {
                s@
            }),
            value <= 255,
            value == digits_value(digits.take(i - start)),
            forall|j: int| 0 <= j < i - start ==> '0' <= #[trigger] digits[j] && digits[j] <= '9',
        decreases v@.len() - i,
    {
        let c: char = v[i];
        assert(digits[i - start] == c);
        if c < '0' || c > '9' {
            return None;
        }
        assert(digits.take(i - start + 1).drop_last() =~= digits.take(i - start));
        value = value * 10 + (c as u32 - 48);
        if value > 255 {
            proof {
                if all_digits(digits) {
                    digits_value_grows(digits, i - start + 1);
                }
            }
            return None;
        }
        i = i + 1;
    }
    assert(digits.take(digits.len() as int) =~= digits);
    Some(value as u8)
}

/// No bits of an address are no number.
proof fn no_leading_bits(ip: IpAddress)
    ensures
        number(ip) < pow2(width(ip)),
        leading_bits(ip, 0) == 0,
{
    lemma2_to64();
    lemma_pow2_adds(64, 64);
    assert(0x1_0000_0000_0000_0000int * 0x1_0000_0000_0000_0000int
        == 0x1_0000_0000_0000_0000_0000_0000_0000_0000int);
    lemma_basic_div(number(ip) as int, pow2(width(ip)) as int);
}

/// Whether an address lies in the network of the given prefix length.
pub fn in_network(ip: IpAddress, subnet: IpAddress, prefix_len: u8) -> (r: bool)
    ensures
        r == in_prefix(ip, subnet, prefix_len),
{
    match (ip, subnet) {
        (IpAddress::V4(a), IpAddress::V4(b)) => {
            if prefix_len > 32 {
                return false;
            }
            if prefix_len == 0 {
                proof {
                    no_leading_bits(ip);
                    no_leading_bits(subnet);
                }
                return true;
            }
            let k: u32 = 32 - prefix_len as u32;
            proof {
                lemma_u32_shr_is_div(a, k);
                lemma_u32_shr_is_div(b, k);
            }
            a >> k == b >> k
        },
        (IpAddress::V6(a), IpAddress::V6(b)) => {
            if prefix_len > 128 {
                return false;
            }
            if prefix_len == 0 {
                proof {
                    no_leading_bits(ip);
                    no_leading_bits(subnet);
                }
                return true;
            }
            let k: u128 = 128 - prefix_len as u128;
            proof {
                lemma_u128_shr_is_div(a, k);
                lemma_u128_shr_is_div(b, k);
            }
            a >> k == b >> k
        },
        _ => false,
    }
}

/// Whether an address lies in a range such as `192.168.1.0/24`.
///
/// `parse` reads an address, and gives nothing for a text that is none.
pub fn ip_matches_cidr<F: Fn(&str) -> Option<IpAddress>>(ip_str: &str, cidr: &str, parse: &F) -> (r:
    bool)
    requires
        forall|text: &str| call_requires(*parse, (text,)),
    ensures
        exists|ip: Option<IpAddress>|
            {
                &&& #[trigger] reads(*parse, ip_str@, ip)
                &&& ip is None ==> !r
                &&& ip matches Some(a) ==> exists|subnet: Option<IpAddress>|
                    {
                        &&& #[trigger] reads(*parse, pieces(cidr@, '/')[0], subnet)
                        &&& r == in_range(a, subnet, pieces(cidr@, '/'))
                    }
            },
{
    let read = parse(ip_str);
    assert(reads(*parse, ip_str@, read));
    let ip = match read {
        Some(ip) => ip,
        None => {
            return false;
        },
    };
    let parts = split(cidr, '/');
    assert(views(parts@).len() == parts@.len());
    assert(pieces(cidr@, '/')[0] == parts@[0]@);
    let network = parts[0].as_str();
    let subnet = parse(network);
    assert(reads(*parse, pieces(cidr@, '/')[0], subnet));
    let subnet_ip = match subnet {
        Some(s) => s,
        None => {
            return false;
        },
    };
    let prefix_len: u8 = if parts.len() > 1 {
        assert(pieces(cidr@, '/')[1] == parts@[1]@);
        match parse_prefix(parts[1].as_str()) {
            Some(n) => n,
            None => {
                return false;
            },
        }
    } else {
        match ip {
            IpAddress::V4(_) => 32,
            IpAddress::V6(_) => 128,
        }
    };
    in_network(ip, subnet_ip, prefix_len)
}

// ---------------------------------------------------------------------------
// Laws
// ---------------------------------------------------------------------------

/// An address lies in every network that is written with it, and in the network
/// of its whole length only if it is that address.
pub proof fn an_address_lies_in_its_own_network(ip: IpAddress, other: IpAddress, prefix_len: u8)
    requires
        prefix_len <= width(ip),
    ensures
        in_prefix(ip, ip, prefix_len),
        in_prefix(ip, other, width(ip) as u8) <==> ip == other,
{
    lemma2_to64();
    assert(number(ip) / 1 == number(ip));
    assert(number(other) / 1 == number(other));
}

/// A wider network holds what a narrower one holds.
pub proof fn a_wider_network_holds_more(ip: IpAddress, subnet: IpAddress, narrow: u8, wide: u8)
    requires
        in_prefix(ip, subnet, narrow),
        wide <= narrow,
    ensures
        in_prefix(ip, subnet, wide),
{
    let j = (width(ip) - narrow) as nat;
    let d = (narrow - wide) as nat;
    lemma_pow2_pos(j);
    lemma_pow2_pos(d);
    lemma_pow2_adds(j, d);
    lemma_div_denominator(number(ip) as int, pow2(j) as int, pow2(d) as int);
    lemma_div_denominator(number(subnet) as int, pow2(j) as int, pow2(d) as int);
}

/// A network of length zero holds every address of its family, and no network
/// holds an address of the other one.
pub proof fn the_empty_prefix_holds_one_family(ip: IpAddress, subnet: IpAddress, prefix_len: u8)
    ensures
        in_prefix(ip, subnet, 0) <==> width(ip) == width(subnet),
        in_prefix(ip, subnet, prefix_len) ==> width(ip) == width(subnet),
{
    no_leading_bits(ip);
    no_leading_bits(subnet);
}

/// A reader of addresses that gives one answer for each text, whose canonical
/// forms have no white space around them and are read as themselves.
pub open spec fn is_settled<F: Fn(&str) -> Option<String>>(reader: F) -> bool {
    &&& forall|s: Seq<char>, a: Option<String>, b: Option<String>| #[trigger]
        reads(reader, s, a) && #[trigger] reads(reader, s, b) ==> text_of(a) == text_of(b)
    &&& forall|s: Seq<char>, a: Option<String>, b: Option<String>|
        #![trigger reads(reader, s, a), reads(reader, a->0@, b)]
        reads(reader, s, a) && a is Some && reads(reader, a->0@, b) ==> text_of(b) == text_of(a)
    &&& forall|s: Seq<char>, a: Option<String>| #[trigger]
        reads(reader, s, a) && a is Some ==> trimmed(a->0@) == a->0@
}

/// Normalising twice is normalising once.
pub proof fn normalising_twice_changes_nothing<F: Fn(&str) -> Option<String>>(
    canonical: F,
    text: Seq<char>,
    once: Seq<char>,
    twice: Seq<char>,
)
    requires
        is_settled(canonical),
        normalises(canonical, text, once),
        normalises(canonical, once, twice),
    ensures
        twice == once,
{
    stripping_twice_changes_nothing(text, CharClass::Space);
}

/// Two texts that are read as one address normalise alike, to its canonical
/// form, whatever white space stands around them.
pub proof fn one_address_has_one_form<F: Fn(&str) -> Option<String>>(
    canonical: F,
    a: Seq<char>,
    b: Seq<char>,
    form: String,
    spelling: String,
    from_a: Seq<char>,
    from_b: Seq<char>,
)
    requires
        is_settled(canonical),
        reads(canonical, trimmed(a), Some(form)),
        reads(canonical, trimmed(b), Some(spelling)),
        form@ == spelling@,
        normalises(canonical, a, from_a),
        normalises(canonical, b, from_b),
    ensures
        from_a == form@,
        from_b == form@,
{
}

/// An address in brackets, without a port, normalises as it does without them.
pub proof fn brackets_are_removed<F: Fn(&str) -> Option<String>>(
    canonical: F,
    text: Seq<char>,
    form: String,
    r: Seq<char>,
)
    requires
        is_settled(canonical),
        in_brackets(trimmed(text)),
        reads(canonical, trimmed(text), None),
        reads(canonical, strip(trimmed(text), CharClass::Bracket), Some(form)),
        normalises(canonical, text, r),
    ensures
        r == form@,
{
}

/// A text with no address in it, neither as a whole nor in brackets nor before a
/// port, is only trimmed.
pub proof fn other_text_is_only_trimmed<F: Fn(&str) -> Option<String>>(
    canonical: F,
    text: Seq<char>,
    r: Seq<char>,
)
    requires
        is_settled(canonical),
        reads(canonical, trimmed(text), None),
        in_brackets(trimmed(text)) ==> reads(
            canonical,
            strip(trimmed(text), CharClass::Bracket),
            None,
        ),
        last_index(trimmed(text), ':') != -1 ==> reads(canonical, host_part(trimmed(text)), None),
        normalises(canonical, text, r),
    ensures
        r == trimmed(text),
{
}

} // verus!
