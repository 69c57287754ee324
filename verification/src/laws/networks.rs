//! Laws of addresses and networks.

use vstd::arithmetic::div_mod::{lemma_fundamental_div_mod, lemma_fundamental_div_mod_converse};
use vstd::arithmetic::power2::{lemma_pow2_pos, pow2};
use vstd::prelude::*;
use crate::text::{
    decimal, last_index, pieces, pieces_of_one, pieces_of_two, strip, trimmed, CharClass,
};
use crate::utils::{
    all_digits, digits_value, host_part, in_network, in_prefix, in_range, ip_matches_cidr,
    is_settled, normalize_ip, parse_prefix, prefix_value, reads, IpAddress,
};
use super::texts::the_last_position_is_the_last;

verus! {

/// Two numbers agree in everything but their last bits: they are made of the same high part
/// and of low parts below a power of two.
pub open spec fn agree_above(a: int, b: int, low_bits: nat) -> bool {
    exists|high: int, x: int, y: int|
        {
            &&& a == #[trigger] (high * pow2(low_bits) + x)
            &&& b == #[trigger] (high * pow2(low_bits) + y)
            &&& 0 <= x < pow2(low_bits)
            &&& 0 <= y < pow2(low_bits)
        }
}

/// Two numbers agree in their high parts exactly where they are made of the same one.
proof fn agreeing_above_is_having_one_quotient(a: int, b: int, low_bits: nat)
    requires
        0 <= a,
        0 <= b,
    ensures
        agree_above(a, b, low_bits) <==> a / pow2(low_bits) as int == b / pow2(low_bits) as int,
{
    let d = pow2(low_bits) as int;
    lemma_pow2_pos(low_bits);
    if a / d == b / d {
        lemma_fundamental_div_mod(a, d);
        lemma_fundamental_div_mod(b, d);
        let high = a / d;
        assert(d * high == high * d) by (nonlinear_arith);
        assert(a == high * pow2(low_bits) + a % d);
        assert(b == high * pow2(low_bits) + b % d);
        assert(0 <= a % d < d && 0 <= b % d < d);
    }
    if agree_above(a, b, low_bits) {
        let (high, x, y) = choose|high: int, x: int, y: int|
            {
                &&& a == #[trigger] (high * pow2(low_bits) + x)
                &&& b == #[trigger] (high * pow2(low_bits) + y)
                &&& 0 <= x < pow2(low_bits)
                &&& 0 <= y < pow2(low_bits)
            };
        lemma_fundamental_div_mod_converse(a, d, high, x);
        lemma_fundamental_div_mod_converse(b, d, high, y);
    }
}

/// An address lies in a network exactly where both are of one family, the prefix is no longer
/// than an address, and the two agree in everything but the bits behind the prefix.
pub proof fn what_lies_in_a_network(a: u32, b: u32, c: u128, d: u128, prefix_len: u8)
    ensures
        prefix_len <= 32 ==> in_prefix(IpAddress::V4(a), IpAddress::V4(b), prefix_len)
            == agree_above(a as int, b as int, (32 - prefix_len) as nat),
        prefix_len > 32 ==> !in_prefix(IpAddress::V4(a), IpAddress::V4(b), prefix_len),
        prefix_len <= 128 ==> in_prefix(IpAddress::V6(c), IpAddress::V6(d), prefix_len)
            == agree_above(c as int, d as int, (128 - prefix_len) as nat),
        prefix_len > 128 ==> !in_prefix(IpAddress::V6(c), IpAddress::V6(d), prefix_len),
        !in_prefix(IpAddress::V4(a), IpAddress::V6(d), prefix_len),
        !in_prefix(IpAddress::V6(c), IpAddress::V4(b), prefix_len),
{
    if prefix_len <= 32 {
        agreeing_above_is_having_one_quotient(a as int, b as int, (32 - prefix_len) as nat);
    }
    if prefix_len <= 128 {
        agreeing_above_is_having_one_quotient(c as int, d as int, (128 - prefix_len) as nat);
    }
}

/// The digits of a number spell it.
proof fn digits_spell_their_number(n: nat)
    ensures
        all_digits(decimal(n)),
        digits_value(decimal(n)) == n,
        forall|i: int| 0 <= i < decimal(n).len() ==> #[trigger] decimal(n)[i] != '/',
    decreases n,
{
    let s = decimal(n);
    if n < 10 {
        assert(s.drop_last() =~= Seq::<char>::empty());
        assert(digits_value(s.drop_last()) == 0);
        assert(s.last() as nat == 48 + n);
    } else {
        digits_spell_their_number(n / 10);
        assert(s.drop_last() =~= decimal(n / 10));
        assert(s.last() as nat == 48 + n % 10);
        assert forall|i: int| 0 <= i < s.len() implies '0' <= #[trigger] s[i] && s[i] <= '9' by {
            if i < s.len() - 1 {
                assert(s[i] == decimal(n / 10)[i]);
            }
        }
    }
}

/// A prefix length is a whole number up to 255 in decimal digits, with or without a plus sign;
/// a text with anything else in it, or with nothing, is none.
pub proof fn what_a_prefix_length_is(n: nat, s: Seq<char>, i: int)
    ensures
        n <= 255 ==> prefix_value(decimal(n)) == Some(n as u8),
        n <= 255 ==> prefix_value(seq!['+'] + decimal(n)) == Some(n as u8),
        n > 255 ==> prefix_value(decimal(n)) is None,
        s.len() == 0 ==> prefix_value(s) is None,
        0 <= i < s.len() && !('0' <= s[i] <= '9') && !(i == 0 && s[i] == '+') ==> prefix_value(
            s,
        ) is None,
{
    digits_spell_their_number(n);
    let digits = decimal(n);
    assert('0' <= digits[0] && digits[0] <= '9');
    assert((seq!['+'] + digits).skip(1) =~= digits);
    if 0 <= i < s.len() && !('0' <= s[i] <= '9') && !(i == 0 && s[i] == '+') {
        if s[0] == '+' {
            assert(s.skip(1)[i - 1] == s[i]);
        }
    }
}

/// A range with a prefix length behind a slash is the network of that prefix; one without a
/// slash is that one address; and one whose network is no address holds nothing.
pub proof fn what_lies_in_a_range(
    ip: IpAddress,
    network: IpAddress,
    text: Seq<char>,
    n: nat,
)
    requires
        n <= 255,
        forall|i: int| 0 <= i < text.len() ==> #[trigger] text[i] != '/',
    ensures
        in_range(ip, Some(network), pieces(text + seq!['/'] + decimal(n), '/')) == in_prefix(
            ip,
            network,
            n as u8,
        ),
        pieces(text + seq!['/'] + decimal(n), '/')[0] == text,
        pieces(text, '/') == seq![text],
        in_range(ip, Some(network), pieces(text, '/')) == in_prefix(
            ip,
            network,
            match ip {
                IpAddress::V4(_) => 32u8,
                IpAddress::V6(_) => 128u8,
            },
        ),
        !in_range(ip, None, pieces(text, '/')),
        !in_range(ip, None, pieces(text + seq!['/'] + decimal(n), '/')),
{
    let digits = decimal(n);
    digits_spell_their_number(n);
    what_a_prefix_length_is(n, text, 0);
    pieces_of_one(text, '/');
    pieces_of_one(digits, '/');
    pieces_of_two(text, digits, '/');
    assert(text + seq!['/'] + digits =~= text.push('/') + digits);
    let parts = pieces(text + seq!['/'] + digits, '/');
    assert(parts =~= seq![text, digits]);
}

/// A text stands in brackets.
pub open spec fn bracketed(s: Seq<char>) -> bool {
    s.len() > 0 && s[0] == '[' && s[s.len() - 1] == ']'
}

/// What an address text becomes, step by step: the canonical form of the trimmed text where
/// that is an address; otherwise of what stands in the brackets around it; otherwise of what
/// stands before its last colon, without brackets; and otherwise the trimmed text itself.
pub proof fn what_normalising_an_address_gives<F: Fn(&str) -> Option<String>>(
    ip_str: &str,
    canonical: &F,
    r: String,
    form: String,
    host: Seq<char>,
    port: Seq<char>,
)
    requires
        call_ensures(normalize_ip::<F>, (ip_str, canonical), r),
        is_settled(*canonical),
        forall|i: int| 0 <= i < port.len() ==> #[trigger] port[i] != ':',
    ensures
        ({
            let text = trimmed(ip_str@);
            let inner = strip(text, CharClass::Bracket);
            let front = strip(host, CharClass::Bracket);
            let whole_is_none = reads(*canonical, text, None);
            let inner_is_none = !bracketed(text) || reads(*canonical, inner, None);
            &&& reads(*canonical, text, Some(form)) ==> r@ == form@
            &&& whole_is_none && bracketed(text) && reads(*canonical, inner, Some(form)) ==> r@
                == form@
            &&& whole_is_none && inner_is_none && text == host + seq![':'] + port && reads(
                *canonical,
                front,
                Some(form),
            ) ==> r@ == form@
            &&& whole_is_none && inner_is_none && text == host + seq![':'] + port && reads(
                *canonical,
                front,
                None,
            ) ==> r@ == text
            &&& whole_is_none && inner_is_none && (forall|i: int|
                0 <= i < text.len() ==> #[trigger] text[i] != ':') ==> r@ == text
        }),
{
    let text = trimmed(ip_str@);
    the_last_position_is_the_last(text, ':');
    if text == host + seq![':'] + port {
        let k = last_index(text, ':');
        assert(text[host.len() as int] == ':');
        if k > host.len() {
            assert(text[k] == port[k - host.len() - 1]);
        }
        assert(k == host.len());
        assert(text.take(k) =~= host);
        assert(host_part(text) == strip(host, CharClass::Bracket));
    }
}

/// A prefix length comes back from decimal digits up to 255, with or without a plus sign.
pub proof fn what_reading_a_prefix_length_gives(s: &str, r: Option<u8>, n: nat, i: int)
    requires
        call_ensures(parse_prefix, (s,), r),
    ensures
        n <= 255 && s@ == decimal(n) ==> r == Some(n as u8),
        n <= 255 && s@ == seq!['+'] + decimal(n) ==> r == Some(n as u8),
        n > 255 && s@ == decimal(n) ==> r is None,
        s@.len() == 0 ==> r is None,
        0 <= i < s@.len() && !('0' <= s@[i] <= '9') && !(i == 0 && s@[i] == '+') ==> r is None,
{
    what_a_prefix_length_is(n, s@, i);
}

/// An address lies in a network exactly where the two agree in everything but the bits behind
/// the prefix.
pub proof fn what_asking_for_a_network_gives(a: u32, b: u32, c: u128, d: u128, n: u8, r: bool)
    ensures
        call_ensures(in_network, (IpAddress::V4(a), IpAddress::V4(b), n), r) ==> r == (n <= 32
            && agree_above(a as int, b as int, (32 - n) as nat)),
        call_ensures(in_network, (IpAddress::V6(c), IpAddress::V6(d), n), r) ==> r == (n <= 128
            && agree_above(c as int, d as int, (128 - n) as nat)),
        call_ensures(in_network, (IpAddress::V4(a), IpAddress::V6(d), n), r) ==> !r,
        call_ensures(in_network, (IpAddress::V6(c), IpAddress::V4(b), n), r) ==> !r,
{
    what_lies_in_a_network(a, b, c, d, n);
}

/// `parse` reads this text as `out`, and as nothing else.
pub open spec fn only_reads<F: Fn(&str) -> Option<IpAddress>>(
    parse: F,
    s: Seq<char>,
    out: Option<IpAddress>,
) -> bool {
    forall|text: &str, given: Option<IpAddress>|
        text@ == s && #[trigger] call_ensures(parse, (text,), given) ==> given == out
}

/// An address lies in a range exactly where both are read, the prefix length is one, and the
/// address lies in that network; a range without a slash is one address.
pub proof fn what_asking_for_a_range_gives<F: Fn(&str) -> Option<IpAddress>>(
    ip_str: &str,
    cidr: &str,
    parse: &F,
    r: bool,
    text: Seq<char>,
    n: nat,
    ip: Option<IpAddress>,
    network: Option<IpAddress>,
)
    requires
        call_ensures(ip_matches_cidr::<F>, (ip_str, cidr, parse), r),
        forall|i: int| 0 <= i < text.len() ==> #[trigger] text[i] != '/',
        n <= 255,
        only_reads(*parse, ip_str@, ip),
        only_reads(*parse, text, network),
    ensures
        ({
            let longest = match ip {
                Some(IpAddress::V4(_)) => 32u8,
                _ => 128u8,
            };
            &&& cidr@ == text + seq!['/'] + decimal(n) ==> r == (ip is Some && network is Some
                && in_prefix(ip->0, network->0, n as u8))
            &&& cidr@ == text ==> r == (ip is Some && network is Some && in_prefix(
                ip->0,
                network->0,
                longest,
            ))
        }),
{
    let some_ip = match ip {
        Some(a) => a,
        None => IpAddress::V4(0),
    };
    let some_network = match network {
        Some(a) => a,
        None => IpAddress::V4(0),
    };
    what_lies_in_a_range(some_ip, some_network, text, n);
    let read = choose|read: Option<IpAddress>|
        {
            &&& #[trigger] reads(*parse, ip_str@, read)
            &&& read is None ==> !r
            &&& read matches Some(a) ==> exists|subnet: Option<IpAddress>|
                {
                    &&& #[trigger] reads(*parse, pieces(cidr@, '/')[0], subnet)
                    &&& r == in_range(a, subnet, pieces(cidr@, '/'))
                }
        };
    assert(read == ip);
    if cidr@ == text + seq!['/'] + decimal(n) || cidr@ == text {
        assert(pieces(cidr@, '/')[0] == text);
        assert forall|subnet: Option<IpAddress>| #[trigger]
            reads(*parse, text, subnet) implies subnet == network by {}
    }
}

} // verus!
