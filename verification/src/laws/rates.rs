//! Laws of the rate limit.

use vstd::prelude::*;
use crate::limits::{
    after_request, bucket_of, buckets_after, burst, has_token, multiplier, refill_rate, refilled,
    within_rate, TokenBucket,
};
use crate::text::begins;
use super::texts::holding_is_having_a_part;

verus! {

/// Every path under one of the four prefixes has the multiplier of that prefix, in tenths,
/// whatever stands behind it, and every other path has one; a bucket holds 24 tokens and
/// gets 8 back in a second, times the multiplier, all in tenths.
pub proof fn how_large_a_bucket_is(path: Seq<char>, rest: Seq<char>)
    ensures
        multiplier("/login"@ + rest) == 4,
        multiplier("/auth"@ + rest) == 4,
        multiplier("/api/"@ + rest) == 7,
        multiplier("/assets/"@ + rest) == 20,
        (forall|behind: Seq<char>|
            {
                &&& path != #[trigger] ("/login"@ + behind)
                &&& path != "/auth"@ + behind
                &&& path != "/api/"@ + behind
                &&& path != "/assets/"@ + behind
            }) ==> multiplier(path) == 10,
        burst(path) == 24 * multiplier(path),
        refill_rate(path) == 8 * multiplier(path),
{
    reveal_strlit("/login");
    reveal_strlit("/auth");
    reveal_strlit("/api/");
    reveal_strlit("/assets/");
    holding_is_having_a_part("/login"@ + rest, "/login"@);
    holding_is_having_a_part("/auth"@ + rest, "/auth"@);
    holding_is_having_a_part("/api/"@ + rest, "/api/"@);
    holding_is_having_a_part("/assets/"@ + rest, "/assets/"@);
    starts_apart("/auth"@ + rest, "/login"@, 1);
    starts_apart("/api/"@ + rest, "/login"@, 1);
    starts_apart("/api/"@ + rest, "/auth"@, 2);
    starts_apart("/assets/"@ + rest, "/login"@, 1);
    starts_apart("/assets/"@ + rest, "/auth"@, 2);
    starts_apart("/assets/"@ + rest, "/api/"@, 2);
    if forall|behind: Seq<char>|
        {
            &&& path != #[trigger] ("/login"@ + behind)
            &&& path != "/auth"@ + behind
            &&& path != "/api/"@ + behind
            &&& path != "/assets/"@ + behind
        } {
        holding_is_having_a_part(path, "/login"@);
        holding_is_having_a_part(path, "/auth"@);
        holding_is_having_a_part(path, "/api/"@);
        holding_is_having_a_part(path, "/assets/"@);
        if begins(path, "/auth"@) {
            let behind = choose|behind: Seq<char>| path == #[trigger] ("/auth"@ + behind);
            assert(path != "/login"@ + behind);
        }
        if begins(path, "/api/"@) {
            let behind = choose|behind: Seq<char>| path == #[trigger] ("/api/"@ + behind);
            assert(path != "/login"@ + behind);
        }
        if begins(path, "/assets/"@) {
            let behind = choose|behind: Seq<char>| path == #[trigger] ("/assets/"@ + behind);
            assert(path != "/login"@ + behind);
        }
    }
}

/// A text does not begin with a part from which it differs.
proof fn starts_apart(s: Seq<char>, part: Seq<char>, i: int)
    requires
        0 <= i < part.len(),
        i < s.len(),
        s[i] != part[i],
    ensures
        !begins(s, part),
{
    if begins(s, part) {
        assert(s.subrange(0, part.len() as int)[i] == part[i]);
    }
}

/// What a request finds in a bucket: what was left, and 8 tokens times the multiplier for
/// each second since then (fewer where the clock went back), but no more than a full
/// bucket. It is granted exactly where that is one token or more, and takes one then.
pub proof fn what_a_request_finds_and_leaves(bucket: TokenBucket, path: Seq<char>, now: u64)
    ensures
        ({
            let m = multiplier(path);
            let grown = bucket.tokens + (now - bucket.last_ts) * (8 * m);
            let found = refilled(bucket, path, now);
            &&& grown >= 24 * m ==> found == 24 * m
            &&& i128::MIN <= grown <= 24 * m ==> found == grown
            &&& grown < i128::MIN ==> found == i128::MIN
            &&& has_token(bucket, path, now) == (found >= 10)
            &&& found >= 10 ==> after_request(bucket, path, now).tokens == found - 10
            &&& found < 10 ==> after_request(bucket, path, now).tokens == found
            &&& after_request(bucket, path, now).last_ts == now
        }),
{
}

/// A client that was seen before has the bucket that it left, and one that was not has a
/// full one and is granted; a request changes the bucket of its own client, and no other.
pub proof fn every_client_has_its_bucket(
    buckets: Map<Seq<char>, TokenBucket>,
    ip: Seq<char>,
    path: Seq<char>,
    now: u64,
    other: Seq<char>,
)
    ensures
        buckets.contains_key(ip) ==> {
            &&& within_rate(buckets, ip, path, now) == has_token(buckets[ip], path, now)
            &&& buckets_after(buckets, ip, path, now)[ip] == after_request(buckets[ip], path, now)
        },
        !buckets.contains_key(ip) ==> {
            let full = TokenBucket { tokens: (24 * multiplier(path)) as i128, last_ts: now };
            &&& within_rate(buckets, ip, path, now)
            &&& bucket_of(buckets, ip, path, now) == full
            &&& buckets_after(buckets, ip, path, now)[ip] == after_request(full, path, now)
        },
        buckets_after(buckets, ip, path, now).contains_key(ip),
        other != ip ==> {
            &&& buckets_after(buckets, ip, path, now).contains_key(other) == buckets.contains_key(
                other,
            )
            &&& buckets.contains_key(other) ==> buckets_after(buckets, ip, path, now)[other]
                == buckets[other]
        },
{
    assert((now - now) * (8 * multiplier(path)) == 0) by (nonlinear_arith);
}

} // verus!
