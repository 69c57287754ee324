//! The rate limit: one token bucket for each client address.
//!
//! Tokens are counted in tenths, so that every route multiplier is a whole
//! number and the arithmetic is exact.

use vstd::hash_map::StringHashMap;
use vstd::prelude::*;
use crate::text::{begins, starts_with};

verus! {

/// The tokens of a full bucket on an ordinary route.
pub const BURST_TOKENS: i128 = 24;

/// The tokens that come back in a second on an ordinary route.
pub const TOKENS_PER_SECOND: i128 = 8;

/// One token, in tenths.
pub const TOKEN: i128 = 10;

/// The tokens of one client.
#[derive(Clone, Copy, Debug)]
pub struct TokenBucket {
    /// The tokens that are left, in tenths. Fewer than none where the clock was
    /// set back.
    pub tokens: i128,
    /// When the tokens were last counted, in seconds since the epoch.
    pub last_ts: u64,
}

// ---------------------------------------------------------------------------
// How tokens come and go
// ---------------------------------------------------------------------------

/// What a route scales its bucket by, in tenths. The first prefix that fits
/// decides.
pub open spec fn multiplier(path: Seq<char>) -> int {
    if begins(path, "/login"@) {
        4
    } else if begins(path, "/auth"@) {
        4
    } else if begins(path, "/api/"@) {
        7
    } else if begins(path, "/assets/"@) {
        20
    } else {
        10
    }
}

/// A full bucket on a route, in tenths of a token.
pub open spec fn burst(path: Seq<char>) -> int {
    BURST_TOKENS * multiplier(path)
}

/// What comes back in a second on a route, in tenths of a token.
pub open spec fn refill_rate(path: Seq<char>) -> int {
    TOKENS_PER_SECOND * multiplier(path)
}

/// The tokens in a bucket at `now`, in tenths: what was left and what has come
/// back since, but no more than a full bucket (nor less than the counter holds).
pub open spec fn refilled(bucket: TokenBucket, path: Seq<char>, now: u64) -> int {
    let grown = bucket.tokens + (now - bucket.last_ts) * refill_rate(path);
    if grown > burst(path) {
        burst(path)
    } else if grown < i128::MIN {
        i128::MIN as int
    } else {
        grown
    }
}

/// There is a token to take at `now`.
pub open spec fn has_token(bucket: TokenBucket, path: Seq<char>, now: u64) -> bool {
    refilled(bucket, path, now) >= TOKEN
}

/// The bucket after a token was asked for at `now`.
pub open spec fn after_request(bucket: TokenBucket, path: Seq<char>, now: u64) -> TokenBucket {
    TokenBucket {
        tokens: (if has_token(bucket, path, now) {
            refilled(bucket, path, now) - TOKEN
        } else {
            refilled(bucket, path, now)
        }) as i128,
        last_ts: now,
    }
}

/// The bucket of a client; one that was not seen before starts with a full one.
pub open spec fn bucket_of(
    buckets: Map<Seq<char>, TokenBucket>,
    ip: Seq<char>,
    path: Seq<char>,
    now: u64,
) -> TokenBucket {
    if buckets.contains_key(ip) {
        buckets[ip]
    } else {
        TokenBucket { tokens: burst(path) as i128, last_ts: now }
    }
}

/// The client is within its rate at `now`.
pub open spec fn within_rate(
    buckets: Map<Seq<char>, TokenBucket>,
    ip: Seq<char>,
    path: Seq<char>,
    now: u64,
) -> bool {
    has_token(bucket_of(buckets, ip, path, now), path, now)
}

/// The buckets after a client asked for a token at `now`.
pub open spec fn buckets_after(
    buckets: Map<Seq<char>, TokenBucket>,
    ip: Seq<char>,
    path: Seq<char>,
    now: u64,
) -> Map<Seq<char>, TokenBucket> {
    buckets.insert(ip, after_request(bucket_of(buckets, ip, path, now), path, now))
}

/// No bucket holds more than the largest one can.
pub open spec fn bounded(buckets: Map<Seq<char>, TokenBucket>) -> bool {
    forall|ip: Seq<char>| #[trigger] buckets.contains_key(ip) ==> buckets[ip].tokens <= 480
}

// ---------------------------------------------------------------------------
// The limiter
// ---------------------------------------------------------------------------

/// What a route scales its bucket by, in tenths.
pub fn route_multiplier(path: &str) -> (r: i128)
    ensures
        r == multiplier(path@),
        4 <= r <= 20,
{
    if starts_with(path, "/login") {
        4
    } else if starts_with(path, "/auth") {
        4
    } else if starts_with(path, "/api/") {
        7
    } else if starts_with(path, "/assets/") {
        20
    } else {
        10
    }
}

/// The buckets of all clients that were seen.
///
/// Buckets are kept by address alone, so a client that moves between routes has
/// one bucket whose size changes underneath it. They are never swept.
pub struct RateLimiter {
    buckets: StringHashMap<TokenBucket>,
}

impl RateLimiter {
    /// The buckets, by address.
    pub closed spec fn view(&self) -> Map<Seq<char>, TokenBucket> {
        self.buckets@
    }

    /// No bucket holds more than the largest one can.
    pub open spec fn wf(&self) -> bool {
        bounded(self@)
    }

    /// No client was seen yet.
    pub fn new() -> (r: RateLimiter)
        ensures
            r.wf(),
            r@ == Map::<Seq<char>, TokenBucket>::empty(),
    {
        RateLimiter { buckets: StringHashMap::new() }
    }

    /// Takes a token from the bucket of a client, where there is one.
    pub fn consume_token(&mut self, ip: &str, path: &str, now: u64) -> (r: bool)
        requires
            old(self).wf(),
        ensures
            r == within_rate(old(self)@, ip@, path@, now),
            final(self)@ == buckets_after(old(self)@, ip@, path@, now),
            final(self).wf(),
    {
        let scale: i128 = route_multiplier(path);
        let full: i128 = BURST_TOKENS * scale;
        let rate: i128 = TOKENS_PER_SECOND * scale;
        let bucket = match self.buckets.get(ip) {
            Some(bucket) => *bucket,
            None => TokenBucket { tokens: full, last_ts: now },
        };
        assert(bucket == bucket_of(self@, ip@, path@, now));
        let elapsed: i128 = now as i128 - bucket.last_ts as i128;
        assert(-0x1_0000_0000_0000_0000 * 160 <= elapsed * rate <= 0x1_0000_0000_0000_0000 * 160)
            by (nonlinear_arith)
            requires
                -0x1_0000_0000_0000_0000 <= elapsed <= 0x1_0000_0000_0000_0000,
                0 <= rate <= 160,
        ;
        let gained: i128 = elapsed * rate;
        let tokens: i128 = if gained < 0 && bucket.tokens < i128::MIN - gained {
            i128::MIN
        } else if bucket.tokens + gained > full {
            full
        } else {
            bucket.tokens + gained
        };
        assert(tokens == refilled(bucket, path@, now));
        let granted = tokens >= TOKEN;
        let left: i128 = if granted {
            tokens - TOKEN
        } else {
            tokens
        };
        self.buckets.insert(ip.to_owned(), TokenBucket { tokens: left, last_ts: now });
        granted
    }
}

// ---------------------------------------------------------------------------
// Laws
// ---------------------------------------------------------------------------

/// The buckets after a client asked `n` times at one moment.
pub open spec fn buckets_after_all(
    buckets: Map<Seq<char>, TokenBucket>,
    ip: Seq<char>,
    path: Seq<char>,
    now: u64,
    n: nat,
) -> Map<Seq<char>, TokenBucket>
    decreases n,
{
    if n == 0 {
        buckets
    } else {
        buckets_after(buckets_after_all(buckets, ip, path, now, (n - 1) as nat), ip, path, now)
    }
}

/// In no time no tokens come back.
proof fn nothing_comes_back_at_once(rate: int, now: u64)
    ensures
        (now - now) * rate == 0,
{
    assert((now - now) * rate == 0) by (nonlinear_arith);
}

/// What is left in the bucket of a new client after `n` requests at one moment.
proof fn left_of_a_burst(
    buckets: Map<Seq<char>, TokenBucket>,
    ip: Seq<char>,
    path: Seq<char>,
    now: u64,
    n: nat,
)
    requires
        !buckets.contains_key(ip),
    ensures
        n > 0 ==> buckets_after_all(buckets, ip, path, now, n).contains_key(ip),
        bucket_of(buckets_after_all(buckets, ip, path, now, n), ip, path, now) == (TokenBucket {
            tokens: (burst(path) - TOKEN * (if n < burst(path) / 10 {
                n as int
            } else {
                burst(path) / 10
            })) as i128,
            last_ts: now,
        }),
    decreases n,
{
    if n > 0 {
        left_of_a_burst(buckets, ip, path, now, (n - 1) as nat);
        nothing_comes_back_at_once(refill_rate(path), now);
    }
}

/// A client that was not seen before gets exactly the burst of its route at one
/// moment: 24 requests are within the rate on an ordinary route, 9 on the login
/// and authentication routes, 16 on the interface routes and 48 on the assets,
/// and the next one is not.
pub proof fn a_new_client_gets_one_burst(
    buckets: Map<Seq<char>, TokenBucket>,
    ip: Seq<char>,
    path: Seq<char>,
    now: u64,
    n: nat,
)
    requires
        !buckets.contains_key(ip),
    ensures
        within_rate(buckets_after_all(buckets, ip, path, now, n), ip, path, now) == (n < burst(path)
            / 10),
        burst(path) / 10 == (if multiplier(path) == 10 {
            24int
        } else if multiplier(path) == 4 {
            9
        } else if multiplier(path) == 7 {
            16
        } else {
            48
        }),
{
    left_of_a_burst(buckets, ip, path, now, n);
    nothing_comes_back_at_once(refill_rate(path), now);
}

/// One request for a token.
pub struct Ask {
    pub ip: Seq<char>,
    pub path: Seq<char>,
    pub now: u64,
}

/// The buckets after some requests, one after the other.
pub open spec fn buckets_after_asks(
    buckets: Map<Seq<char>, TokenBucket>,
    asks: Seq<Ask>,
) -> Map<Seq<char>, TokenBucket>
    decreases asks.len(),
{
    if asks.len() == 0 {
        buckets
    } else {
        let ask = asks.last();
        buckets_after(buckets_after_asks(buckets, asks.drop_last()), ask.ip, ask.path, ask.now)
    }
}

/// How many of some requests one client made.
pub open spec fn asks_of(asks: Seq<Ask>, ip: Seq<char>) -> nat
    decreases asks.len(),
{
    if asks.len() == 0 {
        0
    } else {
        asks_of(asks.drop_last(), ip) + (if asks.last().ip == ip {
            1nat
        } else {
            0
        })
    }
}

/// The whole tokens that a client finds at `now`.
pub open spec fn tokens_found(
    buckets: Map<Seq<char>, TokenBucket>,
    ip: Seq<char>,
    path: Seq<char>,
    now: u64,
) -> int {
    let tenths = refilled(bucket_of(buckets, ip, path, now), path, now);
    if tenths < 0 {
        0
    } else {
        tenths / 10
    }
}

/// What a client finds at one moment after some requests, of which its own were
/// made at that moment and on that route.
proof fn left_after_asks(
    buckets: Map<Seq<char>, TokenBucket>,
    asks: Seq<Ask>,
    ip: Seq<char>,
    path: Seq<char>,
    now: u64,
)
    requires
        forall|i: int|
            0 <= i < asks.len() && (#[trigger] asks[i]).ip == ip ==> asks[i].path == path
                && asks[i].now == now,
    ensures
        ({
            let first = refilled(bucket_of(buckets, ip, path, now), path, now);
            let found = tokens_found(buckets, ip, path, now);
            let asked = asks_of(asks, ip) as int;
            refilled(bucket_of(buckets_after_asks(buckets, asks), ip, path, now), path, now)
                == first - TOKEN * (if asked < found {
                asked
            } else {
                found
            })
        }),
    decreases asks.len(),
{
    if asks.len() > 0 {
        left_after_asks(buckets, asks.drop_last(), ip, path, now);
        nothing_comes_back_at_once(refill_rate(path), now);
    }
}

/// A client gets exactly the whole tokens that it finds at one moment, however
/// many other clients ask before, after and between its own requests.
pub proof fn a_client_gets_the_tokens_it_finds(
    buckets: Map<Seq<char>, TokenBucket>,
    asks: Seq<Ask>,
    ip: Seq<char>,
    path: Seq<char>,
    now: u64,
)
    requires
        forall|i: int|
            0 <= i < asks.len() && (#[trigger] asks[i]).ip == ip ==> asks[i].path == path
                && asks[i].now == now,
    ensures
        within_rate(buckets_after_asks(buckets, asks), ip, path, now) == (asks_of(asks, ip)
            < tokens_found(buckets, ip, path, now)),
{
    left_after_asks(buckets, asks, ip, path, now);
}

/// A client that comes back some seconds after its bucket ran out finds what has
/// come back since, and no more than a full bucket, whatever other clients asked
/// for meanwhile.
pub proof fn a_returning_client_finds_what_came_back(
    buckets: Map<Seq<char>, TokenBucket>,
    meanwhile: Seq<Ask>,
    ip: Seq<char>,
    path: Seq<char>,
    now: u64,
)
    requires
        buckets.contains_key(ip),
        0 <= buckets[ip].tokens < TOKEN,
        buckets[ip].last_ts <= now,
        forall|i: int| 0 <= i < meanwhile.len() ==> (#[trigger] meanwhile[i]).ip != ip,
    ensures
        ({
            let back = buckets[ip].tokens + (now - buckets[ip].last_ts) * refill_rate(path);
            tokens_found(buckets_after_asks(buckets, meanwhile), ip, path, now) == (if back > burst(
                path,
            ) {
                burst(path) / 10
            } else {
                back / 10
            })
        }),
    decreases meanwhile.len(),
{
    if meanwhile.len() > 0 {
        a_returning_client_finds_what_came_back(buckets, meanwhile.drop_last(), ip, path, now);
        left_after_asks(buckets, meanwhile, ip, path, now);
        left_after_asks(buckets, meanwhile.drop_last(), ip, path, now);
        nobody_asked(meanwhile, ip);
        nobody_asked(meanwhile.drop_last(), ip);
    } else {
        let rate = refill_rate(path);
        let passed = now - buckets[ip].last_ts;
        assert(passed * rate >= 0) by (nonlinear_arith)
            requires
                passed >= 0,
                rate >= 0,
        ;
    }
}

/// A client that is not among those who asked made no request.
proof fn nobody_asked(asks: Seq<Ask>, ip: Seq<char>)
    requires
        forall|i: int| 0 <= i < asks.len() ==> (#[trigger] asks[i]).ip != ip,
    ensures
        asks_of(asks, ip) == 0,
    decreases asks.len(),
{
    if asks.len() > 0 {
        nobody_asked(asks.drop_last(), ip);
    }
}

/// Clients have buckets of their own: what one asks for changes nothing for
/// another.
pub proof fn clients_do_not_share_tokens(
    buckets: Map<Seq<char>, TokenBucket>,
    ip: Seq<char>,
    path: Seq<char>,
    now: u64,
    other: Seq<char>,
    other_path: Seq<char>,
    later: u64,
)
    requires
        other != ip,
    ensures
        within_rate(buckets_after(buckets, ip, path, now), other, other_path, later) == within_rate(
            buckets,
            other,
            other_path,
            later,
        ),
{
}

/// A bucket never holds more than a full one, and what a request finds in it is
/// what it leaves, less the token that it takes.
pub proof fn a_bucket_is_never_overfull(bucket: TokenBucket, path: Seq<char>, now: u64)
    ensures
        refilled(bucket, path, now) <= burst(path),
        after_request(bucket, path, now).tokens == refilled(bucket, path, now) - (if has_token(
            bucket,
            path,
            now,
        ) {
            TOKEN as int
        } else {
            0
        }),
        after_request(bucket, path, now).tokens <= burst(path),
{
}

/// Three seconds without a request fill a bucket again, on every route.
pub proof fn three_seconds_fill_a_bucket(bucket: TokenBucket, path: Seq<char>, now: u64)
    requires
        bucket.tokens >= 0,
        bucket.last_ts + 3 <= now,
    ensures
        refilled(bucket, path, now) == burst(path),
{
    let m = multiplier(path);
    assert((now - bucket.last_ts) * (8 * m) >= 24 * m) by (nonlinear_arith)
        requires
            now - bucket.last_ts >= 3,
            m >= 0,
    ;
}

/// Tokens come back continuously: a bucket that is refilled once after some
/// seconds holds what it holds when it is looked at in between, on one route.
pub proof fn refilling_is_continuous(
    bucket: TokenBucket,
    path: Seq<char>,
    between: u64,
    now: u64,
)
    requires
        bucket.tokens >= 0,
        bucket.last_ts <= between <= now,
    ensures
        refilled(
            TokenBucket { tokens: refilled(bucket, path, between) as i128, last_ts: between },
            path,
            now,
        ) == refilled(bucket, path, now),
{
    let rate = refill_rate(path);
    let first = between - bucket.last_ts;
    let second = now - between;
    assert((now - bucket.last_ts) * rate == first * rate + second * rate) by (nonlinear_arith)
        requires
            now - bucket.last_ts == first + second,
    ;
    assert(first * rate >= 0 && second * rate >= 0) by (nonlinear_arith)
        requires
            first >= 0,
            second >= 0,
            rate >= 0,
    ;
}

} // verus!
