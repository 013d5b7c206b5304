//! Load bounds of an acceptor: a cap on concurrent sessions and a token bucket per client
//! address.

use vstd::prelude::*;

use crate::config::LimitsConfig;
use crate::time::{Span, NANOS_PER_SEC};

verus! {

/// A slot that was granted. Whoever holds it gives it back with `SessionCap::release`.
#[derive(Debug)]
pub struct SessionGuard {
    slot: (),
}

/// Cap on concurrent sessions; a cap of 0 is no cap, but sessions are still counted.
#[derive(Debug)]
pub struct SessionCap {
    in_flight: u64,
    cap: u64,
}

/// A slot is free where `held` are taken; a limit of 0 is no limit.
pub open spec fn has_slot(held: nat, limit: nat) -> bool {
    limit == 0 || held < limit
}

impl SessionCap {
    /// No more slots are taken than there are.
    #[verifier::type_invariant]
    spec fn well_formed(self) -> bool {
        self.cap == 0 || self.in_flight <= self.cap
    }

    /// Slots handed out and not given back.
    pub closed spec fn held(&self) -> u64 {
        self.in_flight
    }

    pub closed spec fn limit(&self) -> u64 {
        self.cap
    }

    pub fn new(cap: u64) -> (c: Self)
        ensures
            c.held() == 0,
            c.limit() == cap,
    {
        SessionCap { in_flight: 0, cap }
    }

    /// Hands out a slot, unless the cap is reached.
    pub fn try_acquire(&mut self) -> (g: Option<SessionGuard>)
        requires
            old(self).limit() == 0 ==> old(self).held() < u64::MAX,
        ensures
            g is Some <==> has_slot(old(self).held() as nat, old(self).limit() as nat),
            final(self).limit() == 0 || final(self).held() <= final(self).limit(),
            final(self).limit() == old(self).limit(),
            final(self).held() == old(self).held() + (if g is Some {
                1int
            } else {
                0
            }),
    {
        proof {
            use_type_invariant(&*self);
        }
        if self.cap != 0 && self.in_flight >= self.cap {
            return None;
        }
        self.in_flight = self.in_flight + 1;
        Some(SessionGuard { slot: () })
    }

    /// Takes a slot back.
    pub fn release(&mut self, guard: SessionGuard)
        requires
            old(self).held() > 0,
        ensures
            final(self).held() == old(self).held() - 1,
            final(self).limit() == old(self).limit(),
    {
        proof {
            use_type_invariant(&*self);
        }
        let SessionGuard { slot: _ } = guard;
        self.in_flight = self.in_flight - 1;
    }

    /// Slots handed out and not given back.
    pub fn current(&self) -> (n: u64)
        ensures
            n == self.held(),
            self.limit() == 0 || n <= self.limit(),
    {
        proof {
            use_type_invariant(self);
        }
        self.in_flight
    }
}

/// A client address.
#[derive(Clone, Copy, Debug, PartialEq, Eq, Structural)]
pub enum ClientIp {
    V4(u32),
    V6(u128),
}

/// One token, in the unit that buckets are kept in.
pub const TOKEN: u128 = 1_000_000_000;

/// What one address has left. `tokens` is in billionths of a token, so that a refill of `r` tokens
/// per second adds exactly `r` of them per nanosecond.
#[derive(Clone, Copy, Debug, PartialEq, Eq, Structural)]
pub struct Bucket {
    pub ip: ClientIp,
    pub tokens: u128,
    /// When the bucket was last refilled, in nanoseconds of a clock that never goes back.
    pub last_refill: u64,
    /// When the address was last seen, by the same clock.
    pub last_touch: u64,
}

/// Time from `then` to `now`; none where `then` is later.
pub open spec fn since(now: u64, then: u64) -> nat {
    if now >= then {
        (now - then) as nat
    } else {
        0
    }
}

/// The bucket was touched less than `ttl` ago.
pub open spec fn is_fresh(b: Bucket, now: u64, ttl: Span) -> bool {
    since(now, b.last_touch) < ttl.nanos
}

/// The buckets that were touched less than `ttl` ago, in order.
pub open spec fn fresh_buckets(bs: Seq<Bucket>, now: u64, ttl: Span) -> Seq<Bucket>
    decreases bs.len(),
{
    if bs.len() == 0 {
        seq![]
    } else if is_fresh(bs.last(), now, ttl) {
        fresh_buckets(bs.drop_last(), now, ttl).push(bs.last())
    } else {
        fresh_buckets(bs.drop_last(), now, ttl)
    }
}

/// Some bucket belongs to `ip`.
pub open spec fn tracks(bs: Seq<Bucket>, ip: ClientIp) -> bool {
    exists|i: int| 0 <= i < bs.len() && (#[trigger] bs[i]).ip == ip
}

/// No bucket has a whole token.
pub open spec fn all_throttled(bs: Seq<Bucket>) -> bool {
    forall|i: int| 0 <= i < bs.len() ==> (#[trigger] bs[i]).tokens < TOKEN
}

/// `a` goes before `b`: it is fuller, or as full and not seen for longer.
pub open spec fn goes_before(a: Bucket, b: Bucket) -> bool {
    a.tokens > b.tokens || (a.tokens == b.tokens && a.last_touch < b.last_touch)
}

/// The place of the bucket to give up: the first one that no other goes before.
pub open spec fn victim(bs: Seq<Bucket>) -> int
    decreases bs.len(),
{
    if bs.len() <= 1 {
        0
    } else {
        let k = victim(bs.drop_last());
        if goes_before(bs.last(), bs[k]) {
            bs.len() - 1
        } else {
            k
        }
    }
}

/// The place of the bucket of `ip`, or the number of buckets.
pub open spec fn bucket_of(bs: Seq<Bucket>, ip: ClientIp) -> int
    decreases bs.len(),
{
    if bs.len() == 0 {
        0
    } else if bs[0].ip == ip {
        0
    } else {
        1 + bucket_of(bs.skip(1), ip)
    }
}

/// A bucket that has just been filled.
pub open spec fn full_bucket(ip: ClientIp, capacity: u128, now: u64) -> Bucket {
    Bucket { ip, tokens: capacity, last_refill: now, last_touch: now }
}

/// What a bucket holds at `now`, before anything is taken.
pub open spec fn refilled(b: Bucket, now: u64, refill_per_sec: u32, capacity: u128) -> nat {
    let t = b.tokens + since(now, b.last_refill) * refill_per_sec;
    if t <= capacity {
        t as nat
    } else {
        capacity as nat
    }
}

/// A token can be taken from the bucket at `now`.
pub open spec fn grants(b: Bucket, now: u64, refill_per_sec: u32, capacity: u128) -> bool {
    refilled(b, now, refill_per_sec, capacity) >= TOKEN
}

/// The bucket after an attempt to take a token at `now`.
pub open spec fn drawn(b: Bucket, now: u64, refill_per_sec: u32, capacity: u128) -> Bucket {
    let t = refilled(b, now, refill_per_sec, capacity);
    Bucket {
        ip: b.ip,
        tokens: (if t >= TOKEN {
            (t - TOKEN) as u128
        } else {
            t as u128
        }),
        last_refill: now,
        last_touch: now,
    }
}

/// No address has two buckets, and none holds more than its capacity.
pub open spec fn buckets_ok(bs: Seq<Bucket>, capacity: u128) -> bool {
    &&& forall|i: int, j: int|
        0 <= i < j < bs.len() ==> (#[trigger] bs[i]).ip != (#[trigger] bs[j]).ip
    &&& forall|i: int| 0 <= i < bs.len() ==> (#[trigger] bs[i]).tokens <= capacity
}

/// How often buckets were dropped and addresses refused. The counts start over after 2^64.
#[derive(Clone, Copy, Debug, PartialEq, Eq, Structural)]
pub struct LimiterStats {
    pub idle_evictions: u64,
    pub lru_evictions: u64,
    pub cap_refused: u64,
}

/// Accept rate limit per address, with bounded memory.
#[derive(Debug)]
pub struct RateLimiter {
    buckets: Vec<Bucket>,
    stats: LimiterStats,
    capacity: u128,
    refill_per_sec: u32,
    idle_ttl: Span,
    max_tracked: usize,
}

/// Everything that an attempt to take a token depends on and changes.
pub struct LimiterState {
    pub buckets: Seq<Bucket>,
    pub stats: LimiterStats,
}

/// The fixed settings of a limiter.
#[derive(Clone, Copy, Debug, PartialEq, Eq, Structural)]
pub struct LimiterSettings {
    /// Fullest that a bucket gets, in billionths of a token.
    pub capacity: u128,
    /// Tokens per second; 0 switches the limiter off.
    pub refill_per_sec: u32,
    pub idle_ttl: Span,
    /// Most addresses that are tracked; 0 is no bound.
    pub max_tracked: usize,
}

/// The buckets and counts after the idle buckets were dropped.
pub open spec fn without_idle(s: LimiterState, cfg: LimiterSettings, now: u64) -> LimiterState {
    let bs = fresh_buckets(s.buckets, now, cfg.idle_ttl);
    LimiterState {
        buckets: bs,
        stats: LimiterStats {
            idle_evictions: s.stats.idle_evictions.wrapping_add(
                (s.buckets.len() - bs.len()) as u64,
            ),
            ..s.stats
        },
    }
}

/// There is no room for the address.
pub open spec fn is_crowded(s: LimiterState, cfg: LimiterSettings, ip: ClientIp) -> bool {
    cfg.max_tracked > 0 && s.buckets.len() >= cfg.max_tracked && !tracks(s.buckets, ip)
}

/// The buckets and counts after one bucket was given up.
pub open spec fn without_victim(s: LimiterState) -> LimiterState {
    LimiterState {
        buckets: s.buckets.remove(victim(s.buckets)),
        stats: LimiterStats { lru_evictions: s.stats.lru_evictions.wrapping_add(1), ..s.stats },
    }
}

/// What an attempt by `ip` at `now` leaves behind, and whether it is granted. Idle buckets go
/// first. Where there is no room for a new address, the bucket that is nearest to full makes
/// room, unless every bucket is out of tokens: then the address is refused. Otherwise the
/// address's bucket, full if it is new, is refilled for the time that passed and gives a token
/// if it has one.
pub open spec fn attempt(
    s: LimiterState,
    cfg: LimiterSettings,
    now: u64,
    ip: ClientIp,
) -> (LimiterState, bool) {
    if cfg.refill_per_sec == 0 {
        (s, true)
    } else {
        let a = without_idle(s, cfg, now);
        if is_crowded(a, cfg, ip) && all_throttled(a.buckets) {
            (
                LimiterState {
                    buckets: a.buckets,
                    stats: LimiterStats {
                        cap_refused: a.stats.cap_refused.wrapping_add(1),
                        ..a.stats
                    },
                },
                false,
            )
        } else {
            let b = if is_crowded(a, cfg, ip) {
                without_victim(a)
            } else {
                a
            };
            let i = bucket_of(b.buckets, ip);
            let bs = if i < b.buckets.len() {
                b.buckets
            } else {
                b.buckets.push(full_bucket(ip, cfg.capacity, now))
            };
            (
                LimiterState {
                    buckets: bs.update(i, drawn(bs[i], now, cfg.refill_per_sec, cfg.capacity)),
                    stats: b.stats,
                },
                grants(bs[i], now, cfg.refill_per_sec, cfg.capacity),
            )
        }
    }
}

impl RateLimiter {
    pub closed spec fn settings(&self) -> LimiterSettings {
        LimiterSettings {
            capacity: self.capacity,
            refill_per_sec: self.refill_per_sec,
            idle_ttl: self.idle_ttl,
            max_tracked: self.max_tracked,
        }
    }

    pub closed spec fn state(&self) -> LimiterState {
        LimiterState { buckets: self.buckets@, stats: self.stats }
    }

    /// No address has two buckets, none holds more than the capacity, and a full bucket has a
    /// token.
    #[verifier::type_invariant]
    pub closed spec fn well_formed(self) -> bool {
        &&& buckets_ok(self.buckets@, self.capacity)
        &&& TOKEN <= self.capacity <= u32::MAX * TOKEN
    }

    /// A limiter without a bound on tracked addresses and with an idle time of five minutes.
    pub fn new(refill_per_sec: u32, burst: u32) -> (l: Self)
        ensures
            l.settings() == limiter_settings(refill_per_sec, burst, 0, 300),
            l.state() == empty_limiter(),
    {
        Self::with_limits(refill_per_sec, burst, 0, 300)
    }

    /// A limiter with the given bounds; a burst of 0 counts as 1.
    pub fn with_limits(
        refill_per_sec: u32,
        burst: u32,
        max_tracked: usize,
        idle_ttl_secs: u64,
    ) -> (l: Self)
        ensures
            l.settings() == limiter_settings(refill_per_sec, burst, max_tracked, idle_ttl_secs),
            l.state() == empty_limiter(),
    {
        let burst: u32 = if burst == 0 {
            1
        } else {
            burst
        };
        let l = RateLimiter {
            buckets: Vec::new(),
            stats: LimiterStats { idle_evictions: 0, lru_evictions: 0, cap_refused: 0 },
            capacity: burst as u128 * TOKEN,
            refill_per_sec,
            idle_ttl: Span::from_secs(idle_ttl_secs),
            max_tracked,
        };
        proof {
            assert(l.buckets@ =~= seq![]);
        }
        l
    }

    /// Drops the buckets that were idle for `idle_ttl`.
    fn evict_idle_buckets(buckets: Vec<Bucket>, now: u64, ttl: Span) -> (kept: Vec<Bucket>)
        ensures
            kept@ == fresh_buckets(buckets@, now, ttl),
            kept@.len() <= buckets@.len(),
    {
        let mut kept: Vec<Bucket> = Vec::new();
        let mut i: usize = 0;
        proof {
            assert(buckets@.take(0) =~= seq![]);
        }
        while i < buckets.len()
            invariant
                i <= buckets@.len(),
                kept@.len() <= i,
                kept@ == fresh_buckets(buckets@.take(i as int), now, ttl),
            decreases buckets.len() - i,
        {
            let b = buckets[i];
            proof {
                assert(buckets@.take(i + 1).drop_last() =~= buckets@.take(i as int));
                assert(buckets@.take(i + 1).last() == b);
            }
            let age: u64 = now.saturating_sub(b.last_touch);
            if (age as u128) < ttl.nanos {
                kept.push(b);
            }
            i = i + 1;
        }
        proof {
            assert(buckets@.take(buckets@.len() as int) =~= buckets@);
        }
        kept
    }

    fn find(buckets: &Vec<Bucket>, ip: ClientIp) -> (i: usize)
        ensures
            i == bucket_of(buckets@, ip),
            i <= buckets@.len(),
            i < buckets@.len() <==> tracks(buckets@, ip),
            i < buckets@.len() ==> buckets@[i as int].ip == ip,
    {
        let mut i: usize = 0;
        while i < buckets.len()
            invariant
                i <= buckets@.len(),
                forall|j: int| 0 <= j < i ==> (#[trigger] buckets@[j]).ip != ip,
            decreases buckets.len() - i,
        {
            if buckets[i].ip == ip {
                proof {
                    lemma_bucket_of(buckets@, ip, i as int);
                }
                return i;
            }
            i = i + 1;
        }
        proof {
            lemma_bucket_of(buckets@, ip, i as int);
        }
        i
    }

    /// Looks for a bucket to give up; there is none where every bucket is out of tokens.
    fn evict_at_cap(buckets: &Vec<Bucket>) -> (r: Option<usize>)
        ensures
            r is None <==> all_throttled(buckets@),
            r is Some ==> r->0 == victim(buckets@) && r->0 < buckets@.len(),
    {
        let mut best: usize = 0;
        let mut throttled = true;
        let mut i: usize = 0;
        while i < buckets.len()
            invariant
                i <= buckets@.len(),
                i == 0 ==> best == 0,
                i > 0 ==> best < i && best == victim(buckets@.take(i as int)),
                throttled == all_throttled(buckets@.take(i as int)),
            decreases buckets.len() - i,
        {
            let b = buckets[i];
            proof {
                let before = buckets@.take(i as int);
                let after = buckets@.take(i + 1);
                assert(after.drop_last() =~= before);
                assert(after.last() == b);
                if i > 0 {
                    assert(after[best as int] == buckets@[best as int]);
                }
                if all_throttled(after) {
                    assert forall|j: int| 0 <= j < before.len() implies (
                    #[trigger] before[j]).tokens < TOKEN by {
                        assert(after[j] == before[j]);
                    }
                    assert(after[i as int].tokens < TOKEN);
                }
                if all_throttled(before) && b.tokens < TOKEN {
                    assert forall|j: int| 0 <= j < after.len() implies (
                    #[trigger] after[j]).tokens < TOKEN by {
                        if j < before.len() {
                            assert(after[j] == before[j]);
                        }
                    }
                }
            }
            if b.tokens >= TOKEN {
                throttled = false;
            }
            if i > 0 {
                let c = buckets[best];
                if b.tokens > c.tokens || (b.tokens == c.tokens && b.last_touch < c.last_touch) {
                    best = i;
                }
            }
            i = i + 1;
        }
        proof {
            assert(buckets@.take(buckets@.len() as int) =~= buckets@);
        }
        if throttled {
            None
        } else {
            Some(best)
        }
    }

    /// Takes a token for `ip`, if there is one. `now` is the time in nanoseconds of a clock that
    /// never goes back.
    pub fn try_take(&mut self, now: u64, ip: ClientIp) -> (granted: bool)
        ensures
            final(self).settings() == old(self).settings(),
            ({
                let (state, ok) = attempt(old(self).state(), old(self).settings(), now, ip);
                final(self).state() == state && granted == ok
            }),
    {
        proof {
            use_type_invariant(&*self);
        }
        if self.refill_per_sec == 0 {
            return true;
        }
        let ghost start = self.state();
        let ghost cfg = self.settings();
        let capacity: u128 = self.capacity;
        let refill: u32 = self.refill_per_sec;
        let mut buckets: Vec<Bucket> = Vec::new();
        std::mem::swap(&mut buckets, &mut self.buckets);
        let before: usize = buckets.len();
        proof {
            lemma_fresh_ok(buckets@, now, self.idle_ttl, capacity);
        }
        let mut buckets = Self::evict_idle_buckets(buckets, now, self.idle_ttl);
        self.stats.idle_evictions = self.stats.idle_evictions.wrapping_add(
            (before - buckets.len()) as u64,
        );
        let ghost a = without_idle(start, cfg, now);
        let mut at: usize = Self::find(&buckets, ip);
        if self.max_tracked > 0 && buckets.len() >= self.max_tracked && at == buckets.len() {
            match Self::evict_at_cap(&buckets) {
                None => {
                    self.stats.cap_refused = self.stats.cap_refused.wrapping_add(1);
                    self.buckets = buckets;
                    return false;
                },
                Some(k) => {
                    proof {
                        lemma_remove_ok(buckets@, k as int, capacity, ip);
                    }
                    let _ = buckets.remove(k);
                    self.stats.lru_evictions = self.stats.lru_evictions.wrapping_add(1);
                    at = Self::find(&buckets, ip);
                },
            }
        }
        let ghost b = if is_crowded(a, cfg, ip) {
            without_victim(a)
        } else {
            a
        };
        if at == buckets.len() {
            proof {
                lemma_push_ok(buckets@, full_bucket(ip, capacity, now), capacity);
            }
            buckets.push(Bucket { ip, tokens: capacity, last_refill: now, last_touch: now });
        }
        let old_bucket = buckets[at];
        let elapsed: u64 = now.saturating_sub(old_bucket.last_refill);
        proof {
            assert(elapsed * refill <= u64::MAX * u32::MAX) by (nonlinear_arith)
                requires
                    elapsed <= u64::MAX,
                    refill <= u32::MAX,
            ;
        }
        let gained: u128 = elapsed as u128 * refill as u128;
        let sum: u128 = old_bucket.tokens + gained;
        let full: u128 = if sum <= capacity {
            sum
        } else {
            capacity
        };
        let granted = full >= TOKEN;
        let left: u128 = if granted {
            full - TOKEN
        } else {
            full
        };
        let new_bucket = Bucket { ip: old_bucket.ip, tokens: left, last_refill: now, last_touch: now };
        proof {
            lemma_update_ok(buckets@, at as int, new_bucket, capacity);
            assert(new_bucket == drawn(old_bucket, now, refill, capacity));
        }
        buckets.set(at, new_bucket);
        self.buckets = buckets;
        granted
    }

    /// Tracked addresses, idle drops, drops at the cap, and refusals at the cap.
    pub fn stats(&self) -> (r: (usize, u64, u64, u64))
        ensures
            r.0 == self.state().buckets.len(),
            r.1 == self.state().stats.idle_evictions,
            r.2 == self.state().stats.lru_evictions,
            r.3 == self.state().stats.cap_refused,
    {
        (
            self.buckets.len(),
            self.stats.idle_evictions,
            self.stats.lru_evictions,
            self.stats.cap_refused,
        )
    }

    /// Whether the address has a bucket.
    pub fn is_tracked(&self, ip: ClientIp) -> (r: bool)
        ensures
            r == tracks(self.state().buckets, ip),
    {
        Self::find(&self.buckets, ip) < self.buckets.len()
    }
}

/// The settings that `with_limits` makes.
pub open spec fn limiter_settings(
    refill_per_sec: u32,
    burst: u32,
    max_tracked: usize,
    idle_ttl_secs: u64,
) -> LimiterSettings {
    LimiterSettings {
        capacity: (if burst == 0 {
            TOKEN
        } else {
            (burst * TOKEN) as u128
        }),
        refill_per_sec,
        idle_ttl: Span { nanos: (idle_ttl_secs * NANOS_PER_SEC) as u128 },
        max_tracked,
    }
}

/// No address tracked, nothing counted.
pub open spec fn empty_limiter() -> LimiterState {
    LimiterState {
        buckets: seq![],
        stats: LimiterStats { idle_evictions: 0, lru_evictions: 0, cap_refused: 0 },
    }
}

proof fn lemma_bucket_of(bs: Seq<Bucket>, ip: ClientIp, i: int)
    requires
        0 <= i <= bs.len(),
        forall|j: int| 0 <= j < i ==> (#[trigger] bs[j]).ip != ip,
        i < bs.len() ==> bs[i].ip == ip,
    ensures
        bucket_of(bs, ip) == i,
    decreases bs.len(),
{
    if bs.len() > 0 && i > 0 {
        assert(bs[0].ip != ip);
        let rest = bs.skip(1);
        assert forall|j: int| 0 <= j < i - 1 implies (#[trigger] rest[j]).ip != ip by {
            assert(rest[j] == bs[j + 1]);
        }
        if i < bs.len() {
            assert(rest[i - 1] == bs[i]);
        }
        lemma_bucket_of(rest, ip, i - 1);
    }
}

/// Every fresh bucket is one of the buckets, and in the same order.
proof fn lemma_fresh_source(bs: Seq<Bucket>, now: u64, ttl: Span, i: int) -> (k: int)
    requires
        0 <= i < fresh_buckets(bs, now, ttl).len(),
    ensures
        i <= k < bs.len(),
        fresh_buckets(bs, now, ttl)[i] == bs[k],
        is_fresh(bs[k], now, ttl),
    decreases bs.len(),
{
    let rest = fresh_buckets(bs.drop_last(), now, ttl);
    lemma_fresh_len(bs.drop_last(), now, ttl);
    if is_fresh(bs.last(), now, ttl) && i == rest.len() {
        bs.len() - 1
    } else {
        let k = lemma_fresh_source(bs.drop_last(), now, ttl, i);
        assert(bs.drop_last()[k] == bs[k]);
        k
    }
}

proof fn lemma_fresh_len(bs: Seq<Bucket>, now: u64, ttl: Span)
    ensures
        fresh_buckets(bs, now, ttl).len() <= bs.len(),
    decreases bs.len(),
{
    if bs.len() > 0 {
        lemma_fresh_len(bs.drop_last(), now, ttl);
    }
}

proof fn lemma_fresh_ok(bs: Seq<Bucket>, now: u64, ttl: Span, capacity: u128)
    requires
        buckets_ok(bs, capacity),
    ensures
        buckets_ok(fresh_buckets(bs, now, ttl), capacity),
    decreases bs.len(),
{
    if bs.len() > 0 {
        let d = bs.drop_last();
        assert(buckets_ok(d, capacity)) by {
            assert forall|i: int, j: int| 0 <= i < j < d.len() implies (#[trigger] d[i]).ip != (
            #[trigger] d[j]).ip by {
                assert(bs[i].ip != bs[j].ip);
            }
            assert forall|i: int| 0 <= i < d.len() implies (
            #[trigger] d[i]).tokens <= capacity by {
                assert(bs[i].tokens <= capacity);
            }
        }
        lemma_fresh_ok(d, now, ttl, capacity);
        if is_fresh(bs.last(), now, ttl) {
            let f = fresh_buckets(d, now, ttl);
            assert forall|i: int| 0 <= i < f.len() implies (#[trigger] f[i]).ip
                != bs.last().ip by {
                let k = lemma_fresh_source(d, now, ttl, i);
                assert(d[k] == bs[k]);
                assert(bs[k].ip != bs[bs.len() - 1].ip);
            }
            assert(bs[bs.len() - 1].tokens <= capacity);
            lemma_push_ok_distinct(f, bs.last(), capacity);
        }
    }
}

proof fn lemma_push_ok_distinct(bs: Seq<Bucket>, b: Bucket, capacity: u128)
    requires
        buckets_ok(bs, capacity),
        b.tokens <= capacity,
        forall|i: int| 0 <= i < bs.len() ==> (#[trigger] bs[i]).ip != b.ip,
    ensures
        buckets_ok(bs.push(b), capacity),
{
    let t = bs.push(b);
    assert forall|i: int, j: int| 0 <= i < j < t.len() implies (#[trigger] t[i]).ip != (
    #[trigger] t[j]).ip by {
        assert(t[i] == bs[i]);
        if j < bs.len() {
            assert(t[j] == bs[j]);
        }
    }
    assert forall|i: int| 0 <= i < t.len() implies (#[trigger] t[i]).tokens <= capacity by {
        if i < bs.len() {
            assert(t[i] == bs[i]);
        }
    }
}

proof fn lemma_push_ok(bs: Seq<Bucket>, b: Bucket, capacity: u128)
    requires
        buckets_ok(bs, capacity),
        b.tokens <= capacity,
        !tracks(bs, b.ip),
    ensures
        buckets_ok(bs.push(b), capacity),
{
    lemma_push_ok_distinct(bs, b, capacity);
}

proof fn lemma_update_ok(bs: Seq<Bucket>, i: int, b: Bucket, capacity: u128)
    requires
        buckets_ok(bs, capacity),
        0 <= i < bs.len(),
        b.ip == bs[i].ip,
        b.tokens <= capacity,
    ensures
        buckets_ok(bs.update(i, b), capacity),
{
    let t = bs.update(i, b);
    assert forall|x: int, y: int| 0 <= x < y < t.len() implies (#[trigger] t[x]).ip != (
    #[trigger] t[y]).ip by {
        assert(t[x].ip == bs[x].ip);
        assert(t[y].ip == bs[y].ip);
    }
    assert forall|x: int| 0 <= x < t.len() implies (#[trigger] t[x]).tokens <= capacity by {
        if x != i {
            assert(t[x] == bs[x]);
        }
    }
}

proof fn lemma_remove_ok(bs: Seq<Bucket>, k: int, capacity: u128, ip: ClientIp)
    requires
        buckets_ok(bs, capacity),
        0 <= k < bs.len(),
    ensures
        buckets_ok(bs.remove(k), capacity),
        !tracks(bs, ip) ==> !tracks(bs.remove(k), ip),
{
    let t = bs.remove(k);
    assert forall|i: int| 0 <= i < t.len() implies #[trigger] t[i] == bs[if i < k {
        i
    } else {
        i + 1
    }] by {}
    assert forall|i: int, j: int| 0 <= i < j < t.len() implies (#[trigger] t[i]).ip != (
    #[trigger] t[j]).ip by {
        let i2 = if i < k {
            i
        } else {
            i + 1
        };
        let j2 = if j < k {
            j
        } else {
            j + 1
        };
        assert(bs[i2].ip != bs[j2].ip);
    }
}

// Laws
/// The bucket that is given up is the fullest, and among the fullest the one not seen for longest.
pub proof fn victim_is_fullest_and_oldest(bs: Seq<Bucket>, i: int)
    requires
        0 <= i < bs.len(),
    ensures
        0 <= victim(bs) < bs.len(),
        !goes_before(bs[i], bs[victim(bs)]),
    decreases bs.len(),
{
    if bs.len() > 1 {
        let d = bs.drop_last();
        victim_is_fullest_and_oldest(d, 0);
        let k = victim(d);
        assert(d[k] == bs[k]);
        if i < d.len() {
            victim_is_fullest_and_oldest(d, i);
            assert(d[i] == bs[i]);
        }
    }
}

/// A bound on tracked addresses is kept.
pub proof fn tracked_addresses_stay_bounded(
    s: LimiterState,
    cfg: LimiterSettings,
    now: u64,
    ip: ClientIp,
)
    requires
        cfg.max_tracked > 0,
        s.buckets.len() <= cfg.max_tracked,
    ensures
        attempt(s, cfg, now, ip).0.buckets.len() <= cfg.max_tracked,
{
    if cfg.refill_per_sec != 0 {
        let a = without_idle(s, cfg, now);
        lemma_fresh_len(s.buckets, now, cfg.idle_ttl);
        lemma_bucket_of_tracks(a.buckets, ip);
        if a.buckets.len() > 0 {
            victim_is_fullest_and_oldest(a.buckets, 0);
        }
        if is_crowded(a, cfg, ip) {
            lemma_bucket_of_tracks(without_victim(a).buckets, ip);
        }
    }
}

proof fn lemma_bucket_of_tracks(bs: Seq<Bucket>, ip: ClientIp)
    ensures
        0 <= bucket_of(bs, ip) <= bs.len(),
        bucket_of(bs, ip) < bs.len() <==> tracks(bs, ip),
        bucket_of(bs, ip) < bs.len() ==> bs[bucket_of(bs, ip)].ip == ip,
    decreases bs.len(),
{
    if bs.len() > 0 && bs[0].ip != ip {
        let rest = bs.skip(1);
        lemma_bucket_of_tracks(rest, ip);
        if tracks(bs, ip) {
            let i = choose|i: int| 0 <= i < bs.len() && (#[trigger] bs[i]).ip == ip;
            assert(rest[i - 1] == bs[i]);
        }
        if tracks(rest, ip) {
            let i = choose|i: int| 0 <= i < rest.len() && (#[trigger] rest[i]).ip == ip;
            assert(bs[i + 1] == rest[i]);
        }
    } else if bs.len() > 0 {
        assert(bs[0].ip == ip);
    }
}

/// An attempt by one address never changes what another one has left: it keeps its bucket as it
/// is, or loses it.
pub proof fn addresses_are_isolated(
    s: LimiterState,
    cfg: LimiterSettings,
    now: u64,
    ip: ClientIp,
    i: int,
)
    requires
        0 <= i < attempt(s, cfg, now, ip).0.buckets.len(),
        attempt(s, cfg, now, ip).0.buckets[i].ip != ip,
    ensures
        s.buckets.contains(attempt(s, cfg, now, ip).0.buckets[i]),
{
    if cfg.refill_per_sec != 0 {
        let a = without_idle(s, cfg, now);
        if is_crowded(a, cfg, ip) && all_throttled(a.buckets) {
            lemma_fresh_source(s.buckets, now, cfg.idle_ttl, i);
        } else {
            let crowded = is_crowded(a, cfg, ip);
            let b = if crowded {
                without_victim(a)
            } else {
                a
            };
            lemma_bucket_of_tracks(b.buckets, ip);
            if a.buckets.len() > 0 {
                victim_is_fullest_and_oldest(a.buckets, 0);
            }
            let at = bucket_of(b.buckets, ip);
            assert(i != at);
            let x = attempt(s, cfg, now, ip).0.buckets[i];
            assert(i < b.buckets.len());
            assert(x == b.buckets[i]);
            let v = victim(a.buckets);
            let j = if crowded && i >= v {
                i + 1
            } else {
                i
            };
            assert(b.buckets[i] == a.buckets[j]);
            lemma_fresh_source(s.buckets, now, cfg.idle_ttl, j);
        }
    }
}

/// An address that nobody is short of room for gets its first token.
pub proof fn new_address_is_granted(s: LimiterState, cfg: LimiterSettings, now: u64, ip: ClientIp)
    requires
        cfg.capacity >= TOKEN,
        !tracks(s.buckets, ip),
        cfg.max_tracked == 0 || s.buckets.len() < cfg.max_tracked,
    ensures
        attempt(s, cfg, now, ip).1,
{
    if cfg.refill_per_sec != 0 {
        let a = without_idle(s, cfg, now);
        lemma_fresh_len(s.buckets, now, cfg.idle_ttl);
        lemma_bucket_of_tracks(a.buckets, ip);
        if tracks(a.buckets, ip) {
            let i = choose|i: int| 0 <= i < a.buckets.len() && (#[trigger] a.buckets[i]).ip == ip;
            lemma_fresh_source(s.buckets, now, cfg.idle_ttl, i);
        }
        let f = full_bucket(ip, cfg.capacity, now);
        assert(since(now, f.last_refill) * cfg.refill_per_sec == 0) by (nonlinear_arith)
            requires
                since(now, f.last_refill) == 0,
        ;
    }
}

/// The bucket after attempts at each of `times`.
pub open spec fn drawn_at(
    b: Bucket,
    times: Seq<u64>,
    refill_per_sec: u32,
    capacity: u128,
) -> Bucket
    decreases times.len(),
{
    if times.len() == 0 {
        b
    } else {
        drawn(
            drawn_at(b, times.drop_last(), refill_per_sec, capacity),
            times.last(),
            refill_per_sec,
            capacity,
        )
    }
}

/// How many of the attempts at each of `times` are granted.
pub open spec fn granted_at(b: Bucket, times: Seq<u64>, refill_per_sec: u32, capacity: u128) -> nat
    decreases times.len(),
{
    if times.len() == 0 {
        0
    } else {
        granted_at(b, times.drop_last(), refill_per_sec, capacity) + (if grants(
            drawn_at(b, times.drop_last(), refill_per_sec, capacity),
            times.last(),
            refill_per_sec,
            capacity,
        ) {
            1nat
        } else {
            0
        })
    }
}

/// An address gets no more than its bucket held plus what was refilled in the meantime: over any
/// stretch of time the grants stay within the burst plus the sustained rate.
pub proof fn grants_stay_within_the_rate(
    b: Bucket,
    times: Seq<u64>,
    refill_per_sec: u32,
    capacity: u128,
)
    requires
        times.len() > 0 ==> b.last_refill <= times[0],
        forall|i: int, j: int| 0 <= i <= j < times.len() ==> times[i] <= times[j],
        b.tokens <= capacity,
    ensures
        granted_at(b, times, refill_per_sec, capacity) * TOKEN + drawn_at(
            b,
            times,
            refill_per_sec,
            capacity,
        ).tokens <= b.tokens + (drawn_at(b, times, refill_per_sec, capacity).last_refill
            - b.last_refill) * refill_per_sec,
        drawn_at(b, times, refill_per_sec, capacity).last_refill == (if times.len() > 0 {
            times.last()
        } else {
            b.last_refill
        }),
        drawn_at(b, times, refill_per_sec, capacity).tokens <= capacity,
    decreases times.len(),
{
    if times.len() == 0 {
        assert((b.last_refill - b.last_refill) * refill_per_sec == 0) by (nonlinear_arith);
    } else {
        let d = times.drop_last();
        assert forall|i: int, j: int| 0 <= i <= j < d.len() implies d[i] <= d[j] by {
            assert(times[i] <= times[j]);
        }
        if d.len() > 0 {
            assert(d[0] == times[0]);
        }
        grants_stay_within_the_rate(b, d, refill_per_sec, capacity);
        let m = drawn_at(b, d, refill_per_sec, capacity);
        let now = times.last();
        if d.len() > 0 {
            assert(d.last() == times[times.len() - 2]);
            assert(times[times.len() - 2] <= times[times.len() - 1]);
        } else {
            assert(times[0] == now);
        }
        assert(m.last_refill <= now);
        let r = refill_per_sec as int;
        let x = m.last_refill as int;
        let y = b.last_refill as int;
        let z = now as int;
        assert((z - x) * r + (x - y) * r == (z - y) * r) by (nonlinear_arith);
        assert(since(now, m.last_refill) == z - x);
        assert((z - x) * r >= 0) by (nonlinear_arith)
            requires
                z >= x,
                r >= 0,
        ;
        let g = granted_at(b, d, refill_per_sec, capacity);
        assert((g + 1) * TOKEN == g * TOKEN + TOKEN) by (nonlinear_arith);
        let t = refilled(m, now, refill_per_sec, capacity);
        assert(t <= m.tokens + (z - x) * r);
        assert(t <= capacity);
    }
}

/// An acceptor's limits.
pub struct AcceptorLimits {
    pub sessions: SessionCap,
    pub rate: RateLimiter,
}

impl AcceptorLimits {
    pub fn from_config(cfg: &LimitsConfig) -> (l: Self)
        ensures
            l.sessions.held() == 0,
            l.sessions.limit() == cfg.max_in_flight_per_role,
            l.rate.settings() == limiter_settings(
                cfg.accept_rate_per_ip,
                cfg.accept_rate_burst,
                cfg.rate_limit_max_tracked_ips,
                cfg.rate_limit_bucket_idle_ttl_secs,
            ),
            l.rate.state() == empty_limiter(),
    {
        AcceptorLimits {
            sessions: SessionCap::new(cfg.max_in_flight_per_role),
            rate: RateLimiter::with_limits(
                cfg.accept_rate_per_ip,
                cfg.accept_rate_burst,
                cfg.rate_limit_max_tracked_ips,
                cfg.rate_limit_bucket_idle_ttl_secs,
            ),
        }
    }
}

/// What happens to a cap.
pub enum CapEvent {
    /// A slot is asked for.
    Acquire,
    /// A slot is given back.
    Release,
}

/// Slots handed out and not given back after a series of events, in whatever order the callers
/// come.
pub open spec fn slots_held(limit: nat, events: Seq<CapEvent>) -> int
    decreases events.len(),
{
    if events.len() == 0 {
        0
    } else {
        let before = slots_held(limit, events.drop_last());
        match events.last() {
            CapEvent::Acquire => if has_slot(before as nat, limit) {
                before + 1
            } else {
                before
            },
            CapEvent::Release => before - 1,
        }
    }
}

/// Only a slot that was handed out is given back.
pub open spec fn gives_back_its_own(limit: nat, events: Seq<CapEvent>) -> bool {
    forall|i: int|
        0 <= i < events.len() && events[i] is Release ==> slots_held(
            limit,
            #[trigger] events.take(i),
        ) > 0
}

/// How often a slot was handed out.
pub open spec fn slots_granted(limit: nat, events: Seq<CapEvent>) -> nat
    decreases events.len(),
{
    if events.len() == 0 {
        0
    } else {
        let d = events.drop_last();
        slots_granted(limit, d) + (if events.last() is Acquire && has_slot(
            slots_held(limit, d) as nat,
            limit,
        ) {
            1nat
        } else {
            0
        })
    }
}

/// How often a slot was given back.
pub open spec fn slots_returned(events: Seq<CapEvent>) -> nat
    decreases events.len(),
{
    if events.len() == 0 {
        0
    } else {
        slots_returned(events.drop_last()) + (if events.last() is Release {
            1nat
        } else {
            0
        })
    }
}

/// Whatever order slots are asked for and given back in, what is held is what was handed out and
/// not given back, and never more than the limit.
pub proof fn sessions_stay_within_the_cap(limit: nat, events: Seq<CapEvent>)
    requires
        gives_back_its_own(limit, events),
    ensures
        slots_held(limit, events) == slots_granted(limit, events) - slots_returned(events),
        0 <= slots_held(limit, events),
        limit > 0 ==> slots_held(limit, events) <= limit,
    decreases events.len(),
{
    if events.len() > 0 {
        let d = events.drop_last();
        assert forall|i: int| 0 <= i < d.len() && d[i] is Release implies slots_held(
            limit,
            #[trigger] d.take(i),
        ) > 0 by {
            assert(d.take(i) =~= events.take(i));
            assert(events[i] is Release);
        }
        sessions_stay_within_the_cap(limit, d);
        assert(events.take(events.len() - 1) =~= d);
    }
}

/// A bucket is kept exactly while its address was seen less than `ttl` ago.
pub proof fn idle_addresses_are_forgotten(bs: Seq<Bucket>, now: u64, ttl: Span)
    ensures
        fresh_buckets(bs, now, ttl) == bs.filter(
            |b: Bucket| now < b.last_touch + ttl.nanos && ttl.nanos > 0,
        ),
    decreases bs.len(),
{
    reveal(Seq::filter);
    if bs.len() > 0 {
        idle_addresses_are_forgotten(bs.drop_last(), now, ttl);
    }
}

/// Where the bucket of a fresh address stands after the idle ones were dropped.
proof fn lemma_fresh_kept(bs: Seq<Bucket>, now: u64, ttl: Span, i: int) -> (k: int)
    requires
        0 <= i < bs.len(),
        is_fresh(bs[i], now, ttl),
    ensures
        0 <= k < fresh_buckets(bs, now, ttl).len(),
        fresh_buckets(bs, now, ttl)[k] == bs[i],
    decreases bs.len(),
{
    let d = bs.drop_last();
    if i == d.len() {
        fresh_buckets(d, now, ttl).len() as int
    } else {
        assert(d[i] == bs[i]);
        lemma_fresh_kept(d, now, ttl, i)
    }
}

/// An address that is tracked is credited with every token that its absence earned it, up to a
/// full bucket, and is refused exactly where that is less than one token. `k` is where its bucket
/// stands afterwards.
pub proof fn absence_is_credited_in_full(
    s: LimiterState,
    cfg: LimiterSettings,
    now: u64,
    ip: ClientIp,
    i: int,
) -> (k: int)
    requires
        buckets_ok(s.buckets, cfg.capacity),
        cfg.refill_per_sec > 0,
        cfg.capacity >= TOKEN,
        0 <= i < s.buckets.len(),
        s.buckets[i].ip == ip,
        s.buckets[i].last_refill <= now,
        s.buckets[i].last_touch <= now < s.buckets[i].last_touch + cfg.idle_ttl.nanos,
    ensures
        ({
            let b = s.buckets[i];
            let credit = b.tokens + (now - b.last_refill) * cfg.refill_per_sec;
            let (after, granted) = attempt(s, cfg, now, ip);
            &&& granted <==> credit >= TOKEN
            &&& buckets_ok(after.buckets, cfg.capacity)
            &&& 0 <= k < after.buckets.len()
            &&& after.buckets[k].ip == ip
            &&& after.buckets[k].last_refill == now
            &&& after.buckets[k].last_touch == now
            &&& after.buckets[k].tokens + (if granted {
                TOKEN as int
            } else {
                0
            }) == (if credit <= cfg.capacity {
                credit
            } else {
                cfg.capacity as int
            })
        }),
{
    let b = s.buckets[i];
    let a = without_idle(s, cfg, now);
    let f = lemma_fresh_kept(s.buckets, now, cfg.idle_ttl, i);
    lemma_fresh_ok(s.buckets, now, cfg.idle_ttl, cfg.capacity);
    assert(a.buckets[f].ip == ip);
    assert(tracks(a.buckets, ip));
    lemma_bucket_of_tracks(a.buckets, ip);
    let k = bucket_of(a.buckets, ip);
    if k < f {
        assert(a.buckets[k].ip != a.buckets[f].ip);
    } else if f < k {
        assert(a.buckets[f].ip != a.buckets[k].ip);
    }
    assert(a.buckets[k] == b);
    assert((now - b.last_refill) * cfg.refill_per_sec >= 0) by (nonlinear_arith)
        requires
            now >= b.last_refill,
            cfg.refill_per_sec >= 0,
    ;
    lemma_update_ok(
        a.buckets,
        k,
        drawn(b, now, cfg.refill_per_sec, cfg.capacity),
        cfg.capacity,
    );
    k
}

/// What is left after `n` attempts of one address at one moment.
pub open spec fn after_attempts(
    s: LimiterState,
    cfg: LimiterSettings,
    now: u64,
    ip: ClientIp,
    n: nat,
) -> LimiterState
    decreases n,
{
    if n == 0 {
        s
    } else {
        attempt(after_attempts(s, cfg, now, ip, (n - 1) as nat), cfg, now, ip).0
    }
}

/// An address whose bucket has had the time to fill up has its whole burst again: of any number
/// of attempts at one moment exactly the first ones are granted, one for each whole token that a
/// full bucket holds. `k` is where its bucket stands after `n` of them.
pub proof fn whole_burst_comes_back(
    s: LimiterState,
    cfg: LimiterSettings,
    now: u64,
    ip: ClientIp,
    i: int,
    n: nat,
) -> (k: int)
    requires
        buckets_ok(s.buckets, cfg.capacity),
        cfg.refill_per_sec > 0,
        cfg.capacity >= TOKEN,
        0 <= i < s.buckets.len(),
        s.buckets[i].ip == ip,
        s.buckets[i].last_refill <= now,
        s.buckets[i].last_touch <= now < s.buckets[i].last_touch + cfg.idle_ttl.nanos,
        s.buckets[i].tokens + (now - s.buckets[i].last_refill) * cfg.refill_per_sec
            >= cfg.capacity,
    ensures
        attempt(after_attempts(s, cfg, now, ip, n), cfg, now, ip).1 <==> (n + 1) * TOKEN
            <= cfg.capacity,
        buckets_ok(after_attempts(s, cfg, now, ip, n).buckets, cfg.capacity),
        0 <= k < after_attempts(s, cfg, now, ip, n).buckets.len(),
        ({
            let b = after_attempts(s, cfg, now, ip, n).buckets[k];
            &&& b.ip == ip
            &&& n == 0 ==> b == s.buckets[i]
            &&& n > 0 ==> b.last_refill == now && b.last_touch == now && (if n * TOKEN
                <= cfg.capacity {
                b.tokens == cfg.capacity - n * TOKEN
            } else {
                b.tokens < TOKEN
            })
        }),
    decreases n,
{
    if n == 0 {
        absence_is_credited_in_full(s, cfg, now, ip, i);
        i
    } else {
        let m = (n - 1) as nat;
        let before = after_attempts(s, cfg, now, ip, m);
        let j = whole_burst_comes_back(s, cfg, now, ip, i, m);
        let b = before.buckets[j];
        if m > 0 {
            assert((now - b.last_refill) * cfg.refill_per_sec == 0) by (nonlinear_arith)
                requires
                    now == b.last_refill,
            ;
        }
        let k = absence_is_credited_in_full(before, cfg, now, ip, j);
        let after = after_attempts(s, cfg, now, ip, n);
        let c = after.buckets[k];
        assert((now - c.last_refill) * cfg.refill_per_sec == 0) by (nonlinear_arith)
            requires
                now == c.last_refill,
        ;
        absence_is_credited_in_full(after, cfg, now, ip, k);
        k
    }
}

/// A limiter whose rate is zero lets everyone pass and keeps no record.
pub proof fn limiter_without_a_rate_is_off(
    s: LimiterState,
    cfg: LimiterSettings,
    now: u64,
    ip: ClientIp,
)
    requires
        cfg.refill_per_sec == 0,
    ensures
        attempt(s, cfg, now, ip) == (s, true),
{
}

/// A new address starts with a full bucket, of which one token is taken at once, while there is
/// room for it. `k` is where its bucket stands.
pub proof fn new_address_gets_a_full_bucket(
    s: LimiterState,
    cfg: LimiterSettings,
    now: u64,
    ip: ClientIp,
) -> (k: int)
    requires
        cfg.refill_per_sec > 0,
        cfg.capacity >= TOKEN,
        !tracks(s.buckets, ip),
        cfg.max_tracked == 0 || s.buckets.len() < cfg.max_tracked,
    ensures
        attempt(s, cfg, now, ip).1,
        0 <= k < attempt(s, cfg, now, ip).0.buckets.len(),
        attempt(s, cfg, now, ip).0.buckets[k] == (Bucket {
            ip,
            tokens: (cfg.capacity - TOKEN) as u128,
            last_refill: now,
            last_touch: now,
        }),
{
    let a = without_idle(s, cfg, now);
    lemma_fresh_len(s.buckets, now, cfg.idle_ttl);
    lemma_bucket_of_tracks(a.buckets, ip);
    if tracks(a.buckets, ip) {
        let i = choose|i: int| 0 <= i < a.buckets.len() && (#[trigger] a.buckets[i]).ip == ip;
        lemma_fresh_source(s.buckets, now, cfg.idle_ttl, i);
    }
    let f = full_bucket(ip, cfg.capacity, now);
    assert(since(now, f.last_refill) * cfg.refill_per_sec == 0) by (nonlinear_arith)
        requires
            since(now, f.last_refill) == 0,
    ;
    a.buckets.len() as int
}

/// Where there is no room for a new address, it is refused exactly when no address that is tracked
/// has a whole token left; else one address makes room, none of which has more tokens left, and
/// the new one is served from a full bucket.
pub proof fn crowded_limiter_makes_room_if_it_can(
    s: LimiterState,
    cfg: LimiterSettings,
    now: u64,
    ip: ClientIp,
)
    requires
        cfg.refill_per_sec > 0,
        cfg.capacity >= TOKEN,
        !tracks(s.buckets, ip),
        0 < cfg.max_tracked <= s.buckets.len(),
        forall|i: int|
            0 <= i < s.buckets.len() ==> (#[trigger] s.buckets[i]).last_touch <= now
                < s.buckets[i].last_touch + cfg.idle_ttl.nanos,
    ensures
        ({
            let (after, granted) = attempt(s, cfg, now, ip);
            &&& !granted <==> forall|i: int|
                0 <= i < s.buckets.len() ==> (#[trigger] s.buckets[i]).tokens < TOKEN
            &&& !granted ==> after.buckets == s.buckets && after.stats.cap_refused
                == s.stats.cap_refused.wrapping_add(1)
            &&& granted ==> after.buckets.len() == s.buckets.len()
            &&& granted ==> after.stats.lru_evictions == s.stats.lru_evictions.wrapping_add(1)
            &&& granted ==> exists|v: int|
                0 <= v < s.buckets.len() && after.buckets == #[trigger] s.buckets.remove(v).push(
                    Bucket {
                        ip,
                        tokens: (cfg.capacity - TOKEN) as u128,
                        last_refill: now,
                        last_touch: now,
                    },
                ) && forall|i: int|
                    0 <= i < s.buckets.len() ==> (#[trigger] s.buckets[i]).tokens
                        < s.buckets[v].tokens || (s.buckets[i].tokens == s.buckets[v].tokens
                        && s.buckets[i].last_touch >= s.buckets[v].last_touch)
        }),
{
    let bs = s.buckets;
    lemma_all_fresh(bs, now, cfg.idle_ttl);
    let a = without_idle(s, cfg, now);
    assert(a.buckets == bs);
    if !all_throttled(bs) {
        victim_is_fullest_and_oldest(bs, 0);
        let v = victim(bs);
        assert forall|i: int| 0 <= i < bs.len() implies (#[trigger] bs[i]).tokens < bs[v].tokens
            || (bs[i].tokens == bs[v].tokens && bs[i].last_touch >= bs[v].last_touch) by {
            victim_is_fullest_and_oldest(bs, i);
        }
        let rest = bs.remove(v);
        if tracks(rest, ip) {
            let i = choose|i: int| 0 <= i < rest.len() && (#[trigger] rest[i]).ip == ip;
            let j = if i < v {
                i
            } else {
                i + 1
            };
            assert(bs[j].ip == ip);
        }
        lemma_bucket_of_tracks(rest, ip);
        let f = full_bucket(ip, cfg.capacity, now);
        assert(since(now, f.last_refill) * cfg.refill_per_sec == 0) by (nonlinear_arith)
            requires
                since(now, f.last_refill) == 0,
        ;
        let full = Bucket {
            ip,
            tokens: (cfg.capacity - TOKEN) as u128,
            last_refill: now,
            last_touch: now,
        };
        assert(attempt(s, cfg, now, ip).0.buckets =~= bs.remove(v).push(full));
    }
}

proof fn lemma_all_fresh(bs: Seq<Bucket>, now: u64, ttl: Span)
    requires
        forall|i: int|
            0 <= i < bs.len() ==> (#[trigger] bs[i]).last_touch <= now < bs[i].last_touch
                + ttl.nanos,
    ensures
        fresh_buckets(bs, now, ttl) == bs,
    decreases bs.len(),
{
    if bs.len() > 0 {
        let d = bs.drop_last();
        assert forall|i: int| 0 <= i < d.len() implies (#[trigger] d[i]).last_touch <= now
            < d[i].last_touch + ttl.nanos by {
            assert(d[i] == bs[i]);
        }
        lemma_all_fresh(d, now, ttl);
        assert(bs[bs.len() - 1] == bs.last());
        assert(fresh_buckets(bs, now, ttl) =~= bs);
    }
}

/// A burst of `n` fills a bucket with `n` tokens, and a burst of none with one.
pub proof fn bucket_holds_the_burst(refill_per_sec: u32, burst: u32, max: usize, secs: u64)
    ensures
        burst > 0 ==> limiter_settings(refill_per_sec, burst, max, secs).capacity == burst
            * 1_000_000_000,
        burst == 0 ==> limiter_settings(refill_per_sec, burst, max, secs).capacity
            == 1_000_000_000,
        TOKEN == 1_000_000_000,
        limiter_settings(refill_per_sec, burst, max, secs).refill_per_sec == refill_per_sec,
        limiter_settings(refill_per_sec, burst, max, secs).idle_ttl.nanos == secs * 1_000_000_000,
        limiter_settings(refill_per_sec, burst, max, secs).max_tracked == max,
{
}

/// A cap hands out a slot exactly while fewer are taken than it has, and without end where it has
/// no limit.
pub proof fn slots_run_out_at_the_limit(held: nat, limit: nat)
    ensures
        limit > 0 ==> (has_slot(held, limit) <==> held + 1 <= limit),
        limit == 0 ==> has_slot(held, limit),
{
}

/// A new limiter has seen no address, dropped none and refused none.
pub proof fn new_limiter_knows_nobody(ip: ClientIp)
    ensures
        !tracks(empty_limiter().buckets, ip),
        empty_limiter().buckets.len() == 0,
        empty_limiter().stats.idle_evictions == 0,
        empty_limiter().stats.lru_evictions == 0,
        empty_limiter().stats.cap_refused == 0,
{
}

/// An address is known exactly where it has a bucket, and its bucket is found wherever it stands.
pub proof fn bucket_of_an_address_is_found(bs: Seq<Bucket>, ip: ClientIp, i: int)
    requires
        0 <= i < bs.len(),
        bs[i].ip == ip,
        forall|j: int| 0 <= j < i ==> (#[trigger] bs[j]).ip != ip,
    ensures
        tracks(bs, ip),
        bucket_of(bs, ip) == i,
        forall|other: ClientIp|
            (forall|j: int| 0 <= j < bs.len() ==> (#[trigger] bs[j]).ip != other)
                ==> !#[trigger] tracks(bs, other),
{
    lemma_bucket_of(bs, ip, i);
}

} // verus!
