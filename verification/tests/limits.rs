//! Session caps and per-address rates.

use echod::config::LimitsConfig;
use echod::limits::{AcceptorLimits, ClientIp, RateLimiter, SessionCap};

const MS: u64 = 1_000_000;

fn ip(last: u32) -> ClientIp {
    ClientIp::V4(0x0a00_0000 + last)
}

#[test]
fn session_cap_zero_is_unbounded() {
    let mut cap = SessionCap::new(0);
    let mut guards = Vec::new();
    for _ in 0..10_000 {
        guards.push(cap.try_acquire().expect("0 = unbounded"));
    }
}

#[test]
fn session_cap_zero_current_tracks_in_flight() {
    let mut cap = SessionCap::new(0);
    let g1 = cap.try_acquire().unwrap();
    assert_eq!(cap.current(), 1);
    let g2 = cap.try_acquire().unwrap();
    assert_eq!(cap.current(), 2);
    cap.release(g1);
    assert_eq!(cap.current(), 1);
    cap.release(g2);
    assert_eq!(cap.current(), 0);
}

#[test]
fn session_cap_blocks_over_limit() {
    let mut cap = SessionCap::new(2);
    let g1 = cap.try_acquire().unwrap();
    let g2 = cap.try_acquire().unwrap();
    assert!(cap.try_acquire().is_none(), "3rd over cap=2 should fail");
    assert_eq!(cap.current(), 2);
    cap.release(g1);
    assert_eq!(cap.current(), 1);
    let g3 = cap.try_acquire().expect("slot freed");
    assert_eq!(cap.current(), 2);
    cap.release(g2);
    cap.release(g3);
    assert_eq!(cap.current(), 0);
}

#[test]
fn rate_limiter_zero_disabled() {
    let mut rl = RateLimiter::new(0, 1);
    for _ in 0..1000 {
        assert!(rl.try_take(0, ClientIp::V4(0x7f00_0001)), "refill=0 disables limiter");
    }
}

#[test]
fn rate_limiter_burst_then_throttle() {
    let mut rl = RateLimiter::new(10, 3);
    assert!(rl.try_take(0, ip(1)));
    assert!(rl.try_take(0, ip(1)));
    assert!(rl.try_take(0, ip(1)));
    assert!(!rl.try_take(0, ip(1)));
}

#[test]
fn rate_limiter_refills_over_time() {
    let mut rl = RateLimiter::new(100, 1);
    assert!(rl.try_take(0, ip(2)));
    assert!(!rl.try_take(0, ip(2)), "burst=1 empties immediately");
    assert!(rl.try_take(50 * MS, ip(2)), "after 50ms at 100/s there should be tokens");
}

#[test]
fn token_comes_back_after_its_share_of_a_second() {
    let mut rl = RateLimiter::new(4, 1);
    assert!(rl.try_take(0, ip(2)));
    assert!(!rl.try_take(250 * MS - 1, ip(2)));
    assert!(rl.try_take(250 * MS, ip(2)));
}

#[test]
fn rate_limiter_isolates_ips() {
    let mut rl = RateLimiter::new(1, 1);
    assert!(rl.try_take(0, ip(10)));
    assert!(!rl.try_take(0, ip(10)));
    assert!(rl.try_take(0, ip(11)));
}

#[test]
fn address_families_do_not_mix() {
    let mut rl = RateLimiter::new(1, 1);
    assert!(rl.try_take(0, ClientIp::V4(1)));
    assert!(rl.try_take(0, ClientIp::V6(1)));
    assert!(!rl.try_take(0, ClientIp::V6(1)));
}

#[test]
fn unbounded_when_cap_zero() {
    let mut rl = RateLimiter::with_limits(10, 100, 0, 300);
    for i in 0..1000u32 {
        assert!(rl.try_take(0, ip(i)), "should never be refused at cap=0");
    }
    let (held, _, _, refused) = rl.stats();
    assert_eq!(held, 1000, "should track all 1000 IPs");
    assert_eq!(refused, 0, "should never refuse when unbounded");
}

#[test]
fn evicts_full_bucket_when_at_cap() {
    let mut rl = RateLimiter::with_limits(10, 2, 3, 300);
    assert!(rl.try_take(0, ip(1)));
    assert!(rl.try_take(0, ip(2)));
    assert!(rl.try_take(0, ip(2)));
    assert!(rl.try_take(0, ip(3)));

    let (held, _, _, refused_before) = rl.stats();
    assert_eq!(held, 3);
    assert_eq!(refused_before, 0);

    assert!(
        rl.try_take(0, ip(99)),
        "should succeed by evicting one of the full/partial buckets"
    );

    let (held, _, lru_evictions, refused_after) = rl.stats();
    assert_eq!(held, 3, "should stay at cap");
    assert_eq!(lru_evictions, 1, "should have 1 LRU eviction");
    assert_eq!(refused_after, 0, "should not refuse");
    assert!(rl.is_tracked(ip(2)), "the emptiest bucket stays");
}

#[test]
fn refuses_new_ip_when_all_throttled_at_cap() {
    let mut rl = RateLimiter::with_limits(10, 1, 2, 300);
    assert!(rl.try_take(0, ip(1)), "a drains");
    assert!(rl.try_take(0, ip(2)), "b drains");
    assert!(!rl.try_take(0, ip(1)), "a throttled");
    assert!(!rl.try_take(0, ip(2)), "b throttled");
    assert!(!rl.try_take(0, ip(3)), "new IP should be refused when all throttled at cap");

    let (held, _, _, refused) = rl.stats();
    assert_eq!(held, 2, "should still be at cap");
    assert_eq!(refused, 1, "should have 1 cap_refused");
}

#[test]
fn evicts_idle_buckets_past_ttl() {
    let mut rl = RateLimiter::with_limits(1, 1, 100, 1);
    assert!(rl.try_take(0, ip(1)), "insert old_ip");
    let (held, _, _, _) = rl.stats();
    assert_eq!(held, 1);

    assert!(rl.try_take(1100 * MS, ip(2)), "insert new_ip");

    let (held, idle_evictions, _, _) = rl.stats();
    assert_eq!(held, 1, "old_ip should be evicted");
    assert_eq!(idle_evictions, 1, "should have 1 idle eviction");
}

#[test]
fn lru_keeps_recently_touched() {
    let mut rl = RateLimiter::with_limits(100, 2, 4, 300);
    assert!(rl.try_take(0, ip(2)));
    assert!(rl.try_take(MS, ip(3)));
    assert!(rl.try_take(2 * MS, ip(4)));
    assert!(rl.try_take(3 * MS, ip(1)));

    assert!(rl.try_take(3 * MS, ip(5)), "E should be inserted");

    assert!(rl.is_tracked(ip(1)), "A should be kept (most recently touched)");
    assert!(
        !rl.is_tracked(ip(2)),
        "B should be evicted (oldest last_touch among same token count)"
    );
    assert!(rl.is_tracked(ip(5)), "E should be inserted");
}

#[test]
fn acceptor_limits_follow_the_configuration() {
    let cfg = LimitsConfig {
        max_in_flight_per_role: 1,
        accept_rate_per_ip: 1,
        accept_rate_burst: 0,
        ..LimitsConfig::default()
    };
    let mut limits = AcceptorLimits::from_config(&cfg);
    assert!(limits.sessions.try_acquire().is_some());
    assert!(limits.sessions.try_acquire().is_none());
    // A burst of none still lets one through.
    assert!(limits.rate.try_take(0, ip(1)));
    assert!(!limits.rate.try_take(0, ip(1)));
}

#[test]
fn cap_holds_in_any_order() {
    let mut cap = SessionCap::new(3);
    let mut guards = Vec::new();
    for round in 0..50u32 {
        if round % 7 < 4 {
            if let Some(guard) = cap.try_acquire() {
                guards.push(guard);
            }
        } else if let Some(guard) = guards.pop() {
            cap.release(guard);
        }
        assert!(cap.current() <= 3);
        assert_eq!(cap.current(), guards.len() as u64);
    }
}
