use escrow_engine::error::Error;
use escrow_engine::rate_limit::{decide, CallerRecord, RateLimitConfig, RateLimiter};
use escrow_engine::types::Address;

fn account(n: u128) -> Address {
    Address::account(0, n)
}

fn limiter(window_size: u64, max_operations: u32, cooldown_period: u64) -> RateLimiter {
    let mut l = RateLimiter::new();
    l.update_config(RateLimitConfig { window_size, max_operations, cooldown_period });
    l
}

#[test]
fn new_limiter_stands_in_nobodys_way() {
    let mut l = RateLimiter::new();
    let config = l.get_config();
    assert_eq!(config.window_size, 3600);
    assert_eq!(config.max_operations, u32::MAX);
    assert_eq!(config.cooldown_period, 0);
    for _ in 0..500 {
        assert_eq!(l.check_and_record(account(1), 10), Ok(()));
    }
    assert_eq!(l.get_record(account(1)).operations_in_window, 500);
}

#[test]
fn at_most_max_operations_pass_within_one_window() {
    let mut l = limiter(100, 3, 0);
    let a = account(1);
    let mut passed = 0;
    for t in 1000..1100u64 {
        if l.check_and_record(a, t).is_ok() {
            passed += 1;
        } else {
            assert_eq!(l.check_and_record(a, t), Err(Error::RateLimit));
        }
    }
    assert_eq!(passed, 3);
    let rec = l.get_record(a);
    assert_eq!(rec.window_start, 1000);
    assert_eq!(rec.operations_in_window, 3);
    assert_eq!(rec.last_op_at, 1002);
    // The window has run out exactly 100 s after it began.
    assert_eq!(l.check_and_record(a, 1100), Ok(()));
    let rec = l.get_record(a);
    assert_eq!(rec.window_start, 1100);
    assert_eq!(rec.operations_in_window, 1);
}

#[test]
fn cooldown_is_measured_from_the_last_admitted_call() {
    let mut l = limiter(3600, 10, 60);
    let a = account(1);
    assert_eq!(l.check_and_record(a, 1000), Ok(()));
    assert_eq!(l.check_and_record(a, 1000), Err(Error::Cooldown));
    assert_eq!(l.check_and_record(a, 1059), Err(Error::Cooldown));
    assert_eq!(l.get_record(a).last_op_at, 1000);
    assert_eq!(l.check_and_record(a, 1060), Ok(()));
    assert_eq!(l.get_record(a).operations_in_window, 2);
    // A clock that runs backwards counts as no time passed.
    assert_eq!(l.check_and_record(a, 5), Err(Error::Cooldown));
    // Another caller is not held back.
    assert_eq!(l.check_and_record(account(2), 1060), Ok(()));
}

#[test]
fn cooldown_wins_over_the_rate_limit() {
    let mut l = limiter(3600, 1, 60);
    let a = account(1);
    assert_eq!(l.check_and_record(a, 1000), Ok(()));
    assert_eq!(l.check_and_record(a, 1010), Err(Error::Cooldown));
    assert_eq!(l.check_and_record(a, 1060), Err(Error::RateLimit));
    assert_eq!(l.check_and_record(a, 4600), Ok(()));
}

#[test]
fn whitelisted_callers_bypass_window_and_cooldown() {
    let mut l = limiter(3600, 1, 60);
    let a = account(1);
    assert_eq!(l.check_and_record(a, 1000), Ok(()));
    let before = l.get_record(a);
    l.set_whitelist(a, true);
    assert!(l.is_whitelisted(a));
    for _ in 0..20 {
        assert_eq!(l.check_and_record(a, 1001), Ok(()));
    }
    let after = l.get_record(a);
    assert_eq!(after.operations_in_window, before.operations_in_window);
    assert_eq!(after.last_op_at, before.last_op_at);
    l.set_whitelist(a, false);
    assert!(!l.is_whitelisted(a));
    assert_eq!(l.check_and_record(a, 1001), Err(Error::Cooldown));
    assert!(!l.is_whitelisted(account(2)));
}

#[test]
fn zero_operations_admit_nobody() {
    let mut l = limiter(10, 0, 0);
    assert_eq!(l.check_and_record(account(1), 1), Err(Error::RateLimit));
    assert_eq!(l.records.len(), 0);
}

#[test]
fn decision_on_a_single_record() {
    let cfg = RateLimitConfig { window_size: 100, max_operations: 2, cooldown_period: 10 };
    let fresh = CallerRecord {
        caller: account(1),
        window_start: 0,
        operations_in_window: 0,
        last_op_at: 0,
        whitelisted: false,
    };
    let first = decide(&cfg, &fresh, 50).unwrap();
    assert_eq!(first.window_start, 0);
    assert_eq!(first.operations_in_window, 1);
    assert_eq!(first.last_op_at, 50);
    assert_eq!(decide(&cfg, &first, 59), Err(Error::Cooldown));
    let second = decide(&cfg, &first, 60).unwrap();
    assert_eq!(second.operations_in_window, 2);
    assert_eq!(decide(&cfg, &second, 99), Err(Error::RateLimit));
    let renewed = decide(&cfg, &second, 100).unwrap();
    assert_eq!(renewed.window_start, 100);
    assert_eq!(renewed.operations_in_window, 1);
    let listed = CallerRecord { whitelisted: true, ..second };
    assert_eq!(decide(&cfg, &listed, 61), Ok(listed));
}
