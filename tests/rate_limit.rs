use pixelboard::identity::IpAddress;
use pixelboard::rate_limit::{RateLimiter, COOLDOWN, NANOS_PER_SEC};

#[test]
fn cooldown_refuses_then_admits() {
    let mut l = RateLimiter::new();
    let k = IpAddress::V4(0x7f00_0001);
    let t0 = 1000 * NANOS_PER_SEC;
    assert_eq!(l.check_and_record(k, t0), Ok(()));
    assert_eq!(l.last_accepted(k), Some(t0));
    assert_eq!(l.check_and_record(k, t0), Err(300));
    assert_eq!(l.check_and_record(k, t0 + NANOS_PER_SEC), Err(299));
    assert_eq!(l.check_and_record(k, t0 + COOLDOWN - 1), Err(0));
    assert_eq!(l.last_accepted(k), Some(t0));
    assert_eq!(l.check_and_record(k, t0 + COOLDOWN), Ok(()));
    assert_eq!(l.last_accepted(k), Some(t0 + COOLDOWN));
}

#[test]
fn wait_rounds_down_to_whole_seconds() {
    let mut l = RateLimiter::new();
    let k = IpAddress::V6(42);
    assert_eq!(l.check_and_record(k, 0), Ok(()));
    assert_eq!(l.check_and_record(k, NANOS_PER_SEC / 2), Err(299));
}

#[test]
fn keys_are_independent() {
    let mut l = RateLimiter::new();
    let a = IpAddress::V4(1);
    let b = IpAddress::V6(1);
    assert_eq!(l.check_and_record(a, 5), Ok(()));
    assert_eq!(l.last_accepted(b), None);
    assert_eq!(l.check_and_record(b, 6), Ok(()));
    assert_eq!(l.check_and_record(IpAddress::V4(2), 7), Ok(()));
    assert_eq!(l.check_and_record(a, 8), Err(299));
}
