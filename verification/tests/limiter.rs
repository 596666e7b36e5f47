use warpline_core::types::{TenantLimiter, TABLE_ELEMENT_CAP};

#[test]
fn new_limiter_starts_empty() {
    let limiter = TenantLimiter::new(4096);
    assert_eq!(limiter.mem_cap_bytes, 4096);
    assert_eq!(limiter.peak_bytes, 0);
    assert!(!limiter.cap_hit);
    assert_eq!(limiter.table_cap, 10_000);
    assert_eq!(TABLE_ELEMENT_CAP, 10_000);
}

#[test]
fn memory_growing_within_cap_records_peak() {
    let mut limiter = TenantLimiter::new(1000);
    assert!(limiter.memory_growing(0, 300, None));
    assert_eq!(limiter.peak_bytes, 300);
    assert!(limiter.memory_growing(300, 1000, Some(2000)));
    assert_eq!(limiter.peak_bytes, 1000);
    assert_eq!(limiter.peak_bytes, 1000);
    assert!(!limiter.cap_hit);
}

#[test]
fn memory_growing_above_cap_is_refused_and_sticky() {
    let mut limiter = TenantLimiter::new(1000);
    assert!(limiter.memory_growing(0, 500, None));
    assert!(!limiter.memory_growing(500, 1001, None));
    assert!(limiter.cap_hit);
    assert_eq!(limiter.peak_bytes, 500);
    assert!(limiter.memory_growing(500, 600, None));
    assert!(limiter.cap_hit);
    assert_eq!(limiter.peak_bytes, 600);
}

#[test]
fn runaway_allocator_stays_under_cap() {
    let cap = 16 * 1024 * 1024;
    let mut limiter = TenantLimiter::new(cap);
    let mut size = 0usize;
    let mut refused = false;
    for _ in 0..64 {
        let desired = size + 1024 * 1024;
        if limiter.memory_growing(size, desired, None) {
            size = desired;
        } else {
            refused = true;
            break;
        }
    }
    assert!(refused);
    assert!(limiter.cap_hit);
    assert_eq!(limiter.mem_cap_bytes, cap);
    assert!(limiter.peak_bytes <= limiter.mem_cap_bytes);
    assert_eq!(limiter.peak_bytes, cap);
}

#[test]
fn table_growing_is_capped() {
    let limiter = TenantLimiter::new(0);
    assert!(limiter.table_growing(0, 10_000, None));
    assert!(!limiter.table_growing(0, 10_001, None));
}

#[test]
fn shrinking_request_is_refused_without_cap_hit() {
    let mut limiter = TenantLimiter::new(1000);
    assert!(limiter.memory_growing(0, 600, None));
    assert!(!limiter.memory_growing(600, 200, None));
    assert!(!limiter.cap_hit);
    assert_eq!(limiter.peak_bytes, 600);
    assert!(limiter.memory_growing(600, 600, None));
}

#[test]
fn replay_reports_high_water_mark_and_cap_hit() {
    let requests = vec![(0, 100), (100, 700), (700, 300), (700, 1500), (700, 900)];
    let (limiter, decisions) = TenantLimiter::replay_memory_requests(1000, &requests);
    assert_eq!(decisions, vec![true, true, false, false, true]);
    assert_eq!(limiter.peak_bytes, 900);
    assert!(limiter.cap_hit);
    assert_eq!(limiter.mem_cap_bytes, 1000);

    let (quiet, decisions) = TenantLimiter::replay_memory_requests(1000, &vec![(0, 400), (400, 100)]);
    assert_eq!(decisions, vec![true, false]);
    assert_eq!(quiet.peak_bytes, 400);
    assert!(!quiet.cap_hit);

    let (empty, decisions) = TenantLimiter::replay_memory_requests(10, &Vec::new());
    assert!(decisions.is_empty());
    assert_eq!(empty.peak_bytes, 0);
    assert!(!empty.cap_hit);
}
