use warpline_core::runtime::{
    classify_trap, epoch_deadline_ticks, engine_settings, finish_invocation, outbound_settings,
    InvokeError, ResponseBody, DEFAULT_CPU_BUDGET_MS, DEFAULT_MEM_CAP_BYTES, MAX_RESPONSE_BODY_BYTES,
    OUTBOUND_TIMEOUT_MS, EPOCH_TICK_MS,
};
use warpline_core::types::TenantLimiter;

#[test]
fn engine_uses_epochs_not_fuel() {
    let s = engine_settings();
    assert!(s.async_support);
    assert!(s.epoch_interruption);
    assert!(!s.consume_fuel);
    assert!(s.optimize_for_speed);
    assert!(s.parallel_compilation);
}

#[test]
fn epoch_deadline_divides_budget_by_tick() {
    assert_eq!(EPOCH_TICK_MS, 5);
    assert_eq!(epoch_deadline_ticks(50), 10);
    assert_eq!(epoch_deadline_ticks(54), 10);
    assert_eq!(epoch_deadline_ticks(55), 11);
    assert_eq!(epoch_deadline_ticks(4), 0);
    assert_eq!(epoch_deadline_ticks(0), 0);
    assert_eq!(epoch_deadline_ticks(u64::MAX), u64::MAX / 5);
}

#[test]
fn defaults() {
    assert_eq!(DEFAULT_MEM_CAP_BYTES, 64 * 1024 * 1024);
    assert_eq!(DEFAULT_CPU_BUDGET_MS, 100);
    assert_eq!(MAX_RESPONSE_BODY_BYTES, 1024 * 1024);
    let o = outbound_settings();
    assert_eq!(o.timeout_ms, 5_000);
    assert_eq!(OUTBOUND_TIMEOUT_MS, 5_000);
    assert!(!o.follow_redirects);
    assert_eq!(o.max_body_bytes, 1024 * 1024);
}

#[test]
fn response_body_collects_chunks() {
    let mut body = ResponseBody::new();
    assert!(body.push_chunk(b"hel"));
    assert!(body.push_chunk(b""));
    assert!(body.push_chunk(b"lo"));
    assert_eq!(body.into_bytes(), b"hello".to_vec());
}

#[test]
fn response_body_exactly_at_cap_is_accepted() {
    let mut body = ResponseBody::new();
    assert!(body.push_chunk(&vec![b'x'; 1024 * 1024 - 1]));
    assert!(body.push_chunk(b"y"));
    assert!(!body.push_chunk(b"z"));
    assert_eq!(body.into_bytes().len(), 1024 * 1024);
}

#[test]
fn response_body_over_cap_is_refused() {
    let big = vec![b'x'; 1024 * 1024 + 4096];
    let mut body = ResponseBody::new();
    assert!(body.push_chunk(b"ab"));
    assert!(!body.push_chunk(&big));
    assert_eq!(body.into_bytes(), b"ab".to_vec());
}

#[test]
fn trap_after_memory_refusal_is_memory_cap() {
    let cap = 16 * 1024 * 1024;
    let mut limiter = TenantLimiter::new(cap);
    assert!(limiter.memory_growing(0, 8 * 1024 * 1024, None));
    assert!(!limiter.memory_growing(8 * 1024 * 1024, cap + 1, None));
    match classify_trap(&limiter, true, 5_000, "unreachable".to_string()) {
        InvokeError::MemoryCapExceeded { peak_bytes, cap_bytes } => {
            assert_eq!(cap_bytes, cap);
            assert_eq!(peak_bytes, 8 * 1024 * 1024);
            assert!(peak_bytes <= cap_bytes);
        }
        other => panic!("expected MemoryCapExceeded, got {other:?}"),
    }
}

#[test]
fn interrupted_trap_is_cpu_budget() {
    let limiter = TenantLimiter::new(1024);
    assert!(matches!(
        classify_trap(&limiter, true, 50, "interrupt".to_string()),
        InvokeError::CpuBudgetExceeded { budget_ms: 50 }
    ));
}

#[test]
fn other_trap_is_guest_trap() {
    let limiter = TenantLimiter::new(1024);
    match classify_trap(&limiter, false, 50, "panic".to_string()) {
        InvokeError::GuestTrap(m) => assert_eq!(m, "panic"),
        other => panic!("expected GuestTrap, got {other:?}"),
    }
}

#[test]
fn finish_reports_output_and_peak() {
    let mut limiter = TenantLimiter::new(1024);
    assert!(limiter.memory_growing(0, 512, None));
    let out = finish_invocation(&limiter, b"hello there".to_vec());
    assert_eq!(out.output, b"hello there");
    assert_eq!(out.peak_bytes, 512);
}
