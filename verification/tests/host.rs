use warpline_core::types::{HostCtx, OutboundCheck};

fn ctx(allowed: Vec<&str>) -> HostCtx {
    HostCtx::new(
        "tenant-a".to_string(),
        "fn".to_string(),
        allowed.into_iter().map(|s| s.to_string()).collect(),
        1024,
    )
}

#[test]
fn host_ctx_new_sets_fields() {
    let c = ctx(vec!["a.example"]);
    assert_eq!(c.tenant_id, "tenant-a");
    assert_eq!(c.fn_name, "fn");
    assert_eq!(c.allowed_hosts, vec!["a.example".to_string()]);
    assert_eq!(c.limiter.mem_cap_bytes, 1024);
    assert_eq!(c.limiter.peak_bytes, 0);
    assert!(!c.limiter.cap_hit);
}

#[test]
fn empty_allowlist_denies() {
    match ctx(vec![]).check_outbound_url("http://example.invalid/") {
        OutboundCheck::Denied(msg) => {
            assert_eq!(msg, "host example.invalid not allowed");
            assert!(msg.contains("not allowed"));
        }
        other => panic!("expected Denied, got {other:?}"),
    }
}

#[test]
fn listed_host_is_allowed() {
    match ctx(vec!["other", "127.0.0.1"]).check_outbound_url("http://127.0.0.1:8080/path") {
        OutboundCheck::Allowed(host) => assert_eq!(host, "127.0.0.1"),
        other => panic!("expected Allowed, got {other:?}"),
    }
}

#[test]
fn unlisted_host_is_denied() {
    match ctx(vec!["127.0.0.1"]).check_outbound_url("https://api.example.com/x") {
        OutboundCheck::Denied(msg) => assert_eq!(msg, "host api.example.com not allowed"),
        other => panic!("expected Denied, got {other:?}"),
    }
}

#[test]
fn unparsable_url_is_invalid() {
    assert!(matches!(ctx(vec![]).check_outbound_url("not a url"), OutboundCheck::InvalidUrl));
}

#[test]
fn url_without_host_counts_as_empty_host() {
    match ctx(vec![]).check_outbound_url("data:text/plain,hi") {
        OutboundCheck::Denied(msg) => assert_eq!(msg, "host  not allowed"),
        other => panic!("expected Denied, got {other:?}"),
    }
    assert!(matches!(ctx(vec![""]).outbound_decision(Some(None)), OutboundCheck::Allowed(h) if h.is_empty()));
}

#[test]
fn outbound_decision_on_parsed_hosts() {
    let c = ctx(vec!["a"]);
    assert!(matches!(c.outbound_decision(None), OutboundCheck::InvalidUrl));
    assert!(matches!(c.outbound_decision(Some(Some("a".to_string()))), OutboundCheck::Allowed(h) if h == "a"));
    assert!(matches!(c.outbound_decision(Some(Some("b".to_string()))), OutboundCheck::Denied(m) if m == "host b not allowed"));
}

#[test]
fn host_allowed_exact_match() {
    let c = ctx(vec!["a.example", "b.example"]);
    assert!(c.host_allowed(&"b.example".to_string()));
    assert!(!c.host_allowed(&"example".to_string()));
    assert!(!c.host_allowed(&"A.EXAMPLE".to_string()));
}
