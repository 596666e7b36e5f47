use warpline_core::kv::{KvStore, MemKv};
use warpline_core::types::HostCtx;

#[test]
fn mem_kv_get_missing_is_none() {
    let kv = MemKv::new();
    assert_eq!(kv.get("absent"), None);
}

#[test]
fn mem_kv_read_after_write() {
    let mut kv = MemKv::new();
    kv.put("a", b"one".to_vec());
    kv.put("b", b"two".to_vec());
    assert_eq!(kv.get("a"), Some(b"one".to_vec()));
    kv.put("a", b"three".to_vec());
    assert_eq!(kv.get("a"), Some(b"three".to_vec()));
    assert_eq!(kv.get("b"), Some(b"two".to_vec()));
}

fn ctx(tenant: &str) -> HostCtx {
    HostCtx::new(tenant.to_string(), "test-fn".to_string(), Vec::new(), 64 * 1024 * 1024)
}

#[test]
fn scoped_key_prefixes_tenant() {
    assert_eq!(ctx("tenant-a").scoped_key("foo"), "t/tenant-a/foo");
    assert_eq!(ctx("").scoped_key(""), "t//");
}

#[test]
fn kv_scoped_per_tenant() {
    let mut kv = MemKv::new();
    let a = ctx("tenant-a");
    a.kv_put(&mut kv, "foo", b"bar".to_vec());
    assert_eq!(a.kv_get(&kv, "foo"), Some(b"bar".to_vec()));
    assert_eq!(ctx("tenant-b").kv_get(&kv, "foo"), None);
    assert_eq!(kv.get("t/tenant-a/foo"), Some(b"bar".to_vec()));
    assert_eq!(kv.get("foo"), None);
}

#[test]
fn slash_in_tenant_breaks_isolation() {
    let mut kv = MemKv::new();
    ctx("a/b").kv_put(&mut kv, "c", b"v".to_vec());
    assert_eq!(ctx("a").kv_get(&kv, "b/c"), Some(b"v".to_vec()));
}

#[test]
fn mem_kv_default_is_empty() {
    let kv = MemKv::default();
    assert_eq!(kv.get(""), None);
    assert_eq!(kv.get("t/tenant-a/foo"), None);
}
