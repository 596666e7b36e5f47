use warpline_core::cache::{cwasm_file_name, digest, encode_hex, is_hex_digest, plan_load, temp_file_name, CachePlan};

#[test]
fn encode_hex_is_lowercase_pairs() {
    assert_eq!(encode_hex(&[0xbe, 0xef]), "beef");
    assert_eq!(encode_hex(&[0x00, 0x0f, 0xa0, 0xff]), "000fa0ff");
    assert_eq!(encode_hex(&[]), "");
}

#[test]
fn digest_of_empty_input() {
    assert_eq!(
        digest(b""),
        "e3b0c44298fc1c149afbf4c8996fb92427ae41e4649b934ca495991b7852b855"
    );
}

#[test]
fn digest_of_abc() {
    let d = digest(b"abc");
    assert_eq!(d, "ba7816bf8f01cfea414140de5dae2223b00361a396177a9cb410ff61f20015ad");
    assert_eq!(d.len(), 64);
    assert_eq!(digest(b"abc"), d);
    assert_ne!(digest(b"abd"), d);
}

#[test]
fn file_names() {
    assert_eq!(cwasm_file_name("abc"), "abc.cwasm");
    assert_eq!(temp_file_name("abc", 1234), "abc.1234.tmp");
    assert_eq!(temp_file_name("abc", 0), "abc.0.tmp");
    assert_eq!(temp_file_name("d", 4294967295), "d.4294967295.tmp");
}

#[test]
fn warm_plan_reads_cached_file() {
    match plan_load("ff00", true, 7) {
        CachePlan::Warm { cached } => assert_eq!(cached, "ff00.cwasm"),
        other => panic!("expected Warm, got {other:?}"),
    }
}

#[test]
fn cold_plan_writes_temp_then_renames() {
    match plan_load("ff00", false, 7) {
        CachePlan::Cold { temp, cached } => {
            assert_eq!(temp, "ff00.7.tmp");
            assert_eq!(cached, "ff00.cwasm");
            assert_ne!(temp, cached);
        }
        other => panic!("expected Cold, got {other:?}"),
    }
}

#[test]
fn hex_digest_shape() {
    assert!(is_hex_digest(&digest(b"abc")));
    assert!(is_hex_digest(&"0".repeat(64)));
    assert!(!is_hex_digest(&"0".repeat(63)));
    assert!(!is_hex_digest(&"A".repeat(64)));
    assert!(!is_hex_digest(&format!("{}/", "a".repeat(63))));
    assert!(!is_hex_digest(""));
}
