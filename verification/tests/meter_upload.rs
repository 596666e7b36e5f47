use warpline_core::meter::meter_row;
use warpline_core::upload::{is_valid_name, is_wasm_field};

#[test]
fn meter_row_keeps_values() {
    let row = meter_row("tenant-a", "hello", 1500, 4096);
    assert_eq!(row.tenant, "tenant-a");
    assert_eq!(row.func, "hello");
    assert_eq!(row.cpu_us, 1500);
    assert_eq!(row.mem_peak_bytes, 4096);
}

#[test]
fn meter_row_wraps_like_as() {
    let row = meter_row("t", "f", u64::MAX, usize::MAX);
    assert_eq!(row.cpu_us, -1);
    assert_eq!(row.mem_peak_bytes, -1);
}

#[test]
fn wasm_field_names() {
    assert!(is_wasm_field("wasm"));
    assert!(is_wasm_field("module"));
    assert!(is_wasm_field("file"));
    assert!(!is_wasm_field("Wasm"));
    assert!(!is_wasm_field(""));
    assert!(!is_wasm_field("files"));
}

#[test]
fn names_are_single_path_components() {
    assert!(is_valid_name("tenant-a"));
    assert!(is_valid_name("hello.v2"));
    assert!(is_valid_name("..."));
    assert!(!is_valid_name(""));
    assert!(!is_valid_name("."));
    assert!(!is_valid_name(".."));
    assert!(!is_valid_name("a/b"));
    assert!(!is_valid_name("a\\b"));
    assert!(!is_valid_name("/"));
}
