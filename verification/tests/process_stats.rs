//! Tests of process information and resource arithmetic.

use codelane::process::ProcessInfo;

#[test]
fn test_memory_mb_calculation() {
    // Verify the memory conversion logic
    let bytes: u64 = 104857600; // 100 MB exactly
    let mb = bytes as f64 / 1024.0 / 1024.0;
    assert!((mb - 100.0).abs() < 0.001);

    let bytes: u64 = 1073741824; // 1 GB exactly
    let mb = bytes as f64 / 1024.0 / 1024.0;
    assert!((mb - 1024.0).abs() < 0.001);
}

#[test]
fn test_process_info_fields() {
    let info = ProcessInfo {
        pid: 4242,
        name: "zsh".to_string(),
    };
    let cloned = info.clone();
    assert_eq!(cloned.pid, 4242);
    assert_eq!(cloned.name, "zsh");
}
