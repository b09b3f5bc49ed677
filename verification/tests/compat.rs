use ironshield_pow::compat::{
    check_multithreading_support, check_wasm_compatibility, choose_worker_count, ExecutionMode,
    WasmCompatibility,
};

#[test]
fn default_report_is_worst_case() {
    let c = WasmCompatibility::new();
    assert_eq!(c.mode, ExecutionMode::Javascript);
    assert_eq!(c.mode_label(), "javascript");
    assert!(!c.supports_wasm);
    assert!(!c.supports_shared_memory);
    assert!(!c.supports_threads);
    assert_eq!(c.thread_count, 1);
}

#[test]
fn report_follows_probed_values() {
    let no_wasm = check_wasm_compatibility(false, true, 8);
    assert_eq!(no_wasm, WasmCompatibility::new());

    let wasm_only = check_wasm_compatibility(true, false, 8);
    assert_eq!(wasm_only.mode, ExecutionMode::Wasm);
    assert_eq!(wasm_only.mode_label(), "wasm");
    assert!(wasm_only.supports_wasm);
    assert!(!wasm_only.supports_threads);
    assert_eq!(wasm_only.thread_count, 8);

    let threaded = check_wasm_compatibility(true, true, 8);
    assert_eq!(threaded.mode, ExecutionMode::WasmMt);
    assert_eq!(threaded.mode_label(), "wasm-mt");
    assert!(threaded.supports_threads);
    assert!(threaded.supports_shared_memory);
    assert_eq!(threaded.thread_count, 8);

    // Two processors are not enough for multithreading to pay off.
    let two_cores = check_wasm_compatibility(true, true, 2);
    assert_eq!(two_cores.mode, ExecutionMode::Wasm);
    assert!(!two_cores.supports_threads);
}

#[test]
fn multithreading_needs_all_three() {
    assert!(check_multithreading_support(true, true, 3));
    assert!(!check_multithreading_support(true, true, 2));
    assert!(!check_multithreading_support(true, false, 16));
    assert!(!check_multithreading_support(false, true, 16));
}

#[test]
fn worker_count_falls_back_to_one() {
    assert_eq!(choose_worker_count(None), 1);
    let threaded = check_wasm_compatibility(true, true, 8);
    assert_eq!(choose_worker_count(Some(&threaded)), 8);
    let plain = check_wasm_compatibility(true, false, 8);
    assert_eq!(choose_worker_count(Some(&plain)), 1);
}
