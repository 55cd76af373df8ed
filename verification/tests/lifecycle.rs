use helix_bridge::codec::WindowSize;
use helix_bridge::lifecycle::{prepare_launch, session_name, variant_binary, LifecycleError};
use helix_bridge::sandbox::SandboxHandle;

#[test]
fn supported_variants_map_to_their_binaries() {
    assert_eq!(variant_binary("release"), Some("helix"));
    assert_eq!(variant_binary("master"), Some("hx"));
}

#[test]
fn unsupported_variant_is_rejected() {
    assert_eq!(variant_binary("nightly"), None);
    assert_eq!(variant_binary(""), None);
    assert_eq!(variant_binary("Release"), None);
}

#[test]
fn unknown_variant_is_rejected_before_any_launch() {
    match prepare_launch("unknown-variant", 3, 5) {
        Err(LifecycleError::UnsupportedVariant) => {},
        _ => panic!("an unsupported variant must fail before anything starts"),
    }
}

#[test]
fn launch_plan_carries_binary_and_name() {
    let plan = prepare_launch("release", 0, 1).unwrap();
    assert_eq!(plan.binary, "helix");
    assert_eq!(plan.session_name, "amber-harbor");
    let plan = prepare_launch("master", 6, 7).unwrap();
    assert_eq!(plan.binary, "hx");
    assert_eq!(plan.session_name, "cedar-otter");
}

#[test]
fn session_names_join_two_words() {
    assert_eq!(session_name(0, 0), "amber-falcon");
    assert_eq!(session_name(5, 2), "brisk-maple");
    assert_eq!(session_name(7, 4), "dusky-falcon");
}

#[test]
fn terminate_twice_is_harmless() {
    let mut handle = SandboxHandle::start(120, 40);
    assert!(!handle.terminated);
    handle.terminate();
    let cols = handle.cols;
    let rows = handle.rows;
    let input = handle.input.clone();
    assert!(handle.terminated);
    handle.terminate();
    assert!(handle.terminated);
    assert_eq!(handle.cols, cols);
    assert_eq!(handle.rows, rows);
    assert_eq!(handle.input, input);
}

#[test]
fn terminated_handle_refuses_writes_and_resizes() {
    let mut handle = SandboxHandle::start(80, 24);
    handle.terminate();
    assert!(!handle.feed(b"late"));
    assert!(handle.input.is_empty());
    assert!(!handle.apply_resize(WindowSize { cols: 1, rows: 1 }));
    assert_eq!(handle.cols, 80);
    assert_eq!(handle.rows, 24);
}
