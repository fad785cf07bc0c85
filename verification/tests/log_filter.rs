use worldsync::logging::{contains_str, ends_with_str, report, LogLevel};

#[test]
fn substring_search_matches_std() {
    for (s, t) in [("abc", "b"), ("abc", ""), ("", ""), ("", "a"), ("aaab", "aab"), ("abc", "abcd"), ("tarpc::client", "tarp"), ("äbc", "bc")] {
        assert_eq!(contains_str(s, t), s.contains(t), "{:?} {:?}", s, t);
        assert_eq!(ends_with_str(s, t), s.ends_with(t), "{:?} {:?}", s, t);
    }
}

#[test]
fn shader_translator_is_never_reported() {
    assert!(!report(Some("naga::front::spv::parser"), None, None, LogLevel::Error));
}

#[test]
fn spurious_rpc_client_error_is_dropped() {
    assert!(!report(Some("app"), Some("/home/x/.cargo/tarpc/src/client.rs"), Some(128), LogLevel::Error));
    assert!(report(Some("app"), Some("/home/x/.cargo/tarpc/src/client.rs"), Some(127), LogLevel::Error));
}

#[test]
fn warnings_and_errors_are_reported() {
    assert!(report(Some("wgpu_core::device"), None, None, LogLevel::Warn));
    assert!(report(Some("tarpc::server"), None, None, LogLevel::Error));
}

#[test]
fn chatty_modules_are_quiet_below_warnings() {
    assert!(!report(Some("tarpc::server"), None, None, LogLevel::Info));
    assert!(!report(Some("winit::platform_impl::linux"), None, None, LogLevel::Debug));
    assert!(!report(Some("gfx_backend_vulkan"), None, None, LogLevel::Trace));
    assert!(report(Some("worldsync::host"), None, None, LogLevel::Info));
    assert!(report(None, None, None, LogLevel::Debug));
}
