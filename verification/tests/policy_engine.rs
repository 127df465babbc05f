use ant::sys::policy_engine::{Capability, PolicyEngine, PolicyError, ToolPolicy};

#[test]
fn test_policy_creation() {
    let policy = ToolPolicy::new("test")
        .with_capability(Capability::NetworkAccess)
        .with_timeout(5000);

    assert_eq!(policy.name, "test");
    assert!(policy.capabilities.contains(&Capability::NetworkAccess));
    assert_eq!(policy.max_execution_time_ms, 5000);
}

#[test]
fn test_policy_engine() {
    let engine = PolicyEngine::new("/tmp/test_policy");

    let result = engine.check_access("browser", &Capability::NetworkAccess);
    assert!(result.is_ok());

    let result = engine.check_access("browser", &Capability::WasmExecution);
    assert!(result.is_err());
}

#[test]
fn policy_capability_added_once() {
    let policy = ToolPolicy::new("x")
        .with_capability(Capability::FileSystemRead)
        .with_capability(Capability::FileSystemRead);
    assert_eq!(policy.capabilities.len(), 1);
    assert!(policy.has_capability(&Capability::FileSystemRead));
    assert!(!policy.has_capability(&Capability::FileSystemWrite));
}

#[test]
fn policy_limits_and_paths() {
    let policy = ToolPolicy::new("x").with_memory_limit(256).with_allowed_path("/data");
    assert_eq!(policy.max_memory_mb, 256);
    assert_eq!(policy.allowed_paths, vec!["/data".to_string()]);
}

#[test]
fn unknown_tool_has_no_policy() {
    let engine = PolicyEngine::new("/tmp/ws");
    match engine.check_access("nope", &Capability::NetworkAccess) {
        Err(PolicyError::PolicyNotFound { tool }) => assert_eq!(tool, "nope"),
        _ => panic!("expected PolicyNotFound"),
    }
}

#[test]
fn denied_capability_names_tool() {
    let engine = PolicyEngine::new("/tmp/ws");
    match engine.check_access("lsp", &Capability::NetworkAccess) {
        Err(PolicyError::AccessDenied { tool, .. }) => assert_eq!(tool, "lsp"),
        _ => panic!("expected AccessDenied"),
    }
}

#[test]
fn registered_policy_is_found() {
    let mut engine = PolicyEngine::new("/tmp/ws");
    engine.register_policy("custom", ToolPolicy::new("custom").with_capability(Capability::EnvironmentAccess));
    assert!(engine.get_policy("custom").is_some());
    assert!(engine.check_access("custom", &Capability::EnvironmentAccess).is_ok());
    assert!(engine.check_access("custom", &Capability::NetworkAccess).is_err());
}

#[test]
fn path_checks_follow_allowed_paths() {
    let mut engine = PolicyEngine::new("/tmp/ws");
    engine.register_policy("files", ToolPolicy::new("files").with_allowed_path("/srv/data"));
    assert!(engine.check_path("files", "/srv/data/a.txt").is_ok());
    match engine.check_path("files", "/srv/database") {
        Err(PolicyError::PathDenied { tool, path }) => {
            assert_eq!(tool, "files");
            assert_eq!(path, "/srv/database");
        }
        _ => panic!("expected PathDenied"),
    }
    engine.register_policy("free", ToolPolicy::new("free"));
    assert!(engine.check_path("free", "/anywhere").is_ok());
    assert!(engine.check_path("missing", "/x").is_err());
}

#[test]
fn workspace_root_is_kept() {
    let engine = PolicyEngine::new("/tmp/ws");
    assert_eq!(engine.workspace_root(), "/tmp/ws");
}

#[test]
fn check_path_resolves_parent_components() {
    let e = PolicyEngine::new("/w");
    assert!(e.check_path("git", "/w/../escape.txt").is_err());
    assert!(e.check_path("git", "/w/a/../../escape.txt").is_err());
    assert!(e.check_path("git", "/w/a/../b.txt").is_ok());
    assert!(e.check_path("git", "/w/./c/d").is_ok());
    assert!(e.check_path("git", "/etc/passwd").is_err());
}
