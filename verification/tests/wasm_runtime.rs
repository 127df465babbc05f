use ant::bus::SystemEvent;
use ant::tools::wasm_runtime::{
    runtime_load_warning, skill_of_tool, unpack_result, ResourceLimits, SkillManifest, SkillRegistry, WasmActor,
    WasmRuntimeConfig,
};

#[test]
fn default_manifest_and_limits() {
    let m = SkillManifest::default_for("echo");
    assert_eq!(m.name, "echo");
    assert_eq!(m.version, "1.0.0");
    assert_eq!(m.resources, ResourceLimits::default());
    assert_eq!(m.resources.max_fuel, 1_000_000);
    assert_eq!(m.resources.timeout_secs, Some(30));
    assert!(m.permissions.network.is_none());
}

#[test]
fn skill_files() {
    let c = WasmRuntimeConfig::default();
    assert_eq!(c.wasm_path("echo"), "skills/echo.wasm");
    assert_eq!(c.manifest_path("echo"), "skills/echo.toml");
    assert_eq!(WasmActor::skill_file("skills/echo.wasm"), Some("echo".to_string()));
    assert_eq!(WasmActor::skill_file("skills/echo.toml"), None);
    assert_eq!(WasmActor::skill_file("skills/a.b.wasm"), Some("a.b".to_string()));
}

#[test]
fn packed_results() {
    assert_eq!(unpack_result(0x0000_0010_0000_0020), (0x10, 0x20));
    assert_eq!(unpack_result(u64::MAX), (u32::MAX, u32::MAX));
}

#[test]
fn registry_counts_runs_and_bytes() {
    let mut r = SkillRegistry::new();
    r.load("a", SkillManifest::default_for("a"), vec![0u8; 10]);
    r.load("b", SkillManifest::default_for("b"), vec![0u8; 5]);
    r.record_execution("a");
    r.record_execution("a");
    r.record_execution("zz");
    let info = r.get_skill_info("a").unwrap();
    assert_eq!(info.execution_count, 2);
    assert_eq!(info.version, "1.0.0");
    let s = r.get_stats();
    assert_eq!((s.total_skills, s.total_executions, s.total_memory_bytes), (2, 2, 15));
    assert!(r.unload("a"));
    assert!(!r.unload("a"));
    assert!(r.get_skill_info("a").is_none());
    r.load("b", SkillManifest::default_for("b"), vec![]);
    assert_eq!(r.get_stats().total_skills, 1);
}

#[test]
fn actor_messages() {
    assert_eq!(skill_of_tool("wasm:echo"), Some("echo".to_string()));
    assert_eq!(skill_of_tool("wasm"), None);
    let es = WasmActor::failed_events("t".into(), "echo", "trap");
    assert!(matches!(&es[0], SystemEvent::TaskFailed { error, .. } if error == "WASM execution error: trap"));
    assert!(matches!(&es[1], SystemEvent::Log { level, message, .. } if level == "ERROR" && message == "Skill echo failed: trap"));
    assert!(matches!(runtime_load_warning("x", "e"), SystemEvent::Log { message, .. } if message == "Failed to load skill 'x': e"));
}
