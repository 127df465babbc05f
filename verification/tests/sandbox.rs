use ant::tools::sandbox::{
    check_extension, default_allowed_extensions, Capability, SandboxConfig, SandboxError, WorkspaceSandbox,
    MAX_FILE_SIZE_BYTES,
};
use std::path::Path;

fn default_sandbox() -> (String, WorkspaceSandbox) {
    let home = dunce::canonicalize(dirs::home_dir().unwrap()).unwrap();
    let home = home.to_string_lossy().into_owned();
    let config = SandboxConfig::for_home(Some(&home));
    (home, WorkspaceSandbox::new(&config.root_path))
}

#[test]
fn sandbox_test_sandbox_creation() {
    let (home, sandbox) = default_sandbox();
    assert_eq!(Path::new(sandbox.root()), Path::new(&home).join(".ant").join("workspace"));
    let inside = sandbox.secure_relative("test.txt").unwrap();
    assert_eq!(Path::new(&inside), Path::new(sandbox.root()).join("test.txt"));
}

#[test]
fn integration_tests_test_sandbox_creation() {
    let (home, sandbox) = default_sandbox();
    assert!(!sandbox.root().is_empty(), "Sandbox should be created");
    assert!(Path::new(sandbox.root()).starts_with(&home), "Root should lie in the home directory");
    assert!(sandbox.secure_relative("../etc/passwd").is_err(), "Path traversal should be blocked");
}

#[test]
fn relative_paths_are_resolved_on_their_text() {
    let sandbox = WorkspaceSandbox::new("/home/u/.ant/workspace");
    assert_eq!(sandbox.secure_relative("test.txt").unwrap(), "/home/u/.ant/workspace/test.txt");
    assert_eq!(sandbox.secure_relative("a/./../b.txt").unwrap(), "/home/u/.ant/workspace/b.txt");
    assert_eq!(sandbox.secure_relative("sub/").unwrap(), "/home/u/.ant/workspace/sub");
    match sandbox.secure_relative("../etc/passwd") {
        Err(SandboxError::PathTraversal { path, root }) => {
            assert_eq!(path, "/home/u/.ant/etc/passwd");
            assert_eq!(root, "/home/u/.ant/workspace");
        }
        other => panic!("expected a traversal refusal, got {:?}", other),
    }
    assert!(sandbox.secure_relative("/etc/passwd").is_err());
    assert!(sandbox.secure_relative("a/../../workspace2/x").is_err());
    assert_eq!(sandbox.secure_relative("a/../../workspace/x").unwrap(), "/home/u/.ant/workspace/x");
}

#[test]
fn test_secure_path() {
    let sandbox = WorkspaceSandbox::new("/home/u/.ant/workspace");
    let path = sandbox.secure_path("/home/u/.ant/workspace/test.txt").unwrap();
    assert!(path.starts_with(sandbox.root()));
    let result = sandbox.secure_path("/home/u/.ant/etc/passwd");
    assert!(result.is_err());
}

#[test]
fn default_config_for_home() {
    let c = SandboxConfig::for_home(Some("/home/u"));
    assert_eq!(c.root_path, "/home/u/.ant/workspace");
    assert!(c.allow_network && c.allow_execute);
    assert_eq!(c.max_file_size_bytes, 10 * 1024 * 1024);
    assert_eq!(c.allowed_extensions.len(), 10);
    let none = SandboxConfig::for_home(None);
    assert_eq!(none.root_path, "./.ant/workspace");
}

#[test]
fn target_joins_relative_path() {
    let sandbox = WorkspaceSandbox::new("/ws");
    assert_eq!(sandbox.target("a/b.txt"), "/ws/a/b.txt");
    assert_eq!(sandbox.target("/etc/passwd"), "/etc/passwd");
}

#[test]
fn traversal_is_reported_with_paths() {
    let sandbox = WorkspaceSandbox::new("/ws");
    match sandbox.secure_path("/wsx/file") {
        Err(SandboxError::PathTraversal { path, root }) => {
            assert_eq!(path, "/wsx/file");
            assert_eq!(root, "/ws");
        }
        _ => panic!("expected PathTraversal"),
    }
    assert!(sandbox.resolve("/ws/sub/file").is_ok());
}

#[test]
fn capabilities_by_kind() {
    let sandbox = WorkspaceSandbox::new("/ws");
    assert!(sandbox.check_capability("/ws/a", &Capability::FileSystemRead).is_ok());
    assert!(sandbox.check_capability("/other", &Capability::FileSystemWrite).is_err());
    assert!(sandbox.check_capability("/other", &Capability::NetworkAccess).is_ok());
    assert!(sandbox.check_capability("/ws/data/x", &Capability::AccessPath("/ws/data".into())).is_ok());
    match sandbox.check_capability("/ws/other/x", &Capability::AccessPath("/ws/data".into())) {
        Err(SandboxError::PathAccessDenied { path, allowed }) => {
            assert_eq!(path, "/ws/other/x");
            assert_eq!(allowed, "/ws/data");
        }
        _ => panic!("expected PathAccessDenied"),
    }
}

#[test]
fn write_checks_extension_and_size() {
    let sandbox = WorkspaceSandbox::new("/ws");
    assert!(sandbox.check_write("/ws/a.rs", "a.rs", "fn main() {}").is_ok());
    assert!(sandbox.check_write("/ws/A.RS", "A.RS", "x").is_ok());
    assert!(sandbox.check_write("/ws/Makefile", "Makefile", "x").is_ok());
    match sandbox.check_write("/ws/a.exe", "a.exe", "x") {
        Err(SandboxError::ExtensionNotAllowed { extension }) => assert_eq!(extension, ".exe"),
        _ => panic!("expected ExtensionNotAllowed"),
    }
    let big = "a".repeat(MAX_FILE_SIZE_BYTES as usize + 1);
    match sandbox.check_write("/ws/big.txt", "big.txt", &big) {
        Err(SandboxError::FileTooLarge { size, limit }) => {
            assert_eq!(size, MAX_FILE_SIZE_BYTES as usize + 1);
            assert_eq!(limit, MAX_FILE_SIZE_BYTES);
        }
        _ => panic!("expected FileTooLarge"),
    }
    assert!(matches!(sandbox.check_write("/etc/a.rs", "../a.rs", "x"), Err(SandboxError::PathTraversal { .. })));
}

#[test]
fn extension_list() {
    let exts = default_allowed_extensions();
    assert!(exts.contains(&".md".to_string()));
    assert!(check_extension("notes.TXT").is_ok());
    assert!(check_extension("x.sh").is_err());
}
