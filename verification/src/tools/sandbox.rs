//! The workspace sandbox: every file a tool touches must lie under one root
//! directory, and written files must have an allowed extension and size.
//!
//! A path asked for relative to the root is first resolved on its text (`.`
//! and `..` removed) and refused if it leaves the root; paths resolved against
//! the file system (links followed) are checked again as text.
use vstd::prelude::*;
use crate::path::{
    extension, join, join_path, normal_path, normalize, path_extension, path_starts_with, path_within, starts_with_path,
    within_path,
};
use crate::text::{concat2, lowercase, owned, same_text, to_lowercase, views};

verus! {

/// An operation a sandboxed tool asks to perform.
#[derive(Debug, Clone)]
pub enum Capability {
    NetworkAccess,
    FileSystemRead,
    FileSystemWrite,
    ExecuteBinaries,
    /// Access below one path.
    AccessPath(String),
}

/// An operation as plain values.
pub enum CapabilityView {
    NetworkAccess,
    FileSystemRead,
    FileSystemWrite,
    ExecuteBinaries,
    AccessPath(Seq<char>),
}

impl View for Capability {
    type V = CapabilityView;

    open spec fn view(&self) -> CapabilityView {
        match self {
            Capability::NetworkAccess => CapabilityView::NetworkAccess,
            Capability::FileSystemRead => CapabilityView::FileSystemRead,
            Capability::FileSystemWrite => CapabilityView::FileSystemWrite,
            Capability::ExecuteBinaries => CapabilityView::ExecuteBinaries,
            Capability::AccessPath(p) => CapabilityView::AccessPath(p@),
        }
    }
}

/// Why the sandbox refused an operation.
#[derive(Debug)]
pub enum SandboxError {
    /// The path leaves the sandbox root.
    PathTraversal { path: String, root: String },
    /// The path lies outside the path that the capability grants.
    PathAccessDenied { path: String, allowed: String },
    /// A written file's extension (with its dot, lower-cased) is not allowed.
    ExtensionNotAllowed { extension: String },
    /// A written file is larger than the limit, in bytes.
    FileTooLarge { size: usize, limit: u64 },
}

/// A refusal as plain values.
pub enum SandboxErrorView {
    PathTraversal { path: Seq<char>, root: Seq<char> },
    PathAccessDenied { path: Seq<char>, allowed: Seq<char> },
    ExtensionNotAllowed { extension: Seq<char> },
    FileTooLarge { size: nat, limit: nat },
}

impl View for SandboxError {
    type V = SandboxErrorView;

    open spec fn view(&self) -> SandboxErrorView {
        match self {
            SandboxError::PathTraversal { path, root } => SandboxErrorView::PathTraversal {
                path: path@,
                root: root@,
            },
            SandboxError::PathAccessDenied { path, allowed } => SandboxErrorView::PathAccessDenied {
                path: path@,
                allowed: allowed@,
            },
            SandboxError::ExtensionNotAllowed { extension } => SandboxErrorView::ExtensionNotAllowed {
                extension: extension@,
            },
            SandboxError::FileTooLarge { size, limit } => SandboxErrorView::FileTooLarge {
                size: *size as nat,
                limit: *limit as nat,
            },
        }
    }
}

/// A check's outcome as plain values.
pub open spec fn outcome(r: Result<(), SandboxError>) -> Result<(), SandboxErrorView> {
    match r {
        Ok(()) => Ok(()),
        Err(e) => Err(e@),
    }
}

/// The largest file the sandbox writes: 10 MiB.
pub const MAX_FILE_SIZE_BYTES: u64 = 10485760;

/// The extensions of files the sandbox writes.
pub open spec fn default_extensions() -> Seq<Seq<char>> {
    seq![
        ".rs"@, ".toml"@, ".json"@, ".md"@, ".txt"@, ".py"@, ".js"@, ".ts"@, ".html"@, ".css"@,
    ]
}

/// The extensions of files the sandbox writes.
pub fn default_allowed_extensions() -> (r: Vec<String>)
    ensures
        views(r@) == default_extensions(),
{
    let r = vec![
        owned(".rs"),
        owned(".toml"),
        owned(".json"),
        owned(".md"),
        owned(".txt"),
        owned(".py"),
        owned(".js"),
        owned(".ts"),
        owned(".html"),
        owned(".css"),
    ];
    assert(views(r@) =~= default_extensions());
    r
}

/// The sandbox settings.
#[derive(Debug, Clone)]
pub struct SandboxConfig {
    pub root_path: String,
    pub allow_network: bool,
    pub allow_execute: bool,
    pub max_file_size_bytes: u64,
    pub allowed_extensions: Vec<String>,
}

/// The default root: `.ant/workspace` under the home directory, or under the
/// current directory when there is none.
pub open spec fn default_root(home: Option<Seq<char>>) -> Seq<char> {
    let base = match home {
        Some(h) => h,
        None => "."@,
    };
    join_path(join_path(base, ".ant"@), "workspace"@)
}

impl SandboxConfig {
    /// The default settings for a user whose home directory is `home`:
    /// network and execution allowed, files up to 10 MiB with the usual
    /// source and text extensions.
    pub fn for_home(home: Option<&str>) -> (c: SandboxConfig)
        ensures
            c.root_path@ == default_root(match home {
                Some(h) => Some(h@),
                None => None,
            }),
            c.allow_network,
            c.allow_execute,
            c.max_file_size_bytes == MAX_FILE_SIZE_BYTES,
            views(c.allowed_extensions@) == default_extensions(),
    {
        let base = match home {
            Some(h) => owned(h),
            None => owned("."),
        };
        let ant = join(base.as_str(), ".ant");
        let root = join(ant.as_str(), "workspace");
        SandboxConfig {
            root_path: root,
            allow_network: true,
            allow_execute: true,
            max_file_size_bytes: MAX_FILE_SIZE_BYTES,
            allowed_extensions: default_allowed_extensions(),
        }
    }
}

/// Where a resolved path lands: itself when it lies under the root, else a refusal.
pub open spec fn contain(root: Seq<char>, path: Seq<char>) -> Result<Seq<char>, SandboxErrorView> {
    if path_starts_with(path, root) {
        Ok(path)
    } else {
        Err(SandboxErrorView::PathTraversal { path, root })
    }
}

/// Whether the operation `cap` on the resolved `path` is allowed.
pub open spec fn capability_check(root: Seq<char>, path: Seq<char>, cap: CapabilityView) -> Result<
    (),
    SandboxErrorView,
> {
    match cap {
        CapabilityView::FileSystemRead | CapabilityView::FileSystemWrite => match contain(root, path) {
            Ok(_) => Ok(()),
            Err(e) => Err(e),
        },
        CapabilityView::AccessPath(allowed) => match contain(root, path) {
            Ok(_) => if path_starts_with(path, allowed) {
                Ok(())
            } else {
                Err(SandboxErrorView::PathAccessDenied { path, allowed })
            },
            Err(e) => Err(e),
        },
        _ => Ok(()),
    }
}

/// The extension check of a written file: the lower-cased extension with its
/// dot must be one of the allowed ones; a name without extension passes.
pub open spec fn extension_check(relative: Seq<char>) -> Result<(), SandboxErrorView> {
    match extension(relative) {
        Some(e) => {
            let x = seq!['.'] + lowercase(e);
            if default_extensions().contains(x) {
                Ok(())
            } else {
                Err(SandboxErrorView::ExtensionNotAllowed { extension: x })
            }
        },
        None => Ok(()),
    }
}

/// Whether a file of `size` bytes may be written at the resolved `path`,
/// asked for as `relative`: containment, then extension, then size.
pub open spec fn write_check(root: Seq<char>, path: Seq<char>, relative: Seq<char>, size: nat) -> Result<
    (),
    SandboxErrorView,
> {
    match capability_check(root, path, CapabilityView::FileSystemWrite) {
        Err(e) => Err(e),
        Ok(_) => match extension_check(relative) {
            Err(e) => Err(e),
            Ok(_) => if size > MAX_FILE_SIZE_BYTES {
                Err(SandboxErrorView::FileTooLarge { size, limit: MAX_FILE_SIZE_BYTES as nat })
            } else {
                Ok(())
            },
        },
    }
}

/// A sandbox rooted at one resolved directory.
pub struct WorkspaceSandbox {
    root_dir: String,
}

impl WorkspaceSandbox {
    /// The root directory.
    pub closed spec fn root_view(&self) -> Seq<char> {
        self.root_dir@
    }

    /// A sandbox rooted at `canonical_root`, a directory that exists and is
    /// already resolved.
    pub fn new(canonical_root: &str) -> (s: WorkspaceSandbox)
        ensures
            s.root_view() == canonical_root@,
    {
        WorkspaceSandbox { root_dir: owned(canonical_root) }
    }

    /// The root directory.
    pub fn root(&self) -> (r: &str)
        ensures
            r@ == self.root_view(),
    {
        self.root_dir.as_str()
    }

    /// The path that `relative_path` names inside the sandbox, before it is
    /// resolved against the file system.
    pub fn target(&self, relative_path: &str) -> (r: String)
        ensures
            r@ == join_path(self.root_view(), relative_path@),
    {
        join(self.root_dir.as_str(), relative_path)
    }

    /// The path that `relative_path` names inside the sandbox, with `.` and
    /// `..` resolved on its text, if it stays under the root; otherwise a
    /// path-traversal refusal naming that resolved path.
    pub fn secure_relative(&self, relative_path: &str) -> (r: Result<String, SandboxError>)
        ensures
            ({
                let t = join_path(self.root_view(), relative_path@);
                match r {
                    Ok(p) => path_within(t, self.root_view()) && p@ == normal_path(t),
                    Err(e) => !path_within(t, self.root_view()) && e@ == (SandboxErrorView::PathTraversal {
                        path: normal_path(t),
                        root: self.root_view(),
                    }),
                }
            }),
    {
        let t = self.target(relative_path);
        let resolved = normalize(t.as_str());
        if within_path(t.as_str(), self.root_dir.as_str()) {
            Ok(resolved)
        } else {
            Err(SandboxError::PathTraversal { path: resolved, root: self.root_dir.clone() })
        }
    }

    /// The resolved path `canonical_target` if it lies under the root;
    /// otherwise a path-traversal refusal.
    pub fn secure_path(&self, canonical_target: &str) -> (r: Result<String, SandboxError>)
        ensures
            match r {
                Ok(p) => contain(self.root_view(), canonical_target@) == Ok::<Seq<char>, SandboxErrorView>(p@),
                Err(e) => contain(self.root_view(), canonical_target@) == Err::<Seq<char>, SandboxErrorView>(e@),
            },
    {
        if starts_with_path(canonical_target, self.root_dir.as_str()) {
            Ok(owned(canonical_target))
        } else {
            Err(SandboxError::PathTraversal { path: owned(canonical_target), root: self.root_dir.clone() })
        }
    }

    /// The same check as [`Self::secure_path`].
    pub fn resolve(&self, canonical_target: &str) -> (r: Result<String, SandboxError>)
        ensures
            match r {
                Ok(p) => contain(self.root_view(), canonical_target@) == Ok::<Seq<char>, SandboxErrorView>(p@),
                Err(e) => contain(self.root_view(), canonical_target@) == Err::<Seq<char>, SandboxErrorView>(e@),
            },
    {
        self.secure_path(canonical_target)
    }

    /// Whether the operation `capability` on the resolved `canonical_path` is
    /// allowed: file reads and writes must stay under the root, access to a
    /// path must also stay under that path; other operations are not
    /// restricted by path.
    pub fn check_capability(&self, canonical_path: &str, capability: &Capability) -> (r: Result<(), SandboxError>)
        ensures
            outcome(r) == capability_check(self.root_view(), canonical_path@, capability@),
    {
        match capability {
            Capability::FileSystemRead | Capability::FileSystemWrite => {
                match self.secure_path(canonical_path) {
                    Ok(_) => Ok(()),
                    Err(e) => Err(e),
                }
            },
            Capability::AccessPath(allowed) => {
                match self.secure_path(canonical_path) {
                    Ok(p) => {
                        if starts_with_path(p.as_str(), allowed.as_str()) {
                            Ok(())
                        } else {
                            Err(SandboxError::PathAccessDenied { path: p, allowed: allowed.clone() })
                        }
                    },
                    Err(e) => Err(e),
                }
            },
            _ => Ok(()),
        }
    }

    /// Whether `content` may be written to the resolved `canonical_path`,
    /// asked for as `relative_path`.
    pub fn check_write(&self, canonical_path: &str, relative_path: &str, content: &str) -> (r: Result<(), SandboxError>)
        ensures
            outcome(r) == write_check(
                self.root_view(),
                canonical_path@,
                relative_path@,
                content.len() as nat,
            ),
    {
        match self.check_capability(canonical_path, &Capability::FileSystemWrite) {
            Err(e) => {
                return Err(e);
            },
            Ok(()) => {},
        }
        match check_extension(relative_path) {
            Err(e) => {
                return Err(e);
            },
            Ok(()) => {},
        }
        let size = content.len();
        if size as u64 > MAX_FILE_SIZE_BYTES {
            return Err(SandboxError::FileTooLarge { size, limit: MAX_FILE_SIZE_BYTES });
        }
        Ok(())
    }
}

/// The extension check of a written file.
pub fn check_extension(relative_path: &str) -> (r: Result<(), SandboxError>)
    ensures
        outcome(r) == extension_check(relative_path@),
{
    match path_extension(relative_path) {
        None => Ok(()),
        Some(e) => {
            let x = concat2(".", to_lowercase(e.as_str()).as_str());
            proof {
                reveal_strlit(".");
                assert(x@ =~= seq!['.'] + lowercase(e@));
            }
            let allowed = default_allowed_extensions();
            let mut i: usize = 0;
            while i < allowed.len()
                invariant
                    views(allowed@) == default_extensions(),
                    extension(relative_path@) == Some(e@),
                    x@ == seq!['.'] + lowercase(e@),
                    i <= allowed@.len(),
                    forall|k: int| 0 <= k < i ==> default_extensions()[k] != x@,
                decreases allowed@.len() - i,
            {
                assert(views(allowed@)[i as int] == allowed@[i as int]@);
                if same_text(allowed[i].as_str(), x.as_str()) {
                    assert(default_extensions()[i as int] == x@);
                    assert(default_extensions().contains(x@));
                    return Ok(());
                }
                i = i + 1;
            }
            assert(!default_extensions().contains(x@));
            Err(SandboxError::ExtensionNotAllowed { extension: x })
        },
    }
}

/// Whatever file access the sandbox allows lies under its root, and access
/// granted to a path lies under that path too.
pub proof fn lemma_allowed_access_stays_inside(root: Seq<char>, path: Seq<char>, cap: CapabilityView)
    requires
        capability_check(root, path, cap) is Ok,
    ensures
        cap is FileSystemRead || cap is FileSystemWrite ==> path_starts_with(path, root),
        cap matches CapabilityView::AccessPath(a) ==> path_starts_with(path, root) && path_starts_with(path, a),
{
}

/// A write the sandbox allows lies under its root, has an allowed extension
/// (or none) and is at most 10 MiB.
pub proof fn lemma_allowed_write(root: Seq<char>, path: Seq<char>, relative: Seq<char>, size: nat)
    requires
        write_check(root, path, relative, size) is Ok,
    ensures
        path_starts_with(path, root),
        extension_check(relative) is Ok,
        size <= MAX_FILE_SIZE_BYTES,
{
}

} // verus!
