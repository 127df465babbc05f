//! Capability policies of tools: which operations a tool may perform and
//! under which paths.
use vstd::prelude::*;
use crate::path::{path_within, within_path};
use crate::text::{owned, same_text, views};

verus! {

/// A permission a tool can hold.
#[derive(Debug)]
pub enum Capability {
    /// Network access.
    NetworkAccess,
    /// Reading files.
    FileSystemRead,
    /// Writing files.
    FileSystemWrite,
    /// Running executables.
    ExecuteBinaries,
    /// Access to one path.
    AccessPath(String),
    /// Reading environment variables.
    EnvironmentAccess,
    /// Running WebAssembly.
    WasmExecution,
}

/// A capability as plain values.
pub enum CapabilityView {
    NetworkAccess,
    FileSystemRead,
    FileSystemWrite,
    ExecuteBinaries,
    AccessPath(Seq<char>),
    EnvironmentAccess,
    WasmExecution,
}

impl View for Capability {
    type V = CapabilityView;

    open spec fn view(&self) -> CapabilityView {
        match self {
            Capability::NetworkAccess => CapabilityView::NetworkAccess,
            Capability::FileSystemRead => CapabilityView::FileSystemRead,
            Capability::FileSystemWrite => CapabilityView::FileSystemWrite,
            Capability::ExecuteBinaries => CapabilityView::ExecuteBinaries,
            Capability::AccessPath(p) => CapabilityView::AccessPath(p@),
            Capability::EnvironmentAccess => CapabilityView::EnvironmentAccess,
            Capability::WasmExecution => CapabilityView::WasmExecution,
        }
    }
}

impl DeepView for Capability {
    type V = CapabilityView;

    open spec fn deep_view(&self) -> CapabilityView {
        self@
    }
}

impl PartialEq for Capability {
    fn eq(&self, other: &Self) -> (r: bool) {
        match self {
            Capability::NetworkAccess => match other {
                Capability::NetworkAccess => true,
                _ => false,
            },
            Capability::FileSystemRead => match other {
                Capability::FileSystemRead => true,
                _ => false,
            },
            Capability::FileSystemWrite => match other {
                Capability::FileSystemWrite => true,
                _ => false,
            },
            Capability::ExecuteBinaries => match other {
                Capability::ExecuteBinaries => true,
                _ => false,
            },
            Capability::AccessPath(a) => match other {
                Capability::AccessPath(b) => *a == *b,
                _ => false,
            },
            Capability::EnvironmentAccess => match other {
                Capability::EnvironmentAccess => true,
                _ => false,
            },
            Capability::WasmExecution => match other {
                Capability::WasmExecution => true,
                _ => false,
            },
        }
    }
}

impl vstd::std_specs::cmp::PartialEqSpecImpl for Capability {
    open spec fn obeys_eq_spec() -> bool {
        true
    }

    open spec fn eq_spec(&self, other: &Capability) -> bool {
        self@ == other@
    }
}

impl Capability {
    /// A copy of the capability.
    pub fn copy(&self) -> (r: Capability)
        ensures
            r@ == self@,
    {
        match self {
            Capability::NetworkAccess => Capability::NetworkAccess,
            Capability::FileSystemRead => Capability::FileSystemRead,
            Capability::FileSystemWrite => Capability::FileSystemWrite,
            Capability::ExecuteBinaries => Capability::ExecuteBinaries,
            Capability::AccessPath(p) => Capability::AccessPath(p.clone()),
            Capability::EnvironmentAccess => Capability::EnvironmentAccess,
            Capability::WasmExecution => Capability::WasmExecution,
        }
    }
}

/// The policy of one tool.
pub struct ToolPolicy {
    pub name: String,
    pub capabilities: Vec<Capability>,
    pub max_execution_time_ms: u64,
    pub max_memory_mb: u64,
    pub allowed_paths: Vec<String>,
}

/// The capabilities as plain values.
pub open spec fn cap_views(caps: Seq<Capability>) -> Seq<CapabilityView> {
    caps.map_values(|x: Capability| x@)
}

/// Whether `c` is among the capabilities.
pub open spec fn grants(caps: Seq<Capability>, c: CapabilityView) -> bool {
    cap_views(caps).contains(c)
}

fn holds(caps: &Vec<Capability>, c: &Capability) -> (b: bool)
    ensures
        b == grants(caps@, c@),
{
    let mut i: usize = 0;
    while i < caps.len()
        invariant
            i <= caps@.len(),
            forall|k: int| 0 <= k < i ==> caps@[k]@ != c@,
        decreases caps@.len() - i,
    {
        if caps[i] == *c {
            assert(cap_views(caps@)[i as int] == c@);
            return true;
        }
        i = i + 1;
    }
    assert forall|k: int| 0 <= k < caps@.len() implies cap_views(caps@)[k] != c@ by {}
    false
}

impl ToolPolicy {
    /// A policy with no capability, a 30 s time limit, a 256 MB memory limit
    /// and no path restriction.
    pub fn new(name: &str) -> (r: ToolPolicy)
        ensures
            r.name@ == name@,
            r.capabilities@.len() == 0,
            r.max_execution_time_ms == 30000,
            r.max_memory_mb == 256,
            r.allowed_paths@.len() == 0,
    {
        ToolPolicy {
            name: owned(name),
            capabilities: Vec::new(),
            max_execution_time_ms: 30000,
            max_memory_mb: 256,
            allowed_paths: Vec::new(),
        }
    }

    /// Adds a capability (a set: adding one twice keeps one).
    pub fn with_capability(self, cap: Capability) -> (r: ToolPolicy)
        ensures
            r.name == self.name,
            r.max_execution_time_ms == self.max_execution_time_ms,
            r.max_memory_mb == self.max_memory_mb,
            r.allowed_paths == self.allowed_paths,
            cap_views(r.capabilities@) == if grants(self.capabilities@, cap@) {
                cap_views(self.capabilities@)
            } else {
                cap_views(self.capabilities@).push(cap@)
            },
    {
        let mut p = self;
        if !holds(&p.capabilities, &cap) {
            let ghost before = p.capabilities@;
            p.capabilities.push(cap);
            assert(cap_views(p.capabilities@) =~= cap_views(before).push(cap@));
        }
        p
    }

    /// Sets the time limit.
    pub fn with_timeout(self, ms: u64) -> (r: ToolPolicy)
        ensures
            r.name == self.name,
            r.capabilities == self.capabilities,
            r.max_execution_time_ms == ms,
            r.max_memory_mb == self.max_memory_mb,
            r.allowed_paths == self.allowed_paths,
    {
        let mut p = self;
        p.max_execution_time_ms = ms;
        p
    }

    /// Sets the memory limit.
    pub fn with_memory_limit(self, mb: u64) -> (r: ToolPolicy)
        ensures
            r.name == self.name,
            r.capabilities == self.capabilities,
            r.max_execution_time_ms == self.max_execution_time_ms,
            r.max_memory_mb == mb,
            r.allowed_paths == self.allowed_paths,
    {
        let mut p = self;
        p.max_memory_mb = mb;
        p
    }

    /// Adds an allowed path.
    pub fn with_allowed_path(self, path: &str) -> (r: ToolPolicy)
        ensures
            r.name == self.name,
            r.capabilities == self.capabilities,
            r.max_execution_time_ms == self.max_execution_time_ms,
            r.max_memory_mb == self.max_memory_mb,
            views(r.allowed_paths@) == views(self.allowed_paths@).push(path@),
    {
        let mut p = self;
        let ghost before = p.allowed_paths@;
        p.allowed_paths.push(owned(path));
        assert(views(p.allowed_paths@) =~= views(before).push(path@));
        p
    }

    /// Whether the policy grants `cap`.
    pub fn has_capability(&self, cap: &Capability) -> (b: bool)
        ensures
            b == grants(self.capabilities@, cap@),
    {
        holds(&self.capabilities, cap)
    }
}

/// Why an access was refused.
#[derive(Debug)]
pub enum PolicyError {
    /// No policy is registered for the tool.
    PolicyNotFound { tool: String },
    /// The tool's policy lacks the capability.
    AccessDenied { tool: String, capability: Capability },
    /// The path is under none of the tool's allowed paths.
    PathDenied { tool: String, path: String },
}

/// The policies of all tools, keyed by tool name.
pub struct PolicyEngine {
    names: Vec<String>,
    policies: Vec<ToolPolicy>,
    workspace_root: String,
}

/// The policy of `p` is `name`'s, with exactly the capabilities `caps`, the
/// given limits and allowed paths.
pub open spec fn policy_is(
    p: ToolPolicy,
    name: Seq<char>,
    caps: Seq<CapabilityView>,
    time_ms: u64,
    mem_mb: u64,
    paths: Seq<Seq<char>>,
) -> bool {
    &&& p.name@ == name
    &&& cap_views(p.capabilities@) == caps
    &&& p.max_execution_time_ms == time_ms
    &&& p.max_memory_mb == mem_mb
    &&& views(p.allowed_paths@) == paths
}

impl PolicyEngine {
    /// The registered policies by tool name.
    pub closed spec fn policies(self) -> Map<Seq<char>, ToolPolicy> {
        Map::new(
            |t: Seq<char>| views(self.names@).contains(t),
            |t: Seq<char>| self.policies@[choose|i: int| 0 <= i < self.names@.len() && self.names@[i]@ == t],
        )
    }

    /// The workspace root the engine was made for.
    pub closed spec fn root(self) -> Seq<char> {
        self.workspace_root@
    }

    /// One policy per name.
    pub closed spec fn wf(self) -> bool {
        &&& self.names@.len() == self.policies@.len()
        &&& views(self.names@).no_duplicates()
    }

    fn find(&self, tool: &str) -> (r: Option<usize>)
        requires
            self.wf(),
        ensures
            r matches Some(i) ==> i < self.names@.len() && self.names@[i as int]@ == tool@
                && self.policies().contains_key(tool@) && self.policies()[tool@] == self.policies@[i as int],
            r is None ==> !self.policies().contains_key(tool@),
    {
        let mut i: usize = 0;
        while i < self.names.len()
            invariant
                self.wf(),
                i <= self.names@.len(),
                forall|k: int| 0 <= k < i ==> self.names@[k]@ != tool@,
            decreases self.names@.len() - i,
        {
            if same_text(self.names[i].as_str(), tool) {
                proof {
                    assert(views(self.names@)[i as int] == tool@);
                    let c = choose|c: int| 0 <= c < self.names@.len() && self.names@[c]@ == tool@;
                    assert(views(self.names@)[c] == views(self.names@)[i as int]);
                    assert(c == i as int);
                    assert(views(self.names@).contains(tool@));
                    assert(self.policies().contains_key(tool@));
                    assert(self.policies()[tool@] == self.policies@[c]);
                }
                return Some(i);
            }
            i = i + 1;
        }
        assert forall|k: int| 0 <= k < views(self.names@).len() implies views(self.names@)[k] != tool@ by {}
        None
    }

    /// Registers `policy` under `name`, replacing any policy of that name.
    pub fn register_policy(&mut self, name: &str, policy: ToolPolicy)
        requires
            old(self).wf(),
        ensures
            final(self).wf(),
            final(self).root() == old(self).root(),
            final(self).policies() == old(self).policies().insert(name@, policy),
    {
        let ghost old_map = self.policies();
        let ghost old_names = self.names@;
        let ghost old_pols = self.policies@;
        match self.find(name) {
            Some(i) => {
                self.policies.set(i, policy);
                proof {
                    assert(self.names@ == old_names);
                    assert forall|t: Seq<char>| #[trigger] self.policies().contains_key(t) implies self.policies()[t] == old_map.insert(name@, policy)[t] by {
                        let c = choose|c: int| 0 <= c < self.names@.len() && self.names@[c]@ == t;
                        assert(views(self.names@).contains(t));
                        let w = choose|w: int| 0 <= w < views(self.names@).len() && views(self.names@)[w] == t;
                        assert(self.names@[w]@ == t);
                        if t == name@ {
                            assert(views(self.names@)[c] == views(self.names@)[i as int]);
                        } else {
                            assert(c != i);
                            assert(self.policies@[c] == old_pols[c]);
                        }
                    }
                    assert(self.policies().dom() =~= old_map.insert(name@, policy).dom());
                    assert(self.policies() =~= old_map.insert(name@, policy));
                }
            },
            None => {
                self.names.push(owned(name));
                self.policies.push(policy);
                proof {
                    let n = old_names.len() as int;
                    assert(views(self.names@) =~= views(old_names).push(name@));
                    assert forall|a: int, b: int| 0 <= a < b < views(self.names@).len() implies views(self.names@)[a] != views(self.names@)[b] by {
                        if b == n {
                            assert(views(old_names).contains(views(old_names)[a]));
                        }
                    }
                    assert forall|t: Seq<char>| #[trigger] self.policies().contains_key(t) implies self.policies()[t] == old_map.insert(name@, policy)[t] by {
                        let c = choose|c: int| 0 <= c < self.names@.len() && self.names@[c]@ == t;
                        assert(views(self.names@).contains(t));
                        let w = choose|w: int| 0 <= w < views(self.names@).len() && views(self.names@)[w] == t;
                        assert(self.names@[w]@ == t);
                        if t == name@ {
                            assert(views(self.names@)[c] == views(self.names@)[n]);
                        } else {
                            assert(c != n);
                            assert(views(old_names)[c] == t);
                            let c0 = choose|c0: int| 0 <= c0 < old_names.len() && old_names[c0]@ == t;
                            assert(views(old_names)[c0] == views(old_names)[c]);
                        }
                    }
                    assert forall|t: Seq<char>| #[trigger] self.policies().contains_key(t) <==> old_map.insert(name@, policy).contains_key(t) by {
                        if views(old_names).contains(t) {
                            let w = choose|w: int| 0 <= w < views(old_names).len() && views(old_names)[w] == t;
                            assert(views(self.names@)[w] == t);
                        }
                        if views(self.names@).contains(t) && t != name@ {
                            let w = choose|w: int| 0 <= w < views(self.names@).len() && views(self.names@)[w] == t;
                            assert(views(old_names)[w] == t);
                        }
                        if t == name@ {
                            assert(views(self.names@)[n] == t);
                        }
                    }
                    assert(self.policies().dom() =~= old_map.insert(name@, policy).dom());
                    assert(self.policies() =~= old_map.insert(name@, policy));
                }
            },
        }
    }

    /// The engine for a workspace, with the default policies of the browser,
    /// lsp, wasm, git and shell tools. (Creating the workspace directory is
    /// the caller's part.)
    pub fn new(workspace_root: &str) -> (r: PolicyEngine)
        ensures
            r.wf(),
            r.root() == workspace_root@,
            r.policies().dom() == set![
                "browser"@,
                "lsp"@,
                "wasm"@,
                "git"@,
                "shell"@,
            ],
            policy_is(
                r.policies()["browser"@],
                "browser"@,
                seq![CapabilityView::NetworkAccess, CapabilityView::FileSystemWrite],
                60000,
                512,
                seq![workspace_root@],
            ),
            policy_is(
                r.policies()["lsp"@],
                "lsp"@,
                seq![CapabilityView::FileSystemRead, CapabilityView::ExecuteBinaries],
                30000,
                1024,
                seq![],
            ),
            policy_is(
                r.policies()["wasm"@],
                "wasm"@,
                seq![CapabilityView::WasmExecution, CapabilityView::FileSystemRead],
                10000,
                128,
                seq![],
            ),
            policy_is(
                r.policies()["git"@],
                "git"@,
                seq![
                    CapabilityView::FileSystemRead,
                    CapabilityView::FileSystemWrite,
                    CapabilityView::ExecuteBinaries,
                ],
                120000,
                256,
                seq![workspace_root@],
            ),
            policy_is(
                r.policies()["shell"@],
                "shell"@,
                seq![
                    CapabilityView::ExecuteBinaries,
                    CapabilityView::FileSystemRead,
                    CapabilityView::FileSystemWrite,
                ],
                60000,
                256,
                seq![workspace_root@],
            ),
    {
        let mut engine = PolicyEngine {
            names: Vec::new(),
            policies: Vec::new(),
            workspace_root: owned(workspace_root),
        };
        proof {
            assert(engine.policies() =~= Map::empty());
        }
        engine.register_default_policies();
        engine
    }

    /// Registers the default policies.
    fn register_default_policies(&mut self)
        requires
            old(self).wf(),
            old(self).policies() == Map::<Seq<char>, ToolPolicy>::empty(),
        ensures
            final(self).wf(),
            final(self).root() == old(self).root(),
            final(self).policies().dom() == set!["browser"@, "lsp"@, "wasm"@, "git"@, "shell"@],
            policy_is(
                final(self).policies()["browser"@],
                "browser"@,
                seq![CapabilityView::NetworkAccess, CapabilityView::FileSystemWrite],
                60000,
                512,
                seq![old(self).root()],
            ),
            policy_is(
                final(self).policies()["lsp"@],
                "lsp"@,
                seq![CapabilityView::FileSystemRead, CapabilityView::ExecuteBinaries],
                30000,
                1024,
                seq![],
            ),
            policy_is(
                final(self).policies()["wasm"@],
                "wasm"@,
                seq![CapabilityView::WasmExecution, CapabilityView::FileSystemRead],
                10000,
                128,
                seq![],
            ),
            policy_is(
                final(self).policies()["git"@],
                "git"@,
                seq![
                    CapabilityView::FileSystemRead,
                    CapabilityView::FileSystemWrite,
                    CapabilityView::ExecuteBinaries,
                ],
                120000,
                256,
                seq![old(self).root()],
            ),
            policy_is(
                final(self).policies()["shell"@],
                "shell"@,
                seq![
                    CapabilityView::ExecuteBinaries,
                    CapabilityView::FileSystemRead,
                    CapabilityView::FileSystemWrite,
                ],
                60000,
                256,
                seq![old(self).root()],
            ),
    {
        proof {
            reveal_strlit("browser");
            reveal_strlit("lsp");
            reveal_strlit("wasm");
            reveal_strlit("git");
            reveal_strlit("shell");
            assert("browser"@.len() == 7 && "lsp"@.len() == 3 && "wasm"@.len() == 4 && "git"@.len() == 3 && "shell"@.len() == 5);
            assert("git"@[0] != "lsp"@[0]);
            assert("git"@ != "lsp"@);
            assert("browser"@ != "lsp"@ && "browser"@ != "wasm"@ && "browser"@ != "git"@ && "browser"@ != "shell"@);
            assert("lsp"@ != "wasm"@ && "lsp"@ != "shell"@ && "wasm"@ != "git"@ && "wasm"@ != "shell"@ && "git"@ != "shell"@);
        }
        let root = self.workspace_root.clone();
        let browser = ToolPolicy::new("browser").with_capability(Capability::NetworkAccess).with_capability(
            Capability::FileSystemWrite,
        ).with_timeout(60000).with_memory_limit(512).with_allowed_path(root.as_str());
        assert(cap_views(browser.capabilities@) =~= seq![CapabilityView::NetworkAccess, CapabilityView::FileSystemWrite]);
        assert(views(browser.allowed_paths@) =~= seq![root@]);
        let ghost g_browser = browser;
        self.register_policy("browser", browser);
        let lsp = ToolPolicy::new("lsp").with_capability(Capability::FileSystemRead).with_capability(
            Capability::ExecuteBinaries,
        ).with_timeout(30000).with_memory_limit(1024);
        assert(cap_views(lsp.capabilities@) =~= seq![CapabilityView::FileSystemRead, CapabilityView::ExecuteBinaries]);
        assert(views(lsp.allowed_paths@) =~= seq![]);
        let ghost g_lsp = lsp;
        self.register_policy("lsp", lsp);
        let wasm = ToolPolicy::new("wasm").with_capability(Capability::WasmExecution).with_capability(
            Capability::FileSystemRead,
        ).with_timeout(10000).with_memory_limit(128);
        assert(cap_views(wasm.capabilities@) =~= seq![CapabilityView::WasmExecution, CapabilityView::FileSystemRead]);
        assert(views(wasm.allowed_paths@) =~= seq![]);
        let ghost g_wasm = wasm;
        self.register_policy("wasm", wasm);
        let git = ToolPolicy::new("git").with_capability(Capability::FileSystemRead).with_capability(
            Capability::FileSystemWrite,
        ).with_capability(Capability::ExecuteBinaries).with_timeout(120000).with_allowed_path(root.as_str());
        assert(cap_views(git.capabilities@) =~= seq![
            CapabilityView::FileSystemRead,
            CapabilityView::FileSystemWrite,
            CapabilityView::ExecuteBinaries,
        ]);
        assert(views(git.allowed_paths@) =~= seq![root@]);
        let ghost g_git = git;
        self.register_policy("git", git);
        let shell = ToolPolicy::new("shell").with_capability(Capability::ExecuteBinaries).with_capability(
            Capability::FileSystemRead,
        ).with_capability(Capability::FileSystemWrite).with_timeout(60000).with_allowed_path(root.as_str());
        assert(cap_views(shell.capabilities@) =~= seq![
            CapabilityView::ExecuteBinaries,
            CapabilityView::FileSystemRead,
            CapabilityView::FileSystemWrite,
        ]);
        assert(views(shell.allowed_paths@) =~= seq![root@]);
        let ghost g_shell = shell;
        self.register_policy("shell", shell);
        assert(self.policies().dom() =~= set!["browser"@, "lsp"@, "wasm"@, "git"@, "shell"@]);
        assert(self.policies()["browser"@] == g_browser);
        assert(self.policies()["lsp"@] == g_lsp);
        assert(self.policies()["wasm"@] == g_wasm);
        assert(self.policies()["git"@] == g_git);
        assert(self.policies()["shell"@] == g_shell);
    }

    /// Checks that `tool` has a policy granting `operation`.
    pub fn check_access(&self, tool: &str, operation: &Capability) -> (r: Result<(), PolicyError>)
        requires
            self.wf(),
        ensures
            r is Ok <==> self.policies().contains_key(tool@) && grants(
                self.policies()[tool@].capabilities@,
                operation@,
            ),
            r matches Err(PolicyError::PolicyNotFound { tool: t }) ==> t@ == tool@
                && !self.policies().contains_key(tool@),
            r matches Err(PolicyError::AccessDenied { tool: t, capability: c }) ==> t@ == tool@
                && c@ == operation@ && self.policies().contains_key(tool@),
            !(r matches Err(PolicyError::PathDenied { .. })),
    {
        match self.find(tool) {
            None => Err(PolicyError::PolicyNotFound { tool: owned(tool) }),
            Some(i) => {
                if self.policies[i].has_capability(operation) {
                    Ok(())
                } else {
                    Err(PolicyError::AccessDenied { tool: owned(tool), capability: operation.copy() })
                }
            },
        }
    }

    /// Checks that `path`, with `.` and `..` resolved, lies under one of the
    /// tool's allowed paths; a policy without allowed paths restricts nothing.
    pub fn check_path(&self, tool: &str, path: &str) -> (r: Result<(), PolicyError>)
        requires
            self.wf(),
        ensures
            r is Ok <==> self.policies().contains_key(tool@) && ({
                let ps = views(self.policies()[tool@].allowed_paths@);
                ps.len() == 0 || exists|k: int| 0 <= k < ps.len() && path_within(path@, #[trigger] ps[k])
            }),
            r matches Err(PolicyError::PolicyNotFound { tool: t }) ==> t@ == tool@
                && !self.policies().contains_key(tool@),
            r matches Err(PolicyError::PathDenied { tool: t, path: p }) ==> t@ == tool@ && p@ == path@
                && self.policies().contains_key(tool@),
            !(r matches Err(PolicyError::AccessDenied { .. })),
    {
        match self.find(tool) {
            None => Err(PolicyError::PolicyNotFound { tool: owned(tool) }),
            Some(i) => {
                let p = &self.policies[i];
                let ghost ps = views(p.allowed_paths@);
                assert(*p == self.policies()[tool@]);
                if p.allowed_paths.len() == 0 {
                    return Ok(());
                }
                let mut k: usize = 0;
                while k < p.allowed_paths.len()
                    invariant
                        *p == self.policies()[tool@],
                        self.policies().contains_key(tool@),
                        ps == views(p.allowed_paths@),
                        k <= ps.len(),
                        forall|q: int| 0 <= q < k ==> !path_within(path@, #[trigger] ps[q]),
                    decreases ps.len() - k,
                {
                    if within_path(path, p.allowed_paths[k].as_str()) {
                        assert(path_within(path@, ps[k as int]));
                        return Ok(());
                    }
                    k = k + 1;
                }
                Err(PolicyError::PathDenied { tool: owned(tool), path: owned(path) })
            },
        }
    }

    /// The policy registered for `tool`.
    pub fn get_policy(&self, tool: &str) -> (r: Option<&ToolPolicy>)
        requires
            self.wf(),
        ensures
            r matches Some(p) ==> self.policies().contains_key(tool@) && *p == self.policies()[tool@],
            r is None ==> !self.policies().contains_key(tool@),
    {
        match self.find(tool) {
            None => None,
            Some(i) => Some(&self.policies[i]),
        }
    }

    /// The workspace root.
    pub fn workspace_root(&self) -> (r: &str)
        ensures
            r@ == self.root(),
    {
        self.workspace_root.as_str()
    }
}

} // verus!
