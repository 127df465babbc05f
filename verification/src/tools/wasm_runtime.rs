//! WebAssembly skills: their manifests and default limits, where their
//! files lie, the registry of loaded skills with its statistics, and the
//! decoding of a skill's packed result. Compiling and running modules
//! happens outside.
use vstd::prelude::*;
use crate::bus::{SystemEvent, SystemEventView};
use crate::path::{extension, file_stem, join, join_path, stem_with_extension};
use crate::text::{chars_of, concat2, concat3, has_prefix, owned, push_str, starts_with, string_of};
use crate::text_map::TextMap;

verus! {

/// How a skill may use its files.
#[derive(Debug, Clone, Copy, PartialEq, Eq, Structural)]
pub enum FsMode {
    ReadOnly,
    WriteOnly,
    ReadWrite,
}

/// The files a skill may use.
#[derive(Debug, Clone)]
pub struct FileSystemAccess {
    pub allowed_paths: Vec<String>,
    pub mode: FsMode,
}

/// What a skill may do.
#[derive(Debug, Clone)]
pub struct SkillPermissions {
    pub filesystem: Option<FileSystemAccess>,
    pub network: Option<bool>,
    pub execute: Option<Vec<String>>,
    pub env: Option<Vec<String>>,
}

impl Default for SkillPermissions {
    fn default() -> (p: SkillPermissions)
        ensures
            p.filesystem is None && p.network is None && p.execute is None && p.env is None,
    {
        SkillPermissions { filesystem: None, network: None, execute: None, env: None }
    }
}

/// The resources a skill may use.
#[derive(Debug, Clone, Copy, PartialEq, Eq, Structural)]
pub struct ResourceLimits {
    /// Fuel (units of computation).
    pub max_fuel: u64,
    pub max_memory_mb: Option<u64>,
    pub timeout_secs: Option<u64>,
    pub max_stack_frames: Option<usize>,
}

impl Default for ResourceLimits {
    fn default() -> (r: ResourceLimits)
        ensures
            r == (ResourceLimits {
                max_fuel: 1_000_000,
                max_memory_mb: Some(64),
                timeout_secs: Some(30),
                max_stack_frames: Some(100),
            }),
    {
        ResourceLimits { max_fuel: 1_000_000, max_memory_mb: Some(64), timeout_secs: Some(30), max_stack_frames: Some(100) }
    }
}

/// The functions a skill exports.
#[derive(Debug, Clone)]
pub struct SkillExports {
    pub process: Option<String>,
    pub init: Option<String>,
    pub cleanup: Option<String>,
}

impl Default for SkillExports {
    fn default() -> (e: SkillExports)
        ensures
            e.process is None && e.init is None && e.cleanup is None,
    {
        SkillExports { process: None, init: None, cleanup: None }
    }
}

/// A skill's manifest.
#[derive(Debug, Clone)]
pub struct SkillManifest {
    pub name: String,
    pub version: String,
    pub description: Option<String>,
    pub author: Option<String>,
    pub permissions: SkillPermissions,
    pub resources: ResourceLimits,
    pub exports: SkillExports,
    pub dependencies: Option<Vec<String>>,
}

impl SkillManifest {
    /// The manifest of a skill that has none of its own: version 1.0.0, no
    /// permissions, default limits, no declared exports.
    pub fn default_for(skill_name: &str) -> (m: SkillManifest)
        ensures
            m.name@ == skill_name@,
            m.version@ == "1.0.0"@,
            m.description is None && m.author is None && m.dependencies is None,
            m.permissions.filesystem is None && m.permissions.network is None,
            m.permissions.execute is None && m.permissions.env is None,
            m.resources == (ResourceLimits {
                max_fuel: 1_000_000,
                max_memory_mb: Some(64),
                timeout_secs: Some(30),
                max_stack_frames: Some(100),
            }),
            m.exports.process is None && m.exports.init is None && m.exports.cleanup is None,
    {
        SkillManifest {
            name: owned(skill_name),
            version: owned("1.0.0"),
            description: None,
            author: None,
            permissions: SkillPermissions::default(),
            resources: ResourceLimits::default(),
            exports: SkillExports::default(),
            dependencies: None,
        }
    }
}

/// Where the runtime finds skills, and what it allows them.
#[derive(Debug, Clone)]
pub struct WasmRuntimeConfig {
    pub skills_dir: String,
    pub enable_logging: bool,
    pub allow_network: bool,
}

impl Default for WasmRuntimeConfig {
    fn default() -> (c: WasmRuntimeConfig)
        ensures
            c.skills_dir@ == "skills"@,
            c.enable_logging,
            !c.allow_network,
    {
        WasmRuntimeConfig { skills_dir: owned("skills"), enable_logging: true, allow_network: false }
    }
}

impl WasmRuntimeConfig {
    /// The module file of a skill: `name.wasm` in the skills directory.
    pub fn wasm_path(&self, skill_name: &str) -> (r: String)
        ensures
            r@ == join_path(self.skills_dir@, skill_name@ + ".wasm"@),
    {
        let f = concat2(skill_name, ".wasm");
        join(self.skills_dir.as_str(), f.as_str())
    }

    /// The manifest file of a skill: `name.toml` in the skills directory.
    pub fn manifest_path(&self, skill_name: &str) -> (r: String)
        ensures
            r@ == join_path(self.skills_dir@, skill_name@ + ".toml"@),
    {
        let f = concat2(skill_name, ".toml");
        join(self.skills_dir.as_str(), f.as_str())
    }
}

/// A loaded skill.
pub struct SkillContext {
    pub manifest: SkillManifest,
    pub wasm_bytes: Vec<u8>,
    pub execution_count: u64,
    pub last_error: Option<String>,
}

/// What is shown of a loaded skill.
#[derive(Debug, Clone)]
pub struct SkillInfo {
    pub name: String,
    pub version: String,
    pub description: Option<String>,
    pub execution_count: u64,
}

/// `info` shows the skill `name` loaded as `c`: its name, version,
/// description and run count.
pub open spec fn shows(info: SkillInfo, name: Seq<char>, c: SkillContext) -> bool {
    &&& info.name@ == name
    &&& info.version@ == c.manifest.version@
    &&& match (info.description, c.manifest.description) {
        (Some(a), Some(b)) => a@ == b@,
        (None, None) => true,
        _ => false,
    }
    &&& info.execution_count == c.execution_count
}

/// Totals over the loaded skills.
#[derive(Debug, Clone, Copy, PartialEq, Eq, Structural)]
pub struct WasmRuntimeStats {
    pub total_skills: usize,
    pub total_executions: u64,
    pub total_memory_bytes: usize,
}

/// The sum of the run counts.
pub open spec fn total_runs(cs: Seq<SkillContext>) -> nat
    decreases cs.len(),
{
    if cs.len() == 0 {
        0
    } else {
        total_runs(cs.drop_last()) + cs.last().execution_count as nat
    }
}

/// The sum of the module sizes.
pub open spec fn total_bytes(cs: Seq<SkillContext>) -> nat
    decreases cs.len(),
{
    if cs.len() == 0 {
        0
    } else {
        total_bytes(cs.drop_last()) + cs.last().wasm_bytes@.len()
    }
}

/// The loaded skills by name.
pub struct SkillRegistry {
    skills: TextMap<SkillContext>,
}

impl SkillRegistry {
    /// The names of the loaded skills, in load order.
    pub closed spec fn names(&self) -> Seq<Seq<char>> {
        self.skills.key_seq()
    }

    /// The loaded skills, in the order of their names.
    pub closed spec fn contexts(&self) -> Seq<SkillContext> {
        self.skills.val_seq()
    }

    pub closed spec fn wf(&self) -> bool {
        self.skills.wf()
    }

    /// The facts callers use.
    pub proof fn lemma_wf(&self)
        requires
            self.wf(),
        ensures
            self.names().len() == self.contexts().len(),
            forall|i: int, j: int|
                0 <= i < j < self.names().len() ==> #[trigger] self.names()[i] != #[trigger] self.names()[j],
    {
        self.skills.lemma_wf();
    }

    /// A name has one loaded skill: two entries under the same name are the
    /// same entry, so what `load` stored under a name is what a later lookup
    /// of that name finds.
    pub proof fn lemma_one_context_per_name(&self, name: Seq<char>, i: int, j: int)
        requires
            self.wf(),
            0 <= i < self.names().len(),
            0 <= j < self.names().len(),
            self.names()[i] == name,
            self.names()[j] == name,
        ensures
            i == j,
            self.contexts()[i] == self.contexts()[j],
    {
        self.skills.lemma_wf();
    }

    /// No skill loaded.
    pub fn new() -> (r: SkillRegistry)
        ensures
            r.wf(),
            r.names().len() == 0,
    {
        SkillRegistry { skills: TextMap::new() }
    }

    /// Loads (or replaces) the skill `name` with its manifest and module,
    /// not yet run.
    pub fn load(&mut self, name: &str, manifest: SkillManifest, wasm_bytes: Vec<u8>)
        requires
            old(self).wf(),
        ensures
            final(self).wf(),
            final(self).names() == if old(self).names().contains(name@) {
                old(self).names()
            } else {
                old(self).names().push(name@)
            },
            exists|i: int|
                0 <= i < final(self).names().len() && #[trigger] final(self).names()[i] == name@
                    && final(self).contexts()[i].manifest == manifest
                    && final(self).contexts()[i].execution_count == 0 && final(self).contexts()[i].wasm_bytes@
                    == wasm_bytes@ && final(self).contexts()[i].last_error is None,
            forall|j: int|
                0 <= j < old(self).names().len() && #[trigger] old(self).names()[j] != name@
                    ==> final(self).contexts()[j] == old(self).contexts()[j],
    {
        proof {
            self.skills.lemma_wf();
        }
        let ghost k0 = self.skills.key_seq();
        let ghost v0 = self.skills.val_seq();
        let ghost bytes = wasm_bytes@;
        let ctx = SkillContext { manifest, wasm_bytes, execution_count: 0, last_error: None };
        let ghost c = ctx;
        self.skills.insert(owned(name), ctx);
        proof {
            self.skills.lemma_wf();
            if k0.contains(name@) {
                let j = choose|j: int|
                    0 <= j < k0.len() && #[trigger] k0[j] == name@ && self.skills.key_seq() == k0
                        && self.skills.val_seq() == v0.update(j, c);
                assert(self.names()[j] == name@);
            } else {
                assert(self.names()[k0.len() as int] == name@);
            }
        }
    }

    /// Unloads the skill `name`; whether it was loaded.
    pub fn unload(&mut self, name: &str) -> (r: bool)
        requires
            old(self).wf(),
        ensures
            final(self).wf(),
            r == old(self).names().contains(name@),
            !final(self).names().contains(name@),
    {
        proof {
            self.skills.lemma_wf();
        }
        let r = self.skills.remove(name);
        proof {
            self.skills.lemma_wf();
            assert forall|x: int| 0 <= x < self.names().len() implies self.names()[x] != name@ by {
                if r {
                    let i = choose|i: int|
                        0 <= i < old(self).names().len() && #[trigger] old(self).names()[i] == name@
                            && self.names() == old(self).names().remove(i)
                            && self.contexts() == old(self).contexts().remove(i);
                    let x0 = if x < i { x } else { x + 1 };
                    assert(self.names()[x] == old(self).names()[x0]);
                    assert(x0 != i);
                }
            }
        }
        r
    }

    fn info_at(&self, i: usize) -> (info: SkillInfo)
        requires
            self.wf(),
            i < self.names().len(),
        ensures
            shows(info, self.names()[i as int], self.contexts()[i as int]),
    {
        proof {
            self.skills.lemma_wf();
        }
        let c = self.skills.value_at(i);
        SkillInfo {
            name: self.skills.key_at(i).clone(),
            version: c.manifest.version.clone(),
            description: match &c.manifest.description {
                Some(d) => Some(d.clone()),
                None => None,
            },
            execution_count: c.execution_count,
        }
    }

    /// What is shown of the skill `name`, if loaded.
    pub fn get_skill_info(&self, name: &str) -> (r: Option<SkillInfo>)
        requires
            self.wf(),
        ensures
            match r {
                Some(info) => exists|i: int|
                    0 <= i < self.names().len() && #[trigger] self.names()[i] == name@
                        && shows(info, name@, self.contexts()[i]),
                None => !self.names().contains(name@),
            },
    {
        proof {
            self.skills.lemma_wf();
        }
        match self.skills.index_of(name) {
            Some(i) => {
                let info = self.info_at(i);
                assert(self.names()[i as int] == name@);
                Some(info)
            },
            None => None,
        }
    }

    /// What is shown of every loaded skill, in load order.
    pub fn list_skills(&self) -> (r: Vec<SkillInfo>)
        requires
            self.wf(),
        ensures
            r@.len() == self.names().len(),
            forall|i: int| 0 <= i < r@.len() ==> shows(#[trigger] r@[i], self.names()[i], self.contexts()[i]),
    {
        proof {
            self.skills.lemma_wf();
        }
        let n = self.skills.len();
        let mut r: Vec<SkillInfo> = Vec::new();
        let mut i: usize = 0;
        while i < n
            invariant
                self.wf(),
                n == self.names().len(),
                i <= n,
                r@.len() == i,
                forall|k: int| 0 <= k < i ==> shows(#[trigger] r@[k], self.names()[k], self.contexts()[k]),
            decreases n - i,
        {
            let info = self.info_at(i);
            r.push(info);
            i = i + 1;
        }
        r
    }

    /// Counts one more run of the skill `name`, if loaded.
    pub fn record_execution(&mut self, name: &str)
        requires
            old(self).wf(),
            forall|i: int| 0 <= i < old(self).contexts().len() ==> #[trigger] old(self).contexts()[i].execution_count < u64::MAX,
        ensures
            final(self).wf(),
            final(self).names() == old(self).names(),
            forall|i: int| 0 <= i < old(self).names().len() ==> #[trigger] final(self).contexts()[i].execution_count
                == old(self).contexts()[i].execution_count + if old(self).names()[i] == name@ { 1int } else { 0int },
    {
        proof {
            self.skills.lemma_wf();
        }
        match self.skills.index_of(name) {
            Some(i) => {
                let c = self.skills.value_at(i);
                let n = SkillContext {
                    manifest: c.manifest.clone(),
                    wasm_bytes: c.wasm_bytes.clone(),
                    execution_count: c.execution_count + 1,
                    last_error: match &c.last_error {
                        Some(e) => Some(e.clone()),
                        None => None,
                    },
                };
                let ghost ks = self.skills.key_seq();
                self.skills.set_at(i, n);
                proof {
                    self.skills.lemma_wf();
                    assert forall|j: int| 0 <= j < ks.len() && j != i implies ks[j] != name@ by {
                        assert(ks[j] != ks[i as int]);
                    }
                }
            },
            None => {
                assert forall|j: int| 0 <= j < self.names().len() implies self.names()[j] != name@ by {
                    if self.names()[j] == name@ {
                        assert(self.names().contains(name@));
                    }
                }
            },
        }
    }

    /// Totals over the loaded skills.
    pub fn get_stats(&self) -> (s: WasmRuntimeStats)
        requires
            self.wf(),
            total_runs(self.contexts()) <= u64::MAX,
            total_bytes(self.contexts()) <= usize::MAX,
        ensures
            s.total_skills == self.names().len(),
            s.total_executions == total_runs(self.contexts()),
            s.total_memory_bytes == total_bytes(self.contexts()),
    {
        proof {
            self.skills.lemma_wf();
        }
        let n = self.skills.len();
        let ghost cs = self.contexts();
        let mut runs: u64 = 0;
        let mut bytes: usize = 0;
        let mut i: usize = 0;
        while i < n
            invariant
                self.skills.wf(),
                cs == self.contexts(),
                n == cs.len(),
                n == self.skills.key_seq().len(),
                i <= n,
                runs == total_runs(cs.take(i as int)),
                bytes == total_bytes(cs.take(i as int)),
                total_runs(cs) <= u64::MAX,
                total_bytes(cs) <= usize::MAX,
            decreases n - i,
        {
            let c = self.skills.value_at(i);
            assert(cs.take(i + 1).drop_last() =~= cs.take(i as int));
            proof {
                lemma_totals_prefix(cs, (i + 1) as nat);
            }
            runs = runs + c.execution_count;
            bytes = bytes + c.wasm_bytes.len();
            i = i + 1;
        }
        assert(cs.take(i as int) =~= cs);
        WasmRuntimeStats { total_skills: n, total_executions: runs, total_memory_bytes: bytes }
    }
}

proof fn lemma_totals_prefix(cs: Seq<SkillContext>, k: nat)
    requires
        k <= cs.len(),
    ensures
        total_runs(cs.take(k as int)) <= total_runs(cs),
        total_bytes(cs.take(k as int)) <= total_bytes(cs),
    decreases cs.len(),
{
    if k == cs.len() {
        assert(cs.take(k as int) =~= cs);
    } else {
        assert(cs.drop_last().take(k as int) =~= cs.take(k as int));
        lemma_totals_prefix(cs.drop_last(), k);
    }
}

/// The location and length of a skill's result, packed in one number: the
/// location in the high 32 bits, the length in the low ones.
pub fn unpack_result(packed: u64) -> (r: (u32, u32))
    ensures
        r.0 == packed / 0x1_0000_0000,
        r.1 == packed % 0x1_0000_0000,
{
    let hi = (packed >> 32u64) as u32;
    let lo = (packed & 0xFFFF_FFFFu64) as u32;
    assert(packed >> 32u64 == packed / 0x1_0000_0000) by (bit_vector);
    assert(packed & 0xFFFF_FFFFu64 == packed % 0x1_0000_0000) by (bit_vector);
    (hi, lo)
}

/// The skill a tool names: what follows `wasm:`.
pub fn skill_of_tool(tool: &str) -> (r: Option<String>)
    ensures
        match r {
            Some(s) => has_prefix(tool@, "wasm:"@) && s@ == tool@.skip(5),
            None => !has_prefix(tool@, "wasm:"@),
        },
{
    let t = chars_of(tool);
    let p = chars_of("wasm:");
    proof {
        reveal_strlit("wasm:");
    }
    if !starts_with(t.as_slice(), p.as_slice()) {
        return None;
    }
    let mut v: Vec<char> = Vec::new();
    let mut k: usize = 5;
    while k < t.len()
        invariant
            5 <= k <= t@.len(),
            v@ == t@.subrange(5, k as int),
        decreases t@.len() - k,
    {
        v.push(t[k]);
        k = k + 1;
    }
    assert(v@ =~= tool@.skip(5));
    Some(string_of(v.as_slice()))
}

/// The event announcing a skill's run.
pub fn executing_event(skill_name: &str) -> (e: SystemEvent)
    ensures
        e@ == (SystemEventView::Log {
            level: "INFO"@,
            source: "WasmRuntime"@,
            message: "Executing WASM skill: "@ + skill_name@,
        }),
{
    SystemEvent::Log {
        level: owned("INFO"),
        source: owned("WasmRuntime"),
        message: concat2("Executing WASM skill: ", skill_name),
    }
}

/// The warning of the runtime actor when a skill fails to load.
pub fn runtime_load_warning(skill_name: &str, error: &str) -> (e: SystemEvent)
    ensures
        e@ == (SystemEventView::Log {
            level: "WARN"@,
            source: "WasmRuntime"@,
            message: "Failed to load skill '"@ + skill_name@ + "': "@ + error@,
        }),
{
    let mut v: Vec<char> = Vec::new();
    push_str(&mut v, "Failed to load skill '");
    push_str(&mut v, skill_name);
    push_str(&mut v, "': ");
    push_str(&mut v, error);
    SystemEvent::Log { level: owned("WARN"), source: owned("WasmRuntime"), message: string_of(v.as_slice()) }
}

/// The skill actor: loads the skills it finds and runs the skill tasks.
pub struct WasmActor;

impl WasmActor {
    /// The skill a file holds: the stem of a `.wasm` file.
    pub fn skill_file(path: &str) -> (r: Option<String>)
        ensures
            match r {
                Some(s) => extension(path@) == Some("wasm"@) && file_stem(path@) == Some(s@),
                None => extension(path@) != Some("wasm"@),
            },
    {
        stem_with_extension(path, "wasm")
    }

    /// The log of a loaded skill.
    pub fn loaded_event(skill_name: &str) -> (e: SystemEvent)
        ensures
            e@ == (SystemEventView::Log { level: "INFO"@, source: "WasmActor"@, message: "Loaded skill: "@ + skill_name@ }),
    {
        SystemEvent::Log { level: owned("INFO"), source: owned("WasmActor"), message: concat2("Loaded skill: ", skill_name) }
    }

    /// The warning of a skill that failed to load at start.
    pub fn load_warning(skill_name: &str, error: &str) -> (e: SystemEvent)
        ensures
            e@ == (SystemEventView::Log {
                level: "WARN"@,
                source: "WasmActor"@,
                message: "Failed to load skill "@ + skill_name@ + ": "@ + error@,
            }),
    {
        let mut v: Vec<char> = Vec::new();
        push_str(&mut v, "Failed to load skill ");
        push_str(&mut v, skill_name);
        push_str(&mut v, ": ");
        push_str(&mut v, error);
        SystemEvent::Log { level: owned("WARN"), source: owned("WasmActor"), message: string_of(v.as_slice()) }
    }

    /// The failure of a task whose skill could not be loaded.
    pub fn load_failure(task_id: String, skill_name: &str, error: &str) -> (e: SystemEvent)
        ensures
            e@ == (SystemEventView::TaskFailed {
                task_id: task_id@,
                error: "Failed to load skill '"@ + skill_name@ + "': "@ + error@,
            }),
    {
        let mut v: Vec<char> = Vec::new();
        push_str(&mut v, "Failed to load skill '");
        push_str(&mut v, skill_name);
        push_str(&mut v, "': ");
        push_str(&mut v, error);
        SystemEvent::TaskFailed { task_id, error: string_of(v.as_slice()) }
    }

    /// The announcement of a skill's run.
    pub fn executing_event(skill_name: &str) -> (e: SystemEvent)
        ensures
            e@ == (SystemEventView::Log {
                level: "INFO"@,
                source: "WasmActor"@,
                message: "Executing WASM skill: "@ + skill_name@,
            }),
    {
        SystemEvent::Log {
            level: owned("INFO"),
            source: owned("WasmActor"),
            message: concat2("Executing WASM skill: ", skill_name),
        }
    }

    /// The events of a finished run: the task completed with the output, then a log.
    pub fn completed_events(task_id: String, skill_name: &str, output: String) -> (es: Vec<SystemEvent>)
        ensures
            es@.len() == 2,
            es@[0]@ == (SystemEventView::TaskCompleted { task_id: task_id@, result: output@ }),
            es@[1]@ == (SystemEventView::Log {
                level: "INFO"@,
                source: "WasmActor"@,
                message: "Skill "@ + skill_name@ + " completed"@,
            }),
    {
        vec![
            SystemEvent::TaskCompleted { task_id, result: output },
            SystemEvent::Log {
                level: owned("INFO"),
                source: owned("WasmActor"),
                message: concat3("Skill ", skill_name, " completed"),
            },
        ]
    }

    /// The events of a failed run: the task failed with the error, then a log.
    pub fn failed_events(task_id: String, skill_name: &str, error: &str) -> (es: Vec<SystemEvent>)
        ensures
            es@.len() == 2,
            es@[0]@ == (SystemEventView::TaskFailed { task_id: task_id@, error: "WASM execution error: "@ + error@ }),
            es@[1]@ == (SystemEventView::Log {
                level: "ERROR"@,
                source: "WasmActor"@,
                message: "Skill "@ + skill_name@ + " failed: "@ + error@,
            }),
    {
        let mut v: Vec<char> = Vec::new();
        push_str(&mut v, "Skill ");
        push_str(&mut v, skill_name);
        push_str(&mut v, " failed: ");
        push_str(&mut v, error);
        vec![
            SystemEvent::TaskFailed { task_id, error: concat2("WASM execution error: ", error) },
            SystemEvent::Log { level: owned("ERROR"), source: owned("WasmActor"), message: string_of(v.as_slice()) },
        ]
    }
}

} // verus!
