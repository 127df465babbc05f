//! External coding agents: how each is invoked, how its output is
//! collected, where an agent HTTP API is reached, and which agent runs a
//! request. Running the processes and sending the requests happen outside.
use vstd::prelude::*;
use crate::text::{
    chars_of, concat2, concat3, join, join_strings, owned, push_decimal, push_str, string_of, trim,
    trim_chars, views, decimal,
};
use crate::text_map::TextMap;

verus! {

/// A kind of agent.
#[derive(Debug, Clone)]
pub enum AgentType {
    Goose,
    Codex,
    Aider,
    Gemini,
    Custom { name: String, command: String },
}

/// A kind of agent as plain values.
pub enum AgentTypeView {
    Goose,
    Codex,
    Aider,
    Gemini,
    Custom { name: Seq<char>, command: Seq<char> },
}

impl View for AgentType {
    type V = AgentTypeView;

    open spec fn view(&self) -> AgentTypeView {
        match self {
            AgentType::Goose => AgentTypeView::Goose,
            AgentType::Codex => AgentTypeView::Codex,
            AgentType::Aider => AgentTypeView::Aider,
            AgentType::Gemini => AgentTypeView::Gemini,
            AgentType::Custom { name, command } => AgentTypeView::Custom { name: name@, command: command@ },
        }
    }
}

/// The name an agent kind is shown by.
pub open spec fn agent_name(t: AgentTypeView) -> Seq<char> {
    match t {
        AgentTypeView::Goose => "goose"@,
        AgentTypeView::Codex => "codex"@,
        AgentTypeView::Aider => "aider"@,
        AgentTypeView::Gemini => "gemini"@,
        AgentTypeView::Custom { name, .. } => name,
    }
}

/// The executable of an agent kind.
pub open spec fn agent_command(t: AgentTypeView) -> Seq<char> {
    match t {
        AgentTypeView::Goose => "goose"@,
        AgentTypeView::Codex => "codex"@,
        AgentTypeView::Aider => "aider"@,
        AgentTypeView::Gemini => "gemini"@,
        AgentTypeView::Custom { command, .. } => command,
    }
}

/// The arguments before the prompt of an agent kind.
pub open spec fn agent_args(t: AgentTypeView) -> Seq<Seq<char>> {
    match t {
        AgentTypeView::Goose => seq!["run"@],
        _ => Seq::empty(),
    }
}

impl AgentType {
    /// The name the kind is shown by.
    pub fn name(&self) -> (s: String)
        ensures
            s@ == agent_name(self@),
    {
        match self {
            AgentType::Goose => owned("goose"),
            AgentType::Codex => owned("codex"),
            AgentType::Aider => owned("aider"),
            AgentType::Gemini => owned("gemini"),
            AgentType::Custom { name, .. } => name.clone(),
        }
    }
}

/// How an agent is run.
#[derive(Debug, Clone)]
pub struct AgentConfig {
    pub agent_type: AgentType,
    pub command: String,
    pub args: Vec<String>,
    pub working_dir: Option<String>,
    pub env: Vec<(String, String)>,
    pub timeout_secs: u64,
    pub max_output_lines: usize,
}

/// The default limits: five minutes, a thousand lines of output.
pub const DEFAULT_TIMEOUT_SECS: u64 = 300;

pub const DEFAULT_MAX_OUTPUT_LINES: usize = 1000;

impl Default for AgentConfig {
    fn default() -> (c: AgentConfig)
        ensures
            c.agent_type@ == AgentTypeView::Goose,
            c.command@ == "goose"@,
            views(c.args@) == seq!["run"@],
            c.working_dir is None,
            c.env@.len() == 0,
            c.timeout_secs == DEFAULT_TIMEOUT_SECS,
            c.max_output_lines == DEFAULT_MAX_OUTPUT_LINES,
    {
        let args = vec![owned("run")];
        assert(views(args@) =~= seq!["run"@]);
        AgentConfig {
            agent_type: AgentType::Goose,
            command: owned("goose"),
            args,
            working_dir: None,
            env: Vec::new(),
            timeout_secs: DEFAULT_TIMEOUT_SECS,
            max_output_lines: DEFAULT_MAX_OUTPUT_LINES,
        }
    }
}

/// What one run of an agent produced.
#[derive(Debug, Clone)]
pub struct AgentOutput {
    pub success: bool,
    pub output: String,
    pub error: Option<String>,
    pub exit_code: Option<i32>,
}

/// Runs one agent from the command line.
pub struct AgentClient {
    config: AgentConfig,
}

/// The lines kept: each trimmed, at most `max` of them.
pub open spec fn kept_lines(lines: Seq<Seq<char>>, max: nat) -> Seq<Seq<char>> {
    let n = if lines.len() < max { lines.len() } else { max };
    lines.take(n as int).map_values(|l: Seq<char>| trim(l))
}

impl AgentClient {
    /// The settings.
    pub closed spec fn config_view(&self) -> AgentConfig {
        self.config
    }

    /// A client for an agent kind, run by its own executable with the default
    /// limits; Goose gets the `run` subcommand.
    pub fn new(agent_type: AgentType) -> (c: AgentClient)
        ensures
            c.config_view().agent_type@ == agent_type@,
            c.config_view().command@ == agent_command(agent_type@),
            views(c.config_view().args@) == agent_args(agent_type@),
            c.config_view().working_dir is None,
            c.config_view().env@.len() == 0,
            c.config_view().timeout_secs == DEFAULT_TIMEOUT_SECS,
            c.config_view().max_output_lines == DEFAULT_MAX_OUTPUT_LINES,
    {
        let base = AgentConfig::default();
        let none: Vec<String> = Vec::new();
        assert(views(none@) =~= Seq::<Seq<char>>::empty());
        let config = match agent_type {
            AgentType::Goose => {
                let args = vec![owned("run")];
                assert(views(args@) =~= seq!["run"@]);
                AgentConfig { agent_type: AgentType::Goose, command: owned("goose"), args, ..base }
            },
            AgentType::Codex => AgentConfig { agent_type: AgentType::Codex, command: owned("codex"), args: none, ..base },
            AgentType::Aider => AgentConfig { agent_type: AgentType::Aider, command: owned("aider"), args: none, ..base },
            AgentType::Gemini => AgentConfig {
                agent_type: AgentType::Gemini,
                command: owned("gemini"),
                args: none,
                ..base
            },
            AgentType::Custom { name, command } => {
                let c2 = command.clone();
                AgentConfig { agent_type: AgentType::Custom { name, command: c2 }, command, args: none, ..base }
            },
        };
        AgentClient { config }
    }

    /// A client with the given settings.
    pub fn with_config(config: AgentConfig) -> (c: AgentClient)
        ensures
            c.config_view() == config,
    {
        AgentClient { config }
    }

    /// The settings.
    pub fn config(&self) -> (c: &AgentConfig)
        ensures
            *c == self.config_view(),
    {
        &self.config
    }

    /// The arguments of a run: the configured ones, then the prompt.
    pub fn command_args(&self, prompt: &str) -> (r: Vec<String>)
        ensures
            views(r@) == views(self.config_view().args@).push(prompt@),
    {
        let mut r: Vec<String> = Vec::new();
        let mut i: usize = 0;
        while i < self.config.args.len()
            invariant
                i <= self.config.args@.len(),
                views(r@) == views(self.config.args@).take(i as int),
            decreases self.config.args@.len() - i,
        {
            let ghost b = views(r@);
            r.push(self.config.args[i].clone());
            assert(views(r@) =~= b.push(self.config.args@[i as int]@));
            assert(views(self.config.args@).take(i + 1) =~= views(self.config.args@).take(i as int).push(
                self.config.args@[i as int]@,
            ));
            i = i + 1;
        }
        assert(views(self.config.args@).take(i as int) =~= views(self.config.args@));
        let ghost b = views(r@);
        r.push(owned(prompt));
        assert(views(r@) =~= b.push(prompt@));
        r
    }

    /// The lines kept from one output stream.
    pub fn keep_lines(&self, lines: &Vec<String>) -> (r: Vec<String>)
        ensures
            views(r@) == kept_lines(views(lines@), self.config_view().max_output_lines as nat),
    {
        let max = self.config.max_output_lines;
        let n = if lines.len() < max {
            lines.len()
        } else {
            max
        };
        let mut r: Vec<String> = Vec::new();
        let mut i: usize = 0;
        while i < n
            invariant
                i <= n <= lines@.len(),
                views(r@) == views(lines@).take(i as int).map_values(|l: Seq<char>| trim(l)),
            decreases n - i,
        {
            let c = chars_of(lines[i].as_str());
            let t = trim_chars(c.as_slice());
            let ghost b = views(r@);
            let s = string_of(t.as_slice());
            r.push(s);
            assert(views(r@) =~= b.push(trim(lines@[i as int]@)));
            assert(views(lines@).take(i + 1).map_values(|l: Seq<char>| trim(l)) =~= views(lines@).take(
                i as int,
            ).map_values(|l: Seq<char>| trim(l)).push(trim(lines@[i as int]@)));
            i = i + 1;
        }
        r
    }

    /// What a finished run produced: the kept output lines joined by line
    /// feeds, and the kept error lines likewise (none when there are none).
    pub fn collect_output(&self, success: bool, exit_code: Option<i32>, stdout_lines: &Vec<String>, stderr_lines: &Vec<
        String,
    >) -> (o: AgentOutput)
        ensures
            o.success == success,
            o.exit_code == exit_code,
            o.output@ == join(kept_lines(views(stdout_lines@), self.config_view().max_output_lines as nat), "\n"@),
            ({
                let errs = kept_lines(views(stderr_lines@), self.config_view().max_output_lines as nat);
                match o.error {
                    Some(e) => errs.len() > 0 && e@ == join(errs, "\n"@),
                    None => errs.len() == 0,
                }
            }),
    {
        let out = self.keep_lines(stdout_lines);
        let err = self.keep_lines(stderr_lines);
        let output = join_strings(&out, "\n");
        let error = if err.len() == 0 {
            None
        } else {
            Some(join_strings(&err, "\n"))
        };
        AgentOutput { success, output, error, exit_code }
    }

    /// The error reported when a run exceeds its time limit.
    pub fn timeout_message(&self) -> (r: String)
        ensures
            r@ == "Timeout after "@ + decimal(self.config_view().timeout_secs as nat) + " seconds"@,
    {
        let mut v: Vec<char> = Vec::new();
        push_str(&mut v, "Timeout after ");
        push_decimal(&mut v, self.config.timeout_secs);
        push_str(&mut v, " seconds");
        string_of(v.as_slice())
    }
}

/// The version an agent reports on `--version`: its trimmed output, when it
/// succeeded.
pub fn version_from(success: bool, stdout: &str) -> (r: Option<String>)
    ensures
        match r {
            Some(v) => success && v@ == trim(stdout@),
            None => !success,
        },
{
    if success {
        let c = chars_of(stdout);
        let t = trim_chars(c.as_slice());
        Some(string_of(t.as_slice()))
    } else {
        None
    }
}

/// The text without trailing `/`.
pub open spec fn without_trailing_slashes(s: Seq<char>) -> Seq<char>
    decreases s.len(),
{
    if s.len() > 0 && s.last() == '/' {
        without_trailing_slashes(s.drop_last())
    } else {
        s
    }
}

/// Where an agent HTTP API is reached.
pub struct AgentApiClient {
    base_url: String,
}

impl AgentApiClient {
    /// The base address.
    pub closed spec fn base_view(&self) -> Seq<char> {
        self.base_url@
    }

    /// An API at `base_url`, without its trailing slashes.
    pub fn new(base_url: &str) -> (c: AgentApiClient)
        ensures
            c.base_view() == without_trailing_slashes(base_url@),
    {
        let mut v = chars_of(base_url);
        while v.len() > 0 && v[v.len() - 1] == '/'
            invariant
                without_trailing_slashes(v@) == without_trailing_slashes(base_url@),
            decreases v@.len(),
        {
            let ghost before = v@;
            v.pop();
            assert(v@ =~= before.drop_last());
        }
        AgentApiClient { base_url: string_of(v.as_slice()) }
    }

    /// The API on this machine, port 8080.
    pub fn default_client() -> (c: AgentApiClient)
        ensures
            c.base_view() == without_trailing_slashes("http://localhost:8080"@),
    {
        AgentApiClient::new("http://localhost:8080")
    }

    /// The base address.
    pub fn base_url(&self) -> (r: &str)
        ensures
            r@ == self.base_view(),
    {
        self.base_url.as_str()
    }

    /// The address `base/agents/agent` followed by `suffix`.
    fn agent_url(&self, agent: &str, suffix: &str) -> (r: String)
        ensures
            r@ == self.base_view() + "/agents/"@ + agent@ + suffix@,
    {
        let mut v: Vec<char> = Vec::new();
        push_str(&mut v, self.base_url.as_str());
        push_str(&mut v, "/agents/");
        push_str(&mut v, agent);
        push_str(&mut v, suffix);
        string_of(v.as_slice())
    }

    /// Where messages to an agent are posted.
    pub fn message_url(&self, agent: &str) -> (r: String)
        ensures
            r@ == self.base_view() + "/agents/"@ + agent@ + "/message"@,
    {
        self.agent_url(agent, "/message")
    }

    /// Where an agent's message history is read.
    pub fn messages_url(&self, agent: &str) -> (r: String)
        ensures
            r@ == self.base_view() + "/agents/"@ + agent@ + "/messages"@,
    {
        self.agent_url(agent, "/messages")
    }

    /// Where an agent's status is read.
    pub fn status_url(&self, agent: &str) -> (r: String)
        ensures
            r@ == self.base_view() + "/agents/"@ + agent@ + "/status"@,
    {
        self.agent_url(agent, "/status")
    }

    /// Where an agent's event stream is read.
    pub fn events_url(&self, agent: &str) -> (r: String)
        ensures
            r@ == self.base_view() + "/agents/"@ + agent@ + "/events"@,
    {
        self.agent_url(agent, "/events")
    }

    /// Where the API's health is checked.
    pub fn health_url(&self) -> (r: String)
        ensures
            r@ == self.base_view() + "/health"@,
    {
        concat2(self.base_url.as_str(), "/health")
    }

    /// The session a message goes to: the given one, else `default`.
    pub fn session_or_default(session_id: Option<&str>) -> (r: String)
        ensures
            r@ == match session_id {
                Some(s) => s@,
                None => "default"@,
            },
    {
        match session_id {
            Some(s) => owned(s),
            None => owned("default"),
        }
    }
}

/// Who runs a request for an agent.
pub enum AgentRoute {
    /// The registered client at this position.
    Local(usize),
    /// The agent HTTP API.
    Api,
    /// Nobody: the agent is unknown and there is no API.
    NotFound,
}

/// Several agents by name, and optionally an agent HTTP API.
pub struct AgentManager {
    clients: TextMap<AgentClient>,
    agentapi_client: Option<AgentApiClient>,
}

impl AgentManager {
    /// The names of the registered agents, in registration order.
    pub closed spec fn names(&self) -> Seq<Seq<char>> {
        self.clients.key_seq()
    }

    /// The settings of the registered agents, in the order of their names.
    pub closed spec fn configs(&self) -> Seq<AgentConfig> {
        self.clients.val_seq().map_values(|c: AgentClient| c.config_view())
    }

    /// The API's base address, if one is set.
    pub closed spec fn api_base(&self) -> Option<Seq<char>> {
        match self.agentapi_client {
            Some(a) => Some(a.base_view()),
            None => None,
        }
    }

    /// The table of agents is consistent.
    pub closed spec fn wf(&self) -> bool {
        self.clients.wf()
    }

    /// A manager without agents or API.
    pub fn new() -> (m: AgentManager)
        ensures
            m.wf(),
            m.names().len() == 0,
            m.api_base() is None,
    {
        AgentManager { clients: TextMap::new(), agentapi_client: None }
    }

    /// Registers (or replaces) the agent `name` with the given settings.
    pub fn register_agent(&mut self, name: &str, config: AgentConfig)
        requires
            old(self).wf(),
        ensures
            final(self).wf(),
            final(self).names() == if old(self).names().contains(name@) {
                old(self).names()
            } else {
                old(self).names().push(name@)
            },
            exists|i: int|
                0 <= i < final(self).names().len() && #[trigger] final(self).names()[i] == name@
                    && final(self).configs()[i] == config,
            forall|i: int|
                0 <= i < old(self).names().len() && old(self).names()[i] != name@ ==> #[trigger] final(self).configs()[i] == old(self).configs()[i],
            final(self).api_base() == old(self).api_base(),
    {
        self.insert_client(name, AgentClient::with_config(config));
    }

    /// Registers (or replaces) the agent `name` as a default client of a kind.
    pub fn register_default(&mut self, name: &str, agent_type: AgentType)
        requires
            old(self).wf(),
        ensures
            final(self).wf(),
            final(self).names() == if old(self).names().contains(name@) {
                old(self).names()
            } else {
                old(self).names().push(name@)
            },
            exists|i: int|
                0 <= i < final(self).names().len() && #[trigger] final(self).names()[i] == name@ && ({
                    let c = final(self).configs()[i];
                    &&& c.agent_type@ == agent_type@
                    &&& c.command@ == agent_command(agent_type@)
                    &&& views(c.args@) == agent_args(agent_type@)
                }),
            forall|i: int|
                0 <= i < old(self).names().len() && old(self).names()[i] != name@ ==> #[trigger] final(self).configs()[i] == old(self).configs()[i],
            final(self).api_base() == old(self).api_base(),
    {
        let ghost t = agent_type@;
        let c = AgentClient::new(agent_type);
        self.insert_client(name, c);
    }

    fn insert_client(&mut self, name: &str, client: AgentClient)
        requires
            old(self).wf(),
        ensures
            final(self).wf(),
            final(self).names() == if old(self).names().contains(name@) {
                old(self).names()
            } else {
                old(self).names().push(name@)
            },
            exists|i: int|
                0 <= i < final(self).names().len() && #[trigger] final(self).names()[i] == name@
                    && final(self).configs()[i] == client.config_view(),
            forall|i: int|
                0 <= i < old(self).names().len() && old(self).names()[i] != name@ ==> #[trigger] final(self).configs()[i] == old(self).configs()[i],
            final(self).api_base() == old(self).api_base(),
    {
        proof {
            self.clients.lemma_wf();
        }
        let ghost k0 = self.clients.key_seq();
        let ghost v0 = self.clients.val_seq();
        let ghost cv = client;
        self.clients.insert(owned(name), client);
        proof {
            self.clients.lemma_wf();
            if k0.contains(name@) {
                let j = choose|j: int|
                    0 <= j < k0.len() && #[trigger] k0[j] == name@ && self.clients.key_seq() == k0
                        && self.clients.val_seq() == v0.update(j, cv);
                assert(self.names()[j] == name@ && self.configs()[j] == cv.config_view());
                assert forall|i: int| 0 <= i < k0.len() && k0[i] != name@ implies #[trigger] self.configs()[i]
                    == v0.map_values(|c: AgentClient| c.config_view())[i] by {
                    assert(i != j);
                }
            } else {
                let j = k0.len() as int;
                assert(self.names()[j] == name@ && self.configs()[j] == cv.config_view());
                assert forall|i: int| 0 <= i < k0.len() && k0[i] != name@ implies #[trigger] self.configs()[i]
                    == v0.map_values(|c: AgentClient| c.config_view())[i] by {}
            }
        }
    }

    /// The same manager with the agent API at `base_url`.
    pub fn with_agentapi(self, base_url: &str) -> (m: AgentManager)
        ensures
            m.wf() == self.wf(),
            m.names() == self.names(),
            m.configs() == self.configs(),
            m.api_base() == Some(without_trailing_slashes(base_url@)),
    {
        AgentManager { clients: self.clients, agentapi_client: Some(AgentApiClient::new(base_url)) }
    }

    /// Who runs a request for `agent_name`: a registered agent of that name,
    /// else the API when there is one.
    pub fn route(&self, agent_name: &str) -> (r: AgentRoute)
        requires
            self.wf(),
        ensures
            match r {
                AgentRoute::Local(i) => i < self.names().len() && self.names()[i as int] == agent_name@,
                AgentRoute::Api => !self.names().contains(agent_name@) && self.api_base() is Some,
                AgentRoute::NotFound => !self.names().contains(agent_name@) && self.api_base() is None,
            },
    {
        match self.clients.index_of(agent_name) {
            Some(i) => AgentRoute::Local(i),
            None => match &self.agentapi_client {
                Some(_) => AgentRoute::Api,
                None => AgentRoute::NotFound,
            },
        }
    }

    /// The registered client at position `i`.
    pub fn client_at(&self, i: usize) -> (c: &AgentClient)
        requires
            self.wf(),
            i < self.names().len(),
        ensures
            c.config_view() == self.configs()[i as int],
    {
        proof {
            self.clients.lemma_wf();
        }
        self.clients.value_at(i)
    }

    /// The agent API, if one is set.
    pub fn api(&self) -> (a: Option<&AgentApiClient>)
        ensures
            match a {
                Some(x) => self.api_base() == Some(x.base_view()),
                None => self.api_base() is None,
            },
    {
        match &self.agentapi_client {
            Some(x) => Some(x),
            None => None,
        }
    }

    /// The error for an unknown agent.
    pub fn not_found_message(agent_name: &str) -> (r: String)
        ensures
            r@ == "Agent '"@ + agent_name@ + "' not found"@,
    {
        concat3("Agent '", agent_name, "' not found")
    }

    /// The names of the registered agents, in registration order.
    pub fn list_agents(&self) -> (r: Vec<String>)
        requires
            self.wf(),
        ensures
            views(r@) == self.names(),
    {
        proof {
            self.clients.lemma_wf();
        }
        let n = self.clients.len();
        let mut r: Vec<String> = Vec::new();
        let mut i: usize = 0;
        while i < n
            invariant
                self.clients.wf(),
                n == self.clients.key_seq().len(),
                i <= n,
                views(r@) == self.clients.key_seq().take(i as int),
            decreases n - i,
        {
            let k = self.clients.key_at(i);
            let ghost b = views(r@);
            r.push(k.clone());
            assert(views(r@) =~= b.push(k@));
            assert(self.clients.key_seq().take(i + 1) =~= self.clients.key_seq().take(i as int).push(k@));
            i = i + 1;
        }
        assert(self.clients.key_seq().take(i as int) =~= self.clients.key_seq());
        r
    }
}

/// An agent's collected output never holds more lines than its limit.
pub proof fn lemma_kept_lines_bounded(lines: Seq<Seq<char>>, max: nat)
    ensures
        kept_lines(lines, max).len() <= max,
        kept_lines(lines, max).len() <= lines.len(),
{
}

} // verus!
