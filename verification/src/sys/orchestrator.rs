//! The orchestrator: which tool handles a dispatched task, what the task's
//! text asks of it, and the results and errors that report the task's end.
//! Running the tools happens outside.
use vstd::prelude::*;
use crate::bus::{SystemEvent, SystemEventView};
use crate::text::{
    chars_of, concat2, decimal, first_chars, join, join_strings, owned, push_decimal, push_str, same_text,
    split_words, string_of, take_chars, views, words,
};

verus! {

/// What the orchestrator does with a task.
#[derive(Debug, Clone)]
pub enum TaskAction {
    /// Scrape the page at the URL.
    Browser { url: String },
    /// Run a program with arguments in the sandbox, with a one-minute limit.
    Shell { program: String, args: Vec<String> },
    /// Read a file of the sandbox.
    FileRead { path: String },
    /// Write a file of the sandbox.
    FileWrite { path: String, content: String },
    /// Search the knowledge base (five results).
    MemorySearch { query: String },
    /// Store a document in the knowledge base.
    MemoryStore { source: String, content: String },
    /// Ask the language model, with three results of the knowledge base as context.
    Llm { tool: String, input: String },
    /// Fail the task at once with this error.
    Fail { error: String },
}

/// A task's action as plain values.
pub enum TaskActionView {
    Browser { url: Seq<char> },
    Shell { program: Seq<char>, args: Seq<Seq<char>> },
    FileRead { path: Seq<char> },
    FileWrite { path: Seq<char>, content: Seq<char> },
    MemorySearch { query: Seq<char> },
    MemoryStore { source: Seq<char>, content: Seq<char> },
    Llm { tool: Seq<char>, input: Seq<char> },
    Fail { error: Seq<char> },
}

impl View for TaskAction {
    type V = TaskActionView;

    open spec fn view(&self) -> TaskActionView {
        match self {
            TaskAction::Browser { url } => TaskActionView::Browser { url: url@ },
            TaskAction::Shell { program, args } => TaskActionView::Shell { program: program@, args: views(args@) },
            TaskAction::FileRead { path } => TaskActionView::FileRead { path: path@ },
            TaskAction::FileWrite { path, content } => TaskActionView::FileWrite { path: path@, content: content@ },
            TaskAction::MemorySearch { query } => TaskActionView::MemorySearch { query: query@ },
            TaskAction::MemoryStore { source, content } => TaskActionView::MemoryStore {
                source: source@,
                content: content@,
            },
            TaskAction::Llm { tool, input } => TaskActionView::Llm { tool: tool@, input: input@ },
            TaskAction::Fail { error } => TaskActionView::Fail { error: error@ },
        }
    }
}

/// Index of the first `|`, or the length when there is none.
pub open spec fn pipe_index(s: Seq<char>, i: int) -> int
    decreases s.len() - i,
{
    if i < 0 || i >= s.len() {
        s.len() as int
    } else if s[i] == '|' {
        i
    } else {
        pipe_index(s, i + 1)
    }
}

/// The text split at its first `|` (`splitn(2, '|')`), if it has one.
pub open spec fn split_pipe(s: Seq<char>) -> Option<(Seq<char>, Seq<char>)> {
    let i = pipe_index(s, 0);
    if i < s.len() {
        Some((s.take(i), s.skip(i + 1)))
    } else {
        None
    }
}

/// What the orchestrator does with a task for `tool` with text `input`.
pub open spec fn task_action(tool: Seq<char>, input: Seq<char>) -> TaskActionView {
    if tool == "browser"@ || tool == "scrape"@ {
        TaskActionView::Browser { url: input }
    } else if tool == "shell"@ || tool == "run"@ {
        let parts = words(input);
        if parts.len() == 0 {
            TaskActionView::Fail { error: "Empty command"@ }
        } else {
            TaskActionView::Shell { program: parts[0], args: parts.skip(1) }
        }
    } else if tool == "file:read"@ {
        TaskActionView::FileRead { path: input }
    } else if tool == "file:write"@ {
        match split_pipe(input) {
            Some((p, c)) => TaskActionView::FileWrite { path: p, content: c },
            None => TaskActionView::Fail { error: "Format: path|content"@ },
        }
    } else if tool == "memory:search"@ {
        TaskActionView::MemorySearch { query: input }
    } else if tool == "memory:store"@ {
        match split_pipe(input) {
            Some((s, c)) => TaskActionView::MemoryStore { source: s, content: c },
            None => TaskActionView::Fail { error: "Format: source|content"@ },
        }
    } else {
        TaskActionView::Llm { tool, input }
    }
}

/// The text split at its first `|`.
pub fn split_at_pipe(s: &str) -> (r: Option<(String, String)>)
    ensures
        match r {
            Some(p) => split_pipe(s@) == Some((p.0@, p.1@)),
            None => split_pipe(s@) is None,
        },
{
    let c = chars_of(s);
    let mut i: usize = 0;
    while i < c.len() && c[i] != '|'
        invariant
            i <= c@.len(),
            pipe_index(c@, 0) == pipe_index(c@, i as int),
        decreases c@.len() - i,
    {
        i = i + 1;
    }
    if i == c.len() {
        return None;
    }
    let mut a: Vec<char> = Vec::new();
    let mut k: usize = 0;
    while k < i
        invariant
            k <= i < c@.len(),
            a@ == c@.take(k as int),
        decreases i - k,
    {
        a.push(c[k]);
        k = k + 1;
        assert(a@ =~= c@.take(k as int));
    }
    let mut b: Vec<char> = Vec::new();
    let mut k: usize = i + 1;
    while k < c.len()
        invariant
            i < k <= c@.len(),
            b@ == c@.subrange(i + 1, k as int),
        decreases c@.len() - k,
    {
        b.push(c[k]);
        k = k + 1;
    }
    assert(b@ =~= c@.skip(i + 1));
    Some((string_of(a.as_slice()), string_of(b.as_slice())))
}

/// The log announcing a task for `tool` with text `input`, if it has one.
pub open spec fn announcement(tool: Seq<char>, input: Seq<char>) -> Option<SystemEventView> {
    let info = |source: Seq<char>, message: Seq<char>| SystemEventView::Log { level: "INFO"@, source, message };
    if tool == "browser"@ || tool == "scrape"@ {
        Some(info("Orchestrator"@, "Scraping URL: "@ + input))
    } else if tool == "shell"@ || tool == "run"@ {
        Some(info("Sandbox"@, "Executing: "@ + input))
    } else if tool == "file:read"@ || tool == "file:write"@ || tool == "memory:store"@ {
        None
    } else if tool == "memory:search"@ {
        Some(info("RAG"@, "Searching memory for: "@ + input))
    } else {
        Some(info("LLM"@, "Processing with LLM: "@ + tool))
    }
}

/// An `INFO` log event from `source`.
fn log_event(source: &str, message: String) -> (e: SystemEvent)
    ensures
        e@ == (SystemEventView::Log { level: "INFO"@, source: source@, message: message@ }),
{
    SystemEvent::Log { level: owned("INFO"), source: owned(source), message }
}

/// The orchestrator's routing of tasks to tools.
pub struct Orchestrator;

/// The most characters of a scraped page in a result.
pub const PREVIEW_CHARS: usize = 1000;

impl Orchestrator {
    /// What to do with a task for `tool` with text `input`: scraping for
    /// `browser`/`scrape`, a sandboxed command for `shell`/`run` (its words:
    /// program then arguments), file reads and writes (`path|content`),
    /// knowledge-base searches and stores (`source|content`), and a
    /// language-model question for any other tool.
    pub fn plan_task(tool: &str, input: &str) -> (a: TaskAction)
        ensures
            a@ == task_action(tool@, input@),
    {
        if same_text(tool, "browser") || same_text(tool, "scrape") {
            TaskAction::Browser { url: owned(input) }
        } else if same_text(tool, "shell") || same_text(tool, "run") {
            let ic = chars_of(input);
            let parts = split_words(ic.as_slice());
            if parts.len() == 0 {
                return TaskAction::Fail { error: owned("Empty command") };
            }
            assert(views(parts@)[0] == parts@[0]@);
            let mut args: Vec<String> = Vec::new();
            let mut i: usize = 1;
            while i < parts.len()
                invariant
                    1 <= i <= parts@.len(),
                    views(args@) == views(parts@).subrange(1, i as int),
                decreases parts@.len() - i,
            {
                let ghost b = views(args@);
                args.push(parts[i].clone());
                assert(views(args@) =~= b.push(parts@[i as int]@));
                assert(views(parts@).subrange(1, i + 1) =~= views(parts@).subrange(1, i as int).push(
                    parts@[i as int]@,
                ));
                i = i + 1;
            }
            assert(views(parts@).subrange(1, i as int) =~= views(parts@).skip(1));
            TaskAction::Shell { program: parts[0].clone(), args }
        } else if same_text(tool, "file:read") {
            TaskAction::FileRead { path: owned(input) }
        } else if same_text(tool, "file:write") {
            match split_at_pipe(input) {
                Some((path, content)) => TaskAction::FileWrite { path, content },
                None => TaskAction::Fail { error: owned("Format: path|content") },
            }
        } else if same_text(tool, "memory:search") {
            TaskAction::MemorySearch { query: owned(input) }
        } else if same_text(tool, "memory:store") {
            match split_at_pipe(input) {
                Some((source, content)) => TaskAction::MemoryStore { source, content },
                None => TaskAction::Fail { error: owned("Format: source|content") },
            }
        } else {
            TaskAction::Llm { tool: owned(tool), input: owned(input) }
        }
    }

    /// The log event announcing a task for `tool` with text `input`, if it
    /// has one: the URL of a scrape, the command line of a shell task (empty
    /// or not), the query of a knowledge-base search, and the tool of a
    /// language-model question. File tasks and stores are not announced.
    pub fn announce(tool: &str, input: &str) -> (e: Option<SystemEvent>)
        ensures
            match e {
                Some(x) => announcement(tool@, input@) == Some(x@),
                None => announcement(tool@, input@) is None,
            },
    {
        if same_text(tool, "browser") || same_text(tool, "scrape") {
            Some(log_event("Orchestrator", concat2("Scraping URL: ", input)))
        } else if same_text(tool, "shell") || same_text(tool, "run") {
            Some(log_event("Sandbox", concat2("Executing: ", input)))
        } else if same_text(tool, "file:read") || same_text(tool, "file:write") || same_text(tool, "memory:store") {
            None
        } else if same_text(tool, "memory:search") {
            Some(log_event("RAG", concat2("Searching memory for: ", input)))
        } else {
            Some(log_event("LLM", concat2("Processing with LLM: ", tool)))
        }
    }

    /// The error of a scraping task when the browser is not built in.
    pub fn browser_unavailable() -> (r: String)
        ensures
            r@ == "Browser feature not enabled. Compile with --features with-browser"@,
    {
        owned("Browser feature not enabled. Compile with --features with-browser")
    }

    /// The result of a scraped page: its title and the first 1000 characters of its text.
    pub fn page_preview(title: &str, text: &str) -> (r: String)
        ensures
            r@ == "Title: "@ + title@ + "\n\nPreview:\n"@ + first_chars(text@, PREVIEW_CHARS as int),
    {
        let tc = chars_of(text);
        let head = take_chars(tc.as_slice(), PREVIEW_CHARS);
        let mut v: Vec<char> = Vec::new();
        push_str(&mut v, "Title: ");
        push_str(&mut v, title);
        push_str(&mut v, "\n\nPreview:\n");
        crate::text::push_all(&mut v, head.as_slice());
        string_of(v.as_slice())
    }

    /// The knowledge-base source under which a scraped page is stored.
    pub fn scrape_source(url: &str) -> (r: String)
        ensures
            r@ == "scrape:"@ + url@,
    {
        concat2("scrape:", url)
    }

    /// The result of a written file.
    pub fn file_written(path: &str) -> (r: String)
        ensures
            r@ == "File written: "@ + path@,
    {
        concat2("File written: ", path)
    }

    /// The result of a stored document.
    pub fn document_stored(id: &str) -> (r: String)
        ensures
            r@ == "Document stored with ID: "@ + id@,
    {
        concat2("Document stored with ID: ", id)
    }

    /// The result of a knowledge-base search: a notice when nothing was
    /// found, else the count and each document after a `---` line.
    pub fn search_result(results: &Vec<String>) -> (r: String)
        requires
            results@.len() <= u64::MAX,
        ensures
            r@ == if results@.len() == 0 {
                "Ничего не найдено в базе знаний."@
            } else {
                "Найдено документов: "@ + decimal(results@.len()) + "\n\n"@ + join(
                    views(results@).map_values(|s: Seq<char>| "---\n"@ + s),
                    "\n"@,
                )
            },
    {
        if results.len() == 0 {
            return owned("Ничего не найдено в базе знаний.");
        }
        let mut parts: Vec<String> = Vec::new();
        let mut i: usize = 0;
        while i < results.len()
            invariant
                i <= results@.len(),
                views(parts@) == views(results@).take(i as int).map_values(|s: Seq<char>| "---\n"@ + s),
            decreases results@.len() - i,
        {
            let ghost before = views(parts@);
            parts.push(concat2("---\n", results[i].as_str()));
            assert(views(parts@) =~= before.push("---\n"@ + results@[i as int]@));
            assert(views(results@).take(i + 1).map_values(|s: Seq<char>| "---\n"@ + s) =~= views(results@).take(
                i as int,
            ).map_values(|s: Seq<char>| "---\n"@ + s).push("---\n"@ + results@[i as int]@));
            i = i + 1;
        }
        assert(views(results@).take(i as int) =~= views(results@));
        let joined = join_strings(&parts, "\n");
        let mut v: Vec<char> = Vec::new();
        push_str(&mut v, "Найдено документов: ");
        push_decimal(&mut v, results.len() as u64);
        push_str(&mut v, "\n\n");
        push_str(&mut v, joined.as_str());
        string_of(v.as_slice())
    }
}

/// The tool names are told apart.
proof fn lemma_tool_names_differ()
    ensures
        "browser"@.len() == 7,
        "scrape"@.len() == 6,
        "shell"@.len() == 5,
        "run"@.len() == 3,
        "file:read"@.len() == 9,
        "file:write"@.len() == 10,
        "memory:search"@.len() == 13,
        "memory:store"@.len() == 12,
{
    reveal_strlit("browser");
    reveal_strlit("scrape");
    reveal_strlit("shell");
    reveal_strlit("run");
    reveal_strlit("file:read");
    reveal_strlit("file:write");
    reveal_strlit("memory:search");
    reveal_strlit("memory:store");
}

/// How each tool's task is routed, over every input:
/// - a scrape goes to the URL given as the input;
/// - a shell task runs the first word of its input with the other words as
///   arguments, and an input without words is refused;
/// - a file read reads the path given as the input, a knowledge-base search
///   searches for the input;
/// - a file write and a knowledge-base store split their input at the first
///   `|`: the path (or the source) is the text before it, which holds no `|`,
///   and the content is everything after it; an input without `|` is refused.
pub proof fn lemma_task_routes(input: Seq<char>)
    ensures
        task_action("browser"@, input) == (TaskActionView::Browser { url: input }),
        task_action("scrape"@, input) == (TaskActionView::Browser { url: input }),
        words(input).len() > 0 ==> (task_action("shell"@, input) matches TaskActionView::Shell { program, args }
            && seq![program] + args == words(input)),
        words(input).len() > 0 ==> (task_action("run"@, input) matches TaskActionView::Shell { program, args }
            && seq![program] + args == words(input)),
        words(input).len() == 0 ==> task_action("shell"@, input) is Fail && task_action("run"@, input) is Fail,
        task_action("file:read"@, input) == (TaskActionView::FileRead { path: input }),
        task_action("memory:search"@, input) == (TaskActionView::MemorySearch { query: input }),
        input.contains('|') ==> (task_action("file:write"@, input) matches TaskActionView::FileWrite { path, content }
            && path + seq!['|'] + content == input && !path.contains('|')),
        input.contains('|') ==> (task_action("memory:store"@, input) matches TaskActionView::MemoryStore {
            source,
            content,
        } && source + seq!['|'] + content == input && !source.contains('|')),
        !input.contains('|') ==> task_action("file:write"@, input) is Fail && task_action("memory:store"@, input) is Fail,
{
    lemma_tool_names_differ();
    lemma_split_pipe_rejoins(input);
    if words(input).len() > 0 {
        assert(seq![words(input)[0]] + words(input).skip(1) =~= words(input));
    }
    if let Some((a, b)) = split_pipe(input) {
        assert((a + seq!['|'] + b)[a.len() as int] == '|');
        assert(input.contains('|'));
    }
}

/// Any tool other than the routed ones asks the language model with the
/// task's tool and input.
pub proof fn lemma_other_tools_ask_the_model(tool: Seq<char>, input: Seq<char>)
    requires
        tool.len() != 7 && tool.len() != 6 && tool.len() != 5 && tool.len() != 3 && tool.len() != 9
            && tool.len() != 10 && tool.len() != 13 && tool.len() != 12,
    ensures
        task_action(tool, input) == (TaskActionView::Llm { tool, input }),
{
    lemma_tool_names_differ();
}

/// Splitting at the first `|` loses nothing: the two parts joined by `|`
/// give the text back, and the first part holds no `|`.
pub proof fn lemma_split_pipe_rejoins(s: Seq<char>)
    ensures
        split_pipe(s) matches Some((a, b)) ==> a + seq!['|'] + b == s && !a.contains('|'),
        split_pipe(s) is None ==> !s.contains('|'),
{
    lemma_pipe_index(s, 0);
    let i = pipe_index(s, 0);
    if i < s.len() {
        assert(s.take(i) + seq!['|'] + s.skip(i + 1) =~= s);
        assert forall|k: int| 0 <= k < s.take(i).len() implies s.take(i)[k] != '|' by {
            assert(s.take(i)[k] == s[k]);
        }
    }
}

proof fn lemma_pipe_index(s: Seq<char>, i: int)
    requires
        0 <= i <= s.len(),
    ensures
        i <= pipe_index(s, i) <= s.len(),
        pipe_index(s, i) < s.len() ==> s[pipe_index(s, i)] == '|',
        forall|k: int| i <= k < pipe_index(s, i) ==> s[k] != '|',
    decreases s.len() - i,
{
    if i < s.len() && s[i] != '|' {
        lemma_pipe_index(s, i + 1);
    }
}

} // verus!
