//! Git commands: the arguments handed to the `git` executable for each
//! command, the parsing of commands from task text, and the reading of
//! `git branch` listings. Running `git` itself happens outside.
use vstd::prelude::*;
use crate::bus::{SystemEvent, SystemEventView};
use crate::text::{
    chars_of, cviews, concat2, concat3, has_prefix, join, join_strings, lines, owned, push_decimal, push_str,
    replace, replace_all, same_text, split_lines, split_words, starts_with, string_of, trim, trim_chars,
    views, words, decimal,
};

verus! {

/// A git operation.
#[derive(Debug, Clone)]
pub enum GitCommand {
    Clone { url: String, path: Option<String> },
    Init { path: String, bare: Option<bool> },
    Add { files: Vec<String> },
    Commit { message: String, all: Option<bool> },
    Push { remote: Option<String>, branch: Option<String>, force: Option<bool> },
    Pull { remote: Option<String>, branch: Option<String>, rebase: Option<bool> },
    Status { short: Option<bool> },
    Log { limit: Option<usize>, oneline: Option<bool> },
    Branch {
        list: Option<bool>,
        create: Option<String>,
        delete: Option<String>,
        checkout: Option<String>,
    },
    Checkout { branch: String, create_new: Option<bool> },
    Diff { staged: Option<bool> },
    Remote { list: Option<bool>, add: Option<(String, String)> },
    Fetch { remote: Option<String>, all: Option<bool> },
    Merge { branch: String, no_ff: Option<bool> },
    Rebase { branch: String },
    Stash { save: Option<bool>, pop: Option<bool>, list: Option<bool> },
    Show { reference: String },
}

/// A git operation as plain values.
pub enum GitCommandView {
    Clone { url: Seq<char>, path: Option<Seq<char>> },
    Init { path: Seq<char>, bare: Option<bool> },
    Add { files: Seq<Seq<char>> },
    Commit { message: Seq<char>, all: Option<bool> },
    Push { remote: Option<Seq<char>>, branch: Option<Seq<char>>, force: Option<bool> },
    Pull { remote: Option<Seq<char>>, branch: Option<Seq<char>>, rebase: Option<bool> },
    Status { short: Option<bool> },
    Log { limit: Option<nat>, oneline: Option<bool> },
    Branch {
        list: Option<bool>,
        create: Option<Seq<char>>,
        delete: Option<Seq<char>>,
        checkout: Option<Seq<char>>,
    },
    Checkout { branch: Seq<char>, create_new: Option<bool> },
    Diff { staged: Option<bool> },
    Remote { list: Option<bool>, add: Option<(Seq<char>, Seq<char>)> },
    Fetch { remote: Option<Seq<char>>, all: Option<bool> },
    Merge { branch: Seq<char>, no_ff: Option<bool> },
    Rebase { branch: Seq<char> },
    Stash { save: Option<bool>, pop: Option<bool>, list: Option<bool> },
    Show { reference: Seq<char> },
}

/// An optional text as plain values.
pub open spec fn opt_view(o: Option<String>) -> Option<Seq<char>> {
    match o {
        Some(s) => Some(s@),
        None => None,
    }
}

impl View for GitCommand {
    type V = GitCommandView;

    open spec fn view(&self) -> GitCommandView {
        match self {
            GitCommand::Clone { url, path } => GitCommandView::Clone { url: url@, path: opt_view(*path) },
            GitCommand::Init { path, bare } => GitCommandView::Init { path: path@, bare: *bare },
            GitCommand::Add { files } => GitCommandView::Add { files: views(files@) },
            GitCommand::Commit { message, all } => GitCommandView::Commit { message: message@, all: *all },
            GitCommand::Push { remote, branch, force } => GitCommandView::Push {
                remote: opt_view(*remote),
                branch: opt_view(*branch),
                force: *force,
            },
            GitCommand::Pull { remote, branch, rebase } => GitCommandView::Pull {
                remote: opt_view(*remote),
                branch: opt_view(*branch),
                rebase: *rebase,
            },
            GitCommand::Status { short } => GitCommandView::Status { short: *short },
            GitCommand::Log { limit, oneline } => GitCommandView::Log {
                limit: match limit {
                    Some(l) => Some(*l as nat),
                    None => None,
                },
                oneline: *oneline,
            },
            GitCommand::Branch { list, create, delete, checkout } => GitCommandView::Branch {
                list: *list,
                create: opt_view(*create),
                delete: opt_view(*delete),
                checkout: opt_view(*checkout),
            },
            GitCommand::Checkout { branch, create_new } => GitCommandView::Checkout {
                branch: branch@,
                create_new: *create_new,
            },
            GitCommand::Diff { staged } => GitCommandView::Diff { staged: *staged },
            GitCommand::Remote { list, add } => GitCommandView::Remote {
                list: *list,
                add: match add {
                    Some(p) => Some((p.0@, p.1@)),
                    None => None,
                },
            },
            GitCommand::Fetch { remote, all } => GitCommandView::Fetch { remote: opt_view(*remote), all: *all },
            GitCommand::Merge { branch, no_ff } => GitCommandView::Merge { branch: branch@, no_ff: *no_ff },
            GitCommand::Rebase { branch } => GitCommandView::Rebase { branch: branch@ },
            GitCommand::Stash { save, pop, list } => GitCommandView::Stash { save: *save, pop: *pop, list: *list },
            GitCommand::Show { reference } => GitCommandView::Show { reference: reference@ },
        }
    }
}

/// The flag `f` when the option is `Some(true)`.
pub open spec fn flag(o: Option<bool>, f: Seq<char>) -> Seq<Seq<char>> {
    if o == Some(true) {
        seq![f]
    } else {
        Seq::empty()
    }
}

/// The optional argument, if given.
pub open spec fn opt_arg(o: Option<Seq<char>>) -> Seq<Seq<char>> {
    match o {
        Some(s) => seq![s],
        None => Seq::empty(),
    }
}

/// The arguments passed to `git` for a command.
pub open spec fn git_args(c: GitCommandView) -> Seq<Seq<char>> {
    match c {
        GitCommandView::Clone { url, path } => seq!["clone"@, url] + opt_arg(path),
        GitCommandView::Init { path, bare } => seq!["init"@] + flag(bare, "--bare"@) + seq![path],
        GitCommandView::Add { files } => seq!["add"@] + files,
        GitCommandView::Commit { message, all } => seq!["commit"@, "-m"@, message] + flag(all, "-a"@),
        GitCommandView::Push { remote, branch, force } => seq!["push"@] + flag(force, "--force"@) + opt_arg(
            remote,
        ) + opt_arg(branch),
        GitCommandView::Pull { remote, branch, rebase } => seq!["pull"@] + flag(rebase, "--rebase"@)
            + opt_arg(remote) + opt_arg(branch),
        GitCommandView::Status { short } => seq!["status"@] + flag(short, "-s"@),
        GitCommandView::Log { limit, oneline } => seq!["log"@] + flag(oneline, "--oneline"@) + match limit {
            Some(l) => seq!["-n"@ + decimal(l)],
            None => Seq::empty(),
        },
        GitCommandView::Branch { list, create, delete, checkout } => seq!["branch"@] + flag(list, "-l"@)
            + opt_arg(create) + match delete {
            Some(d) => seq!["-d"@, d],
            None => Seq::empty(),
        } + opt_arg(checkout),
        GitCommandView::Checkout { branch, create_new } => seq!["checkout"@] + flag(create_new, "-b"@) + seq![
            branch,
        ],
        GitCommandView::Diff { staged } => seq!["diff"@] + flag(staged, "--staged"@),
        GitCommandView::Remote { list, add } => seq!["remote"@] + flag(list, "-v"@) + match add {
            Some(p) => seq!["add"@, p.0, p.1],
            None => Seq::empty(),
        },
        GitCommandView::Fetch { remote, all } => seq!["fetch"@] + flag(all, "--all"@) + opt_arg(remote),
        GitCommandView::Merge { branch, no_ff } => seq!["merge"@] + flag(no_ff, "--no-ff"@) + seq![branch],
        GitCommandView::Rebase { branch } => seq!["rebase"@, branch],
        GitCommandView::Stash { save, pop, list } => seq!["stash"@] + flag(pop, "pop"@) + flag(list, "list"@),
        GitCommandView::Show { reference } => seq!["show"@, reference],
    }
}

/// How a command is shown in results and logs.
pub open spec fn git_display(c: GitCommandView) -> Seq<char> {
    match c {
        GitCommandView::Clone { url, .. } => "git clone "@ + url,
        GitCommandView::Init { .. } => "git init"@,
        GitCommandView::Add { files } => "git add "@ + join(files, " "@),
        GitCommandView::Commit { message, .. } => "git commit -m \""@ + message + "\""@,
        GitCommandView::Push { .. } => "git push"@,
        GitCommandView::Pull { .. } => "git pull"@,
        GitCommandView::Status { .. } => "git status"@,
        GitCommandView::Log { .. } => "git log"@,
        GitCommandView::Branch { .. } => "git branch"@,
        GitCommandView::Checkout { branch, .. } => "git checkout "@ + branch,
        GitCommandView::Diff { .. } => "git diff"@,
        GitCommandView::Remote { .. } => "git remote"@,
        GitCommandView::Fetch { .. } => "git fetch"@,
        GitCommandView::Merge { branch, .. } => "git merge "@ + branch,
        GitCommandView::Rebase { branch } => "git rebase "@ + branch,
        GitCommandView::Stash { .. } => "git stash"@,
        GitCommandView::Show { reference } => "git show "@ + reference,
    }
}

/// The `git` subcommand of a command.
pub open spec fn subcommand(c: GitCommandView) -> Seq<char> {
    match c {
        GitCommandView::Clone { .. } => "clone"@,
        GitCommandView::Init { .. } => "init"@,
        GitCommandView::Add { .. } => "add"@,
        GitCommandView::Commit { .. } => "commit"@,
        GitCommandView::Push { .. } => "push"@,
        GitCommandView::Pull { .. } => "pull"@,
        GitCommandView::Status { .. } => "status"@,
        GitCommandView::Log { .. } => "log"@,
        GitCommandView::Branch { .. } => "branch"@,
        GitCommandView::Checkout { .. } => "checkout"@,
        GitCommandView::Diff { .. } => "diff"@,
        GitCommandView::Remote { .. } => "remote"@,
        GitCommandView::Fetch { .. } => "fetch"@,
        GitCommandView::Merge { .. } => "merge"@,
        GitCommandView::Rebase { .. } => "rebase"@,
        GitCommandView::Stash { .. } => "stash"@,
        GitCommandView::Show { .. } => "show"@,
    }
}

/// The texts a command carries: URLs, paths, files, messages, remotes,
/// branches, the added remote's name and URL, references.
pub open spec fn payloads(c: GitCommandView) -> Seq<Seq<char>> {
    match c {
        GitCommandView::Clone { url, path } => seq![url] + opt_arg(path),
        GitCommandView::Init { path, .. } => seq![path],
        GitCommandView::Add { files } => files,
        GitCommandView::Commit { message, .. } => seq![message],
        GitCommandView::Push { remote, branch, .. } => opt_arg(remote) + opt_arg(branch),
        GitCommandView::Pull { remote, branch, .. } => opt_arg(remote) + opt_arg(branch),
        GitCommandView::Branch { create, delete, checkout, .. } => opt_arg(create) + opt_arg(delete) + opt_arg(
            checkout,
        ),
        GitCommandView::Checkout { branch, .. } => seq![branch],
        GitCommandView::Remote { add, .. } => match add {
            Some(p) => seq![p.0, p.1],
            None => Seq::empty(),
        },
        GitCommandView::Fetch { remote, .. } => opt_arg(remote),
        GitCommandView::Merge { branch, .. } => seq![branch],
        GitCommandView::Rebase { branch } => seq![branch],
        GitCommandView::Show { reference } => seq![reference],
        _ => Seq::empty(),
    }
}

#[verifier::spinoff_prover]
#[verifier::rlimit(50)]
proof fn lemma_git_payloads(c: GitCommandView)
    ensures
        forall|k: int| 0 <= k < payloads(c).len() ==> git_args(c).skip(1).contains(#[trigger] payloads(c)[k]),
{
    let a = git_args(c);
    let t = a.skip(1);
    assert forall|k: int| 0 <= k < payloads(c).len() implies t.contains(#[trigger] payloads(c)[k]) by {
        let p = payloads(c)[k];
        match c {
            GitCommandView::Clone { url, path } => {
                assert(t =~= payloads(c));
                assert(t[k] == p);
            },
            GitCommandView::Init { path, bare } => {
                assert(t[t.len() - 1] == p);
            },
            GitCommandView::Add { files } => {
                assert(t =~= payloads(c));
                assert(t[k] == p);
            },
            GitCommandView::Commit { message, all } => {
                assert(t[1] == p);
            },
            GitCommandView::Push { remote, branch, force } => {
                let f = flag(force, "--force"@).len();
                assert(t =~= flag(force, "--force"@) + payloads(c));
                assert(t[f + k] == p);
            },
            GitCommandView::Pull { remote, branch, rebase } => {
                let f = flag(rebase, "--rebase"@).len();
                assert(t =~= flag(rebase, "--rebase"@) + payloads(c));
                assert(t[f + k] == p);
            },
            GitCommandView::Branch { list, create, delete, checkout } => {
                let f = flag(list, "-l"@).len() as int;
                let c1 = opt_arg(create).len() as int;
                let d1 = opt_arg(delete).len() as int;
                if k < c1 {
                    assert(t[f + k] == p);
                } else if k < c1 + d1 {
                    assert(t[f + c1 + 1] == p);
                } else {
                    assert(t[f + c1 + 2 * d1] == p);
                }
            },
            GitCommandView::Checkout { branch, create_new } => {
                assert(t[t.len() - 1] == p);
            },
            GitCommandView::Remote { list, add } => {
                let f = flag(list, "-v"@).len() as int;
                assert(t[f + 1 + k] == p);
            },
            GitCommandView::Fetch { remote, all } => {
                assert(t[t.len() - 1] == p);
            },
            GitCommandView::Merge { branch, no_ff } => {
                assert(t[t.len() - 1] == p);
            },
            GitCommandView::Rebase { branch } => {
                assert(t[0] == p);
            },
            GitCommandView::Show { reference } => {
                assert(t[0] == p);
            },
            _ => {},
        }
    }
}

/// Every yes/no option set to `Some(true)` puts its flag among the arguments
/// after the subcommand; for the commands that carry no text of their own
/// (status, log, diff, stash) the flag is there exactly when the option is
/// set.
pub proof fn lemma_git_flags(c: GitCommandView)
    ensures
        ({
            let t = git_args(c).skip(1);
            match c {
                GitCommandView::Init { bare, .. } => bare == Some(true) ==> t.contains("--bare"@),
                GitCommandView::Commit { all, .. } => all == Some(true) ==> t.contains("-a"@),
                GitCommandView::Push { force, .. } => force == Some(true) ==> t.contains("--force"@),
                GitCommandView::Pull { rebase, .. } => rebase == Some(true) ==> t.contains("--rebase"@),
                GitCommandView::Status { short } => (short == Some(true)) == t.contains("-s"@),
                GitCommandView::Log { oneline, .. } => (oneline == Some(true)) == t.contains("--oneline"@),
                GitCommandView::Branch { list, .. } => list == Some(true) ==> t.contains("-l"@),
                GitCommandView::Checkout { create_new, .. } => create_new == Some(true) ==> t.contains("-b"@),
                GitCommandView::Diff { staged } => (staged == Some(true)) == t.contains("--staged"@),
                GitCommandView::Remote { list, .. } => list == Some(true) ==> t.contains("-v"@),
                GitCommandView::Fetch { all, .. } => all == Some(true) ==> t.contains("--all"@),
                GitCommandView::Merge { no_ff, .. } => no_ff == Some(true) ==> t.contains("--no-ff"@),
                GitCommandView::Stash { pop, list, .. } => (pop == Some(true)) == t.contains("pop"@)
                    && (list == Some(true)) == t.contains("list"@),
                _ => true,
            }
        }),
{
    reveal_strlit("--bare");
    reveal_strlit("-a");
    reveal_strlit("--force");
    reveal_strlit("--rebase");
    reveal_strlit("-s");
    reveal_strlit("--oneline");
    reveal_strlit("-n");
    reveal_strlit("-l");
    reveal_strlit("-b");
    reveal_strlit("--staged");
    reveal_strlit("-v");
    reveal_strlit("--all");
    reveal_strlit("--no-ff");
    reveal_strlit("pop");
    reveal_strlit("list");
    let t = git_args(c).skip(1);
    match c {
        GitCommandView::Init { path, bare } => {
            if bare == Some(true) {
                assert(t[0] == "--bare"@);
            }
        },
        GitCommandView::Commit { message, all } => {
            if all == Some(true) {
                assert(t[2] == "-a"@);
            }
        },
        GitCommandView::Push { remote, branch, force } => {
            if force == Some(true) {
                assert(t[0] == "--force"@);
            }
        },
        GitCommandView::Pull { remote, branch, rebase } => {
            if rebase == Some(true) {
                assert(t[0] == "--rebase"@);
            }
        },
        GitCommandView::Status { short } => {
            if short == Some(true) {
                assert(t[0] == "-s"@);
            } else {
                assert(t.len() == 0);
            }
        },
        GitCommandView::Log { limit, oneline } => {
            let f = flag(oneline, "--oneline"@);
            let l = match limit {
                Some(n) => seq!["-n"@ + decimal(n)],
                None => Seq::<Seq<char>>::empty(),
            };
            assert(t =~= f + l);
            if oneline == Some(true) {
                assert(t[0] == "--oneline"@);
            } else {
                assert(t =~= l);
                if let Some(n) = limit {
                    assert(("-n"@ + decimal(n))[1] == 'n');
                    assert("--oneline"@[1] == '-');
                    assert(t[0] != "--oneline"@);
                }
            }
        },
        GitCommandView::Branch { list, create, delete, checkout } => {
            if list == Some(true) {
                assert(t[0] == "-l"@);
            }
        },
        GitCommandView::Checkout { branch, create_new } => {
            if create_new == Some(true) {
                assert(t[0] == "-b"@);
            }
        },
        GitCommandView::Diff { staged } => {
            if staged == Some(true) {
                assert(t[0] == "--staged"@);
            } else {
                assert(t.len() == 0);
            }
        },
        GitCommandView::Remote { list, add } => {
            if list == Some(true) {
                assert(t[0] == "-v"@);
            }
        },
        GitCommandView::Fetch { remote, all } => {
            if all == Some(true) {
                assert(t[0] == "--all"@);
            }
        },
        GitCommandView::Merge { branch, no_ff } => {
            if no_ff == Some(true) {
                assert(t[0] == "--no-ff"@);
            }
        },
        GitCommandView::Stash { save, pop, list } => {
            assert(t =~= flag(pop, "pop"@) + flag(list, "list"@));
            if pop == Some(true) {
                assert(t[0] == "pop"@);
            }
            if list == Some(true) {
                assert(t[t.len() - 1] == "list"@);
            }
            if pop != Some(true) && list != Some(true) {
                assert(t.len() == 0);
            }
        },
        _ => {},
    }
}

/// The arguments of every command start with its subcommand, its display
/// starts with `git ` and that subcommand, and every text it carries is
/// passed as one of the remaining arguments.
pub proof fn lemma_git_args_shape(c: GitCommandView)
    ensures
        git_args(c).len() > 0,
        git_args(c)[0] == subcommand(c),
        has_prefix(git_display(c), "git "@ + subcommand(c)),
        forall|k: int| 0 <= k < payloads(c).len() ==> git_args(c).skip(1).contains(#[trigger] payloads(c)[k]),
{
    reveal_strlit("git ");
    reveal_strlit("clone");
    reveal_strlit("git clone ");
    reveal_strlit("init");
    reveal_strlit("git init");
    reveal_strlit("add");
    reveal_strlit("git add ");
    reveal_strlit("commit");
    reveal_strlit("git commit -m \"");
    reveal_strlit("push");
    reveal_strlit("git push");
    reveal_strlit("pull");
    reveal_strlit("git pull");
    reveal_strlit("status");
    reveal_strlit("git status");
    reveal_strlit("log");
    reveal_strlit("git log");
    reveal_strlit("branch");
    reveal_strlit("git branch");
    reveal_strlit("checkout");
    reveal_strlit("git checkout ");
    reveal_strlit("diff");
    reveal_strlit("git diff");
    reveal_strlit("remote");
    reveal_strlit("git remote");
    reveal_strlit("fetch");
    reveal_strlit("git fetch");
    reveal_strlit("merge");
    reveal_strlit("git merge ");
    reveal_strlit("rebase");
    reveal_strlit("git rebase ");
    reveal_strlit("stash");
    reveal_strlit("git stash");
    reveal_strlit("show");
    reveal_strlit("git show ");
    let a = git_args(c);
    let d = git_display(c);
    let pre = "git "@ + subcommand(c);
    assert(d.take(pre.len() as int) =~= pre);
    lemma_git_payloads(c);
}

/// Appends the text `s` as one argument.
fn push_arg(args: &mut Vec<String>, s: &str)
    ensures
        views(final(args)@) == views(old(args)@) + seq![s@],
{
    let ghost a0 = views(args@);
    args.push(owned(s));
    assert(views(args@) =~= a0 + seq![s@]);
}

/// Appends the flag `f` when `o` is `Some(true)`.
fn push_flag(args: &mut Vec<String>, o: Option<bool>, f: &str)
    ensures
        views(final(args)@) == views(old(args)@) + flag(o, f@),
{
    if let Some(true) = o {
        push_arg(args, f);
    } else {
        assert(views(args@) + flag(o, f@) =~= views(args@));
    }
}

/// Appends the optional argument, if given.
fn push_opt(args: &mut Vec<String>, o: &Option<String>)
    ensures
        views(final(args)@) == views(old(args)@) + opt_arg(opt_view(*o)),
{
    match o {
        Some(s) => push_arg(args, s.as_str()),
        None => {
            assert(views(args@) + opt_arg(opt_view(*o)) =~= views(args@));
        },
    }
}

/// Runs git commands in a working directory, with a time limit.
pub struct GitSkill {
    working_dir: Option<String>,
    timeout_secs: u64,
}

/// Index of the first `/` at or after `i`, or the length when there is none.
pub open spec fn slash_end(p: Seq<char>, i: int) -> int
    decreases p.len() - i,
{
    if i < 0 || i >= p.len() {
        p.len() as int
    } else if p[i] == '/' {
        i
    } else {
        slash_end(p, i + 1)
    }
}

/// The first `/`-separated segment of a path.
pub open spec fn first_segment(p: Seq<char>) -> Seq<char> {
    p.take(slash_end(p, 0))
}

impl GitSkill {
    /// The working directory.
    pub closed spec fn working_dir_view(&self) -> Option<Seq<char>> {
        opt_view(self.working_dir)
    }

    /// The time limit of one command, in seconds.
    pub closed spec fn timeout_view(&self) -> u64 {
        self.timeout_secs
    }

    /// A skill working in `working_dir` (the current directory when `None`),
    /// with a limit of five minutes.
    pub fn new(working_dir: Option<String>) -> (g: GitSkill)
        ensures
            g.working_dir_view() == opt_view(working_dir),
            g.timeout_view() == 300,
    {
        GitSkill { working_dir, timeout_secs: 300 }
    }

    /// The same skill with a limit of `timeout_secs` seconds.
    pub fn with_timeout(self, timeout_secs: u64) -> (g: GitSkill)
        ensures
            g.working_dir_view() == self.working_dir_view(),
            g.timeout_view() == timeout_secs,
    {
        GitSkill { working_dir: self.working_dir, timeout_secs }
    }

    /// The time limit of one command, in seconds.
    pub fn timeout_secs(&self) -> (t: u64)
        ensures
            t == self.timeout_view(),
    {
        self.timeout_secs
    }

    /// The directory a command runs in: for a clone into a path, the first
    /// segment of that path; otherwise the skill's working directory.
    pub fn directory_for(&self, command: &GitCommand) -> (d: Option<String>)
        ensures
            opt_view(d) == match command@ {
                GitCommandView::Clone { path: Some(p), .. } => Some(first_segment(p)),
                _ => self.working_dir_view(),
            },
    {
        match command {
            GitCommand::Clone { path: Some(p), .. } => {
                let c = chars_of(p.as_str());
                let mut i: usize = 0;
                while i < c.len() && c[i] != '/'
                    invariant
                        i <= c@.len(),
                        slash_end(c@, 0) == slash_end(c@, i as int),
                    decreases c@.len() - i,
                {
                    i = i + 1;
                }
                let mut v: Vec<char> = Vec::new();
                let mut k: usize = 0;
                while k < i
                    invariant
                        k <= i <= c@.len(),
                        v@ == c@.take(k as int),
                    decreases i - k,
                {
                    v.push(c[k]);
                    k = k + 1;
                    assert(v@ =~= c@.take(k as int));
                }
                Some(string_of(v.as_slice()))
            },
            _ => match &self.working_dir {
                Some(w) => Some(w.clone()),
                None => None,
            },
        }
    }

    /// The command of a short status check.
    pub fn status_command() -> (c: GitCommand)
        ensures
            c@ == (GitCommandView::Status { short: Some(true) }),
    {
        GitCommand::Status { short: Some(true) }
    }

    /// The command listing the branches, whose output names the current one.
    pub fn current_branch_command() -> (c: GitCommand)
        ensures
            c@ == (GitCommandView::Branch { list: Some(true), create: None, delete: None, checkout: None }),
    {
        GitCommand::Branch { list: Some(true), create: None, delete: None, checkout: None }
    }

    /// The commands of a quick commit and push, in order: stage everything,
    /// commit with `message`, push without force.
    pub fn commit_and_push_commands(message: &str) -> (cs: Vec<GitCommand>)
        ensures
            cs@.len() == 3,
            cs@[0]@ == (GitCommandView::Add { files: seq!["."@] }),
            cs@[1]@ == (GitCommandView::Commit { message: message@, all: Some(true) }),
            cs@[2]@ == (GitCommandView::Push { remote: None, branch: None, force: Some(false) }),
    {
        let files = vec![owned(".")];
        assert(views(files@) =~= seq!["."@]);
        vec![
            GitCommand::Add { files },
            GitCommand::Commit { message: owned(message), all: Some(true) },
            GitCommand::Push { remote: None, branch: None, force: Some(false) },
        ]
    }

    /// The arguments passed to `git` for `command`, and how the command is shown.
    pub fn build_args(&self, command: &GitCommand) -> (r: (Vec<String>, String))
        ensures
            views(r.0@) == git_args(command@),
            r.1@ == git_display(command@),
    {
        let mut args: Vec<String> = Vec::new();
        proof {
            reveal_strlit("clone");
            reveal_strlit("init");
        }
        match command {
            GitCommand::Clone { url, path } => {
                push_arg(&mut args, "clone");
                push_arg(&mut args, url.as_str());
                push_opt(&mut args, path);
                let d = concat2("git clone ", url.as_str());
                assert(views(args@) =~= git_args(command@));
                (args, d)
            },
            GitCommand::Init { path, bare } => {
                push_arg(&mut args, "init");
                push_flag(&mut args, *bare, "--bare");
                push_arg(&mut args, path.as_str());
                assert(views(args@) =~= git_args(command@));
                (args, owned("git init"))
            },
            GitCommand::Add { files } => {
                push_arg(&mut args, "add");
                let mut i: usize = 0;
                while i < files.len()
                    invariant
                        i <= files@.len(),
                        views(args@) == seq!["add"@] + views(files@).take(i as int),
                    decreases files@.len() - i,
                {
                    push_arg(&mut args, files[i].as_str());
                    assert(views(files@).take(i + 1) =~= views(files@).take(i as int).push(files@[i as int]@));
                    i = i + 1;
                }
                assert(views(files@).take(files@.len() as int) =~= views(files@));
                let joined = join_strings(files, " ");
                let d = concat2("git add ", joined.as_str());
                (args, d)
            },
            GitCommand::Commit { message, all } => {
                push_arg(&mut args, "commit");
                push_arg(&mut args, "-m");
                push_arg(&mut args, message.as_str());
                push_flag(&mut args, *all, "-a");
                assert(views(args@) =~= git_args(command@));
                (args, concat3("git commit -m \"", message.as_str(), "\""))
            },
            GitCommand::Push { remote, branch, force } => {
                push_arg(&mut args, "push");
                push_flag(&mut args, *force, "--force");
                push_opt(&mut args, remote);
                push_opt(&mut args, branch);
                assert(views(args@) =~= git_args(command@));
                (args, owned("git push"))
            },
            GitCommand::Pull { remote, branch, rebase } => {
                push_arg(&mut args, "pull");
                push_flag(&mut args, *rebase, "--rebase");
                push_opt(&mut args, remote);
                push_opt(&mut args, branch);
                assert(views(args@) =~= git_args(command@));
                (args, owned("git pull"))
            },
            GitCommand::Status { short } => {
                push_arg(&mut args, "status");
                push_flag(&mut args, *short, "-s");
                assert(views(args@) =~= git_args(command@));
                (args, owned("git status"))
            },
            GitCommand::Log { limit, oneline } => {
                push_arg(&mut args, "log");
                push_flag(&mut args, *oneline, "--oneline");
                match limit {
                    Some(l) => {
                        let mut v: Vec<char> = Vec::new();
                        push_str(&mut v, "-n");
                        push_decimal(&mut v, *l as u64);
                        let a = string_of(v.as_slice());
                        let ghost before = views(args@);
                        args.push(a);
                        assert(views(args@) =~= before + seq![a@]);
                    },
                    None => {},
                }
                assert(views(args@) =~= git_args(command@));
                (args, owned("git log"))
            },
            GitCommand::Branch { list, create, delete, checkout } => {
                push_arg(&mut args, "branch");
                push_flag(&mut args, *list, "-l");
                push_opt(&mut args, create);
                match delete {
                    Some(d) => {
                        push_arg(&mut args, "-d");
                        push_arg(&mut args, d.as_str());
                    },
                    None => {},
                }
                push_opt(&mut args, checkout);
                assert(views(args@) =~= git_args(command@));
                (args, owned("git branch"))
            },
            GitCommand::Checkout { branch, create_new } => {
                push_arg(&mut args, "checkout");
                push_flag(&mut args, *create_new, "-b");
                push_arg(&mut args, branch.as_str());
                assert(views(args@) =~= git_args(command@));
                (args, concat2("git checkout ", branch.as_str()))
            },
            GitCommand::Diff { staged } => {
                push_arg(&mut args, "diff");
                push_flag(&mut args, *staged, "--staged");
                assert(views(args@) =~= git_args(command@));
                (args, owned("git diff"))
            },
            GitCommand::Remote { list, add } => {
                push_arg(&mut args, "remote");
                push_flag(&mut args, *list, "-v");
                match add {
                    Some(p) => {
                        push_arg(&mut args, "add");
                        push_arg(&mut args, p.0.as_str());
                        push_arg(&mut args, p.1.as_str());
                    },
                    None => {},
                }
                assert(views(args@) =~= git_args(command@));
                (args, owned("git remote"))
            },
            GitCommand::Fetch { remote, all } => {
                push_arg(&mut args, "fetch");
                push_flag(&mut args, *all, "--all");
                push_opt(&mut args, remote);
                assert(views(args@) =~= git_args(command@));
                (args, owned("git fetch"))
            },
            GitCommand::Merge { branch, no_ff } => {
                push_arg(&mut args, "merge");
                push_flag(&mut args, *no_ff, "--no-ff");
                push_arg(&mut args, branch.as_str());
                assert(views(args@) =~= git_args(command@));
                (args, concat2("git merge ", branch.as_str()))
            },
            GitCommand::Rebase { branch } => {
                push_arg(&mut args, "rebase");
                push_arg(&mut args, branch.as_str());
                assert(views(args@) =~= git_args(command@));
                (args, concat2("git rebase ", branch.as_str()))
            },
            GitCommand::Stash { save: _, pop, list } => {
                push_arg(&mut args, "stash");
                push_flag(&mut args, *pop, "pop");
                push_flag(&mut args, *list, "list");
                assert(views(args@) =~= git_args(command@));
                (args, owned("git stash"))
            },
            GitCommand::Show { reference } => {
                push_arg(&mut args, "show");
                push_arg(&mut args, reference.as_str());
                assert(views(args@) =~= git_args(command@));
                (args, concat2("git show ", reference.as_str()))
            },
        }
    }
}

/// The command that a task's text names, or why it names none: the first
/// word picks the command; a clone takes a URL and a path from the next
/// words, a commit takes the text with `commit ` removed, trimmed, as its message.
pub open spec fn parse_git(input: Seq<char>) -> Result<GitCommandView, Seq<char>> {
    let parts = words(input);
    if parts.len() == 0 {
        Err("Empty command"@)
    } else if parts[0] == "clone"@ {
        Ok(
            GitCommandView::Clone {
                url: if parts.len() > 1 {
                    parts[1]
                } else {
                    Seq::empty()
                },
                path: if parts.len() > 2 {
                    Some(parts[2])
                } else {
                    None
                },
            },
        )
    } else if parts[0] == "status"@ {
        Ok(GitCommandView::Status { short: Some(true) })
    } else if parts[0] == "commit"@ {
        Ok(GitCommandView::Commit { message: trim(replace_all(input, "commit "@, Seq::empty())), all: Some(true) })
    } else if parts[0] == "push"@ {
        Ok(GitCommandView::Push { remote: None, branch: None, force: Some(false) })
    } else if parts[0] == "pull"@ {
        Ok(GitCommandView::Pull { remote: None, branch: None, rebase: Some(false) })
    } else if parts[0] == "log"@ {
        Ok(GitCommandView::Log { limit: Some(10), oneline: Some(true) })
    } else {
        Err("Unknown git command: "@ + parts[0])
    }
}

/// The branch marked current (`* name`) in a `git branch` listing: the first
/// such line, without the mark, trimmed.
pub open spec fn marked_branch(ls: Seq<Seq<char>>) -> Option<Seq<char>>
    decreases ls.len(),
{
    if ls.len() == 0 {
        None
    } else if has_prefix(ls[0], "* "@) {
        Some(trim(ls[0].skip(2)))
    } else {
        marked_branch(ls.skip(1))
    }
}

/// The git actor: runs the git tasks dispatched on the bus.
pub struct GitActor;

impl GitActor {
    /// The command that a task's text names, or why it names none.
    pub fn parse_command(input: &str) -> (r: Result<GitCommand, String>)
        ensures
            match r {
                Ok(c) => parse_git(input@) == Ok::<GitCommandView, Seq<char>>(c@),
                Err(e) => parse_git(input@) == Err::<GitCommandView, Seq<char>>(e@),
            },
    {
        let ic = chars_of(input);
        let parts = split_words(ic.as_slice());
        if parts.len() == 0 {
            return Err(owned("Empty command"));
        }
        let ghost ps = views(parts@);
        assert(ps[0] == parts@[0]@);
        let first = parts[0].as_str();
        if same_text(first, "clone") {
            let url = if parts.len() > 1 {
                assert(ps[1] == parts@[1]@);
                parts[1].clone()
            } else {
                String::new()
            };
            let path = if parts.len() > 2 {
                assert(ps[2] == parts@[2]@);
                Some(parts[2].clone())
            } else {
                None
            };
            proof {
                if parts.len() <= 1 {
                    assert(url@ =~= Seq::<char>::empty());
                }
            }
            Ok(GitCommand::Clone { url, path })
        } else if same_text(first, "status") {
            Ok(GitCommand::Status { short: Some(true) })
        } else if same_text(first, "commit") {
            proof {
                reveal_strlit("commit ");
            }
            let without = replace(input, "commit ", "");
            let wc = chars_of(without.as_str());
            let t = trim_chars(wc.as_slice());
            proof {
                reveal_strlit("");
                assert(""@ =~= Seq::<char>::empty());
            }
            Ok(GitCommand::Commit { message: string_of(t.as_slice()), all: Some(true) })
        } else if same_text(first, "push") {
            Ok(GitCommand::Push { remote: None, branch: None, force: Some(false) })
        } else if same_text(first, "pull") {
            Ok(GitCommand::Pull { remote: None, branch: None, rebase: Some(false) })
        } else if same_text(first, "log") {
            Ok(GitCommand::Log { limit: Some(10), oneline: Some(true) })
        } else {
            Err(concat2("Unknown git command: ", first))
        }
    }

    /// The git task an event dispatches, as its id and input; `None` for any
    /// other event, which the actor passes over.
    pub fn task_of(ev: &SystemEvent) -> (r: Option<(String, String)>)
        ensures
            match ev@ {
                SystemEventView::TaskDispatched { task_id, tool, input } => if tool == "git"@ || has_prefix(
                    tool,
                    "git:"@,
                ) {
                    r matches Some((a, b)) && a@ == task_id && b@ == input
                } else {
                    r is None
                },
                _ => r is None,
            },
    {
        match ev.dispatched_task() {
            Some((task_id, tool, input)) => if Self::handles(tool.as_str()) {
                Some((task_id, input))
            } else {
                None
            },
            None => None,
        }
    }

    /// Whether the actor takes tasks for `tool`: `git` itself or `git:` and a
    /// sub-tool.
    pub fn handles(tool: &str) -> (b: bool)
        ensures
            b == (tool@ == "git"@ || has_prefix(tool@, "git:"@)),
    {
        let t = chars_of(tool);
        let g = chars_of("git:");
        same_text(tool, "git") || starts_with(t.as_slice(), g.as_slice())
    }

    /// The event reporting that the actor starts a task with text `input`.
    pub fn executing_event(input: &str) -> (e: SystemEvent)
        ensures
            e@ == (SystemEventView::Log { level: "INFO"@, source: "Git"@, message: "Executing: "@ + input@ }),
    {
        SystemEvent::Log { level: owned("INFO"), source: owned("Git"), message: concat2("Executing: ", input) }
    }

    /// The event reporting how the task `task_id` ended: its command and
    /// output on success, else its error (or `Unknown error` when there is none).
    pub fn outcome_event(task_id: String, success: bool, command: &str, output: &str, error: Option<String>) -> (e:
        SystemEvent)
        ensures
            success ==> e@ == (SystemEventView::TaskCompleted {
                task_id: task_id@,
                result: "Command: "@ + command@ + "\nOutput:\n"@ + output@,
            }),
            !success ==> e@ == (SystemEventView::TaskFailed {
                task_id: task_id@,
                error: match error {
                    Some(m) => m@,
                    None => "Unknown error"@,
                },
            }),
    {
        if success {
            let mut v: Vec<char> = Vec::new();
            push_str(&mut v, "Command: ");
            push_str(&mut v, command);
            push_str(&mut v, "\nOutput:\n");
            push_str(&mut v, output);
            SystemEvent::TaskCompleted { task_id, result: string_of(v.as_slice()) }
        } else {
            let m = match error {
                Some(m) => m,
                None => owned("Unknown error"),
            };
            SystemEvent::TaskFailed { task_id, error: m }
        }
    }
}

/// The current branch named by the output of `git branch -l`, when the
/// command succeeded and a line is marked.
pub fn current_branch_from(success: bool, output: &str) -> (r: Option<String>)
    ensures
        opt_view(r) == (if success {
            marked_branch(lines(output@))
        } else {
            None
        }),
{
    if !success {
        return None;
    }
    let oc = chars_of(output);
    let ls = split_lines(oc.as_slice());
    let mark = chars_of("* ");
    let mut i: usize = 0;
    assert(cviews(ls@).skip(0) =~= cviews(ls@));
    while i < ls.len()
        invariant
            success,
            cviews(ls@) == lines(output@),
            mark@ == "* "@,
            i <= ls@.len(),
            marked_branch(lines(output@)) == marked_branch(cviews(ls@).skip(i as int)),
        decreases ls@.len() - i,
    {
        let ghost rest = cviews(ls@).skip(i as int);
        assert(rest[0] == ls@[i as int]@);
        if starts_with(ls[i].as_slice(), mark.as_slice()) {
            let line = &ls[i];
            let mut tail: Vec<char> = Vec::new();
            let mut k: usize = 2;
            proof {
                reveal_strlit("* ");
            }
            while k < line.len()
                invariant
                    2 <= k <= line@.len(),
                    tail@ == line@.subrange(2, k as int),
                decreases line@.len() - k,
            {
                tail.push(line[k]);
                k = k + 1;
            }
            assert(tail@ =~= line@.skip(2));
            let t = trim_chars(tail.as_slice());
            assert(has_prefix(rest[0], "* "@));
            assert(marked_branch(rest) == Some(trim(rest[0].skip(2))));
            return Some(string_of(t.as_slice()));
        }
        assert(rest.skip(1) =~= cviews(ls@).skip(i + 1));
        i = i + 1;
    }
    assert(cviews(ls@).skip(i as int) =~= Seq::<Seq<char>>::empty());
    None
}

} // verus!
