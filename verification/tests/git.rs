use ant::bus::SystemEvent;
use ant::tools::git::{current_branch_from, GitActor, GitCommand, GitSkill};

fn args(c: &GitCommand) -> (Vec<String>, String) {
    GitSkill::new(None).build_args(c)
}

#[test]
fn clone_and_commit_args() {
    let (a, d) = args(&GitCommand::Clone { url: "https://x/r.git".into(), path: Some("dir/sub".into()) });
    assert_eq!(a, vec!["clone", "https://x/r.git", "dir/sub"]);
    assert_eq!(d, "git clone https://x/r.git");
    let (a, d) = args(&GitCommand::Commit { message: "fix".into(), all: Some(true) });
    assert_eq!(a, vec!["commit", "-m", "fix", "-a"]);
    assert_eq!(d, "git commit -m \"fix\"");
}

#[test]
fn flags_only_when_true() {
    let (a, _) = args(&GitCommand::Push { remote: Some("origin".into()), branch: Some("main".into()), force: Some(false) });
    assert_eq!(a, vec!["push", "origin", "main"]);
    let (a, _) = args(&GitCommand::Push { remote: None, branch: None, force: Some(true) });
    assert_eq!(a, vec!["push", "--force"]);
    let (a, _) = args(&GitCommand::Pull { remote: None, branch: None, rebase: Some(true) });
    assert_eq!(a, vec!["pull", "--rebase"]);
}

#[test]
fn log_limit_is_written_in_decimal() {
    let (a, d) = args(&GitCommand::Log { limit: Some(10), oneline: Some(true) });
    assert_eq!(a, vec!["log", "--oneline", "-n10"]);
    assert_eq!(d, "git log");
}

#[test]
fn branch_remote_stash_and_more() {
    let (a, _) = args(&GitCommand::Branch { list: Some(true), create: Some("new".into()), delete: Some("old".into()), checkout: None });
    assert_eq!(a, vec!["branch", "-l", "new", "-d", "old"]);
    let (a, _) = args(&GitCommand::Remote { list: None, add: Some(("o".into(), "u".into())) });
    assert_eq!(a, vec!["remote", "add", "o", "u"]);
    let (a, d) = args(&GitCommand::Stash { save: Some(true), pop: Some(true), list: None });
    assert_eq!(a, vec!["stash", "pop"]);
    assert_eq!(d, "git stash");
    let (a, d) = args(&GitCommand::Add { files: vec!["a".into(), "b".into()] });
    assert_eq!(a, vec!["add", "a", "b"]);
    assert_eq!(d, "git add a b");
    let (a, _) = args(&GitCommand::Init { path: "repo".into(), bare: Some(true) });
    assert_eq!(a, vec!["init", "--bare", "repo"]);
    let (a, d) = args(&GitCommand::Checkout { branch: "dev".into(), create_new: Some(true) });
    assert_eq!(a, vec!["checkout", "-b", "dev"]);
    assert_eq!(d, "git checkout dev");
    let (_, d) = args(&GitCommand::Show { reference: "HEAD".into() });
    assert_eq!(d, "git show HEAD");
}

#[test]
fn parse_known_commands() {
    assert!(matches!(GitActor::parse_command("status"), Ok(GitCommand::Status { short: Some(true) })));
    match GitActor::parse_command("clone https://x y") {
        Ok(GitCommand::Clone { url, path }) => {
            assert_eq!(url, "https://x");
            assert_eq!(path, Some("y".to_string()));
        }
        _ => panic!("expected Clone"),
    }
    match GitActor::parse_command("commit  fix the bug ") {
        Ok(GitCommand::Commit { message, all }) => {
            assert_eq!(message, "fix the bug");
            assert_eq!(all, Some(true));
        }
        _ => panic!("expected Commit"),
    }
    assert!(matches!(GitActor::parse_command("log"), Ok(GitCommand::Log { limit: Some(10), oneline: Some(true) })));
}

#[test]
fn parse_errors() {
    assert_eq!(GitActor::parse_command("   ").unwrap_err(), "Empty command");
    assert_eq!(GitActor::parse_command("rebase main").unwrap_err(), "Unknown git command: rebase");
}

#[test]
fn current_branch_is_the_marked_line() {
    assert_eq!(current_branch_from(true, "  dev\n* main  \r\n  x\n"), Some("main".to_string()));
    assert_eq!(current_branch_from(true, "  dev\n"), None);
    assert_eq!(current_branch_from(false, "* main\n"), None);
}

#[test]
fn clone_runs_in_first_path_segment() {
    let g = GitSkill::new(Some("/work".into())).with_timeout(60);
    assert_eq!(g.timeout_secs(), 60);
    let c = GitCommand::Clone { url: "u".into(), path: Some("a/b/c".into()) };
    assert_eq!(g.directory_for(&c), Some("a".to_string()));
    assert_eq!(g.directory_for(&GitCommand::Status { short: None }), Some("/work".to_string()));
}

#[test]
fn actor_routing_and_reports() {
    assert!(GitActor::handles("git"));
    assert!(GitActor::handles("git:status"));
    assert!(!GitActor::handles("gitx"));
    match GitActor::outcome_event("t1".into(), true, "git status", "clean", None) {
        SystemEvent::TaskCompleted { task_id, result } => {
            assert_eq!(task_id, "t1");
            assert_eq!(result, "Command: git status\nOutput:\nclean");
        }
        _ => panic!("expected TaskCompleted"),
    }
    match GitActor::outcome_event("t1".into(), false, "c", "", None) {
        SystemEvent::TaskFailed { error, .. } => assert_eq!(error, "Unknown error"),
        _ => panic!("expected TaskFailed"),
    }
    let cs = GitSkill::commit_and_push_commands("msg");
    assert_eq!(cs.len(), 3);
}

#[test]
fn git_actor_takes_only_git_dispatches() {
    let ev = SystemEvent::TaskDispatched { task_id: "t".into(), tool: "git:status".into(), input: "status".into() };
    assert_eq!(GitActor::task_of(&ev), Some(("t".to_string(), "status".to_string())));
    let other = SystemEvent::TaskDispatched { task_id: "t".into(), tool: "shell".into(), input: "ls".into() };
    assert_eq!(GitActor::task_of(&other), None);
    let log = SystemEvent::Log { level: "INFO".into(), source: "Git".into(), message: "Git actor started".into() };
    assert_eq!(GitActor::task_of(&log), None);
}
