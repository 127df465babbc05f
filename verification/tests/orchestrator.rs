use ant::bus::SystemEvent;
use ant::sys::orchestrator::{split_at_pipe, Orchestrator, TaskAction};

#[test]
fn tools_route_to_actions() {
    assert!(matches!(Orchestrator::plan_task("scrape", "https://x"), TaskAction::Browser { url } if url == "https://x"));
    match Orchestrator::plan_task("run", "  ls -la  /tmp ") {
        TaskAction::Shell { program, args } => {
            assert_eq!(program, "ls");
            assert_eq!(args, vec!["-la".to_string(), "/tmp".to_string()]);
        }
        _ => panic!("expected Shell"),
    }
    assert!(matches!(Orchestrator::plan_task("shell", "  "), TaskAction::Fail { error } if error == "Empty command"));
    assert!(matches!(Orchestrator::plan_task("file:read", "a.txt"), TaskAction::FileRead { path } if path == "a.txt"));
    match Orchestrator::plan_task("file:write", "a.txt|x|y") {
        TaskAction::FileWrite { path, content } => {
            assert_eq!(path, "a.txt");
            assert_eq!(content, "x|y");
        }
        _ => panic!("expected FileWrite"),
    }
    assert!(matches!(Orchestrator::plan_task("file:write", "nopipe"), TaskAction::Fail { error } if error == "Format: path|content"));
    assert!(matches!(Orchestrator::plan_task("memory:store", "nopipe"), TaskAction::Fail { error } if error == "Format: source|content"));
    assert!(matches!(Orchestrator::plan_task("memory:search", "q"), TaskAction::MemorySearch { query } if query == "q"));
    assert!(matches!(Orchestrator::plan_task("llm:chat", "hi"), TaskAction::Llm { tool, input } if tool == "llm:chat" && input == "hi"));
}

#[test]
fn split_pipe_rejoins() {
    let (a, b) = split_at_pipe("src|a|b").unwrap();
    assert_eq!(format!("{}|{}", a, b), "src|a|b");
    assert!(split_at_pipe("none").is_none());
    assert_eq!(split_at_pipe("|x"), Some((String::new(), "x".to_string())));
}

#[test]
fn results_and_announcements() {
    assert_eq!(Orchestrator::search_result(&vec![]), "Ничего не найдено в базе знаний.");
    assert_eq!(Orchestrator::search_result(&vec!["a".into(), "b".into()]), "Найдено документов: 2\n\n---\na\n---\nb");
    assert_eq!(Orchestrator::file_written("a.txt"), "File written: a.txt");
    assert_eq!(Orchestrator::document_stored("id-1"), "Document stored with ID: id-1");
    assert_eq!(Orchestrator::scrape_source("u"), "scrape:u");
    assert_eq!(Orchestrator::page_preview("T", "x"), "Title: T\n\nPreview:\nx");
    assert!(matches!(Orchestrator::announce("shell", "ls"), Some(SystemEvent::Log { source, message, .. }) if source == "Sandbox" && message == "Executing: ls"));
    assert!(matches!(Orchestrator::announce("run", ""), Some(SystemEvent::Log { source, message, .. }) if source == "Sandbox" && message == "Executing: "));
    assert!(matches!(Orchestrator::announce("scrape", "u"), Some(SystemEvent::Log { source, message, .. }) if source == "Orchestrator" && message == "Scraping URL: u"));
    assert!(matches!(Orchestrator::announce("memory:search", "q"), Some(SystemEvent::Log { source, message, .. }) if source == "RAG" && message == "Searching memory for: q"));
    assert!(matches!(Orchestrator::announce("summarize", "q"), Some(SystemEvent::Log { source, message, .. }) if source == "LLM" && message == "Processing with LLM: summarize"));
    assert!(Orchestrator::announce("file:read", "a").is_none());
    assert!(Orchestrator::announce("memory:store", "a|b").is_none());
    assert!(Orchestrator::browser_unavailable().contains("with-browser"));
}
