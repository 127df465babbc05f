use ant::tools::agents::{version_from, AgentApiClient, AgentClient, AgentConfig, AgentManager, AgentRoute, AgentType};

#[test]
fn clients_by_kind() {
    let g = AgentClient::new(AgentType::Goose);
    assert_eq!(g.config().command, "goose");
    assert_eq!(g.config().args, vec!["run".to_string()]);
    assert_eq!(g.config().timeout_secs, 300);
    let c = AgentClient::new(AgentType::Aider);
    assert_eq!(c.config().command, "aider");
    assert!(c.config().args.is_empty());
    let x = AgentClient::new(AgentType::Custom { name: "mine".into(), command: "/bin/mine".into() });
    assert_eq!(x.config().command, "/bin/mine");
    assert_eq!(AgentType::Gemini.name(), "gemini");
    assert_eq!(x.config().agent_type.name(), "mine");
    assert_eq!(g.command_args("do it"), vec!["run".to_string(), "do it".to_string()]);
}

#[test]
fn output_is_trimmed_and_limited() {
    let mut cfg = AgentConfig::default();
    cfg.max_output_lines = 2;
    let c = AgentClient::with_config(cfg);
    let o = c.collect_output(true, Some(0), &vec![" a ".into(), "b\n".into(), "c".into()], &vec![]);
    assert_eq!(o.output, "a\nb");
    assert!(o.error.is_none());
    let o = c.collect_output(false, Some(1), &vec![], &vec!["err".into()]);
    assert_eq!(o.error, Some("err".to_string()));
    assert!(!o.success);
    assert_eq!(c.timeout_message(), "Timeout after 300 seconds");
    assert_eq!(version_from(true, " 1.2.3\n"), Some("1.2.3".to_string()));
    assert_eq!(version_from(false, "x"), None);
}

#[test]
fn api_urls() {
    let a = AgentApiClient::new("http://h:1//");
    assert_eq!(a.base_url(), "http://h:1");
    assert_eq!(a.message_url("goose"), "http://h:1/agents/goose/message");
    assert_eq!(a.events_url("g"), "http://h:1/agents/g/events");
    assert_eq!(a.health_url(), "http://h:1/health");
    assert_eq!(AgentApiClient::default_client().status_url("x"), "http://localhost:8080/agents/x/status");
    assert_eq!(AgentApiClient::session_or_default(None), "default");
}

#[test]
fn manager_routes_requests() {
    let mut m = AgentManager::new();
    m.register_default("goose", AgentType::Goose);
    m.register_default("codex", AgentType::Codex);
    m.register_default("goose", AgentType::Aider);
    assert_eq!(m.list_agents(), vec!["goose".to_string(), "codex".to_string()]);
    match m.route("goose") {
        AgentRoute::Local(i) => assert_eq!(m.client_at(i).config().command, "aider"),
        _ => panic!("expected Local"),
    }
    assert!(matches!(m.route("other"), AgentRoute::NotFound));
    let m = m.with_agentapi("http://api/");
    assert!(matches!(m.route("other"), AgentRoute::Api));
    assert_eq!(m.api().unwrap().base_url(), "http://api");
    assert_eq!(AgentManager::not_found_message("z"), "Agent 'z' not found");
}

