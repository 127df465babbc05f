use ant::ai::llm::{LlmConfig, LlmEnv, PlanStep};
use ant::ai::planner::PlanningEngine;

#[test]
fn demo_plan_has_three_tasks() {
    let p = PlanningEngine::demo_plan("G-1");
    assert_eq!(p.goal_id, "G-1");
    assert_eq!(p.steps.len(), 3);
    assert_eq!(p.steps[0].input, "https://rust.org");
    assert_eq!(p.steps[2].tool, "wasm:analyzer");
    assert_eq!(p.steps[2].depends_on, vec!["t1".to_string(), "t2".to_string()]);
}

#[test]
fn reply_or_fallback() {
    let steps = vec![PlanStep { id: "a".into(), tool: "shell".into(), input: "ls".into(), depends_on: vec![] }];
    let p = PlanningEngine::plan_from_reply("G", "task", Ok(steps));
    assert_eq!(p.steps[0].id, "a");
    let p = PlanningEngine::plan_from_reply("G", "task", Err("down".into()));
    assert_eq!(p.steps.len(), 1);
    assert_eq!(p.steps[0].tool, "shell");
    assert_eq!(p.steps[0].input, "task");
}

#[test]
fn provider_asked_only_with_key() {
    let env = LlmEnv { provider: None, openrouter_api_key: None, deepseek_api_key: None, llm_api_key: None, model: None, base_url: None };
    assert!(!PlanningEngine::new(LlmConfig::from_env(&env)).asks_provider());
    let env = LlmEnv { llm_api_key: Some("k".into()), ..env };
    assert!(PlanningEngine::new(LlmConfig::from_env(&env)).asks_provider());
}

#[test]
fn generate_plan_chooses_by_key_and_reply() {
    let env = LlmEnv { provider: None, openrouter_api_key: None, deepseek_api_key: None, llm_api_key: None, model: None, base_url: None };
    let no_key = PlanningEngine::new(LlmConfig::from_env(&env));
    let demo = no_key.generate_plan("G-1", "task", None);
    assert_eq!(demo.goal_id, "G-1");
    assert_eq!(demo.steps.len(), 3);
    assert_eq!(demo.steps[2].tool, "wasm:analyzer");
    assert_eq!(demo.steps[2].depends_on, vec!["t1".to_string(), "t2".to_string()]);
    let keyed = PlanningEngine::new(LlmConfig::from_env(&LlmEnv { llm_api_key: Some("k".into()), ..env }));
    let failed = keyed.generate_plan("G-2", "ls -la", Some(Err("down".into())));
    assert_eq!(failed.steps.len(), 1);
    assert_eq!(failed.steps[0].tool, "shell");
    assert_eq!(failed.steps[0].input, "ls -la");
    let step = PlanStep { id: "s".into(), tool: "lsp".into(), input: "x".into(), depends_on: vec![] };
    let answered = keyed.generate_plan("G-3", "t", Some(Ok(vec![step])));
    assert_eq!(answered.steps[0].id, "s");
    assert_eq!(keyed.generate_plan("G-4", "t", None).steps[0].tool, "shell");
}
