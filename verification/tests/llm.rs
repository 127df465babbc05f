use ant::ai::llm::{chat_messages, code_prompt, coder_system_prompt, context_system_prompt, planner_system_prompt, fallback_steps, planning_prompt, LlmConfig, LlmEnv, LlmProvider};

fn empty_env() -> LlmEnv {
    LlmEnv { provider: None, openrouter_api_key: None, deepseek_api_key: None, llm_api_key: None, model: None, base_url: None }
}

#[test]
fn test_config_from_env() {
    let config = LlmConfig::from_env(&empty_env());
    assert!(!config.model.is_empty());
}

#[test]
fn defaults_are_openrouter() {
    let c = LlmConfig::from_env(&empty_env());
    assert_eq!(c.provider, LlmProvider::OpenRouter);
    assert_eq!(c.model, "qwen/qwen-2.5-coder-32b-instruct");
    assert_eq!(c.base_url, "https://openrouter.ai/api/v1/chat/completions");
    assert!(!c.has_api_key());
    assert_eq!(c.provider_name(), "OpenRouter");
    assert_eq!(c.max_tokens, 4096);
    assert_eq!(c.timeout_secs, 120);
    assert!(c.reply_without_request().unwrap().contains("API"));
}

#[test]
fn provider_and_overrides() {
    let mut env = empty_env();
    env.provider = Some("DeepSeek".into());
    env.deepseek_api_key = Some("k2".into());
    env.llm_api_key = Some("k3".into());
    let c = LlmConfig::from_env(&env);
    assert_eq!(c.provider, LlmProvider::DeepSeek);
    assert_eq!(c.model, "deepseek-chat");
    assert_eq!(c.api_key, "k2");
    assert_eq!(c.authorization(), "Bearer k2");
    assert!(c.reply_without_request().is_none());
    env.provider = Some("ollama".into());
    env.model = Some("m".into());
    env.base_url = Some("http://h".into());
    let c = LlmConfig::from_env(&env);
    assert_eq!(c.provider_name(), "Ollama");
    assert_eq!(c.model, "m");
    assert_eq!(c.base_url, "http://h");
    env.provider = Some("other".into());
    assert_eq!(LlmConfig::from_env(&env).provider, LlmProvider::OpenRouter);
}

#[test]
fn prompts() {
    let m = chat_messages("hi", Some("sys"));
    assert_eq!(m.len(), 2);
    assert_eq!(m[0].role, "system");
    assert_eq!(m[1].content, "hi");
    assert_eq!(chat_messages("hi", None).len(), 1);
    assert!(context_system_prompt(&vec![]).ends_with("Контекст не предоставлен."));
    assert!(context_system_prompt(&vec!["a".into(), "b".into()]).ends_with("Контекст из базы знаний:\n---\na\n---\nb"));
    assert!(code_prompt("sort", "Rust").starts_with("Напиши код на Rust для задачи: sort\n\nТребования:"));
    assert!(planning_prompt("g").starts_with("Разбей задачу 'g' на"));
    assert_eq!(planner_system_prompt(), "Ты планировщик задач. Отвечай ТОЛЬКО валидным JSON.");
    assert_eq!(coder_system_prompt(), "Ты опытный разработчик. Пиши чистый, эффективный код.");
    let f = fallback_steps("g");
    assert_eq!(f[0].input, "Исследовать: g");
    assert_eq!(f[1].tool, "lsp");
}
