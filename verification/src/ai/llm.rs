//! Settings of the language-model provider and the requests sent to it:
//! which provider, model and endpoint follow from the settings, and the
//! prompts and messages of each kind of request. Sending them happens outside.
use vstd::prelude::*;
use crate::text::{concat2, concat3, join, join_strings, lowercase, owned, push_str, same_text, string_of, to_lowercase, views};

verus! {

/// A provider of a chat-completion API.
#[derive(Debug, Clone, Copy, PartialEq, Eq, Structural)]
pub enum LlmProvider {
    OpenRouter,
    DeepSeek,
    Ollama,
    Custom,
}

/// The provider settings.
#[derive(Debug, Clone)]
pub struct LlmConfig {
    pub provider: LlmProvider,
    pub model: String,
    pub api_key: String,
    pub base_url: String,
    pub max_tokens: u32,
    pub timeout_secs: u64,
}

/// The settings as the environment gives them: `LLM_PROVIDER`,
/// `OPENROUTER_API_KEY`, `DEEPSEEK_API_KEY`, `LLM_API_KEY`, `LLM_MODEL` and
/// `LLM_BASE_URL`, each when set.
#[derive(Debug, Clone)]
pub struct LlmEnv {
    pub provider: Option<String>,
    pub openrouter_api_key: Option<String>,
    pub deepseek_api_key: Option<String>,
    pub llm_api_key: Option<String>,
    pub model: Option<String>,
    pub base_url: Option<String>,
}

/// The provider a (lower-cased) name selects; OpenRouter for any other name.
pub open spec fn provider_of(name: Seq<char>) -> LlmProvider {
    if name == "deepseek"@ {
        LlmProvider::DeepSeek
    } else if name == "ollama"@ {
        LlmProvider::Ollama
    } else {
        LlmProvider::OpenRouter
    }
}

/// The default model of a provider.
pub open spec fn default_model(p: LlmProvider) -> Seq<char> {
    match p {
        LlmProvider::DeepSeek => "deepseek-chat"@,
        LlmProvider::Ollama => "qwen2.5-coder:32b"@,
        _ => "qwen/qwen-2.5-coder-32b-instruct"@,
    }
}

/// The default endpoint of a provider.
pub open spec fn default_url(p: LlmProvider) -> Seq<char> {
    match p {
        LlmProvider::DeepSeek => "https://api.deepseek.com/v1/chat/completions"@,
        LlmProvider::Ollama => "http://localhost:11434/v1/chat/completions"@,
        _ => "https://openrouter.ai/api/v1/chat/completions"@,
    }
}

/// An optional text as plain values.
pub open spec fn opt_text(o: Option<String>) -> Option<Seq<char>> {
    match o {
        Some(s) => Some(s@),
        None => None,
    }
}

/// The text if given, else the default.
pub open spec fn or_default(o: Option<Seq<char>>, d: Seq<char>) -> Seq<char> {
    match o {
        Some(s) => s,
        None => d,
    }
}

/// The reply given instead of a request when no API key is set.
pub open spec fn missing_key_reply() -> Seq<char> {
    "⚠️ API ключ не задан. Установите OPENROUTER_API_KEY или LLM_API_KEY."@
}

fn text_or(o: &Option<String>, d: &str) -> (r: String)
    ensures
        r@ == or_default(opt_text(*o), d@),
{
    match o {
        Some(s) => s.clone(),
        None => owned(d),
    }
}

impl LlmConfig {
    /// The settings that the environment `env` selects: the provider named
    /// (lower-cased; OpenRouter by default or for an unknown name), the first
    /// key set among the OpenRouter, DeepSeek and generic keys (none: empty),
    /// the model and endpoint if set, else the provider's defaults; 4096
    /// tokens and two minutes.
    pub fn from_env(env: &LlmEnv) -> (c: LlmConfig)
        ensures
            ({
                let p = provider_of(lowercase(or_default(opt_text(env.provider), "openrouter"@)));
                &&& c.provider == p
                &&& c.model@ == or_default(opt_text(env.model), default_model(p))
                &&& c.base_url@ == or_default(opt_text(env.base_url), default_url(p))
            }),
            c.api_key@ == match env.openrouter_api_key {
                Some(k) => k@,
                None => match env.deepseek_api_key {
                    Some(k) => k@,
                    None => or_default(opt_text(env.llm_api_key), Seq::empty()),
                },
            },
            c.max_tokens == 4096,
            c.timeout_secs == 120,
    {
        let name = text_or(&env.provider, "openrouter");
        let lower = to_lowercase(name.as_str());
        let (provider, default_model, default_url) = if same_text(lower.as_str(), "deepseek") {
            (LlmProvider::DeepSeek, "deepseek-chat", "https://api.deepseek.com/v1/chat/completions")
        } else if same_text(lower.as_str(), "ollama") {
            (LlmProvider::Ollama, "qwen2.5-coder:32b", "http://localhost:11434/v1/chat/completions")
        } else {
            (
                LlmProvider::OpenRouter,
                "qwen/qwen-2.5-coder-32b-instruct",
                "https://openrouter.ai/api/v1/chat/completions",
            )
        };
        let api_key = match &env.openrouter_api_key {
            Some(k) => k.clone(),
            None => match &env.deepseek_api_key {
                Some(k) => k.clone(),
                None => {
                    proof {
                        reveal_strlit("");
                    }
                    text_or(&env.llm_api_key, "")
                },
            },
        };
        LlmConfig {
            provider,
            model: text_or(&env.model, default_model),
            api_key,
            base_url: text_or(&env.base_url, default_url),
            max_tokens: 4096,
            timeout_secs: 120,
        }
    }

    /// Whether an API key is set.
    pub fn has_api_key(&self) -> (b: bool)
        ensures
            b == (self.api_key@.len() > 0),
    {
        !self.api_key.as_str().is_empty()
    }

    /// The provider's name.
    pub fn provider_name(&self) -> (s: &str)
        ensures
            s@ == match self.provider {
                LlmProvider::OpenRouter => "OpenRouter"@,
                LlmProvider::DeepSeek => "DeepSeek"@,
                LlmProvider::Ollama => "Ollama"@,
                LlmProvider::Custom => "Custom"@,
            },
    {
        match self.provider {
            LlmProvider::OpenRouter => "OpenRouter",
            LlmProvider::DeepSeek => "DeepSeek",
            LlmProvider::Ollama => "Ollama",
            LlmProvider::Custom => "Custom",
        }
    }

    /// The reply to give without asking the provider: a warning when no API
    /// key is set, else none.
    pub fn reply_without_request(&self) -> (r: Option<String>)
        ensures
            match r {
                Some(m) => self.api_key@.len() == 0 && m@ == missing_key_reply(),
                None => self.api_key@.len() > 0,
            },
    {
        if self.has_api_key() {
            None
        } else {
            Some(owned("⚠️ API ключ не задан. Установите OPENROUTER_API_KEY или LLM_API_KEY."))
        }
    }

    /// The value of the `Authorization` header.
    pub fn authorization(&self) -> (r: String)
        ensures
            r@ == "Bearer "@ + self.api_key@,
    {
        concat2("Bearer ", self.api_key.as_str())
    }
}

/// A chat message: its role and content.
#[derive(Debug, Clone)]
pub struct ChatMessage {
    pub role: String,
    pub content: String,
}

/// The messages of a chat request: the system prompt if any, then the
/// user's message.
pub fn chat_messages(user_message: &str, system_prompt: Option<&str>) -> (r: Vec<ChatMessage>)
    ensures
        match system_prompt {
            Some(s) => r@.len() == 2 && r@[0].role@ == "system"@ && r@[0].content@ == s@ && r@[1].role@ == "user"@
                && r@[1].content@ == user_message@,
            None => r@.len() == 1 && r@[0].role@ == "user"@ && r@[0].content@ == user_message@,
        },
{
    let mut r: Vec<ChatMessage> = Vec::new();
    match system_prompt {
        Some(s) => r.push(ChatMessage { role: owned("system"), content: owned(s) }),
        None => {},
    }
    r.push(ChatMessage { role: owned("user"), content: owned(user_message) });
    r
}

/// The context part of a question answered from the knowledge base.
pub open spec fn context_text(context: Seq<Seq<char>>) -> Seq<char> {
    if context.len() == 0 {
        "Контекст не предоставлен."@
    } else {
        "Контекст из базы знаний:\n"@ + join(context.map_values(|s: Seq<char>| "---\n"@ + s), "\n"@)
    }
}

/// The system prompt of a question answered from the knowledge base.
pub open spec fn context_prompt(context: Seq<Seq<char>>) -> Seq<char> {
    "Ты ANT — автономный AI-агент на Rust.Используй предоставленный контекст для ответа.Если контекст не относится к вопросу, скажи об этом.\n\n"@
        + context_text(context)
}

/// The system prompt of a question answered from the knowledge base.
pub fn context_system_prompt(context: &Vec<String>) -> (r: String)
    ensures
        r@ == context_prompt(views(context@)),
{
    let ctx = if context.len() == 0 {
        owned("Контекст не предоставлен.")
    } else {
        let mut parts: Vec<String> = Vec::new();
        let mut i: usize = 0;
        while i < context.len()
            invariant
                i <= context@.len(),
                views(parts@) == views(context@).take(i as int).map_values(|s: Seq<char>| "---\n"@ + s),
            decreases context@.len() - i,
        {
            let ghost before = views(parts@);
            parts.push(concat2("---\n", context[i].as_str()));
            assert(views(parts@) =~= before.push("---\n"@ + context@[i as int]@));
            assert(views(context@).take(i + 1).map_values(|s: Seq<char>| "---\n"@ + s) =~= views(context@).take(
                i as int,
            ).map_values(|s: Seq<char>| "---\n"@ + s).push("---\n"@ + context@[i as int]@));
            i = i + 1;
        }
        assert(views(context@).take(i as int) =~= views(context@));
        let joined = join_strings(&parts, "\n");
        concat2("Контекст из базы знаний:\n", joined.as_str())
    };
    concat2(
        "Ты ANT — автономный AI-агент на Rust.Используй предоставленный контекст для ответа.Если контекст не относится к вопросу, скажи об этом.\n\n",
        ctx.as_str(),
    )
}

/// The prompt asking for code in `language` for `task`.
pub open spec fn code_prompt_text(task: Seq<char>, language: Seq<char>) -> Seq<char> {
    "Напиши код на "@ + language + " для задачи: "@ + task
        + "\n\nТребования:\n- Только код, без объяснений\n- Следуй лучшим практикам "@ + language
        + "\n- Добавь необходимые импорты\n- Обработай ошибки"@
}

/// The system prompt of code generation.
pub fn coder_system_prompt() -> (r: &'static str)
    ensures
        r@ == "Ты опытный разработчик. Пиши чистый, эффективный код."@,
{
    "Ты опытный разработчик. Пиши чистый, эффективный код."
}

/// The prompt asking for code in `language` for `task`.
pub fn code_prompt(task: &str, language: &str) -> (r: String)
    ensures
        r@ == code_prompt_text(task@, language@),
{
    let mut v: Vec<char> = Vec::new();
    push_str(&mut v, "Напиши код на ");
    push_str(&mut v, language);
    push_str(&mut v, " для задачи: ");
    push_str(&mut v, task);
    push_str(&mut v, "\n\nТребования:\n- Только код, без объяснений\n- Следуй лучшим практикам ");
    push_str(&mut v, language);
    push_str(&mut v, "\n- Добавь необходимые импорты\n- Обработай ошибки");
    string_of(v.as_slice())
}

/// The prompt asking to split `goal` into steps.
pub open spec fn planning_prompt_text(goal: Seq<char>) -> Seq<char> {
    "Разбей задачу '"@ + goal
        + "' на последовательные шаги.Для каждого шага укажи:1. ID шага (t1, t2, ...)2. Инструмент (browser, lsp, wasm, shell, file)3. Входные данные4. Зависимости от других шагов\n\nВерни ответ в формате JSON массива объектов."@
}

/// The system prompt of planning.
pub fn planner_system_prompt() -> (r: &'static str)
    ensures
        r@ == "Ты планировщик задач. Отвечай ТОЛЬКО валидным JSON."@,
{
    "Ты планировщик задач. Отвечай ТОЛЬКО валидным JSON."
}

/// The prompt asking to split `goal` into steps.
pub fn planning_prompt(goal: &str) -> (r: String)
    ensures
        r@ == planning_prompt_text(goal@),
{
    concat3(
        "Разбей задачу '",
        goal,
        "' на последовательные шаги.Для каждого шага укажи:1. ID шага (t1, t2, ...)2. Инструмент (browser, lsp, wasm, shell, file)3. Входные данные4. Зависимости от других шагов\n\nВерни ответ в формате JSON массива объектов.",
    )
}

/// One step of a plan as the provider returns it.
#[derive(Debug, Clone)]
pub struct PlanStep {
    pub id: String,
    pub tool: String,
    pub input: String,
    pub depends_on: Vec<String>,
}

/// The steps used when the provider's answer is not a list of steps:
/// research the goal in the browser, then analyse code.
pub fn fallback_steps(goal: &str) -> (r: Vec<PlanStep>)
    ensures
        r@.len() == 2,
        r@[0].id@ == "t1"@ && r@[0].tool@ == "browser"@ && r@[0].input@ == "Исследовать: "@ + goal@
            && r@[0].depends_on@.len() == 0,
        r@[1].id@ == "t2"@ && r@[1].tool@ == "lsp"@ && r@[1].input@ == "Анализ кода"@ && r@[1].depends_on@.len() == 0,
{
    vec![
        PlanStep {
            id: owned("t1"),
            tool: owned("browser"),
            input: concat2("Исследовать: ", goal),
            depends_on: Vec::new(),
        },
        PlanStep { id: owned("t2"), tool: owned("lsp"), input: owned("Анализ кода"), depends_on: Vec::new() },
    ]
}

} // verus!
