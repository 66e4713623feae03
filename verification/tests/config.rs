use saelora::agents::normalize_settings;
use saelora::config::{default_settings, Agent, Provider};

#[test]
fn normalize_settings_populates_new_task_bindings() {
    let mut s = default_settings();
    s.tasks.memory_agent.clear();
    normalize_settings(&mut s);
    assert!(!s.tasks.memory_agent.is_empty());
    assert_eq!(s.tasks.memory_agent, s.tasks.summary_agent);
}

#[test]
fn http_public_base_normalizes_scheme() {
    let mut s = default_settings();
    s.public_base = "".to_string();
    assert_eq!(s.http_public_base(), "");

    s.public_base = "saelora.ai".to_string();
    assert_eq!(s.http_public_base(), "https://saelora.ai");

    s.public_base = "http://localhost:8080".to_string();
    assert_eq!(s.http_public_base(), "http://localhost:8080");
}

#[test]
fn agent_openai_base_url_adds_scheme_and_ollama_v1() {
    let a = Agent {
        name: "o".to_string(),
        provider: Provider::OpenRouter,
        model: "x".to_string(),
        base_url: "openrouter.ai/api/v1/".to_string(),
        api_key: String::new(),
        http_referer: String::new(),
        x_title: String::new(),
    };
    assert_eq!(a.openai_base_url(), "https://openrouter.ai/api/v1");

    let o = Agent {
        name: "ol".to_string(),
        provider: Provider::Ollama,
        model: "x".to_string(),
        base_url: "192.168.1.9:11434".to_string(),
        api_key: String::new(),
        http_referer: String::new(),
        x_title: String::new(),
    };
    assert_eq!(o.openai_base_url(), "http://192.168.1.9:11434/v1");

    let o2 = Agent {
        base_url: "http://localhost:11434/v1/".to_string(),
        ..o
    };
    assert_eq!(o2.openai_base_url(), "http://localhost:11434/v1");
    assert_eq!(o2.ollama_root_url(), "http://localhost:11434");
}

#[test]
fn resolve_agent_supports_memory_task_fallbacks() {
    let mut s = default_settings();
    s.tasks.memory_curator_agent.clear();
    s.tasks.memory_embed_agent.clear();

    let summary = s.resolve_agent("summary").unwrap();
    let curator = s.resolve_agent("memory_curator").unwrap();
    let embed = s.resolve_agent("memory_embed").unwrap();

    assert_eq!(curator.name, summary.name);
    assert_eq!(embed.name, summary.name);
}

#[test]
fn normalize_settings_restores_defaults_for_empty_settings() {
    let mut s = default_settings();
    s.agents.clear();
    s.tasks.chat_agent = "missing".to_string();
    s.chat.system_prompt = "   ".to_string();
    normalize_settings(&mut s);
    assert_eq!(s.agents.len(), 1);
    assert_eq!(s.tasks.chat_agent, s.agents[0].name);
    assert_eq!(s.chat.system_prompt, saelora::config::DEFAULT_SYSTEM_PROMPT.trim());
}

#[test]
fn settings_path_joins_file_name() {
    let p = saelora::config::settings_path("data");
    assert!(p.starts_with("data"));
    assert_eq!(p, "data/config.json");
}

#[test]
fn ollama_default_base_url_when_blank() {
    let a = Agent {
        name: "l".to_string(),
        provider: Provider::Ollama,
        model: String::new(),
        base_url: "  ".to_string(),
        api_key: String::new(),
        http_referer: String::new(),
        x_title: String::new(),
    };
    assert_eq!(a.openai_base_url(), "http://localhost:11434/v1");
    assert_eq!(a.ollama_root_url(), "http://localhost:11434");
}
