use saelora::agents::{
    client_for_task, client_for_task_from_disk, client_from_agent, load_settings_from_disk,
    SettingsFile,
};
use saelora::config::{default_settings, Agent, Provider};

fn agent(name: &str, provider: Provider, model: &str) -> Agent {
    Agent {
        name: name.to_string(),
        provider,
        model: model.to_string(),
        base_url: String::new(),
        api_key: "key".to_string(),
        http_referer: "ref".to_string(),
        x_title: "title".to_string(),
    }
}

#[test]
fn ollama_clients_send_no_attribution() {
    let c = client_from_agent(&agent("o", Provider::Ollama, "m"));
    assert_eq!(c.base_url, "http://localhost:11434/v1");
    assert_eq!(c.http_referer, "");
    assert_eq!(c.x_title, "");
    let r = client_from_agent(&agent("r", Provider::OpenRouter, "m"));
    assert_eq!(r.http_referer, "ref");
    assert_eq!(r.base_url, "https://openrouter.ai/api/v1");
}

#[test]
fn task_clients_pick_the_bound_agent_and_model() {
    let mut s = default_settings();
    s.agents.push(agent("second", Provider::OpenRouter, "  vendor/model  "));
    s.tasks.summary_agent = "second".to_string();
    let rc = client_for_task(s, "summary").unwrap();
    assert_eq!(rc.model, "vendor/model");
    let mut empty = default_settings();
    empty.agents.clear();
    assert!(client_for_task(empty, "chat").is_none());
    let mut blank_model = default_settings();
    blank_model.agents[0].model = " ".to_string();
    assert_eq!(client_for_task(blank_model, "chat").unwrap().model, "openai/gpt-4o-mini");
}

#[test]
fn settings_from_the_file_or_defaults() {
    let s = load_settings_from_disk(SettingsFile::Missing).unwrap();
    assert_eq!(s.agents.len(), 1);
    let e = load_settings_from_disk(SettingsFile::Unreadable("denied".to_string())).err();
    assert_eq!(e, Some("denied".to_string()));
    let mut p = default_settings();
    p.agents.clear();
    let n = load_settings_from_disk(SettingsFile::Parsed(p)).unwrap();
    assert_eq!(n.agents.len(), 1);
    assert!(client_for_task_from_disk(SettingsFile::Missing, "memory").is_ok());
    assert!(client_for_task_from_disk(SettingsFile::Unreadable("x".to_string()), "chat").is_err());
}

#[test]
fn client_for_task_keeps_the_settings() {
    let mut s = default_settings();
    s.chat.system_prompt = "be brief".to_string();
    s.public_base = "example.org".to_string();
    let rc = client_for_task(s, "chat").unwrap();
    assert_eq!(rc.settings.chat.system_prompt, "be brief");
    assert_eq!(rc.settings.public_base, "example.org");
    let rc = client_for_task_from_disk(SettingsFile::Parsed(rc.settings), "chat").unwrap();
    assert_eq!(rc.settings.chat.system_prompt, "be brief");
}
