use saelora::config::{default_agent, default_settings, Agent, Provider, DEFAULT_SYSTEM_PROMPT};
use saelora::db::lists::WaitlistRecord;
use saelora::db::users::UserRecord;
use saelora::openrouter::{Model, Pricing};
use saelora::tui::console::{models_found, sort_rows, BgMsg, Console, Notice, Screen};
use saelora::tui::view::{model_blurb, status_line, wrap_lines};
use saelora::tui::keys::{step_selection, validate_agents, KeyCode, KeyPress, Task};

fn key(code: KeyCode) -> KeyPress {
    KeyPress { code, ctrl: false, alt: false }
}

fn ctrl(c: char) -> KeyPress {
    KeyPress { code: KeyCode::Char(c), ctrl: true, alt: false }
}

fn typed(c: &mut Console, text: &str) {
    for ch in text.chars() {
        assert!(c.on_key(key(KeyCode::Char(ch))).is_none());
    }
}

fn fresh() -> Console {
    Console::new(default_settings())
}

fn model(id: &str, ctx: i64) -> Model {
    Model {
        id: id.to_string(),
        name: id.to_string(),
        description: String::new(),
        context_length: ctx,
        pricing: Pricing {
            prompt: "0.000001".to_string(),
            completion: String::new(),
            request: String::new(),
            image: String::new(),
            input_cache_read: String::new(),
            input_cache_write: String::new(),
        },
    }
}

fn agent(name: &str, model: &str, key: &str) -> Agent {
    let mut a = default_agent();
    a.name = name.to_string();
    a.model = model.to_string();
    a.api_key = key.to_string();
    a
}

#[test]
fn console_starts_on_menu_with_default_agent() {
    let c = fresh();
    assert_eq!(c.screen, Screen::Menu);
    assert_eq!(c.menu_idx, 0);
    assert_eq!(c.agents.rows.len(), 1);
    assert_eq!(c.agents.rows[0].name, "default");
    assert_eq!(c.agents.task_chat, "default");
    assert_eq!(c.agents.selected, Some(0));
    assert_eq!(c.form.model, "openai/gpt-4o-mini");
    assert_eq!(c.form.base_url, "https://openrouter.ai/api/v1");
    assert_eq!(c.form.x_title, "Saelora");
    assert_eq!(c.form.api_key, "");
    assert_eq!(c.prompt.text(), DEFAULT_SYSTEM_PROMPT.trim());
}

#[test]
fn console_without_agents_gets_the_default_one() {
    let mut s = default_settings();
    s.agents.clear();
    s.tasks.chat_agent = "gone".to_string();
    s.chat.system_prompt = "  ".to_string();
    let c = Console::new(s);
    assert_eq!(c.agents.rows.len(), 1);
    assert_eq!(c.agents.rows[0].name, "default");
    assert_eq!(c.agents.task_chat, "default");
    assert_eq!(c.prompt.text(), DEFAULT_SYSTEM_PROMPT.trim());
}

#[test]
fn console_form_blank_without_openrouter_agent() {
    let mut s = default_settings();
    s.agents[0].provider = Provider::Ollama;
    let c = Console::new(s);
    assert_eq!(c.form.model, "");
    assert_eq!(c.form.base_url, "https://openrouter.ai/api/v1");
    assert_eq!(c.form.x_title, "Saelora");
}

#[test]
fn control_c_quits_anywhere() {
    let mut c = fresh();
    assert!(matches!(c.on_key(ctrl('c')), Some(Task::Quit)));
    c.screen = Screen::Agents;
    assert!(matches!(c.on_key(ctrl('c')), Some(Task::Quit)));
    assert_eq!(c.screen, Screen::Agents);
}

#[test]
fn menu_moves_within_six_entries_and_opens_screens() {
    let mut c = fresh();
    assert!(c.on_key(key(KeyCode::Up)).is_none());
    assert_eq!(c.menu_idx, 0);
    for _ in 0..8 {
        c.on_key(key(KeyCode::Down));
    }
    assert_eq!(c.menu_idx, 5);
    c.notice.err = "old".to_string();
    assert!(c.on_key(key(KeyCode::Enter)).is_none());
    assert_eq!(c.screen, Screen::Agents);
    assert_eq!(c.notice.err, "");

    let mut c = fresh();
    c.menu_idx = 3;
    assert!(matches!(c.on_key(key(KeyCode::Enter)), Some(Task::LoadWaitlist)));
    assert_eq!(c.screen, Screen::Invites);
    assert!(c.invites.loading);

    let mut c = fresh();
    c.menu_idx = 4;
    assert!(matches!(c.on_key(key(KeyCode::Enter)), Some(Task::LoadUsers)));
    assert!(c.users.loading);
}

#[test]
fn config_listing_models_needs_a_key() {
    let mut c = fresh();
    c.screen = Screen::OpenRouterConfig;
    c.focus = 1;
    assert!(c.on_key(key(KeyCode::Enter)).is_none());
    assert_eq!(c.notice.err, "API key is required to list models");
    assert_eq!(c.screen, Screen::OpenRouterConfig);

    c.focus = 0;
    typed(&mut c, "sk-1");
    assert_eq!(c.form.api_key, "sk-1");
    c.form.base_url = "  ".to_string();
    assert!(c.on_key(key(KeyCode::Down)).is_none());
    assert_eq!(c.focus, 1);
    match c.on_key(key(KeyCode::Enter)) {
        Some(Task::ListModels(cfg)) => {
            assert_eq!(cfg.api_key, "sk-1");
            assert_eq!(cfg.base_url, "https://openrouter.ai/api/v1");
            assert_eq!(cfg.x_title, "Saelora");
        }
        other => panic!("unexpected {other:?}"),
    }
    assert_eq!(c.screen, Screen::Models);
    assert!(c.models.loading);
}

#[test]
fn config_focus_cycles_over_five_fields() {
    let mut c = fresh();
    c.screen = Screen::OpenRouterConfig;
    c.on_key(key(KeyCode::BackTab));
    assert_eq!(c.focus, 4);
    c.on_key(key(KeyCode::Tab));
    assert_eq!(c.focus, 0);
    c.on_key(key(KeyCode::Enter));
    assert_eq!(c.focus, 1);
    assert!(matches!(
        c.on_key(key(KeyCode::Esc)),
        Some(Task::RefreshCounts { whitelist: true })
    ));
    assert_eq!(c.screen, Screen::Menu);
}

#[test]
fn config_save_checks_key_then_writes_agent() {
    let mut c = fresh();
    c.screen = Screen::OpenRouterConfig;
    assert!(c.on_key(ctrl('s')).is_none());
    assert_eq!(c.notice.err, "API key is required");

    c.form.api_key = " sk-2 ".to_string();
    c.form.model = " ".to_string();
    assert!(c.on_key(ctrl('s')).is_none());
    assert_eq!(c.notice.err, "model is required");

    c.form.model = "m/x".to_string();
    match c.on_key(ctrl('s')) {
        Some(Task::Save(s)) => {
            assert_eq!(s.agents.len(), 1);
            assert_eq!(s.agents[0].api_key, "sk-2");
            assert_eq!(s.agents[0].model, "m/x");
            assert_eq!(s.tasks.chat_agent, "default");
        }
        other => panic!("unexpected {other:?}"),
    }
    assert_eq!(c.notice.info, "saved");
    assert_eq!(c.notice.err, "");
}

#[test]
fn config_save_adds_openrouter_agent_when_none() {
    let mut c = fresh();
    c.agents.rows[0].provider = Provider::Ollama;
    c.agents.rows[0].name = "openrouter".to_string();
    c.screen = Screen::OpenRouterConfig;
    c.form.api_key = "k".to_string();
    c.form.model = "m".to_string();
    assert!(matches!(c.on_key(ctrl('s')), Some(Task::Save(_))));
    assert_eq!(c.agents.rows.len(), 2);
    assert_eq!(c.agents.rows[1].name, "openrouter2");
    assert_eq!(c.agents.rows[1].provider, Provider::OpenRouter);
}

#[test]
fn field_editing_ignores_chords() {
    let mut c = fresh();
    c.screen = Screen::OpenRouterConfig;
    c.focus = 3;
    typed(&mut c, "ab");
    c.on_key(KeyPress { code: KeyCode::Char('z'), ctrl: false, alt: true });
    assert_eq!(c.form.http_referer, "ab");
    c.on_key(key(KeyCode::Backspace));
    assert_eq!(c.form.http_referer, "a");
}

#[test]
fn prompt_save_restores_default_when_blank() {
    let mut c = fresh();
    c.screen = Screen::SystemPrompt;
    c.prompt.set_text(" \n ");
    match c.on_key(ctrl('s')) {
        Some(Task::Save(s)) => assert_eq!(s.chat.system_prompt, DEFAULT_SYSTEM_PROMPT.trim()),
        other => panic!("unexpected {other:?}"),
    }
    assert_eq!(c.prompt.text(), DEFAULT_SYSTEM_PROMPT.trim());
    assert_eq!(c.notice.info, "saved");

    c.prompt.set_text("");
    typed(&mut c, "hi");
    c.on_key(key(KeyCode::Enter));
    typed(&mut c, "x");
    assert_eq!(c.prompt.text(), "hi\nx");
    match c.on_key(ctrl('s')) {
        Some(Task::Save(s)) => assert_eq!(s.chat.system_prompt, "hi\nx"),
        other => panic!("unexpected {other:?}"),
    }
    assert!(matches!(
        c.on_key(key(KeyCode::Esc)),
        Some(Task::RefreshCounts { whitelist: false })
    ));
}

#[test]
fn email_form_edits_and_saves() {
    let mut c = fresh();
    c.screen = Screen::EmailConfig;
    c.focus = 2;
    typed(&mut c, "a@b.c ");
    match c.on_key(ctrl('s')) {
        Some(Task::Save(s)) => assert_eq!(s.mailjet.from_email, "a@b.c"),
        other => panic!("unexpected {other:?}"),
    }
    c.focus = 4;
    c.on_key(key(KeyCode::Down));
    assert_eq!(c.focus, 0);
    assert!(c.on_key(key(KeyCode::Esc)).is_none());
    assert_eq!(c.screen, Screen::Menu);
}

#[test]
fn models_load_sorted_and_resort() {
    let mut c = fresh();
    c.screen = Screen::Models;
    c.models.loading = true;
    c.on_result(BgMsg::ModelsLoaded(Ok(vec![model("b", 10), model("a", 30), model("c", 20)])));
    assert!(!c.models.loading);
    let ids: Vec<&str> = c.models.rows.iter().map(|m| m.id.as_str()).collect();
    assert_eq!(ids, vec!["a", "b", "c"]);
    assert_eq!(c.models.selected, Some(0));

    assert!(c.on_key(key(KeyCode::Char('2'))).is_none());
    assert_eq!(c.models.sort_col, 1);
    assert!(!c.models.sort_asc);
    let ctx: Vec<i64> = c.models.rows.iter().map(|m| m.context_length).collect();
    assert_eq!(ctx, vec![30, 20, 10]);

    c.on_key(key(KeyCode::Char('2')));
    assert!(c.models.sort_asc);
    let ctx: Vec<i64> = c.models.rows.iter().map(|m| m.context_length).collect();
    assert_eq!(ctx, vec![10, 20, 30]);

    assert!(matches!(
        c.on_key(key(KeyCode::Char('3'))),
        Some(Task::SortByCost { col: 2, asc: false })
    ));
    assert!(c.on_key(key(KeyCode::Char('9'))).is_none());
    assert_eq!(c.models.sort_col, 2);
}

#[test]
fn models_enter_takes_model_and_saves() {
    let mut c = fresh();
    c.screen = Screen::Models;
    c.form.api_key = "k".to_string();
    c.on_result(BgMsg::ModelsLoaded(Ok(vec![model("x/one", 1), model("x/two", 2)])));
    c.on_key(key(KeyCode::Down));
    c.on_key(key(KeyCode::Down));
    assert_eq!(c.models.selected, Some(1));
    match c.on_key(key(KeyCode::Enter)) {
        Some(Task::Save(s)) => assert_eq!(s.agents[0].model, "x/two"),
        other => panic!("unexpected {other:?}"),
    }
    assert_eq!(c.form.model, "x/two");
    assert_eq!(c.screen, Screen::OpenRouterConfig);
    assert_eq!(c.focus, 1);
}

#[test]
fn models_load_failure_returns_to_form() {
    let mut c = fresh();
    c.screen = Screen::Models;
    c.on_result(BgMsg::ModelsLoaded(Err("boom".to_string())));
    assert_eq!(c.screen, Screen::OpenRouterConfig);
    assert_eq!(c.notice.err, "boom");
}

#[test]
fn sort_rows_keeps_ties_in_order() {
    let rows = vec![model("b", 1), model("a", 1), model("c", 0)];
    let out = sort_rows(rows, 1, true);
    let ids: Vec<&str> = out.iter().map(|m| m.id.as_str()).collect();
    assert_eq!(ids, vec!["c", "b", "a"]);
    let out = sort_rows(out, 0, false);
    let ids: Vec<&str> = out.iter().map(|m| m.id.as_str()).collect();
    assert_eq!(ids, vec!["c", "b", "a"]);
}

fn rec(email: &str) -> WaitlistRecord {
    WaitlistRecord { email: email.to_string(), created_at: 1 }
}

#[test]
fn invites_newest_first_and_actions() {
    let mut c = fresh();
    c.screen = Screen::Invites;
    c.invites.loading = true;
    c.on_result(BgMsg::WaitlistLoaded(Ok(vec![rec("old@x"), rec("new@x")])));
    assert_eq!(c.invites.waitlist[0].email, "new@x");
    assert_eq!(c.counts.invites, 2);
    assert!(!c.invites.loading);
    match c.on_key(key(KeyCode::Char('a'))) {
        Some(Task::Approve(e)) => assert_eq!(e, "new@x"),
        other => panic!("unexpected {other:?}"),
    }
    assert!(c.invites.loading);
    assert!(c.on_key(key(KeyCode::Char('d'))).is_none());
    c.on_result(BgMsg::WaitlistActionDone(Ok("whitelisted new@x".to_string())));
    assert_eq!(c.notice.info, "whitelisted new@x");
    assert!(!c.invites.loading);
    c.on_key(key(KeyCode::Down));
    match c.on_key(key(KeyCode::Backspace)) {
        Some(Task::Remove(e)) => assert_eq!(e, "old@x"),
        other => panic!("unexpected {other:?}"),
    }
    assert!(matches!(c.on_key(key(KeyCode::Char('r'))), Some(Task::ReloadInvites)));
}

#[test]
fn invites_load_failure_returns_to_menu() {
    let mut c = fresh();
    c.screen = Screen::Invites;
    c.on_result(BgMsg::WhitelistLoaded(Err("db".to_string())));
    assert_eq!(c.screen, Screen::Menu);
    assert_eq!(c.notice.err, "db");
}

#[test]
fn users_status_keys() {
    let mut c = fresh();
    c.screen = Screen::Users;
    c.on_result(BgMsg::UsersLoaded(Ok(vec![UserRecord {
        id: "u1".to_string(),
        email: "a@b".to_string(),
        status: "pending".to_string(),
        created_at: 0,
    }])));
    assert_eq!(c.counts.users, 1);
    match c.on_key(key(KeyCode::Char('d'))) {
        Some(Task::SetUserStatus { id, email, status }) => {
            assert_eq!(id, "u1");
            assert_eq!(email, "a@b");
            assert_eq!(status, "disabled");
        }
        other => panic!("unexpected {other:?}"),
    }
    assert!(c.users.loading);
    c.on_result(BgMsg::UsersActionDone(Err("nope".to_string())));
    assert_eq!(c.notice.err, "nope");
    assert_eq!(c.notice.info, "");
    assert!(c.on_key(key(KeyCode::Char('q'))).is_none());
}

#[test]
fn counters_follow_reports() {
    let mut c = fresh();
    c.on_result(BgMsg::InviteCount(4));
    c.on_result(BgMsg::WhitelistCount(5));
    c.on_result(BgMsg::UsersCount(6));
    c.on_result(BgMsg::StatsLoaded((7, 8)));
    assert_eq!(c.counts.invites, 4);
    assert_eq!(c.counts.whitelist, 5);
    assert_eq!(c.counts.users, 6);
    assert_eq!(c.counts.msgs_sent, 7);
    assert_eq!(c.counts.msgs_recv, 8);
}

#[test]
fn agents_add_edit_and_rename_follows_bindings() {
    let mut c = fresh();
    c.screen = Screen::Agents;
    c.on_key(key(KeyCode::Down));
    assert_eq!(c.agents.selected, Some(1));
    assert!(c.on_key(key(KeyCode::Enter)).is_none());
    assert_eq!(c.agents.rows.len(), 2);
    assert_eq!(c.agents.rows[1].name, "agent2");
    assert!(c.agents.modal);
    assert_eq!(c.agents.modal_idx, Some(1));
    c.on_key(key(KeyCode::Esc));
    assert!(!c.agents.modal);

    c.agents.selected = Some(0);
    c.on_key(key(KeyCode::Enter));
    assert_eq!(c.agents.modal_idx, Some(0));
    typed(&mut c, "X");
    assert_eq!(c.agents.rows[0].name, "defaultX");
    assert_eq!(c.agents.task_chat, "defaultX");
    assert_eq!(c.agents.task_summary, "defaultX");

    c.agents.focus = 1;
    c.agents.rows[0].base_url = String::new();
    c.on_key(key(KeyCode::Char(' ')));
    assert_eq!(c.agents.rows[0].provider, Provider::Ollama);
    assert_eq!(c.agents.rows[0].base_url, "http://localhost:11434/v1");

    c.agents.focus = 2;
    match c.on_key(key(KeyCode::Enter)) {
        Some(Task::ListAgentModels(a)) => assert_eq!(a.name, "defaultX"),
        other => panic!("unexpected {other:?}"),
    }
    assert!(c.agents.loading_models);
    c.on_result(BgMsg::AgentModelsLoaded(Ok(vec!["m1".to_string(), "m2".to_string()])));
    assert!(c.agents.picker);
    c.on_key(key(KeyCode::Down));
    c.on_key(key(KeyCode::Down));
    assert_eq!(c.agents.picker_idx, 1);
    c.on_key(key(KeyCode::Enter));
    assert_eq!(c.agents.rows[0].model, "m2");
    assert!(!c.agents.picker);
}

#[test]
fn agents_save_validates() {
    let mut c = fresh();
    c.screen = Screen::Agents;
    c.agents.rows.push(agent("default", "m", "k"));
    c.agents.modal = true;
    c.agents.modal_idx = Some(0);
    c.agents.rows[0].api_key = "k".to_string();
    assert!(c.on_key(ctrl('s')).is_none());
    assert_eq!(c.notice.err, "duplicate agent name: default");
    assert!(c.agents.modal);
    c.agents.rows[1].name = "other".to_string();
    match c.on_key(ctrl('s')) {
        Some(Task::Save(s)) => assert_eq!(s.agents.len(), 2),
        other => panic!("unexpected {other:?}"),
    }
    assert!(!c.agents.modal);
    assert_eq!(c.notice.info, "saved");
}

#[test]
fn agents_screen_seeds_an_empty_table() {
    let mut c = fresh();
    c.agents.rows.clear();
    c.screen = Screen::Agents;
    c.on_key(key(KeyCode::Left));
    assert_eq!(c.agents.rows.len(), 1);
    assert_eq!(c.agents.rows[0].name, "agent1");
}

#[test]
fn validate_agents_messages() {
    assert_eq!(validate_agents(&vec![agent("a", "m", "k")]), None);
    assert_eq!(
        validate_agents(&vec![agent("a", "m", "k"), agent(" ", "m", "k")]),
        Some("agent name is required".to_string())
    );
    assert_eq!(
        validate_agents(&vec![agent("a", "", "k"), agent("a", "m", "k")]),
        Some("a: model is required".to_string())
    );
    assert_eq!(
        validate_agents(&vec![agent("a", "m", ""), agent("a", "m", "k")]),
        Some("duplicate agent name: a".to_string())
    );
    assert_eq!(
        validate_agents(&vec![agent("a", "m", "k"), agent("b", "m", " ")]),
        Some("b: API key required for OpenRouter".to_string())
    );
    let mut ollama = agent("o", "m", "");
    ollama.provider = Provider::Ollama;
    assert_eq!(validate_agents(&vec![ollama]), None);
}

#[test]
fn selection_steps_stay_in_table() {
    assert_eq!(step_selection(0, Some(3), true), None);
    assert_eq!(step_selection(3, None, true), Some(1));
    assert_eq!(step_selection(3, Some(2), true), Some(2));
    assert_eq!(step_selection(3, Some(0), false), Some(0));
    assert_eq!(step_selection(3, Some(9), false), Some(2));
}

#[test]
fn status_line_prefers_the_error() {
    let n = Notice { info: " done ".to_string(), err: "  ".to_string() };
    assert_eq!(status_line(&n), ("done".to_string(), false));
    let n = Notice { info: "done".to_string(), err: " bad ".to_string() };
    assert_eq!(status_line(&n), ("Error: bad".to_string(), true));
    let n = Notice { info: String::new(), err: String::new() };
    assert_eq!(status_line(&n), (String::new(), false));
}

#[test]
fn model_blurb_falls_back_to_name() {
    let mut m = model("x", 1);
    m.description = "  about  ".to_string();
    assert_eq!(model_blurb(&m), "about");
    m.description = " ".to_string();
    m.name = " X ".to_string();
    assert_eq!(model_blurb(&m), "X");
    m.name = String::new();
    assert_eq!(model_blurb(&m), "(no description)");
}

#[test]
fn wrap_lines_packs_words_greedily() {
    assert_eq!(wrap_lines("a  b", 5), vec!["a  b".to_string()]);
    assert_eq!(
        wrap_lines("the quick brown fox jumps", 10),
        vec!["the quick".to_string(), "brown fox".to_string(), "jumps".to_string()]
    );
    assert_eq!(
        wrap_lines("  supercalifragilistic ok ", 10),
        vec!["supercalifragilistic".to_string(), "ok".to_string()]
    );
    assert!(wrap_lines("   ", 20).is_empty());
    assert_eq!(wrap_lines("é é é é", 10), vec!["é é é".to_string(), "é".to_string()]);
}

#[test]
fn models_found_sorts_or_complains() {
    assert_eq!(models_found(vec![]), Err("no models found".to_string()));
    assert_eq!(
        models_found(vec!["llama3".to_string(), "gemma".to_string(), "llama2".to_string()]),
        Ok(vec!["gemma".to_string(), "llama2".to_string(), "llama3".to_string()])
    );
}

#[test]
fn results_leave_forms_alone() {
    let mut c = fresh();
    c.screen = Screen::OpenRouterConfig;
    c.focus = 3;
    typed(&mut c, "ref");
    c.on_result(BgMsg::ModelsLoaded(Err("x".to_string())));
    c.on_result(BgMsg::UsersLoaded(Err("y".to_string())));
    c.on_result(BgMsg::AgentModelsLoaded(Ok(vec!["m".to_string()])));
    assert_eq!(c.form.http_referer, "ref");
    assert_eq!(c.focus, 3);
    assert_eq!(c.agents.rows.len(), 1);
    assert_eq!(c.agents.task_chat, "default");
    assert_eq!(c.prompt.text(), DEFAULT_SYSTEM_PROMPT.trim());
}

#[test]
fn cursors_stay_in_range_over_many_keys() {
    let mut c = fresh();
    let keys = [KeyCode::Up, KeyCode::Down, KeyCode::Tab, KeyCode::BackTab, KeyCode::Enter, KeyCode::Esc];
    for screen in [Screen::Menu, Screen::OpenRouterConfig, Screen::EmailConfig, Screen::Agents] {
        for (i, k) in keys.iter().cycle().take(40).enumerate() {
            if i % 7 == 0 {
                c.screen = screen;
            }
            c.on_key(key(*k));
            assert!(c.menu_idx <= 5);
            assert!(c.focus < 5);
            assert!(c.agents.focus < 9);
        }
    }
}

#[test]
fn prompt_editor_reports_well_formed() {
    let mut c = fresh();
    assert!(c.prompt.is_well_formed());
    c.screen = Screen::SystemPrompt;
    c.on_key(key(KeyCode::End));
    c.on_key(key(KeyCode::Enter));
    assert!(c.prompt.is_well_formed());
}
