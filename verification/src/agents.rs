//! Settings normalisation and the choice of a backend client for a task.
use crate::config::{
    agent_lookup_ok, default_settings, find_agent, has_named, is_default_agent, is_default_settings,
    spec_openai_base_url,
    task_target, Agent, Provider, Settings, DEFAULT_MODEL, DEFAULT_SYSTEM_PROMPT,
};
use crate::openrouter::Config;
use crate::text::{is_trim_empty, str_chars, trim, trim_str};
use vstd::prelude::*;

verus! {

/// A backend chosen for a task: the settings it came from, the client
/// configuration and the model to request.
#[derive(Debug)]
pub struct ResolvedTaskClient {
    pub settings: Settings,
    pub client: Config,
    pub model: String,
}

/// A task binding after normalisation: kept when it names an agent, else the first agent.
pub open spec fn bound_or_first(agents: Seq<Agent>, name: Seq<char>) -> Seq<char> {
    if has_named(agents, name) {
        name
    } else {
        agents[0].name@
    }
}

/// A binding that is blank falls back to `fallback`.
pub open spec fn or_if_blank(name: Seq<char>, fallback: Seq<char>) -> Seq<char> {
    if trim(name).len() == 0 {
        fallback
    } else {
        name
    }
}

/// What `normalize_settings` makes of `old`: at least one agent, every task
/// binding naming an existing agent (blank bindings first take the first agent,
/// the memory binding the summary binding), and a non-blank system prompt.
pub open spec fn normalized_from(old: Settings, new: Settings) -> bool {
    let agents_ok = if old.agents@.len() == 0 {
        new.agents@.len() == 1 && is_default_agent(new.agents@[0])
    } else {
        new.agents@ == old.agents@
    };
    let first = new.agents@[0].name@;
    let chat1 = or_if_blank(old.tasks.chat_agent@, first);
    let summary1 = or_if_blank(old.tasks.summary_agent@, first);
    let memory1 = or_if_blank(old.tasks.memory_agent@, summary1);
    &&& agents_ok
    &&& new.tasks.chat_agent@ == bound_or_first(new.agents@, chat1)
    &&& new.tasks.summary_agent@ == bound_or_first(new.agents@, summary1)
    &&& new.tasks.memory_agent@ == bound_or_first(new.agents@, memory1)
    &&& new.tasks.memory_curator_agent == old.tasks.memory_curator_agent
    &&& new.tasks.memory_embed_agent == old.tasks.memory_embed_agent
    &&& new.chat.system_prompt@ == or_if_blank(
        old.chat.system_prompt@,
        trim(DEFAULT_SYSTEM_PROMPT@),
    )
    &&& new.mailjet == old.mailjet
    &&& new.public_base == old.public_base
}

fn bind_existing(agents: &Vec<Agent>, name: &mut String)
    requires
        agents@.len() > 0,
    ensures
        final(name)@ == bound_or_first(agents@, old(name)@),
{
    let v = str_chars(name.as_str());
    match find_agent(agents, v.as_slice()) {
        Some(_) => {},
        None => {
            *name = agents[0].name.clone();
        },
    }
}

pub fn normalize_settings(cfg: &mut Settings)
    ensures
        normalized_from(*old(cfg), *final(cfg)),
        trim(final(cfg).chat.system_prompt@).len() > 0,
{
    proof {
        crate::config::lemma_default_prompt_nonblank();
    }
    if cfg.agents.len() == 0 {
        let s = default_settings();
        cfg.agents = s.agents;
    }
    if is_trim_empty(cfg.tasks.chat_agent.as_str()) {
        cfg.tasks.chat_agent = cfg.agents[0].name.clone();
    }
    if is_trim_empty(cfg.tasks.summary_agent.as_str()) {
        cfg.tasks.summary_agent = cfg.agents[0].name.clone();
    }
    if is_trim_empty(cfg.tasks.memory_agent.as_str()) {
        cfg.tasks.memory_agent = cfg.tasks.summary_agent.clone();
    }
    if is_trim_empty(cfg.chat.system_prompt.as_str()) {
        cfg.chat.system_prompt = trim_str(DEFAULT_SYSTEM_PROMPT);
    }
    bind_existing(&cfg.agents, &mut cfg.tasks.chat_agent);
    bind_existing(&cfg.agents, &mut cfg.tasks.summary_agent);
    bind_existing(&cfg.agents, &mut cfg.tasks.memory_agent);
}

/// `c` is the client configuration of `agent`: its API key, its API root,
/// and the attribution headers only for OpenRouter.
pub open spec fn agent_client(agent: Agent, c: Config) -> bool {
    &&& c.api_key == agent.api_key
    &&& c.base_url@ == spec_openai_base_url(agent.provider, agent.base_url@)
    &&& agent.provider == Provider::OpenRouter ==> c.http_referer == agent.http_referer && c.x_title
        == agent.x_title
    &&& agent.provider == Provider::Ollama ==> c.http_referer@.len() == 0 && c.x_title@.len() == 0
}

/// The client configuration of an agent (see [`agent_client`]).
pub fn client_from_agent(agent: &Agent) -> (c: Config)
    ensures
        agent_client(*agent, c),
        c.api_key == agent.api_key,
        c.base_url@ == spec_openai_base_url(agent.provider, agent.base_url@),
        agent.provider == Provider::OpenRouter ==> c.http_referer == agent.http_referer
            && c.x_title == agent.x_title,
        agent.provider == Provider::Ollama ==> c.http_referer@.len() == 0 && c.x_title@.len()
            == 0,
{
    let base_url = agent.openai_base_url();
    let is_or = agent.provider == Provider::OpenRouter;
    Config {
        api_key: agent.api_key.clone(),
        base_url,
        http_referer: if is_or {
            agent.http_referer.clone()
        } else {
            String::new()
        },
        x_title: if is_or {
            agent.x_title.clone()
        } else {
            String::new()
        },
    }
}

/// The model requested from an agent: its trimmed model name, or the default model.
pub open spec fn spec_task_model(agent: Agent) -> Seq<char> {
    if trim(agent.model@).len() == 0 {
        DEFAULT_MODEL@
    } else {
        trim(agent.model@)
    }
}

/// `rc` is the backend for `task` under `cfg`: the settings themselves, the
/// client of the task's agent (see [`agent_lookup_ok`]) and its model.
pub open spec fn resolved_for(cfg: Settings, task: Seq<char>, rc: ResolvedTaskClient) -> bool {
    &&& rc.settings == cfg
    &&& exists|a: Agent|
        #![trigger spec_task_model(a)]
        agent_lookup_ok(cfg.agents@, task_target(cfg.tasks, task), Some(a)) && rc.model@
            == spec_task_model(a) && agent_client(a, rc.client)
}

/// The backend for `task` under `cfg`: `None` exactly when no agent is configured.
pub fn client_for_task(cfg: Settings, task: &str) -> (r: Option<ResolvedTaskClient>)
    ensures
        match r {
            Some(rc) => resolved_for(cfg, task@, rc),
            None => cfg.agents@.len() == 0,
        },
{
    let agent = match cfg.resolve_agent(task) {
        Some(a) => a,
        None => {
            return None;
        },
    };
    let client = client_from_agent(&agent);
    let model = if is_trim_empty(agent.model.as_str()) {
        String::from_str(DEFAULT_MODEL)
    } else {
        trim_str(agent.model.as_str())
    };
    proof {
        assert(spec_task_model(agent) == model@);
    }
    let ghost cfg0 = cfg;
    let rc = ResolvedTaskClient { settings: cfg, client, model };
    proof {
        assert(agent_client(agent, rc.client));
        assert(resolved_for(cfg0, task@, rc));
    }
    Some(rc)
}

/// What reading the settings file gave: no file, its parsed contents, or
/// why it could not be read or parsed.
#[derive(Debug)]
pub enum SettingsFile {
    Missing,
    Parsed(Settings),
    Unreadable(String),
}

/// The settings in effect: the parsed file, or the defaults when there is
/// none, normalised; an unreadable file is an error.
pub fn load_settings_from_disk(file: SettingsFile) -> (r: Result<Settings, String>)
    ensures
        match file {
            SettingsFile::Unreadable(e) => r matches Err(m) && m@ == e@,
            SettingsFile::Parsed(old) => r matches Ok(s) && normalized_from(old, s),
            SettingsFile::Missing => r matches Ok(s) && exists|d: Settings|
                #[trigger] is_default_settings(d) && normalized_from(d, s),
        },
{
    let mut cfg = match file {
        SettingsFile::Unreadable(e) => {
            return Err(e);
        },
        SettingsFile::Parsed(s) => s,
        SettingsFile::Missing => default_settings(),
    };
    let ghost before = cfg;
    normalize_settings(&mut cfg);
    proof {
        assert(normalized_from(before, cfg));
    }
    Ok(cfg)
}

/// The backend for `task` from what was read of the settings file: an
/// unreadable file is an error; otherwise the settings in effect (the parsed
/// file, or the defaults when there is none, normalised) always hold an
/// agent, and the backend is resolved from them as [`client_for_task`] says.
pub fn client_for_task_from_disk(file: SettingsFile, task: &str) -> (r: Result<ResolvedTaskClient, String>)
    ensures
        match file {
            SettingsFile::Unreadable(e) => r matches Err(m) && m@ == e@,
            SettingsFile::Parsed(old) => r matches Ok(rc) && normalized_from(old, rc.settings)
                && resolved_for(rc.settings, task@, rc),
            SettingsFile::Missing => r matches Ok(rc) && (exists|d: Settings|
                #[trigger] is_default_settings(d) && normalized_from(d, rc.settings)) && resolved_for(
                rc.settings,
                task@,
                rc,
            ),
        },
{
    let cfg = load_settings_from_disk(file)?;
    proof {
        assert(cfg.agents@.len() > 0);
    }
    match client_for_task(cfg, task) {
        Some(rc) => Ok(rc),
        None => Err(String::from_str("no agents configured")),
    }
}

/// Chat requests go to the configured chat agent: the backend resolved for
/// chat (or any task but summarising and the two memory tasks) is the client
/// and model of the first agent named by the chat binding, whenever one exists.
pub proof fn law_chat_client_uses_chat_agent(cfg: Settings, task: Seq<char>, rc: ResolvedTaskClient)
    requires
        resolved_for(cfg, task, rc),
        crate::config::is_chat_task(task),
        crate::config::has_named(cfg.agents@, cfg.tasks.chat_agent@),
    ensures
        exists|i: int|
            crate::config::first_named(cfg.agents@, cfg.tasks.chat_agent@, i) && rc.model@ == spec_task_model(
                #[trigger] cfg.agents@[i],
            ) && agent_client(cfg.agents@[i], rc.client),
{
    let a = choose|a: Agent|
        #![trigger spec_task_model(a)]
        crate::config::agent_lookup_ok(cfg.agents@, crate::config::task_target(cfg.tasks, task), Some(a))
            && rc.model@ == spec_task_model(a) && agent_client(a, rc.client);
    crate::config::law_task_agents(cfg.agents@, cfg.tasks, task, Some(a));
    assert(crate::config::resolves_to(cfg.agents@, cfg.tasks.chat_agent@, Some(a)));
    let i = choose|i: int| crate::config::first_named(cfg.agents@, cfg.tasks.chat_agent@, i) && a == cfg.agents@[i];
    assert(rc.model@ == spec_task_model(cfg.agents@[i]));
}

} // verus!
