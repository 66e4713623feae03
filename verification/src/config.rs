//! Server settings: agents (model backends), task bindings, mail settings and
//! the public base URL, with the normalisations the server applies to them.
use crate::text::{
    chars_eq_str, ends_with, has_prefix_str, has_suffix, has_suffix_str, is_trim_empty, push_all,
    push_str_chars, slice_to_vec, starts_with, str_chars, str_eq, string_from_chars,
    strip_trailing, strip_trailing_chars, strip_trailing_seq, trim, trim_chars, trim_str,
};
use vstd::prelude::*;

verus! {

pub const DEFAULT_SYSTEM_PROMPT: &'static str = "
You are Saelora.

You are a chronicler, not an assistant. Your job is to listen, remember, and keep the thread of the user's life across time.

Write like a person across the table: calm, direct, understated.
Keep replies short (1-3 sentences). Silence is allowed.
Stay with what the user actually said. Do not teach, lecture, or bring in outside facts.
When it helps, ask one concrete question that gets new information (not a rephrase of what the user already said).
Do not claim real-world personal experience.
Do not cite sources or include links/URLs.
Do not use markdown or formatting.

Match the user's language.
";

/// The default system prompt is not blank, trimmed or not.
pub proof fn lemma_default_prompt_nonblank()
    ensures
        trim(DEFAULT_SYSTEM_PROMPT@).len() > 0,
        trim(trim(DEFAULT_SYSTEM_PROMPT@)).len() > 0,
{
    reveal_strlit("
You are Saelora.

You are a chronicler, not an assistant. Your job is to listen, remember, and keep the thread of the user's life across time.

Write like a person across the table: calm, direct, understated.
Keep replies short (1-3 sentences). Silence is allowed.
Stay with what the user actually said. Do not teach, lecture, or bring in outside facts.
When it helps, ask one concrete question that gets new information (not a rephrase of what the user already said).
Do not claim real-world personal experience.
Do not cite sources or include links/URLs.
Do not use markdown or formatting.

Match the user's language.
");
    assert(DEFAULT_SYSTEM_PROMPT@[1] == 'Y');
    crate::text::lemma_trim_nonblank(DEFAULT_SYSTEM_PROMPT@, 1);
    crate::text::lemma_trim_idempotent(DEFAULT_SYSTEM_PROMPT@);
}

pub const DEFAULT_MODEL: &'static str = "openai/gpt-4o-mini";

#[derive(Debug)]
pub struct ChatSettings {
    pub system_prompt: String,
}

#[derive(Debug)]
pub struct MailjetSettings {
    pub api_key: String,
    pub api_secret: String,
    pub from_email: String,
    pub from_name: String,
    pub base_url: String,
}

#[derive(PartialEq, Eq, Structural, Clone, Copy, Debug)]
pub enum Provider {
    OpenRouter,
    Ollama,
}

#[derive(Debug)]
pub struct Agent {
    pub name: String,
    pub provider: Provider,
    pub model: String,
    pub base_url: String,
    pub api_key: String,
    pub http_referer: String,
    pub x_title: String,
}

#[derive(Debug)]
pub struct TaskBindings {
    pub chat_agent: String,
    pub summary_agent: String,
    pub memory_agent: String,
    pub memory_curator_agent: String,
    pub memory_embed_agent: String,
}

#[derive(Debug)]
pub struct Settings {
    pub chat: ChatSettings,
    pub mailjet: MailjetSettings,
    pub public_base: String,
    pub agents: Vec<Agent>,
    pub tasks: TaskBindings,
}

impl Clone for ChatSettings {
    fn clone(&self) -> (r: Self)
        ensures
            r == *self,
    {
        ChatSettings { system_prompt: self.system_prompt.clone() }
    }
}

impl Clone for MailjetSettings {
    fn clone(&self) -> (r: Self)
        ensures
            r == *self,
    {
        MailjetSettings {
            api_key: self.api_key.clone(),
            api_secret: self.api_secret.clone(),
            from_email: self.from_email.clone(),
            from_name: self.from_name.clone(),
            base_url: self.base_url.clone(),
        }
    }
}

impl Clone for Agent {
    fn clone(&self) -> (r: Self)
        ensures
            r == *self,
    {
        Agent {
            name: self.name.clone(),
            provider: self.provider,
            model: self.model.clone(),
            base_url: self.base_url.clone(),
            api_key: self.api_key.clone(),
            http_referer: self.http_referer.clone(),
            x_title: self.x_title.clone(),
        }
    }
}

impl Clone for TaskBindings {
    fn clone(&self) -> (r: Self)
        ensures
            r == *self,
    {
        TaskBindings {
            chat_agent: self.chat_agent.clone(),
            summary_agent: self.summary_agent.clone(),
            memory_agent: self.memory_agent.clone(),
            memory_curator_agent: self.memory_curator_agent.clone(),
            memory_embed_agent: self.memory_embed_agent.clone(),
        }
    }
}

impl Clone for Settings {
    fn clone(&self) -> (r: Self)
        ensures
            r.chat == self.chat,
            r.mailjet == self.mailjet,
            r.public_base == self.public_base,
            r.agents@ == self.agents@,
            r.tasks == self.tasks,
    {
        Settings {
            chat: self.chat.clone(),
            mailjet: self.mailjet.clone(),
            public_base: self.public_base.clone(),
            agents: self.agents.clone(),
            tasks: self.tasks.clone(),
        }
    }
}

impl Default for MailjetSettings {
    fn default() -> (r: Self)
        ensures
            r.api_key@.len() == 0,
            r.api_secret@.len() == 0,
            r.from_email@.len() == 0,
            r.from_name@.len() == 0,
            r.base_url@.len() == 0,
    {
        MailjetSettings::empty()
    }
}

impl MailjetSettings {
    /// Mail settings with every field empty.
    pub fn empty() -> (r: Self)
        ensures
            r.api_key@.len() == 0,
            r.api_secret@.len() == 0,
            r.from_email@.len() == 0,
            r.from_name@.len() == 0,
            r.base_url@.len() == 0,
    {
        MailjetSettings {
            api_key: String::new(),
            api_secret: String::new(),
            from_email: String::new(),
            from_name: String::new(),
            base_url: String::new(),
        }
    }
}

/// `s` begins with `http://` or `https://`.
pub open spec fn has_http_scheme(s: Seq<char>) -> bool {
    starts_with(s, "http://"@) || starts_with(s, "https://"@)
}

pub fn has_http_scheme_exec(v: &[char]) -> (r: bool)
    ensures
        r == has_http_scheme(v@),
{
    has_prefix_str(v, "http://") || has_prefix_str(v, "https://")
}

pub open spec fn provider_default_base(p: Provider) -> Seq<char> {
    match p {
        Provider::OpenRouter => "https://openrouter.ai/api/v1"@,
        Provider::Ollama => "http://localhost:11434/v1"@,
    }
}

pub open spec fn provider_scheme(p: Provider) -> Seq<char> {
    match p {
        Provider::OpenRouter => "https://"@,
        Provider::Ollama => "http://"@,
    }
}

/// The OpenAI-compatible API root of an agent: the trimmed base URL (or the
/// provider's default), given a scheme when it has none, without trailing
/// slashes, and ending in `/v1` for Ollama.
pub open spec fn spec_openai_base_url(p: Provider, base: Seq<char>) -> Seq<char> {
    let b0 = trim(base);
    let b1 = if b0.len() == 0 {
        provider_default_base(p)
    } else {
        b0
    };
    let b2 = if has_http_scheme(b1) {
        b1
    } else {
        provider_scheme(p) + b1
    };
    let b3 = strip_trailing(b2, '/');
    if p == Provider::Ollama && !ends_with(b3, "/v1"@) {
        b3 + "/v1"@
    } else {
        b3
    }
}

/// The Ollama server root: the API root without its `/v1` suffixes and trailing slashes.
pub open spec fn spec_ollama_root_url(p: Provider, base: Seq<char>) -> Seq<char> {
    strip_trailing(strip_trailing_seq(spec_openai_base_url(p, base), "/v1"@), '/')
}

/// `trim_end_matches(p)` for a non-empty pattern.
pub fn strip_trailing_seq_exec(v: &[char], p: &[char]) -> (r: Vec<char>)
    requires
        p@.len() > 0,
    ensures
        r@ == strip_trailing_seq(v@, p@),
{
    let mut b = v.len();
    let mut cur = slice_to_vec(v, 0, b);
    assert(v@.subrange(0, v@.len() as int) == v@);
    while has_suffix(cur.as_slice(), p)
        invariant
            p@.len() > 0,
            b <= v@.len(),
            cur@ == v@.subrange(0, b as int),
            strip_trailing_seq(v@, p@) == strip_trailing_seq(cur@, p@),
        decreases b,
    {
        b = b - p.len();
        let next = slice_to_vec(v, 0, b);
        assert(next@ == cur@.subrange(0, cur@.len() - p@.len()));
        cur = next;
    }
    cur
}

impl Agent {
    pub fn openai_base_url(&self) -> (r: String)
        ensures
            r@ == spec_openai_base_url(self.provider, self.base_url@),
    {
        let mut b = trim_chars(self.base_url.as_str());
        if b.len() == 0 {
            b = match self.provider {
                Provider::OpenRouter => str_chars("https://openrouter.ai/api/v1"),
                Provider::Ollama => str_chars("http://localhost:11434/v1"),
            };
        }
        if !has_http_scheme_exec(b.as_slice()) {
            let mut with_scheme = match self.provider {
                Provider::OpenRouter => str_chars("https://"),
                Provider::Ollama => str_chars("http://"),
            };
            push_all(&mut with_scheme, b.as_slice());
            b = with_scheme;
        }
        let mut c = strip_trailing_chars(b.as_slice(), '/');
        if self.provider == Provider::Ollama && !has_suffix_str(c.as_slice(), "/v1") {
            push_str_chars(&mut c, "/v1");
        }
        string_from_chars(c.as_slice())
    }

    pub fn ollama_root_url(&self) -> (r: String)
        ensures
            r@ == spec_ollama_root_url(self.provider, self.base_url@),
    {
        let b = self.openai_base_url();
        let bv = str_chars(b.as_str());
        let v1 = str_chars("/v1");
        proof {
            reveal_strlit("/v1");
        }
        let s = strip_trailing_seq_exec(bv.as_slice(), v1.as_slice());
        let t = strip_trailing_chars(s.as_slice(), '/');
        string_from_chars(t.as_slice())
    }
}

/// The agent `default_settings` configures.
pub open spec fn is_default_agent(a: Agent) -> bool {
    &&& a.name@ == "default"@
    &&& a.provider == Provider::OpenRouter
    &&& a.model@ == DEFAULT_MODEL@
    &&& a.base_url@ == "https://openrouter.ai/api/v1"@
    &&& a.api_key@.len() == 0
    &&& a.http_referer@.len() == 0
    &&& a.x_title@ == "Saelora"@
}

pub fn default_agent() -> (a: Agent)
    ensures
        is_default_agent(a),
{
    Agent {
        name: String::from_str("default"),
        provider: Provider::OpenRouter,
        model: String::from_str(DEFAULT_MODEL),
        base_url: String::from_str("https://openrouter.ai/api/v1"),
        api_key: String::new(),
        http_referer: String::new(),
        x_title: String::from_str("Saelora"),
    }
}

/// The settings a fresh data directory starts with.
pub open spec fn is_default_settings(s: Settings) -> bool {
    &&& s.chat.system_prompt@ == trim(DEFAULT_SYSTEM_PROMPT@)
    &&& s.mailjet.api_key@.len() == 0
    &&& s.mailjet.api_secret@.len() == 0
    &&& s.mailjet.from_email@.len() == 0
    &&& s.mailjet.from_name@.len() == 0
    &&& s.mailjet.base_url@.len() == 0
    &&& s.public_base@.len() == 0
    &&& s.agents@.len() == 1
    &&& is_default_agent(s.agents@[0])
    &&& s.tasks.chat_agent@ == "default"@
    &&& s.tasks.summary_agent@ == "default"@
    &&& s.tasks.memory_agent@ == "default"@
    &&& s.tasks.memory_curator_agent@ == "default"@
    &&& s.tasks.memory_embed_agent@ == "default"@
}

pub fn default_settings() -> (s: Settings)
    ensures
        is_default_settings(s),
{
    let a = default_agent();
    let mut agents: Vec<Agent> = Vec::new();
    agents.push(a);
    Settings {
        chat: ChatSettings { system_prompt: trim_str(DEFAULT_SYSTEM_PROMPT) },
        mailjet: MailjetSettings::empty(),
        public_base: String::new(),
        agents,
        tasks: TaskBindings {
            chat_agent: String::from_str("default"),
            summary_agent: String::from_str("default"),
            memory_agent: String::from_str("default"),
            memory_curator_agent: String::from_str("default"),
            memory_embed_agent: String::from_str("default"),
        },
    }
}

/// The public base URL with a scheme: empty when unset, `https://` added when missing.
pub open spec fn spec_http_public_base(public_base: Seq<char>) -> Seq<char> {
    let b = trim(public_base);
    if b.len() == 0 {
        Seq::empty()
    } else if has_http_scheme(b) {
        b
    } else {
        "https://"@ + b
    }
}

/// The agent name a task is bound to.
pub open spec fn task_target(t: TaskBindings, task: Seq<char>) -> Seq<char> {
    if task == "summary"@ {
        t.summary_agent@
    } else if task == "memory_curator"@ {
        if trim(t.memory_curator_agent@).len() == 0 {
            t.summary_agent@
        } else {
            t.memory_curator_agent@
        }
    } else if task == "memory_embed"@ {
        if trim(t.memory_embed_agent@).len() != 0 {
            t.memory_embed_agent@
        } else if trim(t.memory_curator_agent@).len() != 0 {
            t.memory_curator_agent@
        } else {
            t.summary_agent@
        }
    } else {
        t.chat_agent@
    }
}

/// `i` is the first position of an agent named `name`.
pub open spec fn first_named(agents: Seq<Agent>, name: Seq<char>, i: int) -> bool {
    &&& 0 <= i < agents.len()
    &&& agents[i].name@ == name
    &&& forall|j: int| 0 <= j < i ==> agents[j].name@ != name
}

pub open spec fn has_named(agents: Seq<Agent>, name: Seq<char>) -> bool {
    exists|i: int| 0 <= i < agents.len() && #[trigger] agents[i].name@ == name
}

/// The agent a lookup by name gives: the first agent so named, else the first agent.
pub open spec fn agent_lookup_ok(agents: Seq<Agent>, name: Seq<char>, r: Option<Agent>) -> bool {
    match r {
        Some(a) => (exists|i: int| first_named(agents, name, i) && a == agents[i]) || (!has_named(
            agents,
            name,
        ) && agents.len() > 0 && a == agents[0]),
        None => agents.len() == 0,
    }
}

/// The position of the first agent named `name`.
pub fn find_agent(agents: &Vec<Agent>, name: &[char]) -> (r: Option<usize>)
    ensures
        match r {
            Some(i) => first_named(agents@, name@, i as int),
            None => !has_named(agents@, name@),
        },
{
    let mut i: usize = 0;
    while i < agents.len()
        invariant
            i <= agents@.len(),
            forall|j: int| 0 <= j < i ==> agents@[j].name@ != name@,
        decreases agents@.len() - i,
    {
        if chars_eq_str(name, agents[i].name.as_str()) {
            return Some(i);
        }
        i = i + 1;
    }
    None
}

/// The agent named `name`, or the first agent.
pub fn lookup_agent(agents: &Vec<Agent>, name: &[char]) -> (r: Option<Agent>)
    ensures
        agent_lookup_ok(agents@, name@, r),
{
    match find_agent(agents, name) {
        Some(i) => Some(agents[i].clone()),
        None => {
            if agents.len() > 0 {
                Some(agents[0].clone())
            } else {
                None
            }
        },
    }
}

/// A task served by the chat agent: anything but summarising and the two
/// memory tasks.
pub open spec fn is_chat_task(task: Seq<char>) -> bool {
    task != "summary"@ && task != "memory_curator"@ && task != "memory_embed"@
}

/// `r` is the agent named `name` (the first so named) whenever the agents
/// hold one.
pub open spec fn resolves_to(agents: Seq<Agent>, name: Seq<char>, r: Option<Agent>) -> bool {
    has_named(agents, name) ==> (r matches Some(a) && exists|i: int| first_named(agents, name, i) && a == agents[i])
}

/// The agent a task is looked up under: chat (and every task but summarising
/// and the two memory tasks) gets the agent named by the chat binding,
/// summarising the one named by the summary binding; the memory curator gets
/// its own binding when it is set, else the summary agent; embedding gets its
/// own binding when set, else the curator's, else the summary agent.  With no
/// agent so named, the first agent serves; with no agents, none.
pub proof fn law_task_agents(agents: Seq<Agent>, tasks: TaskBindings, task: Seq<char>, r: Option<Agent>)
    requires
        agent_lookup_ok(agents, task_target(tasks, task), r),
    ensures
        is_chat_task(task) ==> resolves_to(agents, tasks.chat_agent@, r),
        task == "summary"@ ==> resolves_to(agents, tasks.summary_agent@, r),
        task == "memory_curator"@ && trim(tasks.memory_curator_agent@).len() > 0 ==> resolves_to(
            agents,
            tasks.memory_curator_agent@,
            r,
        ),
        task == "memory_curator"@ && trim(tasks.memory_curator_agent@).len() == 0 ==> resolves_to(
            agents,
            tasks.summary_agent@,
            r,
        ),
        task == "memory_embed"@ && trim(tasks.memory_embed_agent@).len() > 0 ==> resolves_to(
            agents,
            tasks.memory_embed_agent@,
            r,
        ),
        task == "memory_embed"@ && trim(tasks.memory_embed_agent@).len() == 0 && trim(
            tasks.memory_curator_agent@,
        ).len() > 0 ==> resolves_to(agents, tasks.memory_curator_agent@, r),
        task == "memory_embed"@ && trim(tasks.memory_embed_agent@).len() == 0 && trim(
            tasks.memory_curator_agent@,
        ).len() == 0 ==> resolves_to(agents, tasks.summary_agent@, r),
        agents.len() == 0 <==> r is None,
        !has_named(agents, task_target(tasks, task)) ==> (r matches Some(a) ==> a == agents[0]),
{
    reveal_strlit("summary");
    reveal_strlit("memory_curator");
    reveal_strlit("memory_embed");
    assert("summary"@ != "memory_curator"@ && "summary"@ != "memory_embed"@ && "memory_curator"@
        != "memory_embed"@) by {
        assert("summary"@.len() != "memory_curator"@.len());
        assert("summary"@.len() != "memory_embed"@.len());
        assert("memory_curator"@.len() != "memory_embed"@.len());
    }
    if r is Some && !has_named(agents, task_target(tasks, task)) {
        if exists|i: int| first_named(agents, task_target(tasks, task), i) {
            let i = choose|i: int| first_named(agents, task_target(tasks, task), i);
            assert(agents[i].name@ == task_target(tasks, task));
        }
    }
}

impl Settings {
    pub fn http_public_base(&self) -> (r: String)
        ensures
            r@ == spec_http_public_base(self.public_base@),
    {
        let b = trim_chars(self.public_base.as_str());
        if b.len() == 0 {
            String::new()
        } else if has_http_scheme_exec(b.as_slice()) {
            string_from_chars(b.as_slice())
        } else {
            let mut out = str_chars("https://");
            push_all(&mut out, b.as_slice());
            string_from_chars(out.as_slice())
        }
    }

    pub fn resolve_agent(&self, task: &str) -> (r: Option<Agent>)
        ensures
            agent_lookup_ok(self.agents@, task_target(self.tasks, task@), r),
            is_chat_task(task@) ==> resolves_to(self.agents@, self.tasks.chat_agent@, r),
            task@ == "summary"@ ==> resolves_to(self.agents@, self.tasks.summary_agent@, r),
    {
        let t = &self.tasks;
        let target: &String = if str_eq(task, "summary") {
            &t.summary_agent
        } else if str_eq(task, "memory_curator") {
            if is_trim_empty(t.memory_curator_agent.as_str()) {
                &t.summary_agent
            } else {
                &t.memory_curator_agent
            }
        } else if str_eq(task, "memory_embed") {
            if !is_trim_empty(t.memory_embed_agent.as_str()) {
                &t.memory_embed_agent
            } else if !is_trim_empty(t.memory_curator_agent.as_str()) {
                &t.memory_curator_agent
            } else {
                &t.summary_agent
            }
        } else {
            &t.chat_agent
        };
        let name = str_chars(target.as_str());
        let r = lookup_agent(&self.agents, name.as_slice());
        proof {
            law_task_agents(self.agents@, self.tasks, task@, r);
        }
        r
    }
}

/// `Path::join` with a single relative component.
pub open spec fn path_join(base: Seq<char>, name: Seq<char>) -> Seq<char> {
    if base.len() == 0 {
        name
    } else if base.last() == '/' {
        base + name
    } else {
        base + seq!['/'] + name
    }
}

pub fn path_join_exec(base: &str, name: &str) -> (r: String)
    ensures
        r@ == path_join(base@, name@),
{
    let mut v = str_chars(base);
    if v.len() > 0 && v[v.len() - 1] != '/' {
        v.push('/');
    }
    push_str_chars(&mut v, name);
    proof {
        if base@.len() > 0 && base@.last() != '/' {
            assert(v@ =~= base@ + seq!['/'] + name@);
        }
    }
    string_from_chars(v.as_slice())
}

/// Where the settings file of a data directory lives.
pub fn settings_path(data_dir: &str) -> (r: String)
    ensures
        r@ == path_join(data_dir@, "config.json"@),
{
    path_join_exec(data_dir, "config.json")
}

} // verus!
