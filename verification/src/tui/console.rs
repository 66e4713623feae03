//! The administration console's state, and what each key and each finished
//! background job does to it. The program runs the terminal, draws the
//! screens and performs the jobs (reading the lists, saving the settings,
//! listing models); here is what it is asked to do and what the results change.
use crate::api::chat::sse::{join_lines, split_lines};
use crate::config::{
    default_agent, default_settings, find_agent, has_named, is_default_agent, Agent, Provider,
    Settings, DEFAULT_SYSTEM_PROMPT,
};
use crate::db::lists::WaitlistRecord;
use crate::db::users::UserRecord;
use crate::openrouter::{Model, DEFAULT_BASE_URL};
use crate::text::{decimal, is_trim_empty, str_chars, string_from_chars, trim, trim_str};
use crate::tui::order::{lemma_lex_swap, lemma_lex_trans, lex_le, lex_order};
use crate::tui::keys::cleared;
use crate::tui::PromptEditor;
use vstd::prelude::*;

verus! {

/// The screens of the console.
#[derive(Debug, Clone, Copy, PartialEq, Eq, Structural)]
pub enum Screen {
    Menu,
    OpenRouterConfig,
    SystemPrompt,
    EmailConfig,
    Models,
    Invites,
    Users,
    Agents,
}

/// What the background jobs report back.
#[derive(Debug)]
pub enum BgMsg {
    InviteCount(usize),
    WhitelistCount(usize),
    UsersCount(usize),
    StatsLoaded((u64, u64)),
    ModelsLoaded(Result<Vec<Model>, String>),
    WaitlistLoaded(Result<Vec<WaitlistRecord>, String>),
    WhitelistLoaded(Result<Vec<WaitlistRecord>, String>),
    WaitlistActionDone(Result<String, String>),
    UsersLoaded(Result<Vec<UserRecord>, String>),
    UsersActionDone(Result<String, String>),
    AgentModelsLoaded(Result<Vec<String>, String>),
}

/// The counters of the menu.
#[derive(Debug, Clone, Copy, PartialEq, Eq, Structural)]
pub struct Counts {
    pub invites: usize,
    pub whitelist: usize,
    pub users: usize,
    pub msgs_sent: u64,
    pub msgs_recv: u64,
}

/// The status line: a message and an error.
#[derive(Debug)]
pub struct Notice {
    pub info: String,
    pub err: String,
}

/// The OpenRouter form: the connection of the OpenRouter agent it edits.
#[derive(Debug)]
pub struct ProviderForm {
    pub api_key: String,
    pub model: String,
    pub base_url: String,
    pub http_referer: String,
    pub x_title: String,
}

/// The mail form, with the public base URL of the links.
#[derive(Debug)]
pub struct MailForm {
    pub api_key: String,
    pub api_secret: String,
    pub from_email: String,
    pub from_name: String,
    pub base_url: String,
    pub public_base: String,
}

/// The model table.
#[derive(Debug)]
pub struct ModelsView {
    pub loading: bool,
    pub rows: Vec<Model>,
    pub selected: Option<usize>,
    pub sort_col: usize,
    pub sort_asc: bool,
}

/// The waitlist and whitelist tables.
#[derive(Debug)]
pub struct InvitesView {
    pub loading: bool,
    pub waitlist: Vec<WaitlistRecord>,
    pub waitlist_selected: Option<usize>,
    pub whitelist: Vec<WaitlistRecord>,
    pub whitelist_selected: Option<usize>,
}

/// The account table.
#[derive(Debug)]
pub struct UsersView {
    pub loading: bool,
    pub rows: Vec<UserRecord>,
    pub selected: Option<usize>,
}

/// The agent table, its task bindings, and the agent editor with its model picker.
#[derive(Debug)]
pub struct AgentsView {
    pub rows: Vec<Agent>,
    pub selected: Option<usize>,
    pub focus: usize,
    pub task_chat: String,
    pub task_summary: String,
    pub modal: bool,
    pub modal_idx: Option<usize>,
    pub models: Vec<String>,
    pub picker: bool,
    pub picker_idx: usize,
    pub loading_models: bool,
}

/// The whole console.
#[derive(Debug)]
pub struct Console {
    pub screen: Screen,
    pub menu_idx: usize,
    /// The focused field of the OpenRouter and mail forms.
    pub focus: usize,
    pub counts: Counts,
    pub notice: Notice,
    pub form: ProviderForm,
    pub mail: MailForm,
    pub prompt: PromptEditor,
    pub models: ModelsView,
    pub invites: InvitesView,
    pub users: UsersView,
    pub agents: AgentsView,
}

impl Console {
    /// The prompt editor is well formed.
    pub open spec fn wf(&self) -> bool {
        self.prompt.wf()
    }
}

// ---------------------------------------------------------------------------
// Sorting the model table

/// `a` may stand before `b` in the model table sorted by column `col` (0:
/// id, otherwise context length), ascending or descending.
pub open spec fn row_le(a: Model, b: Model, col: usize, asc: bool) -> bool {
    if col == 0 {
        if asc {
            lex_order(a.id@, b.id@) <= 0
        } else {
            lex_order(b.id@, a.id@) <= 0
        }
    } else if asc {
        a.context_length <= b.context_length
    } else {
        b.context_length <= a.context_length
    }
}

pub open spec fn sorted_rows(s: Seq<Model>, col: usize, asc: bool) -> bool {
    forall|i: int, j: int| 0 <= i < j < s.len() ==> row_le(#[trigger] s[i], #[trigger] s[j], col, asc)
}

proof fn lemma_row_le_total(a: Model, b: Model, col: usize, asc: bool)
    ensures
        row_le(a, b, col, asc) || row_le(b, a, col, asc),
{
    lemma_lex_swap(a.id@, b.id@);
}

proof fn lemma_row_le_trans(a: Model, b: Model, c: Model, col: usize, asc: bool)
    requires
        row_le(a, b, col, asc),
        row_le(b, c, col, asc),
    ensures
        row_le(a, c, col, asc),
{
    if col == 0 {
        if asc {
            lemma_lex_trans(a.id@, b.id@, c.id@);
        } else {
            lemma_lex_trans(c.id@, b.id@, a.id@);
        }
    }
}

fn row_le_exec(a: &Model, b: &Model, col: usize, asc: bool) -> (r: bool)
    ensures
        r == row_le(*a, *b, col, asc),
{
    if col == 0 {
        if asc {
            lex_le(a.id.as_str(), b.id.as_str())
        } else {
            lex_le(b.id.as_str(), a.id.as_str())
        }
    } else if asc {
        a.context_length <= b.context_length
    } else {
        b.context_length <= a.context_length
    }
}

/// Rows that compare equal under column `col`.
pub open spec fn same_key(a: Model, b: Model, col: usize, asc: bool) -> bool {
    row_le(a, b, col, asc) && row_le(b, a, col, asc)
}

/// The rows comparing equal to `x`.
pub open spec fn key_class(x: Model, col: usize, asc: bool) -> spec_fn(Model) -> bool {
    |y: Model| same_key(x, y, col, asc)
}

/// The rows of `s` that compare equal to `x`, in their order in `s`.
pub open spec fn class_of(s: Seq<Model>, x: Model, col: usize, asc: bool) -> Seq<Model> {
    s.filter(key_class(x, col, asc))
}

proof fn lemma_filter_none(s: Seq<Model>, p: spec_fn(Model) -> bool)
    requires
        forall|i: int| 0 <= i < s.len() ==> !p(#[trigger] s[i]),
    ensures
        s.filter(p) == Seq::<Model>::empty(),
    decreases s.len(),
{
    reveal(Seq::filter);
    if s.len() > 0 {
        lemma_filter_none(s.drop_last(), p);
    } else {
        assert(s =~= Seq::<Model>::empty());
    }
}

proof fn lemma_filter_single(e: Model, p: spec_fn(Model) -> bool)
    ensures
        seq![e].filter(p) == (if p(e) {
            seq![e]
        } else {
            Seq::<Model>::empty()
        }),
{
    reveal(Seq::filter);
    let s = seq![e];
    assert(s.drop_last() =~= Seq::<Model>::empty());
    lemma_filter_none(s.drop_last(), p);
    assert(s.last() == e);
    if p(e) {
        assert(Seq::<Model>::empty().push(e) =~= seq![e]);
    }
}

/// The model table sorted by column `col` (0: id, otherwise context
/// length): the same rows, in order; rows that compare equal keep their order.
pub fn sort_rows(rows: Vec<Model>, col: usize, asc: bool) -> (r: Vec<Model>)
    ensures
        sorted_rows(r@, col, asc),
        r@.to_multiset() == rows@.to_multiset(),
        forall|x: Model| #[trigger] class_of(r@, x, col, asc) == class_of(rows@, x, col, asc),
{
    broadcast use vstd::multiset::group_multiset_axioms;
    let ghost orig = rows@;
    let mut input = rows;
    let mut out: Vec<Model> = Vec::new();
    proof {
        vstd::seq_lib::to_multiset_len(out@);
        vstd::multiset::lemma_multiset_empty_len(out@.to_multiset());
        assert(out@.to_multiset().add(input@.to_multiset()) =~= orig.to_multiset());
    }
    proof {
        assert forall|x: Model| #[trigger] class_of(out@, x, col, asc) + class_of(input@, x, col, asc) == class_of(
            orig,
            x,
            col,
            asc,
        ) by {
            lemma_filter_none(out@, key_class(x, col, asc));
            assert(Seq::<Model>::empty() + class_of(input@, x, col, asc) =~= class_of(input@, x, col, asc));
        }
    }
    while input.len() > 0
        invariant
            sorted_rows(out@, col, asc),
            out@.to_multiset().add(input@.to_multiset()) == orig.to_multiset(),
            forall|x: Model| #[trigger] class_of(out@, x, col, asc) + class_of(input@, x, col, asc) == class_of(
                orig,
                x,
                col,
                asc,
            ),
        decreases input.len(),
    {
        let ghost before_in = input@;
        let ghost before_out = out@;
        let x = input.remove(0);
        let mut p: usize = out.len();
        while p > 0 && !row_le_exec(&out[p - 1], &x, col, asc)
            invariant
                p <= out@.len(),
                forall|k: int| p <= k < out@.len() ==> !row_le(#[trigger] out@[k], x, col, asc),
            decreases p,
        {
            p = p - 1;
        }
        proof {
            let s = out@;
            assert forall|k: int| p <= k < s.len() implies row_le(x, #[trigger] s[k], col, asc) by {
                lemma_row_le_total(s[k], x, col, asc);
            }
            assert forall|k: int| 0 <= k < p implies row_le(#[trigger] s[k], x, col, asc) by {
                if k < p - 1 {
                    lemma_row_le_trans(s[k], s[p - 1], x, col, asc);
                }
            }
            let t = s.insert(p as int, x);
            assert forall|i: int, j: int| 0 <= i < j < t.len() implies row_le(
                #[trigger] t[i],
                #[trigger] t[j],
                col,
                asc,
            ) by {
                if j < p {
                    assert(t[i] == s[i] && t[j] == s[j]);
                } else if j == p {
                    assert(t[i] == s[i]);
                } else if i == p {
                    assert(t[j] == s[j - 1]);
                } else if i < p {
                    assert(t[i] == s[i] && t[j] == s[j - 1]);
                } else {
                    assert(t[i] == s[i - 1] && t[j] == s[j - 1]);
                }
            }
            vstd::seq_lib::to_multiset_remove(before_in, 0);
            vstd::seq_lib::to_multiset_insert(s, p as int, x);
            assert(before_in.to_multiset().count(x) > 0) by {
                vstd::seq_lib::to_multiset_contains(before_in, x);
                assert(before_in[0] == x);
            }
            assert(t.to_multiset().add(input@.to_multiset()) =~= orig.to_multiset());
            lemma_insert_keeps_classes(s, p as int, x, before_in, input@, col, asc);
            assert forall|z: Model| #[trigger] class_of(t, z, col, asc) + class_of(input@, z, col, asc) == class_of(
                orig,
                z,
                col,
                asc,
            ) by {
                assert(class_of(t, z, col, asc) + class_of(input@, z, col, asc) == class_of(s, z, col, asc)
                    + class_of(before_in, z, col, asc));
                assert(class_of(s, z, col, asc) + class_of(before_in, z, col, asc) == class_of(orig, z, col, asc));
            }
        }
        out.insert(p, x);
    }
    proof {
        vstd::seq_lib::to_multiset_len(input@);
        vstd::multiset::lemma_multiset_empty_len(input@.to_multiset());
        assert(out@.to_multiset().add(input@.to_multiset()) =~= out@.to_multiset());
        assert forall|z: Model| #[trigger] class_of(out@, z, col, asc) == class_of(orig, z, col, asc) by {
            assert(input@ =~= Seq::<Model>::empty());
            lemma_filter_none(input@, key_class(z, col, asc));
            assert(class_of(out@, z, col, asc) + class_of(input@, z, col, asc) =~= class_of(out@, z, col, asc));
        }
    }
    out
}

/// Inserting `e` (taken from the front of `inp`) after every row that may
/// stand before it and before every row that may not keeps, for each key,
/// the rows of that key in their order.
proof fn lemma_insert_keeps_classes(
    s: Seq<Model>,
    p: int,
    e: Model,
    inp: Seq<Model>,
    rest: Seq<Model>,
    col: usize,
    asc: bool,
)
    requires
        0 <= p <= s.len(),
        inp.len() > 0,
        inp[0] == e,
        rest == inp.subrange(1, inp.len() as int),
        forall|k: int| p <= k < s.len() ==> !row_le(#[trigger] s[k], e, col, asc),
    ensures
        forall|z: Model| #[trigger] class_of(s.insert(p, e), z, col, asc) + class_of(rest, z, col, asc)
            == class_of(s, z, col, asc) + class_of(inp, z, col, asc),
{
    assert forall|z: Model| #[trigger] class_of(s.insert(p, e), z, col, asc) + class_of(rest, z, col, asc)
        == class_of(s, z, col, asc) + class_of(inp, z, col, asc) by {
        let pr = key_class(z, col, asc);
        let lo = s.subrange(0, p);
        let hi = s.subrange(p, s.len() as int);
        assert(s.insert(p, e) =~= (lo + seq![e]) + hi);
        assert(s =~= lo + hi);
        assert(inp =~= seq![e] + rest);
        Seq::filter_distributes_over_add(lo + seq![e], hi, pr);
        Seq::filter_distributes_over_add(lo, seq![e], pr);
        Seq::filter_distributes_over_add(lo, hi, pr);
        Seq::filter_distributes_over_add(seq![e], rest, pr);
        lemma_filter_single(e, pr);
        if pr(e) {
            assert forall|i: int| 0 <= i < hi.len() implies !pr(#[trigger] hi[i]) by {
                assert(hi[i] == s[p + i]);
                if pr(hi[i]) {
                    lemma_row_le_trans(hi[i], z, e, col, asc);
                }
            }
            lemma_filter_none(hi, pr);
            assert(lo.filter(pr) + seq![e] + Seq::<Model>::empty() + rest.filter(pr) =~= lo.filter(pr)
                + Seq::<Model>::empty() + (seq![e] + rest.filter(pr)));
        } else {
            assert(lo.filter(pr) + Seq::<Model>::empty() + hi.filter(pr) + rest.filter(pr) =~= lo.filter(pr)
                + hi.filter(pr) + (Seq::<Model>::empty() + rest.filter(pr)));
        }
    }
}

// ---------------------------------------------------------------------------
// Results of background jobs

fn reversed<T>(v: Vec<T>) -> (r: Vec<T>)
    ensures
        r@ == v@.reverse(),
{
    let ghost orig = v@;
    let mut v = v;
    let mut out: Vec<T> = Vec::new();
    while v.len() > 0
        invariant
            out@.len() + v@.len() == orig.len(),
            v@ == orig.subrange(0, v@.len() as int),
            forall|i: int| 0 <= i < out@.len() ==> #[trigger] out@[i] == orig[orig.len() - 1 - i],
        decreases v.len(),
    {
        let ghost before = v@;
        let x = v.pop().unwrap();
        proof {
            assert(x == before[before.len() - 1]);
            assert(v@ =~= orig.subrange(0, v@.len() as int));
        }
        out.push(x);
    }
    proof {
        assert(out@ =~= orig.reverse());
    }
    out
}

/// What a finished job changes: counters are set; a loaded table replaces
/// the old one (the lists newest first, the models sorted stably by id) with its
/// first row selected; a failed load shows its error and leaves the screen
/// (models: back to the OpenRouter form; lists and accounts: to the menu); an
/// action shows its message or its error.
pub open spec fn bg_effect(o: Console, m: BgMsg, n: Console) -> bool {
    match m {
        BgMsg::InviteCount(k) => n == Console { counts: Counts { invites: k, ..o.counts }, ..o },
        BgMsg::WhitelistCount(k) => n == Console { counts: Counts { whitelist: k, ..o.counts }, ..o },
        BgMsg::UsersCount(k) => n == Console { counts: Counts { users: k, ..o.counts }, ..o },
        BgMsg::StatsLoaded((sent, recv)) => n == Console {
            counts: Counts { msgs_sent: sent, msgs_recv: recv, ..o.counts },
            ..o
        },
        BgMsg::ModelsLoaded(Ok(ms)) => {
            &&& n == Console {
                models: ModelsView {
                    loading: false,
                    rows: n.models.rows,
                    selected: Some(0),
                    sort_col: 0,
                    sort_asc: true,
                },
                ..o
            }
            &&& sorted_rows(n.models.rows@, 0, true)
            &&& n.models.rows@.to_multiset() == ms@.to_multiset()
            &&& forall|x: Model| #[trigger] class_of(n.models.rows@, x, 0, true) == class_of(ms@, x, 0, true)
        },
        BgMsg::ModelsLoaded(Err(e)) => n == Console {
            screen: Screen::OpenRouterConfig,
            models: ModelsView { loading: false, ..o.models },
            notice: Notice { err: e, ..o.notice },
            ..o
        },
        BgMsg::WaitlistLoaded(Ok(recs)) => {
            &&& n == Console {
                invites: InvitesView {
                    loading: false,
                    waitlist: n.invites.waitlist,
                    waitlist_selected: Some(0),
                    ..o.invites
                },
                counts: Counts { invites: recs@.len() as usize, ..o.counts },
                ..o
            }
            &&& n.invites.waitlist@ == recs@.reverse()
        },
        BgMsg::WhitelistLoaded(Ok(recs)) => {
            &&& n == Console {
                invites: InvitesView {
                    loading: false,
                    whitelist: n.invites.whitelist,
                    whitelist_selected: Some(0),
                    ..o.invites
                },
                counts: Counts { whitelist: recs@.len() as usize, ..o.counts },
                ..o
            }
            &&& n.invites.whitelist@ == recs@.reverse()
        },
        BgMsg::WaitlistLoaded(Err(e)) | BgMsg::WhitelistLoaded(Err(e)) => n == Console {
            screen: Screen::Menu,
            invites: InvitesView { loading: false, ..o.invites },
            notice: Notice { err: e, ..o.notice },
            ..o
        },
        BgMsg::WaitlistActionDone(res) => {
            &&& n == Console {
                invites: InvitesView { loading: false, ..o.invites },
                notice: n.notice,
                ..o
            }
            &&& reported(n.notice, res)
        },
        BgMsg::UsersLoaded(Ok(recs)) => n == Console {
            users: UsersView { loading: false, rows: recs, selected: Some(0) },
            counts: Counts { users: recs@.len() as usize, ..o.counts },
            ..o
        },
        BgMsg::UsersLoaded(Err(e)) => n == Console {
            screen: Screen::Menu,
            users: UsersView { loading: false, ..o.users },
            notice: Notice { err: e, ..o.notice },
            ..o
        },
        BgMsg::UsersActionDone(res) => {
            &&& n == Console { users: UsersView { loading: false, ..o.users }, notice: n.notice, ..o }
            &&& reported(n.notice, res)
        },
        BgMsg::AgentModelsLoaded(Ok(list)) => {
            &&& n == Console {
                agents: AgentsView {
                    loading_models: false,
                    models: list,
                    picker: true,
                    picker_idx: 0,
                    ..o.agents
                },
                notice: Notice { err: n.notice.err, ..o.notice },
                ..o
            }
            &&& n.notice.err@.len() == 0
        },
        BgMsg::AgentModelsLoaded(Err(e)) => {
            &&& n == Console {
                agents: AgentsView { loading_models: false, picker: false, ..o.agents },
                notice: Notice { info: n.notice.info, err: e },
                ..o
            }
            &&& n.notice.info@.len() == 0
        },
    }
}

/// The status line after an action: its message and no error, or its error
/// and no message.
pub open spec fn reported(n: Notice, res: Result<String, String>) -> bool {
    match res {
        Ok(info) => n.info == info && n.err@.len() == 0,
        Err(e) => n.err == e && n.info@.len() == 0,
    }
}

impl Console {
    pub(crate) fn report(&mut self, res: Result<String, String>)
        ensures
            reported(final(self).notice, res),
            *final(self) == (Console { notice: final(self).notice, ..*old(self) }),
    {
        match res {
            Ok(info) => {
                self.notice.info = info;
                self.notice.err = String::new();
            },
            Err(e) => {
                self.notice.err = e;
                self.notice.info = String::new();
            },
        }
    }

    /// Takes in what a background job reports (see [`bg_effect`]).
    pub fn on_result(&mut self, msg: BgMsg)
        requires
            old(self).wf(),
        ensures
            final(self).wf(),
            bg_effect(*old(self), msg, *final(self)),
    {
        match msg {
            BgMsg::InviteCount(k) => {
                self.counts.invites = k;
            },
            BgMsg::WhitelistCount(k) => {
                self.counts.whitelist = k;
            },
            BgMsg::UsersCount(k) => {
                self.counts.users = k;
            },
            BgMsg::StatsLoaded((sent, recv)) => {
                self.counts.msgs_sent = sent;
                self.counts.msgs_recv = recv;
            },
            BgMsg::ModelsLoaded(res) => {
                self.models.loading = false;
                match res {
                    Ok(ms) => {
                        self.models.rows = sort_rows(ms, 0, true);
                        self.models.selected = Some(0);
                        self.models.sort_col = 0;
                        self.models.sort_asc = true;
                    },
                    Err(e) => {
                        self.notice.err = e;
                        self.screen = Screen::OpenRouterConfig;
                    },
                }
            },
            BgMsg::WaitlistLoaded(res) => {
                self.invites.loading = false;
                match res {
                    Ok(recs) => {
                        let r = reversed(recs);
                        self.counts.invites = r.len();
                        self.invites.waitlist = r;
                        self.invites.waitlist_selected = Some(0);
                    },
                    Err(e) => {
                        self.notice.err = e;
                        self.screen = Screen::Menu;
                    },
                }
            },
            BgMsg::WhitelistLoaded(res) => {
                self.invites.loading = false;
                match res {
                    Ok(recs) => {
                        let r = reversed(recs);
                        self.counts.whitelist = r.len();
                        self.invites.whitelist = r;
                        self.invites.whitelist_selected = Some(0);
                    },
                    Err(e) => {
                        self.notice.err = e;
                        self.screen = Screen::Menu;
                    },
                }
            },
            BgMsg::WaitlistActionDone(res) => {
                self.invites.loading = false;
                self.report(res);
            },
            BgMsg::UsersLoaded(res) => {
                self.users.loading = false;
                match res {
                    Ok(recs) => {
                        self.counts.users = recs.len();
                        self.users.rows = recs;
                        self.users.selected = Some(0);
                    },
                    Err(e) => {
                        self.notice.err = e;
                        self.screen = Screen::Menu;
                    },
                }
            },
            BgMsg::UsersActionDone(res) => {
                self.users.loading = false;
                self.report(res);
            },
            BgMsg::AgentModelsLoaded(res) => {
                self.agents.loading_models = false;
                match res {
                    Ok(list) => {
                        self.agents.models = list;
                        self.agents.picker = true;
                        self.agents.picker_idx = 0;
                        self.notice.err = String::new();
                    },
                    Err(e) => {
                        self.notice.err = e;
                        self.notice.info = String::new();
                        self.agents.picker = false;
                    },
                }
            },
        }
    }
}

// ---------------------------------------------------------------------------
// Settings from the forms

/// A task binding as saved: kept when an agent has the name, else the first
/// agent's name (when there is one).
pub open spec fn binding(rows: Seq<Agent>, name: Seq<char>) -> Seq<char> {
    if rows.len() > 0 && !has_named(rows, name) {
        rows[0].name@
    } else {
        name
    }
}

/// The settings the console saves: the defaults, with the system prompt, the
/// mail form, the public base URL (all trimmed), the agents, and the chat and
/// summary bindings (see [`binding`]).
pub open spec fn collected(c: Console, s: Settings) -> bool {
    collected_with(c, s, trim(join_lines(c.prompt.rows())))
}

/// [`collected`], with `prompt` as the system prompt.
pub open spec fn collected_with(c: Console, s: Settings, prompt: Seq<char>) -> bool {
    &&& s.chat.system_prompt@ == prompt
    &&& s.mailjet.api_key@ == trim(c.mail.api_key@)
    &&& s.mailjet.api_secret@ == trim(c.mail.api_secret@)
    &&& s.mailjet.from_email@ == trim(c.mail.from_email@)
    &&& s.mailjet.from_name@ == trim(c.mail.from_name@)
    &&& s.mailjet.base_url@ == trim(c.mail.base_url@)
    &&& s.public_base@ == trim(c.mail.public_base@)
    &&& s.agents@ == c.agents.rows@
    &&& s.tasks.chat_agent@ == binding(c.agents.rows@, c.agents.task_chat@)
    &&& s.tasks.summary_agent@ == binding(c.agents.rows@, c.agents.task_summary@)
    &&& s.tasks.memory_agent@ == "default"@
    &&& s.tasks.memory_curator_agent@ == "default"@
    &&& s.tasks.memory_embed_agent@ == "default"@
}

fn clone_agents(v: &Vec<Agent>) -> (r: Vec<Agent>)
    ensures
        r@ == v@,
{
    let mut out: Vec<Agent> = Vec::new();
    let mut i: usize = 0;
    while i < v.len()
        invariant
            i <= v@.len(),
            out@ == v@.subrange(0, i as int),
        decreases v@.len() - i,
    {
        out.push(v[i].clone());
        i = i + 1;
        proof {
            assert(out@ =~= v@.subrange(0, i as int));
        }
    }
    proof {
        assert(v@.subrange(0, v@.len() as int) =~= v@);
    }
    out
}

fn bound_name(rows: &Vec<Agent>, name: &String) -> (r: String)
    ensures
        r@ == binding(rows@, name@),
{
    if rows.len() > 0 {
        let v = str_chars(name.as_str());
        if find_agent(rows, v.as_slice()).is_none() {
            return rows[0].name.clone();
        }
    }
    name.clone()
}

impl Console {
    /// The settings to save (see [`collected`]).
    pub fn collect_settings(&self) -> (s: Settings)
        ensures
            collected(*self, s),
    {
        let mut s = default_settings();
        let text = self.prompt.text();
        s.chat.system_prompt = trim_str(text.as_str());
        s.mailjet.api_key = trim_str(self.mail.api_key.as_str());
        s.mailjet.api_secret = trim_str(self.mail.api_secret.as_str());
        s.mailjet.from_email = trim_str(self.mail.from_email.as_str());
        s.mailjet.from_name = trim_str(self.mail.from_name.as_str());
        s.mailjet.base_url = trim_str(self.mail.base_url.as_str());
        s.public_base = trim_str(self.mail.public_base.as_str());
        s.agents = clone_agents(&self.agents.rows);
        s.tasks.chat_agent = bound_name(&self.agents.rows, &self.agents.task_chat);
        s.tasks.summary_agent = bound_name(&self.agents.rows, &self.agents.task_summary);
        s
    }
}

// ---------------------------------------------------------------------------
// The OpenRouter form and the agents

/// An OpenRouter agent named `name`.
pub open spec fn or_named(a: Agent, name: Seq<char>) -> bool {
    a.name@ == name && a.provider == Provider::OpenRouter
}

pub open spec fn any_or_named(rows: Seq<Agent>, name: Seq<char>) -> bool {
    exists|i: int| 0 <= i < rows.len() && #[trigger] or_named(rows[i], name)
}

pub open spec fn first_or_named(rows: Seq<Agent>, name: Seq<char>, i: int) -> bool {
    &&& 0 <= i < rows.len()
    &&& or_named(rows[i], name)
    &&& forall|j: int| 0 <= j < i ==> !#[trigger] or_named(rows[j], name)
}

pub open spec fn is_or(a: Agent) -> bool {
    a.provider == Provider::OpenRouter
}

pub open spec fn any_or(rows: Seq<Agent>) -> bool {
    exists|i: int| 0 <= i < rows.len() && #[trigger] is_or(rows[i])
}

pub open spec fn first_or(rows: Seq<Agent>, i: int) -> bool {
    &&& 0 <= i < rows.len()
    &&& is_or(rows[i])
    &&& forall|j: int| 0 <= j < i ==> !#[trigger] is_or(rows[j])
}

/// The agent the OpenRouter form edits: the chat agent when it is an
/// OpenRouter agent, else the OpenRouter agent named `default`, else the
/// first OpenRouter agent; none when there is no OpenRouter agent.
pub open spec fn form_target_ok(rows: Seq<Agent>, chat: Seq<char>, r: Option<usize>) -> bool {
    match r {
        Some(i) => if any_or_named(rows, chat) {
            first_or_named(rows, chat, i as int)
        } else if any_or_named(rows, "default"@) {
            first_or_named(rows, "default"@, i as int)
        } else {
            first_or(rows, i as int)
        },
        None => !any_or(rows),
    }
}

/// `a` is the OpenRouter agent `name` with the form's values, trimmed.
pub open spec fn from_form(f: ProviderForm, name: Seq<char>, a: Agent) -> bool {
    &&& a.name@ == name
    &&& a.provider == Provider::OpenRouter
    &&& a.api_key@ == trim(f.api_key@)
    &&& a.model@ == trim(f.model@)
    &&& a.base_url@ == trim(f.base_url@)
    &&& a.http_referer@ == trim(f.http_referer@)
    &&& a.x_title@ == trim(f.x_title@)
}

/// The name of an OpenRouter agent added by the form: `openrouter`, or with
/// a number when that name is taken.
pub open spec fn fresh_or_name(rows: Seq<Agent>) -> Seq<char> {
    if has_named(rows, "openrouter"@) {
        "openrouter"@ + decimal((rows.len() + 1) as nat)
    } else {
        "openrouter"@
    }
}

/// The agents after the OpenRouter form is applied: its target takes the
/// form's values, or a new OpenRouter agent is added with them.
pub open spec fn form_applied(rows: Seq<Agent>, chat: Seq<char>, f: ProviderForm, out: Seq<Agent>) -> bool {
    if any_or(rows) {
        exists|i: usize|
            #![trigger rows[i as int]]
            form_target_ok(rows, chat, Some(i)) && out.len() == rows.len() && from_form(
                f,
                rows[i as int].name@,
                out[i as int],
            ) && forall|j: int| 0 <= j < rows.len() && j != i ==> out[j] == rows[j]
    } else {
        &&& out.len() == rows.len() + 1
        &&& out.subrange(0, rows.len() as int) == rows
        &&& from_form(f, fresh_or_name(rows), out[rows.len() as int])
    }
}

fn find_or_named(rows: &Vec<Agent>, name: &str) -> (r: Option<usize>)
    ensures
        match r {
            Some(i) => first_or_named(rows@, name@, i as int),
            None => !any_or_named(rows@, name@),
        },
{
    let mut i: usize = 0;
    while i < rows.len()
        invariant
            i <= rows@.len(),
            forall|j: int| 0 <= j < i ==> !#[trigger] or_named(rows@[j], name@),
        decreases rows@.len() - i,
    {
        if rows[i].provider == Provider::OpenRouter && crate::text::str_eq(rows[i].name.as_str(), name) {
            return Some(i);
        }
        i = i + 1;
    }
    None
}

fn find_or(rows: &Vec<Agent>) -> (r: Option<usize>)
    ensures
        match r {
            Some(i) => first_or(rows@, i as int),
            None => !any_or(rows@),
        },
{
    let mut i: usize = 0;
    while i < rows.len()
        invariant
            i <= rows@.len(),
            forall|j: int| 0 <= j < i ==> !#[trigger] is_or(rows@[j]),
        decreases rows@.len() - i,
    {
        if rows[i].provider == Provider::OpenRouter {
            return Some(i);
        }
        i = i + 1;
    }
    None
}

fn form_target(rows: &Vec<Agent>, chat: &str) -> (r: Option<usize>)
    ensures
        form_target_ok(rows@, chat@, r),
{
    match find_or_named(rows, chat) {
        Some(i) => Some(i),
        None => match find_or_named(rows, "default") {
            Some(i) => {
                proof {
                    reveal_strlit("default");
                }
                Some(i)
            },
            None => {
                proof {
                    reveal_strlit("default");
                }
                let r = find_or(rows);
                proof {
                    if r is None && any_or_named(rows@, chat@) {
                        let k = choose|k: int| 0 <= k < rows@.len() && #[trigger] or_named(rows@[k], chat@);
                        assert(is_or(rows@[k]));
                    }
                }
                r
            },
        },
    }
}

fn agent_from_form(f: &ProviderForm, name: String) -> (a: Agent)
    ensures
        from_form(*f, name@, a),
{
    Agent {
        name,
        provider: Provider::OpenRouter,
        model: trim_str(f.model.as_str()),
        base_url: trim_str(f.base_url.as_str()),
        api_key: trim_str(f.api_key.as_str()),
        http_referer: trim_str(f.http_referer.as_str()),
        x_title: trim_str(f.x_title.as_str()),
    }
}

/// `prefix` followed by the decimal `n + 1`.
fn numbered(prefix: &str, n: usize) -> (r: String)
    requires
        n < usize::MAX,
    ensures
        r@ == prefix@ + decimal((n + 1) as nat),
{
    let mut v = str_chars(prefix);
    let d = crate::text::u64_decimal(n as u64 + 1);
    crate::text::push_all(&mut v, d.as_slice());
    string_from_chars(v.as_slice())
}

impl Console {
    /// Writes the OpenRouter form into its agent (see [`form_applied`]).
    pub fn apply_form_to_agent(&mut self)
        requires
            old(self).agents.rows@.len() < usize::MAX,
        ensures
            form_applied(old(self).agents.rows@, old(self).agents.task_chat@, old(self).form, final(self).agents.rows@),
            *final(self) == (Console {
                agents: AgentsView { rows: final(self).agents.rows, ..old(self).agents },
                ..*old(self)
            }),
    {
        let ghost rows0 = self.agents.rows@;
        match form_target(&self.agents.rows, self.agents.task_chat.as_str()) {
            Some(i) => {
                let name = self.agents.rows[i].name.clone();
                let a = agent_from_form(&self.form, name);
                self.agents.rows.set(i, a);
                proof {
                    assert(any_or(rows0)) by {
                        assert(is_or(rows0[i as int]));
                    }
                    assert(form_target_ok(rows0, self.agents.task_chat@, Some(i)));
                }
            },
            None => {
                let taken = {
                    let v = str_chars("openrouter");
                    find_agent(&self.agents.rows, v.as_slice()).is_some()
                };
                proof {
                    reveal_strlit("openrouter");
                }
                let name = if taken {
                    numbered("openrouter", self.agents.rows.len())
                } else {
                    String::from_str("openrouter")
                };
                let a = agent_from_form(&self.form, name);
                self.agents.rows.push(a);
                proof {
                    assert(self.agents.rows@.subrange(0, rows0.len() as int) =~= rows0);
                }
            },
        }
    }

    /// The agent the agents screen adds: `agent` numbered after the existing
    /// ones, an OpenRouter agent with the form's values as they are.
    pub fn default_agent(&self) -> (a: Agent)
        requires
            self.agents.rows@.len() < usize::MAX,
        ensures
            new_agent_of(*self, a),
    {
        Agent {
            name: numbered("agent", self.agents.rows.len()),
            provider: Provider::OpenRouter,
            model: self.form.model.clone(),
            base_url: self.form.base_url.clone(),
            api_key: self.form.api_key.clone(),
            http_referer: self.form.http_referer.clone(),
            x_title: self.form.x_title.clone(),
        }
    }
}

/// The agent the agents screen adds (see [`Console::default_agent`]).
pub open spec fn new_agent_of(c: Console, a: Agent) -> bool {
    &&& a.name@ == "agent"@ + decimal((c.agents.rows@.len() + 1) as nat)
    &&& a.provider == Provider::OpenRouter
    &&& a.model == c.form.model
    &&& a.base_url == c.form.base_url
    &&& a.api_key == c.form.api_key
    &&& a.http_referer == c.form.http_referer
    &&& a.x_title == c.form.x_title
}


// ---------------------------------------------------------------------------
// Starting the console

/// The hint the prompt editor shows while it is empty.
pub const PROMPT_HINT: &'static str = "System prompt (server-side). If empty, Saelora uses its default.";

/// The OpenRouter form shows agent `a`: a blank base URL as OpenRouter's, a
/// blank title as `Saelora`.
pub open spec fn shows(a: Agent, f: ProviderForm) -> bool {
    &&& f.api_key == a.api_key
    &&& f.model == a.model
    &&& f.base_url@ == (if trim(a.base_url@).len() == 0 {
        DEFAULT_BASE_URL@
    } else {
        a.base_url@
    })
    &&& f.http_referer == a.http_referer
    &&& f.x_title@ == (if trim(a.x_title@).len() == 0 {
        "Saelora"@
    } else {
        a.x_title@
    })
}

/// The OpenRouter form at start: the agent it writes to (see
/// [`form_target_ok`]), or blank with OpenRouter's URL and the title
/// `Saelora` when there is no OpenRouter agent.
pub open spec fn form_at_start(rows: Seq<Agent>, chat: Seq<char>, f: ProviderForm) -> bool {
    if any_or(rows) {
        exists|i: usize| #[trigger] form_target_ok(rows, chat, Some(i)) && shows(rows[i as int], f)
    } else {
        &&& f.api_key@.len() == 0
        &&& f.model@.len() == 0
        &&& f.base_url@ == DEFAULT_BASE_URL@
        &&& f.http_referer@.len() == 0
        &&& f.x_title@ == "Saelora"@
    }
}

/// The console as it starts from saved settings `s`: on the menu, with the
/// saved agents (the default agent when none is saved), the task bindings
/// kept valid (see [`binding`]), the saved prompt (the default one when it is
/// blank), the mail form from the settings, and every table empty.
pub open spec fn started(s: Settings, c: Console) -> bool {
    let rows = c.agents.rows@;
    &&& (if s.agents@.len() == 0 {
        rows.len() == 1 && is_default_agent(rows[0])
    } else {
        rows == s.agents@
    })
    &&& c.agents.task_chat@ == binding(rows, s.tasks.chat_agent@)
    &&& c.agents.task_summary@ == binding(rows, s.tasks.summary_agent@)
    &&& c.prompt.rows() == split_lines(
        if trim(s.chat.system_prompt@).len() == 0 {
            trim(DEFAULT_SYSTEM_PROMPT@)
        } else {
            s.chat.system_prompt@
        },
    )
    &&& c.prompt.row() == 0 && c.prompt.col() == 0 && c.prompt.goal_x() is None
    &&& c.prompt.top() == 0 && c.prompt.wrap_width() == 80 && c.prompt.hint() == PROMPT_HINT@
    &&& form_at_start(rows, c.agents.task_chat@, c.form)
    &&& c.mail.api_key == s.mailjet.api_key && c.mail.api_secret == s.mailjet.api_secret
    &&& c.mail.from_email == s.mailjet.from_email && c.mail.from_name == s.mailjet.from_name
    &&& c.mail.base_url == s.mailjet.base_url && c.mail.public_base == s.public_base
    &&& c.screen == Screen::Menu && c.menu_idx == 0 && c.focus == 0
    &&& c.counts == (Counts { invites: 0, whitelist: 0, users: 0, msgs_sent: 0, msgs_recv: 0 })
    &&& cleared(c.notice)
    &&& !c.models.loading && c.models.rows@.len() == 0 && c.models.selected is None
    &&& c.models.sort_col == 0 && c.models.sort_asc
    &&& !c.invites.loading && c.invites.waitlist@.len() == 0 && c.invites.waitlist_selected is None
    &&& c.invites.whitelist@.len() == 0 && c.invites.whitelist_selected is None
    &&& !c.users.loading && c.users.rows@.len() == 0 && c.users.selected is None
    &&& c.agents.selected == Some(0usize) && c.agents.focus == 0
    &&& !c.agents.modal && c.agents.modal_idx is None
    &&& c.agents.models@.len() == 0 && !c.agents.picker && c.agents.picker_idx == 0
    &&& !c.agents.loading_models
}

fn shown(a: &Agent) -> (f: ProviderForm)
    ensures
        shows(*a, f),
{
    let base_url = if is_trim_empty(a.base_url.as_str()) {
        String::from_str(DEFAULT_BASE_URL)
    } else {
        a.base_url.clone()
    };
    let x_title = if is_trim_empty(a.x_title.as_str()) {
        proof {
            reveal_strlit("Saelora");
        }
        String::from_str("Saelora")
    } else {
        a.x_title.clone()
    };
    ProviderForm {
        api_key: a.api_key.clone(),
        model: a.model.clone(),
        base_url,
        http_referer: a.http_referer.clone(),
        x_title,
    }
}

impl Console {
    /// The console for saved settings (see [`started`]).
    pub fn new(settings: Settings) -> (c: Console)
        ensures
            c.wf(),
            started(settings, c),
    {
        let ghost s0 = settings;
        let Settings { chat, mailjet, public_base, agents, tasks } = settings;
        let mut agents = agents;
        if agents.len() == 0 {
            agents.push(default_agent());
        }
        let task_chat = bound_name(&agents, &tasks.chat_agent);
        let task_summary = bound_name(&agents, &tasks.summary_agent);
        let text = if is_trim_empty(chat.system_prompt.as_str()) {
            trim_str(DEFAULT_SYSTEM_PROMPT)
        } else {
            chat.system_prompt
        };
        let prompt = PromptEditor::from_text(text.as_str(), PROMPT_HINT);
        let form = match form_target(&agents, task_chat.as_str()) {
            Some(i) => shown(&agents[i]),
            None => {
                proof {
                    reveal_strlit("Saelora");
                }
                ProviderForm {
                    api_key: String::new(),
                    model: String::new(),
                    base_url: String::from_str(DEFAULT_BASE_URL),
                    http_referer: String::new(),
                    x_title: String::from_str("Saelora"),
                }
            },
        };
        Console {
            screen: Screen::Menu,
            menu_idx: 0,
            focus: 0,
            counts: Counts { invites: 0, whitelist: 0, users: 0, msgs_sent: 0, msgs_recv: 0 },
            notice: Notice { info: String::new(), err: String::new() },
            form,
            mail: MailForm {
                api_key: mailjet.api_key,
                api_secret: mailjet.api_secret,
                from_email: mailjet.from_email,
                from_name: mailjet.from_name,
                base_url: mailjet.base_url,
                public_base,
            },
            prompt,
            models: ModelsView { loading: false, rows: Vec::new(), selected: None, sort_col: 0, sort_asc: true },
            invites: InvitesView {
                loading: false,
                waitlist: Vec::new(),
                waitlist_selected: None,
                whitelist: Vec::new(),
                whitelist_selected: None,
            },
            users: UsersView { loading: false, rows: Vec::new(), selected: None },
            agents: AgentsView {
                rows: agents,
                selected: Some(0),
                focus: 0,
                task_chat,
                task_summary,
                modal: false,
                modal_idx: None,
                models: Vec::new(),
                picker: false,
                picker_idx: 0,
                loading_models: false,
            },
        }
    }
}


// ---------------------------------------------------------------------------
// The model list of an agent

/// Names in ascending order.
pub open spec fn names_sorted(s: Seq<String>) -> bool {
    forall|i: int, j: int| 0 <= i < j < s.len() ==> lex_order(#[trigger] s[i]@, #[trigger] s[j]@) <= 0
}

/// The model names an Ollama backend offered, for the picker: sorted, or
/// an error when there are none.
pub fn models_found(names: Vec<String>) -> (r: Result<Vec<String>, String>)
    ensures
        match r {
            Ok(v) => names@.len() > 0 && names_sorted(v@) && v@.to_multiset() == names@.to_multiset(),
            Err(e) => names@.len() == 0 && e@ == "no models found"@,
        },
{
    broadcast use vstd::multiset::group_multiset_axioms;
    if names.len() == 0 {
        proof {
            reveal_strlit("no models found");
        }
        return Err(String::from_str("no models found"));
    }
    let ghost orig = names@;
    let mut input = names;
    let mut out: Vec<String> = Vec::new();
    proof {
        vstd::seq_lib::to_multiset_len(out@);
        vstd::multiset::lemma_multiset_empty_len(out@.to_multiset());
        assert(out@.to_multiset().add(input@.to_multiset()) =~= orig.to_multiset());
    }
    while input.len() > 0
        invariant
            names_sorted(out@),
            out@.to_multiset().add(input@.to_multiset()) == orig.to_multiset(),
        decreases input.len(),
    {
        let ghost before_in = input@;
        let x = input.remove(0);
        let mut p: usize = out.len();
        while p > 0 && !lex_le(out[p - 1].as_str(), x.as_str())
            invariant
                p <= out@.len(),
                forall|k: int| p <= k < out@.len() ==> lex_order(#[trigger] out@[k]@, x@) > 0,
            decreases p,
        {
            p = p - 1;
        }
        proof {
            let s = out@;
            assert forall|k: int| p <= k < s.len() implies lex_order(x@, #[trigger] s[k]@) <= 0 by {
                lemma_lex_swap(s[k]@, x@);
            }
            assert forall|k: int| 0 <= k < p implies lex_order(#[trigger] s[k]@, x@) <= 0 by {
                if k < p - 1 {
                    lemma_lex_trans(s[k]@, s[p - 1]@, x@);
                }
            }
            let t = s.insert(p as int, x);
            assert forall|i: int, j: int| 0 <= i < j < t.len() implies lex_order(
                #[trigger] t[i]@,
                #[trigger] t[j]@,
            ) <= 0 by {
                if j < p {
                    assert(t[i] == s[i] && t[j] == s[j]);
                } else if j == p {
                    assert(t[i] == s[i]);
                } else if i == p {
                    assert(t[j] == s[j - 1]);
                } else if i < p {
                    assert(t[i] == s[i] && t[j] == s[j - 1]);
                } else {
                    assert(t[i] == s[i - 1] && t[j] == s[j - 1]);
                }
            }
            vstd::seq_lib::to_multiset_remove(before_in, 0);
            vstd::seq_lib::to_multiset_insert(s, p as int, x);
            assert(before_in.to_multiset().count(x) > 0) by {
                vstd::seq_lib::to_multiset_contains(before_in, x);
                assert(before_in[0] == x);
            }
            assert(t.to_multiset().add(input@.to_multiset()) =~= orig.to_multiset());
        }
        out.insert(p, x);
    }
    proof {
        vstd::seq_lib::to_multiset_len(input@);
        vstd::multiset::lemma_multiset_empty_len(input@.to_multiset());
        assert(out@.to_multiset().add(input@.to_multiset()) =~= out@.to_multiset());
    }
    Ok(out)
}


/// A finished job never touches what the administrator is editing: the
/// forms, the prompt, the agents and their bindings, the menu entry and the
/// focus stay as they were.
pub proof fn law_results_keep_edits(o: Console, m: BgMsg, n: Console)
    requires
        bg_effect(o, m, n),
    ensures
        n.form == o.form,
        n.mail == o.mail,
        n.prompt == o.prompt,
        n.agents.rows == o.agents.rows,
        n.agents.task_chat == o.agents.task_chat,
        n.agents.task_summary == o.agents.task_summary,
        n.menu_idx == o.menu_idx,
        n.focus == o.focus,
        n.agents.focus == o.agents.focus,
{
}

} // verus!
