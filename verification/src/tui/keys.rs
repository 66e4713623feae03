//! What each key does in the administration console, screen by screen, and
//! which job it hands to the program (saving the settings, reading or
//! changing the lists, listing models).
use crate::config::{Agent, Provider, Settings, DEFAULT_SYSTEM_PROMPT};
use crate::openrouter::{Config, DEFAULT_BASE_URL};
use crate::text::{is_trim_empty, push_str_chars, str_chars, string_from_chars, trim, trim_str};
use crate::tui::console::{
    class_of, collected, collected_with, form_applied, new_agent_of, sorted_rows, sort_rows, AgentsView,
    Console, InvitesView, ModelsView, Notice, ProviderForm, MailForm, Screen, UsersView,
};
use crate::tui::EditorKey;
use vstd::prelude::*;

verus! {

/// The key of a key press.
#[derive(Debug, Clone, Copy, PartialEq, Eq, Structural)]
pub enum KeyCode {
    Char(char),
    Enter,
    Esc,
    Tab,
    BackTab,
    Backspace,
    Up,
    Down,
    Left,
    Right,
    Home,
    End,
    /// Any other key.
    Other,
}

/// A key press: the key, and whether Control or Alt was held.
#[derive(Debug, Clone, Copy, PartialEq, Eq, Structural)]
pub struct KeyPress {
    pub code: KeyCode,
    pub ctrl: bool,
    pub alt: bool,
}

/// A job a key hands to the program; its result comes back as a
/// [`crate::tui::console::BgMsg`].
#[derive(Debug)]
pub enum Task {
    /// Leave the console.
    Quit,
    /// Count the waitlist and the accounts (and the whitelist too, when asked).
    RefreshCounts { whitelist: bool },
    /// Read the waitlist.
    LoadWaitlist,
    /// Read the waitlist, the whitelist and the whitelist count.
    ReloadInvites,
    /// Move this address from the waitlist to the whitelist, then read both lists.
    Approve(String),
    /// Take this address off the waitlist, then read it.
    Remove(String),
    /// Read the accounts.
    LoadUsers,
    /// Set an account's status, then read the accounts.
    SetUserStatus { id: String, email: String, status: String },
    /// List the models of OpenRouter with this connection.
    ListModels(Config),
    /// List the models this agent's backend offers.
    ListAgentModels(Agent),
    /// Sort the model table by a price column (2 to 6).
    SortByCost { col: usize, asc: bool },
    /// Write these settings.
    Save(Settings),
}

/// A text field after a key: backspace drops the last character, a
/// character typed without Control or Alt is appended, other keys leave it.
pub open spec fn edited(s: Seq<char>, k: KeyPress) -> Seq<char> {
    match k.code {
        KeyCode::Backspace => if s.len() > 0 {
            s.drop_last()
        } else {
            s
        },
        KeyCode::Char(c) => if !k.ctrl && !k.alt {
            s.push(c)
        } else {
            s
        },
        _ => s,
    }
}

fn edit_text(s: &String, k: KeyPress) -> (r: String)
    ensures
        r@ == edited(s@, k),
{
    let mut v = str_chars(s.as_str());
    match k.code {
        KeyCode::Backspace => {
            if v.len() > 0 {
                v.pop();
            }
        },
        KeyCode::Char(c) => {
            if !k.ctrl && !k.alt {
                v.push(c);
            }
        },
        _ => {},
    }
    proof {
        if k.code is Backspace && s@.len() > 0 {
            assert(v@ =~= s@.drop_last());
        }
    }
    string_from_chars(v.as_slice())
}

/// The key the prompt editor sees: a character typed with Control or Alt
/// is a chord; Escape and the tab keys mean nothing to it.
pub open spec fn editor_key_of(k: KeyPress) -> EditorKey {
    match k.code {
        KeyCode::Char(c) => if k.ctrl || k.alt {
            EditorKey::ChordChar(c)
        } else {
            EditorKey::Char(c)
        },
        KeyCode::Backspace => EditorKey::Backspace,
        KeyCode::Enter => EditorKey::Enter,
        KeyCode::Left => EditorKey::Left,
        KeyCode::Right => EditorKey::Right,
        KeyCode::Up => EditorKey::Up,
        KeyCode::Down => EditorKey::Down,
        KeyCode::Home => EditorKey::Home,
        KeyCode::End => EditorKey::End,
        _ => EditorKey::Other,
    }
}

pub fn editor_key(k: KeyPress) -> (r: EditorKey)
    ensures
        r == editor_key_of(k),
{
    match k.code {
        KeyCode::Char(c) => if k.ctrl || k.alt {
            EditorKey::ChordChar(c)
        } else {
            EditorKey::Char(c)
        },
        KeyCode::Backspace => EditorKey::Backspace,
        KeyCode::Enter => EditorKey::Enter,
        KeyCode::Left => EditorKey::Left,
        KeyCode::Right => EditorKey::Right,
        KeyCode::Up => EditorKey::Up,
        KeyCode::Down => EditorKey::Down,
        KeyCode::Home => EditorKey::Home,
        KeyCode::End => EditorKey::End,
        _ => EditorKey::Other,
    }
}

/// The row selected after one step up or down in a table of `len` rows,
/// from `sel` (the first row when nothing is selected): kept inside the
/// table; nothing in an empty table.
pub open spec fn stepped(len: nat, sel: Option<usize>, down: bool) -> Option<usize> {
    if len == 0 {
        None
    } else {
        let cur: int = match sel {
            Some(s) => s as int,
            None => 0,
        };
        let next: int = if down {
            cur + 1
        } else {
            cur - 1
        };
        Some(
            if next < 0 {
                0usize
            } else if next >= len {
                (len - 1) as usize
            } else {
                next as usize
            },
        )
    }
}

pub fn step_selection(len: usize, sel: Option<usize>, down: bool) -> (r: Option<usize>)
    ensures
        r == stepped(len as nat, sel, down),
{
    if len == 0 {
        return None;
    }
    let cur: usize = match sel {
        Some(s) => s,
        None => 0,
    };
    let next: usize = if down {
        if cur >= len - 1 {
            len - 1
        } else {
            cur + 1
        }
    } else if cur == 0 {
        0
    } else if cur - 1 >= len {
        len - 1
    } else {
        cur - 1
    };
    Some(next)
}

/// The status line cleared.
pub open spec fn cleared(n: Notice) -> bool {
    n.info@.len() == 0 && n.err@.len() == 0
}

/// The status line after saving: `saved`, and no error.
pub open spec fn saved_notice(n: Notice) -> bool {
    n.info@ == "saved"@ && n.err@.len() == 0
}

/// Only the error of the status line changed, to `msg`.
pub open spec fn erred(o: Console, n: Console, msg: Seq<char>) -> bool {
    n == Console { notice: Notice { err: n.notice.err, ..o.notice }, ..o } && n.notice.err@ == msg
}

/// The job is to save settings collected from `c`.
pub open spec fn saves(c: Console, t: Option<Task>) -> bool {
    t matches Some(Task::Save(s)) && collected(c, s)
}

/// Control and the character `ch`.
pub open spec fn chord(k: KeyPress, ch: char) -> bool {
    k.ctrl && k.code == KeyCode::Char(ch)
}

/// Nothing changes and no job is handed out.
pub open spec fn idle(o: Console, n: Console, t: Option<Task>) -> bool {
    n == o && t is None
}

// ---------------------------------------------------------------------------
// The menu

/// The screen the menu entry `i` opens.
pub open spec fn menu_target(i: usize) -> Screen {
    if i == 0 {
        Screen::OpenRouterConfig
    } else if i == 1 {
        Screen::SystemPrompt
    } else if i == 2 {
        Screen::EmailConfig
    } else if i == 3 {
        Screen::Invites
    } else if i == 4 {
        Screen::Users
    } else {
        Screen::Agents
    }
}

/// The menu: up and down move among its six entries; enter opens the
/// selected screen with a clear status line (the mail form at its first
/// field; the lists and the accounts start loading).
pub open spec fn menu_step(o: Console, k: KeyPress, n: Console, t: Option<Task>) -> bool {
    if k.code is Up {
        t is None && n == Console {
            menu_idx: if o.menu_idx > 0 {
                (o.menu_idx - 1) as usize
            } else {
                o.menu_idx
            },
            ..o
        }
    } else if k.code is Down {
        t is None && n == Console {
            menu_idx: if o.menu_idx < 5 {
                (o.menu_idx + 1) as usize
            } else {
                o.menu_idx
            },
            ..o
        }
    } else if k.code is Enter && o.menu_idx <= 5 {
        let i = o.menu_idx;
        &&& cleared(n.notice)
        &&& n == Console {
            screen: menu_target(i),
            notice: n.notice,
            focus: if i == 2 {
                0
            } else {
                o.focus
            },
            invites: InvitesView { loading: i == 3 || o.invites.loading, ..o.invites },
            users: UsersView { loading: i == 4 || o.users.loading, ..o.users },
            ..o
        }
        &&& t == (if i == 3 {
            Some(Task::LoadWaitlist)
        } else if i == 4 {
            Some(Task::LoadUsers)
        } else {
            None
        })
    } else {
        idle(o, n, t)
    }
}

impl Console {
    fn clear_notice(&mut self)
        ensures
            cleared(final(self).notice),
            *final(self) == (Console { notice: final(self).notice, ..*old(self) }),
    {
        self.notice.info = String::new();
        self.notice.err = String::new();
    }

    fn menu_key(&mut self, k: KeyPress) -> (t: Option<Task>)
        ensures
            menu_step(*old(self), k, *final(self), t),
    {
        match k.code {
            KeyCode::Up => {
                if self.menu_idx > 0 {
                    self.menu_idx = self.menu_idx - 1;
                }
                None
            },
            KeyCode::Down => {
                if self.menu_idx < 5 {
                    self.menu_idx = self.menu_idx + 1;
                }
                None
            },
            KeyCode::Enter => {
                let i = self.menu_idx;
                if i > 5 {
                    return None;
                }
                self.clear_notice();
                self.screen = if i == 0 {
                    Screen::OpenRouterConfig
                } else if i == 1 {
                    Screen::SystemPrompt
                } else if i == 2 {
                    Screen::EmailConfig
                } else if i == 3 {
                    Screen::Invites
                } else if i == 4 {
                    Screen::Users
                } else {
                    Screen::Agents
                };
                if i == 2 {
                    self.focus = 0;
                }
                if i == 3 {
                    self.invites.loading = true;
                    Some(Task::LoadWaitlist)
                } else if i == 4 {
                    self.users.loading = true;
                    Some(Task::LoadUsers)
                } else {
                    None
                }
            },
            _ => None,
        }
    }
}

// ---------------------------------------------------------------------------
// The mail form

/// The mail field `focus` (0 to 5) after a key; other foci edit nothing.
pub open spec fn mail_edited(o: Console, k: KeyPress, n: Console) -> bool {
    let m = o.mail;
    if o.focus == 0 {
        n == Console { mail: MailForm { api_key: n.mail.api_key, ..m }, ..o } && n.mail.api_key@ == edited(m.api_key@, k)
    } else if o.focus == 1 {
        n == Console { mail: MailForm { api_secret: n.mail.api_secret, ..m }, ..o } && n.mail.api_secret@ == edited(m.api_secret@, k)
    } else if o.focus == 2 {
        n == Console { mail: MailForm { from_email: n.mail.from_email, ..m }, ..o } && n.mail.from_email@ == edited(m.from_email@, k)
    } else if o.focus == 3 {
        n == Console { mail: MailForm { from_name: n.mail.from_name, ..m }, ..o } && n.mail.from_name@ == edited(m.from_name@, k)
    } else if o.focus == 4 {
        n == Console { mail: MailForm { base_url: n.mail.base_url, ..m }, ..o } && n.mail.base_url@ == edited(m.base_url@, k)
    } else if o.focus == 5 {
        n == Console { mail: MailForm { public_base: n.mail.public_base, ..m }, ..o } && n.mail.public_base@ == edited(m.public_base@, k)
    } else {
        n == o
    }
}

/// The mail form: escape goes back to the menu; tab and the arrows cycle
/// the focus over five fields; Control-S saves; other keys edit the focused
/// field.
pub open spec fn email_step(o: Console, k: KeyPress, n: Console, t: Option<Task>) -> bool {
    if k.code is Esc {
        t is None && n == Console { screen: Screen::Menu, ..o }
    } else if k.code is Tab || k.code is Down {
        t is None && n == Console { focus: ((o.focus + 1) % 5) as usize, ..o }
    } else if k.code is BackTab || k.code is Up {
        t is None && n == Console { focus: ((o.focus + 4) % 5) as usize, ..o }
    } else if chord(k, 's') {
        saved_notice(n.notice) && n == Console { notice: n.notice, ..o } && saves(o, t)
    } else {
        t is None && mail_edited(o, k, n)
    }
}

impl Console {
    fn note_saved(&mut self)
        ensures
            saved_notice(final(self).notice),
            *final(self) == (Console { notice: final(self).notice, ..*old(self) }),
    {
        self.notice.info = String::from_str("saved");
        proof {
            reveal_strlit("saved");
        }
        self.notice.err = String::new();
    }

    fn edit_mail_field(&mut self, k: KeyPress)
        ensures
            mail_edited(*old(self), k, *final(self)),
    {
        if self.focus == 0 {
            self.mail.api_key = edit_text(&self.mail.api_key, k);
        } else if self.focus == 1 {
            self.mail.api_secret = edit_text(&self.mail.api_secret, k);
        } else if self.focus == 2 {
            self.mail.from_email = edit_text(&self.mail.from_email, k);
        } else if self.focus == 3 {
            self.mail.from_name = edit_text(&self.mail.from_name, k);
        } else if self.focus == 4 {
            self.mail.base_url = edit_text(&self.mail.base_url, k);
        } else if self.focus == 5 {
            self.mail.public_base = edit_text(&self.mail.public_base, k);
        }
    }

    fn email_key(&mut self, k: KeyPress) -> (t: Option<Task>)
        ensures
            email_step(*old(self), k, *final(self), t),
    {
        match k.code {
            KeyCode::Esc => {
                self.screen = Screen::Menu;
                None
            },
            KeyCode::Tab | KeyCode::Down => {
                self.focus = (self.focus % 5 + 1) % 5;
                None
            },
            KeyCode::BackTab | KeyCode::Up => {
                self.focus = (self.focus % 5 + 4) % 5;
                None
            },
            _ => {
                if k.ctrl && k.code == KeyCode::Char('s') {
                    let s = self.collect_settings();
                    self.note_saved();
                    Some(Task::Save(s))
                } else {
                    self.edit_mail_field(k);
                    None
                }
            },
        }
    }
}


// ---------------------------------------------------------------------------
// The OpenRouter form

/// The OpenRouter field `focus` (0 to 4) after a key; other foci edit nothing.
pub open spec fn form_edited(o: Console, k: KeyPress, n: Console) -> bool {
    let f = o.form;
    if o.focus == 0 {
        n == Console { form: ProviderForm { api_key: n.form.api_key, ..f }, ..o } && n.form.api_key@ == edited(f.api_key@, k)
    } else if o.focus == 1 {
        n == Console { form: ProviderForm { model: n.form.model, ..f }, ..o } && n.form.model@ == edited(f.model@, k)
    } else if o.focus == 2 {
        n == Console { form: ProviderForm { base_url: n.form.base_url, ..f }, ..o } && n.form.base_url@ == edited(f.base_url@, k)
    } else if o.focus == 3 {
        n == Console { form: ProviderForm { http_referer: n.form.http_referer, ..f }, ..o } && n.form.http_referer@ == edited(f.http_referer@, k)
    } else if o.focus == 4 {
        n == Console { form: ProviderForm { x_title: n.form.x_title, ..f }, ..o } && n.form.x_title@ == edited(f.x_title@, k)
    } else {
        n == o
    }
}

/// The connection the model list is asked with: the form's key, referer and
/// title, and its base URL or, when that is blank, OpenRouter's.
pub open spec fn listing_config(f: ProviderForm, c: Config) -> bool {
    &&& c.api_key == f.api_key
    &&& c.base_url@ == (if trim(f.base_url@).len() == 0 {
        DEFAULT_BASE_URL@
    } else {
        f.base_url@
    })
    &&& c.http_referer == f.http_referer
    &&& c.x_title == f.x_title
}

/// Only the agents changed, as the OpenRouter form `f` is applied.
pub open spec fn applied(o: Console, f: ProviderForm, n: Console) -> bool {
    &&& form_applied(o.agents.rows@, o.agents.task_chat@, f, n.agents.rows@)
    &&& n == Console { agents: AgentsView { rows: n.agents.rows, ..o.agents }, ..o }
}

/// The OpenRouter form: escape goes back to the menu and recounts the
/// lists; tab and the arrows cycle the focus over five fields; enter on the
/// model field lists the models (the API key must not be blank), elsewhere
/// it moves on; Control-S writes the form into its agent and saves, unless
/// the key or the model is blank; other keys edit the focused field.
pub open spec fn config_step(o: Console, k: KeyPress, n: Console, t: Option<Task>) -> bool {
    if k.code is Esc {
        n == Console { screen: Screen::Menu, ..o } && t == Some(Task::RefreshCounts { whitelist: true })
    } else if k.code is Tab || k.code is Down || (k.code is Enter && o.focus != 1) {
        t is None && n == Console { focus: ((o.focus + 1) % 5) as usize, ..o }
    } else if k.code is BackTab || k.code is Up {
        t is None && n == Console { focus: ((o.focus + 4) % 5) as usize, ..o }
    } else if k.code is Enter {
        if trim(o.form.api_key@).len() == 0 {
            t is None && erred(o, n, "API key is required to list models"@)
        } else {
            &&& n == Console {
                screen: Screen::Models,
                models: ModelsView { loading: true, ..o.models },
                ..o
            }
            &&& t matches Some(Task::ListModels(c)) && listing_config(o.form, c)
        }
    } else if chord(k, 's') {
        exists|m: Console|
            #[trigger] applied(o, o.form, m) && if trim(o.form.api_key@).len() == 0 {
                t is None && erred(m, n, "API key is required"@)
            } else if trim(o.form.model@).len() == 0 {
                t is None && erred(m, n, "model is required"@)
            } else {
                saved_notice(n.notice) && n == Console { notice: n.notice, ..m } && saves(m, t)
            }
    } else {
        t is None && form_edited(o, k, n)
    }
}

impl Console {
    fn set_error(&mut self, msg: &str)
        ensures
            erred(*old(self), *final(self), msg@),
    {
        self.notice.err = String::from_str(msg);
    }

    fn edit_focused_field(&mut self, k: KeyPress)
        ensures
            form_edited(*old(self), k, *final(self)),
    {
        if self.focus == 0 {
            self.form.api_key = edit_text(&self.form.api_key, k);
        } else if self.focus == 1 {
            self.form.model = edit_text(&self.form.model, k);
        } else if self.focus == 2 {
            self.form.base_url = edit_text(&self.form.base_url, k);
        } else if self.focus == 3 {
            self.form.http_referer = edit_text(&self.form.http_referer, k);
        } else if self.focus == 4 {
            self.form.x_title = edit_text(&self.form.x_title, k);
        }
    }

    fn listing(&self) -> (c: Config)
        ensures
            listing_config(self.form, c),
    {
        let base_url = if is_trim_empty(self.form.base_url.as_str()) {
            String::from_str(DEFAULT_BASE_URL)
        } else {
            self.form.base_url.clone()
        };
        Config {
            api_key: self.form.api_key.clone(),
            base_url,
            http_referer: self.form.http_referer.clone(),
            x_title: self.form.x_title.clone(),
        }
    }

    fn config_key(&mut self, k: KeyPress) -> (t: Option<Task>)
        requires
            old(self).agents.rows@.len() < usize::MAX,
        ensures
            config_step(*old(self), k, *final(self), t),
    {
        match k.code {
            KeyCode::Esc => {
                self.screen = Screen::Menu;
                Some(Task::RefreshCounts { whitelist: true })
            },
            KeyCode::Tab | KeyCode::Down => {
                self.focus = (self.focus % 5 + 1) % 5;
                None
            },
            KeyCode::BackTab | KeyCode::Up => {
                self.focus = (self.focus % 5 + 4) % 5;
                None
            },
            KeyCode::Enter => {
                if self.focus != 1 {
                    self.focus = (self.focus % 5 + 1) % 5;
                    return None;
                }
                if is_trim_empty(self.form.api_key.as_str()) {
                    self.set_error("API key is required to list models");
                    return None;
                }
                let c = self.listing();
                self.screen = Screen::Models;
                self.models.loading = true;
                Some(Task::ListModels(c))
            },
            _ => {
                if k.ctrl && k.code == KeyCode::Char('s') {
                    let ghost o = *self;
                    self.apply_form_to_agent();
                    let ghost m = *self;
                    assert(applied(o, o.form, m));
                    if is_trim_empty(self.form.api_key.as_str()) {
                        self.set_error("API key is required");
                        return None;
                    }
                    if is_trim_empty(self.form.model.as_str()) {
                        self.set_error("model is required");
                        return None;
                    }
                    let s = self.collect_settings();
                    self.note_saved();
                    Some(Task::Save(s))
                } else {
                    self.edit_focused_field(k);
                    None
                }
            },
        }
    }
}

// ---------------------------------------------------------------------------
// The system prompt

/// The editor `n` holds `text` from the start, with `o`'s wrap width and
/// placeholder.
pub open spec fn reset_to(o: crate::tui::PromptEditor, text: Seq<char>, n: crate::tui::PromptEditor) -> bool {
    &&& n.wf()
    &&& n.rows() == crate::api::chat::sse::split_lines(text)
    &&& n.row() == 0 && n.col() == 0
    &&& n.goal_x() is None
    &&& n.top() == 0
    &&& n.wrap_width() == o.wrap_width()
    &&& n.hint() == o.hint()
}

/// The prompt screen: escape goes back to the menu and recounts the lists;
/// Control-S saves, a blank prompt replaced by the default one (which the
/// editor then shows); other keys go to the editor.
pub open spec fn prompt_step(o: Console, k: KeyPress, n: Console, t: Option<Task>) -> bool {
    if k.code is Esc {
        n == Console { screen: Screen::Menu, ..o } && t == Some(Task::RefreshCounts { whitelist: false })
    } else if chord(k, 's') {
        &&& saved_notice(n.notice)
        &&& if trim(crate::api::chat::sse::join_lines(o.prompt.rows())).len() == 0 {
            &&& n == Console { notice: n.notice, prompt: n.prompt, ..o }
            &&& reset_to(o.prompt, trim(DEFAULT_SYSTEM_PROMPT@), n.prompt)
            &&& t matches Some(Task::Save(s)) && collected_with(o, s, trim(DEFAULT_SYSTEM_PROMPT@))
        } else {
            n == Console { notice: n.notice, ..o } && saves(o, t)
        }
    } else {
        &&& t is None
        &&& n == Console { prompt: n.prompt, ..o }
        &&& crate::tui::editor_step(o.prompt, editor_key_of(k), n.prompt)
    }
}

impl Console {
    fn prompt_key(&mut self, k: KeyPress) -> (t: Option<Task>)
        requires
            old(self).wf(),
        ensures
            final(self).wf(),
            prompt_step(*old(self), k, *final(self), t),
    {
        if k.code == KeyCode::Esc {
            self.screen = Screen::Menu;
            return Some(Task::RefreshCounts { whitelist: false });
        }
        if k.ctrl && k.code == KeyCode::Char('s') {
            let mut s = self.collect_settings();
            let text = self.prompt.text();
            if is_trim_empty(text.as_str()) {
                s.chat.system_prompt = trim_str(DEFAULT_SYSTEM_PROMPT);
                self.prompt.set_text(s.chat.system_prompt.as_str());
            }
            self.note_saved();
            return Some(Task::Save(s));
        }
        let ek = editor_key(k);
        self.prompt.handle_key(ek);
        None
    }
}


// ---------------------------------------------------------------------------
// The model table

/// A digit key sorts by column `col` (stably): columns past the seventh are ignored;
/// the same column again flips the direction, a new one starts ascending
/// for the id and descending otherwise. The id and context columns are
/// sorted here; the price columns are a job for the program.
pub open spec fn sort_step(o: Console, col: usize, n: Console, t: Option<Task>) -> bool {
    if col >= 7 {
        idle(o, n, t)
    } else {
        let asc = if o.models.sort_col == col {
            !o.models.sort_asc
        } else {
            col == 0
        };
        if col <= 1 {
            &&& t is None
            &&& n == Console {
                models: ModelsView { sort_col: col, sort_asc: asc, rows: n.models.rows, ..o.models },
                ..o
            }
            &&& sorted_rows(n.models.rows@, col, asc)
            &&& n.models.rows@.to_multiset() == o.models.rows@.to_multiset()
            &&& forall|x: crate::openrouter::Model| #[trigger] class_of(n.models.rows@, x, col, asc) == class_of(
                o.models.rows@,
                x,
                col,
                asc,
            )
        } else {
            &&& n == Console { models: ModelsView { sort_col: col, sort_asc: asc, ..o.models }, ..o }
            &&& t == Some(Task::SortByCost { col, asc })
        }
    }
}

/// The model selected in the table, when the table has finished loading.
pub open spec fn chosen_model(m: ModelsView) -> Option<usize> {
    match m.selected {
        Some(i) => if !m.loading && i < m.rows@.len() {
            Some(i)
        } else {
            None
        },
        None => None,
    }
}

/// The model table: escape goes back to the form; the arrows move the
/// selection; enter takes the selected model into the form, writes the form
/// into its agent, saves when key and model are not blank, and goes back to
/// the form's model field; the digits 1 to 9 sort (see [`sort_step`]) once
/// the table is loaded and not empty.
pub open spec fn models_step(o: Console, k: KeyPress, n: Console, t: Option<Task>) -> bool {
    if k.code is Esc {
        t is None && n == Console {
            screen: Screen::OpenRouterConfig,
            models: ModelsView { loading: false, ..o.models },
            ..o
        }
    } else if k.code is Up || k.code is Down {
        t is None && n == Console {
            models: ModelsView {
                selected: stepped(o.models.rows@.len(), o.models.selected, k.code is Down),
                ..o.models
            },
            ..o
        }
    } else if k.code is Enter {
        match chosen_model(o.models) {
            Some(i) => {
                let f = ProviderForm { model: o.models.rows@[i as int].id, ..o.form };
                exists|m: Console|
                    #[trigger] applied(Console { form: f, ..o }, f, m) && n == Console {
                        screen: Screen::OpenRouterConfig,
                        focus: 1,
                        ..m
                    } && if trim(f.api_key@).len() > 0 && trim(f.model@).len() > 0 {
                        saves(m, t)
                    } else {
                        t is None
                    }
            },
            None => idle(o, n, t),
        }
    } else {
        match k.code {
            KeyCode::Char(c) => if '1' <= c <= '9' && !o.models.loading && o.models.rows@.len() > 0 {
                sort_step(o, ((c as u32) - ('1' as u32)) as usize, n, t)
            } else {
                idle(o, n, t)
            },
            _ => idle(o, n, t),
        }
    }
}

impl Console {
    fn apply_sort(&mut self, col: usize) -> (t: Option<Task>)
        ensures
            sort_step(*old(self), col, *final(self), t),
    {
        if col >= 7 {
            return None;
        }
        if self.models.sort_col == col {
            self.models.sort_asc = !self.models.sort_asc;
        } else {
            self.models.sort_col = col;
            self.models.sort_asc = col == 0;
        }
        let asc = self.models.sort_asc;
        if col <= 1 {
            let mut rows: Vec<crate::openrouter::Model> = Vec::new();
            std::mem::swap(&mut rows, &mut self.models.rows);
            self.models.rows = sort_rows(rows, col, asc);
            None
        } else {
            Some(Task::SortByCost { col, asc })
        }
    }

    fn models_key(&mut self, k: KeyPress) -> (t: Option<Task>)
        requires
            old(self).agents.rows@.len() < usize::MAX,
        ensures
            models_step(*old(self), k, *final(self), t),
    {
        match k.code {
            KeyCode::Esc => {
                self.screen = Screen::OpenRouterConfig;
                self.models.loading = false;
                None
            },
            KeyCode::Up => {
                self.models.selected = step_selection(self.models.rows.len(), self.models.selected, false);
                None
            },
            KeyCode::Down => {
                self.models.selected = step_selection(self.models.rows.len(), self.models.selected, true);
                None
            },
            KeyCode::Enter => {
                if self.models.loading {
                    return None;
                }
                let i = match self.models.selected {
                    Some(i) => i,
                    None => {
                        return None;
                    },
                };
                if i >= self.models.rows.len() {
                    return None;
                }
                self.form.model = self.models.rows[i].id.clone();
                let ghost o = *self;
                self.apply_form_to_agent();
                let ghost m = *self;
                assert(applied(o, o.form, m));
                let save = !is_trim_empty(self.form.api_key.as_str()) && !is_trim_empty(
                    self.form.model.as_str(),
                );
                let t = if save {
                    Some(Task::Save(self.collect_settings()))
                } else {
                    None
                };
                self.screen = Screen::OpenRouterConfig;
                self.focus = 1;
                t
            },
            KeyCode::Char(c) => {
                if c < '1' || c > '9' || self.models.loading || self.models.rows.len() == 0 {
                    return None;
                }
                let col: usize = ((c as u32) - ('1' as u32)) as usize;
                self.apply_sort(col)
            },
            _ => None,
        }
    }
}

// ---------------------------------------------------------------------------
// The waitlist and the accounts

/// The waitlist entry the approve and remove keys act on.
pub open spec fn chosen_invite(v: InvitesView) -> Option<usize> {
    match v.waitlist_selected {
        Some(i) => if !v.loading && i < v.waitlist@.len() {
            Some(i)
        } else {
            None
        },
        None => None,
    }
}

/// The invites screen: escape goes back to the menu and recounts; the
/// arrows move the waitlist selection unless it is loading; `r` reloads;
/// enter or `a` moves the selected address to the whitelist; `d`, `x` or
/// backspace takes it off the waitlist.
pub open spec fn invites_step(o: Console, k: KeyPress, n: Console, t: Option<Task>) -> bool {
    let busy = Console { invites: InvitesView { loading: true, ..o.invites }, ..o };
    if k.code is Esc {
        &&& n == Console { screen: Screen::Menu, invites: InvitesView { loading: false, ..o.invites }, ..o }
        &&& t == Some(Task::RefreshCounts { whitelist: false })
    } else if k.code is Up || k.code is Down {
        t is None && n == (if o.invites.loading {
            o
        } else {
            Console {
                invites: InvitesView {
                    waitlist_selected: stepped(o.invites.waitlist@.len(), o.invites.waitlist_selected, k.code is Down),
                    ..o.invites
                },
                ..o
            }
        })
    } else if k.code == KeyCode::Char('r') {
        n == busy && t == Some(Task::ReloadInvites)
    } else if k.code is Enter || k.code == KeyCode::Char('a') {
        match chosen_invite(o.invites) {
            Some(i) => n == busy && (t matches Some(Task::Approve(e)) && e@ == o.invites.waitlist@[i as int].email@),
            None => idle(o, n, t),
        }
    } else if k.code == KeyCode::Char('d') || k.code == KeyCode::Char('x') || k.code is Backspace {
        match chosen_invite(o.invites) {
            Some(i) => n == busy && (t matches Some(Task::Remove(e)) && e@ == o.invites.waitlist@[i as int].email@),
            None => idle(o, n, t),
        }
    } else {
        idle(o, n, t)
    }
}

/// The account the status keys act on.
pub open spec fn chosen_user(v: UsersView) -> Option<usize> {
    match v.selected {
        Some(i) => if !v.loading && i < v.rows@.len() {
            Some(i)
        } else {
            None
        },
        None => None,
    }
}

/// The status a key sets: `a` active, `d` disabled, `p` pending.
pub open spec fn status_of(c: char) -> Option<Seq<char>> {
    if c == 'a' {
        Some("active"@)
    } else if c == 'd' {
        Some("disabled"@)
    } else if c == 'p' {
        Some("pending"@)
    } else {
        None
    }
}

/// The accounts screen: escape goes back to the menu and recounts; the
/// arrows move the selection unless it is loading; `r` reloads; `a`, `d`
/// and `p` set the selected account's status.
pub open spec fn users_step(o: Console, k: KeyPress, n: Console, t: Option<Task>) -> bool {
    let busy = Console { users: UsersView { loading: true, ..o.users }, ..o };
    if k.code is Esc {
        &&& n == Console { screen: Screen::Menu, users: UsersView { loading: false, ..o.users }, ..o }
        &&& t == Some(Task::RefreshCounts { whitelist: false })
    } else if k.code is Up || k.code is Down {
        t is None && n == (if o.users.loading {
            o
        } else {
            Console {
                users: UsersView {
                    selected: stepped(o.users.rows@.len(), o.users.selected, k.code is Down),
                    ..o.users
                },
                ..o
            }
        })
    } else if k.code == KeyCode::Char('r') {
        n == busy && t == Some(Task::LoadUsers)
    } else {
        match (k.code, chosen_user(o.users)) {
            (KeyCode::Char(c), Some(i)) => if status_of(c) is Some {
                &&& n == busy
                &&& t matches Some(Task::SetUserStatus { id, email, status }) && id@ == o.users.rows@[i as int].id@
                    && email@ == o.users.rows@[i as int].email@ && Some(status@) == status_of(c)
            } else {
                idle(o, n, t)
            },
            _ => idle(o, n, t),
        }
    }
}

impl Console {
    fn invites_key(&mut self, k: KeyPress) -> (t: Option<Task>)
        ensures
            invites_step(*old(self), k, *final(self), t),
    {
        match k.code {
            KeyCode::Esc => {
                self.screen = Screen::Menu;
                self.invites.loading = false;
                return Some(Task::RefreshCounts { whitelist: false });
            },
            KeyCode::Up | KeyCode::Down => {
                if !self.invites.loading {
                    self.invites.waitlist_selected = step_selection(
                        self.invites.waitlist.len(),
                        self.invites.waitlist_selected,
                        k.code == KeyCode::Down,
                    );
                }
                return None;
            },
            _ => {},
        }
        if k.code == KeyCode::Char('r') {
            self.invites.loading = true;
            return Some(Task::ReloadInvites);
        }
        let approve = k.code == KeyCode::Enter || k.code == KeyCode::Char('a');
        let remove = k.code == KeyCode::Char('d') || k.code == KeyCode::Char('x') || k.code == KeyCode::Backspace;
        if !approve && !remove {
            return None;
        }
        if self.invites.loading {
            return None;
        }
        let i = match self.invites.waitlist_selected {
            Some(i) => i,
            None => {
                return None;
            },
        };
        if i >= self.invites.waitlist.len() {
            return None;
        }
        let email = self.invites.waitlist[i].email.clone();
        self.invites.loading = true;
        if approve {
            Some(Task::Approve(email))
        } else {
            Some(Task::Remove(email))
        }
    }

    fn users_key(&mut self, k: KeyPress) -> (t: Option<Task>)
        ensures
            users_step(*old(self), k, *final(self), t),
    {
        match k.code {
            KeyCode::Esc => {
                self.screen = Screen::Menu;
                self.users.loading = false;
                Some(Task::RefreshCounts { whitelist: false })
            },
            KeyCode::Up | KeyCode::Down => {
                if !self.users.loading {
                    self.users.selected = step_selection(
                        self.users.rows.len(),
                        self.users.selected,
                        k.code == KeyCode::Down,
                    );
                }
                None
            },
            KeyCode::Char(c) => {
                if c == 'r' {
                    self.users.loading = true;
                    return Some(Task::LoadUsers);
                }
                let status = if c == 'a' {
                    "active"
                } else if c == 'd' {
                    "disabled"
                } else if c == 'p' {
                    "pending"
                } else {
                    return None;
                };
                proof {
                    reveal_strlit("active");
                    reveal_strlit("disabled");
                    reveal_strlit("pending");
                }
                if self.users.loading {
                    return None;
                }
                let i = match self.users.selected {
                    Some(i) => i,
                    None => {
                        return None;
                    },
                };
                if i >= self.users.rows.len() {
                    return None;
                }
                let id = self.users.rows[i].id.clone();
                let email = self.users.rows[i].email.clone();
                self.users.loading = true;
                Some(Task::SetUserStatus { id, email, status: String::from_str(status) })
            },
            _ => None,
        }
    }
}


// ---------------------------------------------------------------------------
// Checking the agents before saving

/// A blank name or model.
pub open spec fn field_fault(a: Agent) -> bool {
    trim(a.name@).len() == 0 || trim(a.model@).len() == 0
}

pub open spec fn field_fault_text(a: Agent) -> Seq<char> {
    if trim(a.name@).len() == 0 {
        "agent name is required"@
    } else {
        a.name@ + ": model is required"@
    }
}

/// A later agent has the same name as agent `i`.
pub open spec fn twin_later(rows: Seq<Agent>, i: int) -> bool {
    exists|j: int| i < j < rows.len() && #[trigger] rows[j].name@ == rows[i].name@
}

/// An OpenRouter agent without an API key.
pub open spec fn keyless(a: Agent) -> bool {
    a.provider == Provider::OpenRouter && trim(a.api_key@).len() == 0
}

pub open spec fn first_field_fault(rows: Seq<Agent>, i: int) -> bool {
    0 <= i < rows.len() && field_fault(rows[i]) && forall|k: int| 0 <= k < i ==> !field_fault(#[trigger] rows[k])
}

pub open spec fn first_twin(rows: Seq<Agent>, i: int) -> bool {
    0 <= i < rows.len() && twin_later(rows, i) && forall|k: int| 0 <= k < i ==> !#[trigger] twin_later(rows, k)
}

pub open spec fn first_keyless(rows: Seq<Agent>, i: int) -> bool {
    0 <= i < rows.len() && keyless(rows[i]) && forall|k: int| 0 <= k < i ==> !keyless(#[trigger] rows[k])
}

pub open spec fn no_field_fault(rows: Seq<Agent>) -> bool {
    forall|i: int| 0 <= i < rows.len() ==> !field_fault(#[trigger] rows[i])
}

pub open spec fn no_twin(rows: Seq<Agent>) -> bool {
    forall|i: int| 0 <= i < rows.len() ==> !#[trigger] twin_later(rows, i)
}

pub open spec fn no_keyless(rows: Seq<Agent>) -> bool {
    forall|i: int| 0 <= i < rows.len() ==> !keyless(#[trigger] rows[i])
}

/// The agents can be saved: every name and model filled in, the names
/// distinct, and every OpenRouter agent with an API key.
pub open spec fn agents_sound(rows: Seq<Agent>) -> bool {
    no_field_fault(rows) && no_twin(rows) && no_keyless(rows)
}

/// `m` is the complaint about the agents: the first agent with a blank
/// name or model; else the first name that comes again; else the first
/// OpenRouter agent without a key.
pub open spec fn agents_fault(rows: Seq<Agent>, m: Seq<char>) -> bool {
    ||| exists|i: int| #[trigger] first_field_fault(rows, i) && m == field_fault_text(rows[i])
    ||| no_field_fault(rows) && exists|i: int|
        #[trigger] first_twin(rows, i) && m == "duplicate agent name: "@ + rows[i].name@
    ||| no_field_fault(rows) && no_twin(rows) && exists|i: int|
        #[trigger] first_keyless(rows, i) && m == rows[i].name@ + ": API key required for OpenRouter"@
}

fn joined(a: &str, b: &str) -> (r: String)
    ensures
        r@ == a@ + b@,
{
    let mut v = str_chars(a);
    push_str_chars(&mut v, b);
    string_from_chars(v.as_slice())
}

/// Checks the agents before saving: `None` when they can be saved, else the
/// complaint (see [`agents_fault`]).
pub fn validate_agents(rows: &Vec<Agent>) -> (r: Option<String>)
    ensures
        match r {
            None => agents_sound(rows@),
            Some(m) => agents_fault(rows@, m@),
        },
{
    let n = rows.len();
    let mut i: usize = 0;
    while i < n
        invariant
            n == rows@.len(),
            i <= n,
            forall|k: int| 0 <= k < i ==> !field_fault(#[trigger] rows@[k]),
        decreases n - i,
    {
        if is_trim_empty(rows[i].name.as_str()) {
            proof {
                reveal_strlit("agent name is required");
                assert(first_field_fault(rows@, i as int));
            }
            return Some(String::from_str("agent name is required"));
        }
        if is_trim_empty(rows[i].model.as_str()) {
            proof {
                assert(first_field_fault(rows@, i as int));
            }
            return Some(joined(rows[i].name.as_str(), ": model is required"));
        }
        i = i + 1;
    }
    let mut i: usize = 0;
    while i < n
        invariant
            n == rows@.len(),
            i <= n,
            no_field_fault(rows@),
            forall|k: int| 0 <= k < i ==> !#[trigger] twin_later(rows@, k),
        decreases n - i,
    {
        let mut j: usize = i + 1;
        while j < n
            invariant
                n == rows@.len(),
                i < n,
                i + 1 <= j <= n,
                no_field_fault(rows@),
                forall|k: int| 0 <= k < i ==> !#[trigger] twin_later(rows@, k),
                forall|q: int| i < q < j ==> #[trigger] rows@[q].name@ != rows@[i as int].name@,
            decreases n - j,
        {
            if crate::text::str_eq(rows[i].name.as_str(), rows[j].name.as_str()) {
                proof {
                    assert(twin_later(rows@, i as int));
                    assert(first_twin(rows@, i as int));
                }
                return Some(joined("duplicate agent name: ", rows[i].name.as_str()));
            }
            j = j + 1;
        }
        assert(!twin_later(rows@, i as int));
        i = i + 1;
    }
    let mut i: usize = 0;
    while i < n
        invariant
            n == rows@.len(),
            i <= n,
            no_field_fault(rows@),
            no_twin(rows@),
            forall|k: int| 0 <= k < i ==> !keyless(#[trigger] rows@[k]),
        decreases n - i,
    {
        if rows[i].provider == Provider::OpenRouter && is_trim_empty(rows[i].api_key.as_str()) {
            proof {
                assert(first_keyless(rows@, i as int));
            }
            return Some(joined(rows[i].name.as_str(), ": API key required for OpenRouter"));
        }
        i = i + 1;
    }
    None
}


// ---------------------------------------------------------------------------
// The agents

/// The agents screen, once opened, always has an agent: an empty table gets
/// the default one first.
pub open spec fn seeded(o: Console, b: Console) -> bool {
    if o.agents.rows@.len() == 0 {
        &&& b == Console { agents: AgentsView { rows: b.agents.rows, ..o.agents }, ..o }
        &&& b.agents.rows@.len() == 1
        &&& new_agent_of(o, b.agents.rows@[0])
    } else {
        b == o
    }
}

/// The agent table (its last row adds an agent): escape goes back to the
/// menu; the arrows move the selection over the agents and the adding row;
/// enter opens the editor on the selected agent, or adds one and opens it;
/// Control-S saves.
pub open spec fn agents_list_step(b: Console, k: KeyPress, n: Console, t: Option<Task>) -> bool {
    let a = b.agents;
    if k.code is Esc {
        t is None && n == Console { screen: Screen::Menu, ..b }
    } else if k.code is Up || k.code is Down {
        t is None && n == Console {
            agents: AgentsView { selected: stepped(a.rows@.len() + 1, a.selected, k.code is Down), ..a },
            ..b
        }
    } else if k.code is Enter {
        match a.selected {
            Some(i) => if i == a.rows@.len() {
                &&& t is None
                &&& n == Console {
                    agents: AgentsView {
                        rows: n.agents.rows,
                        selected: Some(i),
                        modal: true,
                        modal_idx: Some(i),
                        focus: 0,
                        ..a
                    },
                    ..b
                }
                &&& n.agents.rows@.len() == i + 1
                &&& n.agents.rows@.subrange(0, i as int) == a.rows@
                &&& new_agent_of(b, n.agents.rows@[i as int])
            } else {
                t is None && n == Console {
                    agents: AgentsView { modal: true, modal_idx: Some(i), focus: 0, ..a },
                    ..b
                }
            },
            None => idle(b, n, t),
        }
    } else if chord(k, 's') {
        saved_notice(n.notice) && n == Console { notice: n.notice, ..b } && saves(b, t)
    } else {
        idle(b, n, t)
    }
}

/// What [`crate::tui::toggle_agent_provider`] does to an agent.
pub open spec fn toggled(a: Agent, b: Agent) -> bool {
    &&& b.provider == (if a.provider == Provider::OpenRouter {
        Provider::Ollama
    } else {
        Provider::OpenRouter
    })
    &&& b.base_url@ == (if b.provider == Provider::Ollama && trim(a.base_url@).len() == 0 {
        "http://localhost:11434/v1"@
    } else {
        a.base_url@
    })
    &&& b.name == a.name
    &&& b.model == a.model
    &&& b.api_key == a.api_key
    &&& b.http_referer == a.http_referer
    &&& b.x_title == a.x_title
}

/// Agent field `f` (2: model, 3: base URL, 4: API key, 5: referer, 6:
/// title) after a key.
pub open spec fn agent_field_edited(a: Agent, f: usize, k: KeyPress, b: Agent) -> bool {
    if f == 2 {
        b == Agent { model: b.model, ..a } && b.model@ == edited(a.model@, k)
    } else if f == 3 {
        b == Agent { base_url: b.base_url, ..a } && b.base_url@ == edited(a.base_url@, k)
    } else if f == 4 {
        b == Agent { api_key: b.api_key, ..a } && b.api_key@ == edited(a.api_key@, k)
    } else if f == 5 {
        b == Agent { http_referer: b.http_referer, ..a } && b.http_referer@ == edited(a.http_referer@, k)
    } else {
        b == Agent { x_title: b.x_title, ..a } && b.x_title@ == edited(a.x_title@, k)
    }
}

/// Only agent `i` of the table changed, to `n`'s.
pub open spec fn row_changed(o: Console, i: usize, n: Console) -> bool {
    &&& n.agents.rows@ == o.agents.rows@.update(i as int, n.agents.rows@[i as int])
    &&& n == Console { agents: AgentsView { rows: n.agents.rows, ..o.agents }, ..o }
}

/// The editor of agent `i` with the model picker open: escape closes the
/// picker; the arrows move in the list; enter takes the chosen model and
/// closes the picker.
pub open spec fn picker_step(o: Console, i: usize, k: KeyPress, n: Console, t: Option<Task>) -> bool {
    let a = o.agents;
    &&& t is None
    &&& if k.code is Esc {
        n == Console { agents: AgentsView { picker: false, ..a }, ..o }
    } else if k.code is Up {
        n == Console {
            agents: AgentsView {
                picker_idx: if a.picker_idx > 0 {
                    (a.picker_idx - 1) as usize
                } else {
                    a.picker_idx
                },
                ..a
            },
            ..o
        }
    } else if k.code is Down {
        n == Console {
            agents: AgentsView {
                picker_idx: if a.picker_idx + 1 < a.models@.len() {
                    (a.picker_idx + 1) as usize
                } else {
                    a.picker_idx
                },
                ..a
            },
            ..o
        }
    } else if k.code is Enter {
        &&& n == Console { agents: AgentsView { rows: n.agents.rows, picker: false, ..a }, ..o }
        &&& n.agents.rows@ == (if a.picker_idx < a.models@.len() {
            a.rows@.update(i as int, Agent { model: a.models@[a.picker_idx as int], ..a.rows@[i as int] })
        } else {
            a.rows@
        })
    } else {
        n == o
    }
}

/// The editor of agent `i`: escape closes it; tab and the arrows cycle over
/// its nine fields; enter or space toggles the backend (field 1), binds the
/// chat (7) or summary (8) task to it, or lists its models (2, unless they
/// are loading); Control-S saves when the agents are sound (see
/// [`agents_fault`]) and closes the editor; other keys edit the name (the
/// bindings follow a rename) or fields 2 to 6.
pub open spec fn agent_editor_step(o: Console, i: usize, k: KeyPress, n: Console, t: Option<Task>) -> bool {
    let a = o.agents;
    let ag = a.rows@[i as int];
    if k.code is Esc {
        t is None && n == Console { agents: AgentsView { modal: false, modal_idx: None, ..a }, ..o }
    } else if k.code is Tab || k.code is Down {
        t is None && n == Console { agents: AgentsView { focus: ((a.focus + 1) % 9) as usize, ..a }, ..o }
    } else if k.code is BackTab || k.code is Up {
        t is None && n == Console { agents: AgentsView { focus: ((a.focus + 8) % 9) as usize, ..a }, ..o }
    } else if k.code is Enter || k.code == KeyCode::Char(' ') {
        if a.focus == 1 {
            t is None && row_changed(o, i, n) && toggled(ag, n.agents.rows@[i as int])
        } else if a.focus == 7 {
            t is None && n == Console { agents: AgentsView { task_chat: ag.name, ..a }, ..o }
        } else if a.focus == 8 {
            t is None && n == Console { agents: AgentsView { task_summary: ag.name, ..a }, ..o }
        } else if a.focus == 2 && !a.loading_models {
            &&& n == Console {
                agents: AgentsView {
                    loading_models: true,
                    models: n.agents.models,
                    picker: false,
                    picker_idx: 0,
                    ..a
                },
                ..o
            }
            &&& n.agents.models@.len() == 0
            &&& t == Some(Task::ListAgentModels(ag))
        } else {
            idle(o, n, t)
        }
    } else if chord(k, 's') {
        if agents_sound(a.rows@) {
            &&& saved_notice(n.notice)
            &&& n == Console {
                notice: n.notice,
                agents: AgentsView { modal: false, modal_idx: None, ..a },
                ..o
            }
            &&& saves(o, t)
        } else {
            t is None && erred(o, n, n.notice.err@) && agents_fault(a.rows@, n.notice.err@)
        }
    } else if a.focus == 0 {
        let nm = n.agents.rows@[i as int].name;
        &&& t is None
        &&& n.agents.rows@ == a.rows@.update(i as int, Agent { name: nm, ..ag })
        &&& nm@ == edited(ag.name@, k)
        &&& n == Console {
            agents: AgentsView {
                rows: n.agents.rows,
                task_chat: if a.task_chat@ == ag.name@ {
                    nm
                } else {
                    a.task_chat
                },
                task_summary: if a.task_summary@ == ag.name@ {
                    nm
                } else {
                    a.task_summary
                },
                ..a
            },
            ..o
        }
    } else if 2 <= a.focus <= 6 {
        t is None && row_changed(o, i, n) && agent_field_edited(ag, a.focus, k, n.agents.rows@[i as int])
    } else {
        idle(o, n, t)
    }
}

/// The agent editor: closed when it names no agent; otherwise the picker or
/// the editor takes the key.
pub open spec fn modal_step(o: Console, k: KeyPress, n: Console, t: Option<Task>) -> bool {
    match o.agents.modal_idx {
        Some(i) => if i < o.agents.rows@.len() {
            if o.agents.picker {
                picker_step(o, i, k, n, t)
            } else {
                agent_editor_step(o, i, k, n, t)
            }
        } else {
            t is None && n == Console { agents: AgentsView { modal: false, ..o.agents }, ..o }
        },
        None => t is None && n == Console { agents: AgentsView { modal: false, ..o.agents }, ..o },
    }
}

/// The agents screen: the editor when it is open, else the table.
pub open spec fn agents_step(o: Console, k: KeyPress, n: Console, t: Option<Task>) -> bool {
    if o.agents.modal {
        modal_step(o, k, n, t)
    } else {
        exists|b: Console| #[trigger] seeded(o, b) && agents_list_step(b, k, n, t)
    }
}

impl Console {
    fn picker_key(&mut self, i: usize, k: KeyPress) -> (t: Option<Task>)
        requires
            i < old(self).agents.rows@.len(),
        ensures
            picker_step(*old(self), i, k, *final(self), t),
    {
        match k.code {
            KeyCode::Esc => {
                self.agents.picker = false;
            },
            KeyCode::Up => {
                if self.agents.picker_idx > 0 {
                    self.agents.picker_idx = self.agents.picker_idx - 1;
                }
            },
            KeyCode::Down => {
                if self.agents.picker_idx < self.agents.models.len()
                    && self.agents.picker_idx + 1 < self.agents.models.len() {
                    self.agents.picker_idx = self.agents.picker_idx + 1;
                }
            },
            KeyCode::Enter => {
                let p = self.agents.picker_idx;
                if p < self.agents.models.len() {
                    let mut ag = self.agents.rows[i].clone();
                    ag.model = self.agents.models[p].clone();
                    self.agents.rows.set(i, ag);
                }
                self.agents.picker = false;
            },
            _ => {},
        }
        None
    }

    fn agent_editor_key(&mut self, i: usize, k: KeyPress) -> (t: Option<Task>)
        requires
            i < old(self).agents.rows@.len(),
        ensures
            agent_editor_step(*old(self), i, k, *final(self), t),
    {
        match k.code {
            KeyCode::Esc => {
                self.agents.modal = false;
                self.agents.modal_idx = None;
                return None;
            },
            KeyCode::Tab | KeyCode::Down => {
                self.agents.focus = (self.agents.focus % 9 + 1) % 9;
                return None;
            },
            KeyCode::BackTab | KeyCode::Up => {
                self.agents.focus = (self.agents.focus % 9 + 8) % 9;
                return None;
            },
            _ => {},
        }
        let f = self.agents.focus;
        if k.code == KeyCode::Enter || k.code == KeyCode::Char(' ') {
            if f == 1 {
                let mut ag = self.agents.rows[i].clone();
                crate::tui::toggle_agent_provider(&mut ag);
                self.agents.rows.set(i, ag);
                return None;
            } else if f == 7 {
                self.agents.task_chat = self.agents.rows[i].name.clone();
                return None;
            } else if f == 8 {
                self.agents.task_summary = self.agents.rows[i].name.clone();
                return None;
            } else if f == 2 && !self.agents.loading_models {
                self.agents.loading_models = true;
                self.agents.models = Vec::new();
                self.agents.picker = false;
                self.agents.picker_idx = 0;
                return Some(Task::ListAgentModels(self.agents.rows[i].clone()));
            }
            return None;
        }
        if k.ctrl && k.code == KeyCode::Char('s') {
            match validate_agents(&self.agents.rows) {
                Some(m) => {
                    self.notice.err = m;
                    return None;
                },
                None => {
                    let s = self.collect_settings();
                    self.note_saved();
                    self.agents.modal = false;
                    self.agents.modal_idx = None;
                    return Some(Task::Save(s));
                },
            }
        }
        if f == 0 {
            let old_name = self.agents.rows[i].name.clone();
            let mut ag = self.agents.rows[i].clone();
            ag.name = edit_text(&ag.name, k);
            let new_name = ag.name.clone();
            self.agents.rows.set(i, ag);
            if crate::text::str_eq(self.agents.task_chat.as_str(), old_name.as_str()) {
                self.agents.task_chat = new_name.clone();
            }
            if crate::text::str_eq(self.agents.task_summary.as_str(), old_name.as_str()) {
                self.agents.task_summary = new_name;
            }
            return None;
        }
        if 2 <= f && f <= 6 {
            let mut ag = self.agents.rows[i].clone();
            if f == 2 {
                ag.model = edit_text(&ag.model, k);
            } else if f == 3 {
                ag.base_url = edit_text(&ag.base_url, k);
            } else if f == 4 {
                ag.api_key = edit_text(&ag.api_key, k);
            } else if f == 5 {
                ag.http_referer = edit_text(&ag.http_referer, k);
            } else {
                ag.x_title = edit_text(&ag.x_title, k);
            }
            self.agents.rows.set(i, ag);
        }
        None
    }

    fn agents_key(&mut self, k: KeyPress) -> (t: Option<Task>)
        requires
            old(self).agents.rows@.len() + 1 < usize::MAX,
        ensures
            agents_step(*old(self), k, *final(self), t),
    {
        if self.agents.modal {
            match self.agents.modal_idx {
                Some(i) => {
                    if i >= self.agents.rows.len() {
                        self.agents.modal = false;
                        return None;
                    }
                    if self.agents.picker {
                        return self.picker_key(i, k);
                    } else {
                        return self.agent_editor_key(i, k);
                    }
                },
                None => {
                    self.agents.modal = false;
                    return None;
                },
            }
        }
        if self.agents.rows.len() == 0 {
            let a = self.default_agent();
            self.agents.rows.push(a);
        }
        let ghost b = *self;
        let t = self.agents_table_key(k);
        assert(seeded(*old(self), b));
        t
    }

    fn agents_table_key(&mut self, k: KeyPress) -> (t: Option<Task>)
        requires
            old(self).agents.rows@.len() + 1 < usize::MAX,
        ensures
            agents_list_step(*old(self), k, *final(self), t),
    {
        match k.code {
            KeyCode::Esc => {
                self.screen = Screen::Menu;
                None
            },
            KeyCode::Up | KeyCode::Down => {
                self.agents.selected = step_selection(
                    self.agents.rows.len() + 1,
                    self.agents.selected,
                    k.code == KeyCode::Down,
                );
                None
            },
            KeyCode::Enter => {
                match self.agents.selected {
                    Some(i) => {
                        if i == self.agents.rows.len() {
                            let a = self.default_agent();
                            self.agents.rows.push(a);
                            self.agents.selected = Some(i);
                            self.agents.modal_idx = Some(i);
                        } else {
                            self.agents.modal_idx = Some(i);
                        }
                        self.agents.modal = true;
                        self.agents.focus = 0;
                        proof {
                            if i == old(self).agents.rows@.len() {
                                assert(self.agents.rows@.subrange(0, i as int) =~= old(self).agents.rows@);
                            }
                        }
                    },
                    None => {},
                }
                None
            },
            _ => {
                if k.ctrl && k.code == KeyCode::Char('s') {
                    let s = self.collect_settings();
                    self.note_saved();
                    Some(Task::Save(s))
                } else {
                    None
                }
            },
        }
    }
}


// ---------------------------------------------------------------------------
// A key press

/// What a key does to the console `o`, giving `n` and the job `t`:
/// Control-C leaves from anywhere; otherwise the screen shown decides.
pub open spec fn key_step(o: Console, k: KeyPress, n: Console, t: Option<Task>) -> bool {
    if chord(k, 'c') {
        n == o && t == Some(Task::Quit)
    } else {
        match o.screen {
            Screen::Menu => menu_step(o, k, n, t),
            Screen::OpenRouterConfig => config_step(o, k, n, t),
            Screen::SystemPrompt => prompt_step(o, k, n, t),
            Screen::EmailConfig => email_step(o, k, n, t),
            Screen::Models => models_step(o, k, n, t),
            Screen::Invites => invites_step(o, k, n, t),
            Screen::Users => users_step(o, k, n, t),
            Screen::Agents => agents_step(o, k, n, t),
        }
    }
}

impl Console {
    /// Takes a key press (see [`key_step`]); the job it returns, if any, is
    /// for the program to run.
    pub fn on_key(&mut self, k: KeyPress) -> (t: Option<Task>)
        requires
            old(self).wf(),
            old(self).agents.rows@.len() + 1 < usize::MAX,
        ensures
            final(self).wf(),
            key_step(*old(self), k, *final(self), t),
    {
        if k.ctrl && k.code == KeyCode::Char('c') {
            return Some(Task::Quit);
        }
        match self.screen {
            Screen::Menu => self.menu_key(k),
            Screen::OpenRouterConfig => self.config_key(k),
            Screen::SystemPrompt => self.prompt_key(k),
            Screen::EmailConfig => self.email_key(k),
            Screen::Models => self.models_key(k),
            Screen::Invites => self.invites_key(k),
            Screen::Users => self.users_key(k),
            Screen::Agents => self.agents_key(k),
        }
    }
}


/// Whatever key is pressed, the menu entry stays one of the six, the form
/// focus one of the five fields, and the agent editor's focus one of its
/// nine.
pub proof fn law_cursors_stay_in_range(o: Console, k: KeyPress, n: Console, t: Option<Task>)
    requires
        key_step(o, k, n, t),
        o.menu_idx <= 5,
        o.focus < 5,
        o.agents.focus < 9,
    ensures
        n.menu_idx <= 5,
        n.focus < 5,
        n.agents.focus < 9,
{
    if !chord(k, 'c') && o.screen == Screen::Agents && !o.agents.modal {
        let b = choose|b: Console| #[trigger] seeded(o, b) && agents_list_step(b, k, n, t);
        assert(b.menu_idx == o.menu_idx && b.focus == o.focus && b.agents.focus == o.agents.focus);
    }
}

/// On the accounts screen, with an account selected and nothing loading, the
/// status keys set that account's status: `a` makes it active, `d` disabled
/// and `p` pending, each by one `SetUserStatus` job for its id and address.
pub proof fn law_users_status_keys(o: Console, k: KeyPress, n: Console, t: Option<Task>, i: usize)
    requires
        o.screen == Screen::Users,
        !o.users.loading,
        o.users.selected == Some(i),
        i < o.users.rows@.len(),
        k.code == KeyCode::Char('a') || k.code == KeyCode::Char('d') || k.code == KeyCode::Char('p'),
        key_step(o, k, n, t),
    ensures
        t matches Some(Task::SetUserStatus { id, email, status }) && id@ == o.users.rows@[i as int].id@
            && email@ == o.users.rows@[i as int].email@ && (k.code == KeyCode::Char('a') ==> status@
            == "active"@) && (k.code == KeyCode::Char('d') ==> status@ == "disabled"@) && (k.code
            == KeyCode::Char('p') ==> status@ == "pending"@),
{
}

/// The other keys of the accounts screen: escape returns to the menu and asks
/// for fresh counts, `r` reloads the accounts and marks them loading, and a
/// status key with no account chosen (or while loading) does nothing.
pub proof fn law_users_other_keys(o: Console, k: KeyPress, n: Console, t: Option<Task>)
    requires
        o.screen == Screen::Users,
        !chord(k, 'c'),
        key_step(o, k, n, t),
    ensures
        k.code is Esc ==> n.screen == Screen::Menu && (t matches Some(Task::RefreshCounts { whitelist: w }) && !w),
        k.code == KeyCode::Char('r') ==> n.users.loading && t == Some(Task::LoadUsers),
        (k.code == KeyCode::Char('a') || k.code == KeyCode::Char('d') || k.code == KeyCode::Char('p'))
            && chosen_user(o.users) is None ==> t is None && n == o,
{
}

} // verus!
