//! `init`: the setup wizard.
//!
//! It asks for the Notion token and database, checks both against Notion,
//! asks where the notes go, and saves the configuration. The program asks
//! the questions, talks to Notion and writes the files; `step` decides.
use crate::commands::push::{cannot_access, no_connection, undashed, without_dashes};
use crate::config::{expand_dir, expand_home, join, join_path, Config, ConfigView, NotionConfig};
use crate::notion::{
    error_text, info_from, inspect_database, integration_name, lowered_names, opt_str, prop_kinds,
    prop_names, status_outcome, strs_view, DatabaseInfoView,
};
use crate::notion_api::{api, api_url, response_status, Method, Request, RequestView, Response, ResponseView};
use crate::text::{
    add_line, chars_of, copy_string, lowercase, no_lines, one_line, push_char, push_str, str_eq, string_from,
    string_of, to_lowercase, trim, trim_bounds, trim_end_char, trimmed, two_lines,
};
use vstd::prelude::*;

verus! {

// ───────────────────────── the database id ─────────────────────────

/// Where the query or fragment of an address starts: the first `?` or
/// `#`, or the end.
pub open spec fn query_start(s: Seq<char>) -> int
    decreases s.len(),
{
    if s.len() == 0 || s[0] == '?' || s[0] == '#' {
        0
    } else {
        1 + query_start(s.drop_first())
    }
}

/// What follows the last `/` of `p`.
pub open spec fn last_segment(p: Seq<char>) -> Seq<char>
    decreases p.len(),
{
    if p.len() == 0 || p.last() == '/' {
        seq![]
    } else {
        last_segment(p.drop_last()).push(p.last())
    }
}

pub open spec fn is_hex(c: char) -> bool {
    ('0' <= c && c <= '9') || ('a' <= c && c <= 'f') || ('A' <= c && c <= 'F')
}

/// The 32-character Notion id in a database address or bare id: the last
/// path segment, before any query or fragment and without its dashes,
/// must end in 32 hexadecimal digits; they are the id.
pub open spec fn database_id_in(raw: Seq<char>) -> Option<Seq<char>> {
    let d = without_dashes(last_segment(trim_end_char(raw.take(query_start(raw)), '/')));
    if d.len() >= 32 && (forall|i: int| d.len() - 32 <= i < d.len() ==> is_hex(#[trigger] d[i])) {
        Some(d.skip(d.len() - 32))
    } else {
        None
    }
}

fn is_hex_exec(c: char) -> (r: bool)
    ensures
        r == is_hex(c),
{
    ('0' <= c && c <= '9') || ('a' <= c && c <= 'f') || ('A' <= c && c <= 'F')
}

/// The Notion id in `raw`, a database address (such as
/// `https://www.notion.so/workspace/Notes-0123...?v=...`) or a bare id,
/// with or without dashes; none when it holds no such id.
pub fn normalize_db_id(raw: &str) -> (r: Option<String>)
    ensures
        match r {
            Some(id) => database_id_in(raw@) == Some(id@),
            None => database_id_in(raw@) is None,
        },
{
    let v = chars_of(raw);
    let n = v.len();
    let mut q: usize = 0;
    assert(raw@.skip(0) =~= raw@);
    while q < n && v[q] != '?' && v[q] != '#'
        invariant
            v@ == raw@,
            n == v@.len(),
            q <= n,
            query_start(raw@) == q + query_start(raw@.skip(q as int)),
        decreases n - q,
    {
        assert(raw@.skip(q as int).drop_first() =~= raw@.skip(q + 1));
        q += 1;
    }
    assert(query_start(raw@.skip(q as int)) == 0);
    let mut e = q;
    while e > 0 && v[e - 1] == '/'
        invariant
            v@ == raw@,
            e <= q <= n == v@.len(),
            trim_end_char(raw@.take(q as int), '/') == trim_end_char(raw@.take(e as int), '/'),
        decreases e,
    {
        assert(raw@.take(e as int).drop_last() =~= raw@.take(e - 1));
        e -= 1;
    }
    assert(trim_end_char(raw@.take(e as int), '/') == raw@.take(e as int));
    let mut b = e;
    while b > 0 && v[b - 1] != '/'
        invariant
            v@ == raw@,
            b <= e <= n == v@.len(),
            last_segment(raw@.take(e as int)) == last_segment(raw@.take(b as int)) + raw@.subrange(b as int, e as int),
        decreases b,
    {
        assert(raw@.take(b as int).drop_last() =~= raw@.take(b - 1));
        assert(raw@.subrange(b - 1, e as int) =~= seq![raw@[b - 1]] + raw@.subrange(b as int, e as int));
        assert(last_segment(raw@.take(b as int)) == last_segment(raw@.take(b - 1)).push(raw@[b - 1]));
        assert(last_segment(raw@.take(b - 1)).push(raw@[b - 1]) + raw@.subrange(b as int, e as int)
            =~= last_segment(raw@.take(b - 1)) + raw@.subrange(b - 1, e as int));
        b -= 1;
    }
    assert(last_segment(raw@.take(b as int)) == Seq::<char>::empty());
    assert(last_segment(raw@.take(e as int)) =~= raw@.subrange(b as int, e as int));
    assert(query_start(raw@) == q);
    assert(raw@.take(e as int).subrange(b as int, e as int) =~= raw@.subrange(b as int, e as int));
    let seg = string_of(&v, b, e);
    let d = undashed(seg.as_str());
    let dv = chars_of(d.as_str());
    let m = dv.len();
    assert(dv@ == without_dashes(last_segment(trim_end_char(raw@.take(query_start(raw@)), '/'))));
    if m < 32 {
        return None;
    }
    let mut i: usize = m - 32;
    while i < m
        invariant
            dv@ == d@,
            dv@ == without_dashes(last_segment(trim_end_char(raw@.take(query_start(raw@)), '/'))),
            m == dv@.len(),
            m >= 32,
            m - 32 <= i <= m,
            forall|j: int| m - 32 <= j < i ==> is_hex(#[trigger] dv@[j]),
        decreases m - i,
    {
        if !is_hex_exec(dv[i]) {
            assert(!is_hex(dv@[i as int]));
            assert(database_id_in(raw@) is None);
            return None;
        }
        i += 1;
    }
    let id = string_of(&dv, m - 32, m);
    assert(dv@.subrange(m - 32, m as int) =~= dv@.skip(m - 32));
    Some(id)
}

// ───────────────────────── states, events, actions ─────────────────────────

/// Where the wizard stands. Every state but the last knows where the
/// configuration goes (`config_path`) and, until the notes directory is
/// settled, the home directory (`home`, when there is one).
pub enum InitState {
    /// Waiting to learn whether a configuration exists already.
    CheckingConfig { config_path: String, home: Option<String> },
    /// Waiting for the answer to whether to overwrite it.
    Confirming { config_path: String, home: Option<String> },
    /// Waiting for the token.
    AskingToken { config_path: String, home: Option<String> },
    /// Waiting for the database address or id.
    AskingDatabase { config_path: String, home: Option<String>, token: String },
    /// Waiting for Notion to say who the token belongs to.
    Authenticating { config_path: String, home: Option<String>, token: String, database_id: String },
    /// Waiting for Notion's answer about the database.
    Inspecting { config_path: String, home: Option<String>, token: String, database_id: String },
    /// Waiting for the notes directory.
    AskingNotesDir { config_path: String, home: Option<String>, token: String, database_id: String },
    /// Waiting for the notes directory to be created.
    CreatingDir { config_path: String, token: String, database_id: String, notes_dir: String },
    /// Waiting for the configuration to be saved.
    Saving { config_path: String },
    /// Nothing more to do.
    Finished,
}

pub enum InitStateView {
    CheckingConfig { config_path: Seq<char>, home: Option<Seq<char>> },
    Confirming { config_path: Seq<char>, home: Option<Seq<char>> },
    AskingToken { config_path: Seq<char>, home: Option<Seq<char>> },
    AskingDatabase { config_path: Seq<char>, home: Option<Seq<char>>, token: Seq<char> },
    Authenticating { config_path: Seq<char>, home: Option<Seq<char>>, token: Seq<char>, database_id: Seq<char> },
    Inspecting { config_path: Seq<char>, home: Option<Seq<char>>, token: Seq<char>, database_id: Seq<char> },
    AskingNotesDir { config_path: Seq<char>, home: Option<Seq<char>>, token: Seq<char>, database_id: Seq<char> },
    CreatingDir { config_path: Seq<char>, token: Seq<char>, database_id: Seq<char>, notes_dir: Seq<char> },
    Saving { config_path: Seq<char> },
    Finished,
}

impl View for InitState {
    type V = InitStateView;

    open spec fn view(&self) -> InitStateView {
        match self {
            InitState::CheckingConfig { config_path, home } => InitStateView::CheckingConfig {
                config_path: config_path@,
                home: opt_str(*home),
            },
            InitState::Confirming { config_path, home } => InitStateView::Confirming {
                config_path: config_path@,
                home: opt_str(*home),
            },
            InitState::AskingToken { config_path, home } => InitStateView::AskingToken {
                config_path: config_path@,
                home: opt_str(*home),
            },
            InitState::AskingDatabase { config_path, home, token } => InitStateView::AskingDatabase {
                config_path: config_path@,
                home: opt_str(*home),
                token: token@,
            },
            InitState::Authenticating { config_path, home, token, database_id } => InitStateView::Authenticating {
                config_path: config_path@,
                home: opt_str(*home),
                token: token@,
                database_id: database_id@,
            },
            InitState::Inspecting { config_path, home, token, database_id } => InitStateView::Inspecting {
                config_path: config_path@,
                home: opt_str(*home),
                token: token@,
                database_id: database_id@,
            },
            InitState::AskingNotesDir { config_path, home, token, database_id } => InitStateView::AskingNotesDir {
                config_path: config_path@,
                home: opt_str(*home),
                token: token@,
                database_id: database_id@,
            },
            InitState::CreatingDir { config_path, token, database_id, notes_dir } => InitStateView::CreatingDir {
                config_path: config_path@,
                token: token@,
                database_id: database_id@,
                notes_dir: notes_dir@,
            },
            InitState::Saving { config_path } => InitStateView::Saving { config_path: config_path@ },
            InitState::Finished => InitStateView::Finished,
        }
    }
}

/// What came of an action.
pub enum InitEvent {
    /// Whether the checked path exists.
    PathChecked { exists: bool },
    /// The line typed in answer (line break included), or why none could
    /// be read.
    Answered { line: Result<String, String> },
    /// Notion answered.
    Responded { response: Response },
    /// Notion could not be reached, for the reason given.
    Unreachable { reason: String },
    /// The directory was created, or why it was not.
    DirCreated { error: Option<String> },
    /// The configuration was saved, or why it was not (outermost reason
    /// first).
    Saved { failure: Option<Vec<String>> },
}

pub enum InitEventView {
    PathChecked { exists: bool },
    Answered { line: Result<Seq<char>, Seq<char>> },
    Responded { response: ResponseView },
    Unreachable { reason: Seq<char> },
    DirCreated { error: Option<Seq<char>> },
    Saved { failure: Option<Seq<Seq<char>>> },
}

impl View for InitEvent {
    type V = InitEventView;

    open spec fn view(&self) -> InitEventView {
        match self {
            InitEvent::PathChecked { exists } => InitEventView::PathChecked { exists: *exists },
            InitEvent::Answered { line } => InitEventView::Answered {
                line: match line {
                    Ok(l) => Ok(l@),
                    Err(e) => Err(e@),
                },
            },
            InitEvent::Responded { response } => InitEventView::Responded { response: response@ },
            InitEvent::Unreachable { reason } => InitEventView::Unreachable { reason: reason@ },
            InitEvent::DirCreated { error } => InitEventView::DirCreated { error: opt_str(*error) },
            InitEvent::Saved { failure } => InitEventView::Saved {
                failure: match failure {
                    Some(chain) => Some(strs_view(chain@)),
                    None => None,
                },
            },
        }
    }
}

/// What the program does next.
pub enum InitAction {
    /// Find out whether `path` exists.
    CheckPath { path: String },
    /// Print `prompt` and read a line.
    Ask { prompt: String },
    /// Send `request` to Notion.
    Send { request: Request },
    /// Create the directory `path` and its parents.
    CreateDir { path: String },
    /// Save `config` to `path`.
    SaveConfig { path: String, config: Config },
    /// The wizard is done.
    Finish,
    /// The wizard failed: the error, then what caused it, outermost first.
    Fail { chain: Vec<String> },
}

pub enum InitActionView {
    CheckPath { path: Seq<char> },
    Ask { prompt: Seq<char> },
    Send { request: RequestView },
    CreateDir { path: Seq<char> },
    SaveConfig { path: Seq<char>, config: ConfigView },
    Finish,
    Fail { chain: Seq<Seq<char>> },
}

impl View for InitAction {
    type V = InitActionView;

    open spec fn view(&self) -> InitActionView {
        match self {
            InitAction::CheckPath { path } => InitActionView::CheckPath { path: path@ },
            InitAction::Ask { prompt } => InitActionView::Ask { prompt: prompt@ },
            InitAction::Send { request } => InitActionView::Send { request: request@ },
            InitAction::CreateDir { path } => InitActionView::CreateDir { path: path@ },
            InitAction::SaveConfig { path, config } => InitActionView::SaveConfig { path: path@, config: config@ },
            InitAction::Finish => InitActionView::Finish,
            InitAction::Fail { chain } => InitActionView::Fail { chain: strs_view(chain@) },
        }
    }
}

/// One move of the wizard: the next state and action, and the text to
/// print first (exactly as given, line breaks included).
pub struct InitStep {
    pub state: InitState,
    pub action: InitAction,
    pub out: String,
}

pub struct InitStepView {
    pub state: InitStateView,
    pub action: InitActionView,
    pub out: Seq<char>,
}

impl View for InitStep {
    type V = InitStepView;

    open spec fn view(&self) -> InitStepView {
        InitStepView { state: self.state@, action: self.action@, out: self.out@ }
    }
}

/// Whether `e` answers the action that led to `s`.
pub open spec fn init_expects(s: InitStateView, e: InitEventView) -> bool {
    match s {
        InitStateView::CheckingConfig { .. } => e is PathChecked,
        InitStateView::Confirming { .. } => e is Answered,
        InitStateView::AskingToken { .. } => e is Answered,
        InitStateView::AskingDatabase { .. } => e is Answered,
        InitStateView::Authenticating { .. } => e is Responded || e is Unreachable,
        InitStateView::Inspecting { .. } => e is Responded || e is Unreachable,
        InitStateView::AskingNotesDir { .. } => e is Answered,
        InitStateView::CreatingDir { .. } => e is DirCreated,
        InitStateView::Saving { .. } => e is Saved,
        InitStateView::Finished => false,
    }
}

impl InitState {
    /// Whether `e` answers the action that led to this state.
    pub fn expects(&self, e: &InitEvent) -> (r: bool)
        ensures
            r == init_expects(self@, e@),
    {
        match self {
            InitState::CheckingConfig { .. } => match e {
                InitEvent::PathChecked { .. } => true,
                _ => false,
            },
            InitState::Confirming { .. } | InitState::AskingToken { .. } | InitState::AskingDatabase { .. }
            | InitState::AskingNotesDir { .. } => match e {
                InitEvent::Answered { .. } => true,
                _ => false,
            },
            InitState::Authenticating { .. } | InitState::Inspecting { .. } => match e {
                InitEvent::Responded { .. } | InitEvent::Unreachable { .. } => true,
                _ => false,
            },
            InitState::CreatingDir { .. } => match e {
                InitEvent::DirCreated { .. } => true,
                _ => false,
            },
            InitState::Saving { .. } => match e {
                InitEvent::Saved { .. } => true,
                _ => false,
            },
            InitState::Finished => false,
        }
    }
}

/// `init`: the wizard for the configuration at `config_path`, with `home`
/// the home directory when there is one. It starts by checking whether a
/// configuration is there already.
pub fn run(config_path: &str, home: Option<String>) -> (r: (InitState, InitAction))
    ensures
        r.0@ == (InitStateView::CheckingConfig { config_path: config_path@, home: opt_str(home) }),
        r.1@ == (InitActionView::CheckPath { path: config_path@ }),
{
    (
        InitState::CheckingConfig { config_path: string_from(config_path), home },
        InitAction::CheckPath { path: string_from(config_path) },
    )
}


// ───────────────────────── what each move does ─────────────────────────

pub open spec fn init_moved(state: InitStateView, action: InitActionView, out: Seq<char>) -> InitStepView {
    InitStepView { state, action, out }
}

/// The wizard fails with `chain`.
pub open spec fn init_failed(chain: Seq<Seq<char>>) -> InitStepView {
    init_moved(InitStateView::Finished, InitActionView::Fail { chain }, seq![])
}

pub open spec fn welcome_text() -> Seq<char> {
    "Welcome to m2n — Markdown to Notion.\n\nCreate an integration at https://www.notion.so/my-integrations,\nthen open your database in Notion → '...' → Connections → add it.\n\n"@
}

/// Greet, and ask for the token.
pub open spec fn welcome(config_path: Seq<char>, home: Option<Seq<char>>) -> InitStepView {
    init_moved(
        InitStateView::AskingToken { config_path, home },
        InitActionView::Ask { prompt: "Notion integration token: "@ },
        welcome_text(),
    )
}

pub open spec fn overwrite_prompt(config_path: Seq<char>) -> Seq<char> {
    "Config already exists at "@ + config_path + ". Overwrite? [y/N]: "@
}

pub open spec fn id_missing(raw: Seq<char>) -> Seq<char> {
    "Could not find a 32-character Notion ID in: "@ + raw
        + "\n→ Paste the full database URL (e.g. https://www.notion.so/...) or the bare ID."@
}

pub open spec fn database_context(database_id: Seq<char>) -> Seq<char> {
    "Cannot access database '"@ + database_id
        + "'.\n→ Make sure the database is shared with your integration (Notion → '...' → Connections)."@
}

pub open spec fn mark(prop: Option<Seq<char>>) -> Seq<char> {
    if prop is Some {
        "✓"@
    } else {
        "—"@
    }
}

/// What the wizard prints about a database it could read.
pub open spec fn accessible_text(info: DatabaseInfoView) -> Seq<char> {
    "✓  Database accessible (title: \""@ + info.title_prop + "\", status: "@ + mark(info.status_prop)
        + ", tags: "@ + mark(info.tags_prop) + ")\n"@ + (if info.status_prop is None {
        "   Note: no \"Status\" (select) property found — status will be skipped on push.\n→ Add a \"Status\" select property in Notion to sync this field.\n"@
    } else {
        seq![]
    }) + (if info.tags_prop is None {
        "   Note: no \"Tags\" (multi_select) property found — tags will be skipped on push.\n→ Add a \"Tags\" multi_select property in Notion to sync this field.\n"@
    } else {
        seq![]
    })
}

pub open spec fn home_or(home: Option<Seq<char>>, fallback: Seq<char>) -> Seq<char> {
    match home {
        Some(h) => h,
        None => fallback,
    }
}

/// The notes directory for the answer `raw`: `notes` under the home
/// directory (or the current one) when it is empty, else `raw` with a
/// leading `~` standing for the home directory.
pub open spec fn notes_dir_for(raw: Seq<char>, home: Option<Seq<char>>) -> Seq<char> {
    if raw.len() == 0 {
        join_path(home_or(home, "."@), "notes"@)
    } else {
        expand_home(raw, home_or(home, seq![]))
    }
}

pub open spec fn saved_text(config_path: Seq<char>) -> Seq<char> {
    "\nConfig saved to "@ + config_path
        + "\nRun `m2n write \"My Note\"` to create a note and sync it to Notion.\nRun `m2n list` to see all your notes.\n"@
}

/// The next move of the wizard in state `s` on event `e`.
pub open spec fn init_step(s: InitStateView, e: InitEventView) -> InitStepView {
    match s {
        InitStateView::CheckingConfig { config_path, home } => match e {
            InitEventView::PathChecked { exists } => if exists {
                init_moved(
                    InitStateView::Confirming { config_path, home },
                    InitActionView::Ask { prompt: overwrite_prompt(config_path) },
                    seq![],
                )
            } else {
                welcome(config_path, home)
            },
            _ => init_failed(seq![]),
        },
        InitStateView::Confirming { config_path, home } => match e {
            InitEventView::Answered { line: Ok(a) } => if lowercase(trim(a)) == "y"@ {
                welcome(config_path, home)
            } else {
                init_moved(InitStateView::Finished, InitActionView::Finish, "Aborted.\n"@)
            },
            InitEventView::Answered { line: Err(cause) } => init_failed(seq![cause]),
            _ => init_failed(seq![]),
        },
        InitStateView::AskingToken { config_path, home } => match e {
            InitEventView::Answered { line: Ok(a) } => if trim(a).len() == 0 {
                init_failed(seq!["Token cannot be empty. Run `m2n init` again when you have one."@])
            } else {
                init_moved(
                    InitStateView::AskingDatabase { config_path, home, token: trim(a) },
                    InitActionView::Ask { prompt: "Notion database URL or ID: "@ },
                    seq![],
                )
            },
            InitEventView::Answered { line: Err(cause) } => init_failed(seq![cause]),
            _ => init_failed(seq![]),
        },
        InitStateView::AskingDatabase { config_path, home, token } => match e {
            InitEventView::Answered { line: Ok(a) } => if trim(a).len() == 0 {
                init_failed(seq!["Database URL or ID cannot be empty."@])
            } else {
                match database_id_in(trim(a)) {
                    None => init_failed(seq![id_missing(trim(a))]),
                    Some(d) => init_moved(
                        InitStateView::Authenticating { config_path, home, token, database_id: d },
                        InitActionView::Send {
                            request: RequestView { method: Method::Get, url: api("/users/me"@), token, body: None },
                        },
                        "\nTesting connection... "@,
                    ),
                }
            },
            InitEventView::Answered { line: Err(cause) } => init_failed(seq![cause]),
            _ => init_failed(seq![]),
        },
        InitStateView::Authenticating { config_path, home, token, database_id } => match e {
            InitEventView::Responded { response: r } => match status_outcome(r.code, r.status, r.message) {
                Err(err) => init_failed(seq!["Authentication failed"@, error_text(err)]),
                Ok(_) => init_moved(
                    InitStateView::Inspecting { config_path, home, token, database_id },
                    InitActionView::Send {
                        request: RequestView {
                            method: Method::Get,
                            url: api("/databases/"@ + database_id),
                            token,
                            body: None,
                        },
                    },
                    "✓  Connected as \""@ + home_or(r.name, "integration"@) + "\"\nChecking database...  "@,
                ),
            },
            InitEventView::Unreachable { reason } => init_failed(seq!["Authentication failed"@, no_connection(), reason]),
            _ => init_failed(seq![]),
        },
        InitStateView::Inspecting { config_path, home, token, database_id } => match e {
            InitEventView::Responded { response: r } => match status_outcome(r.code, r.status, r.message) {
                Err(err) => init_failed(
                    seq![database_context(database_id), cannot_access(database_id), error_text(err)],
                ),
                Ok(_) => match r.properties {
                    None => init_failed(seq![database_context(database_id), "Database has no properties"@]),
                    Some(p) => init_moved(
                        InitStateView::AskingNotesDir { config_path, home, token, database_id },
                        InitActionView::Ask { prompt: "Notes directory (e.g. ~/notes): "@ },
                        accessible_text(info_from(prop_names(p), prop_kinds(p), lowered_names(p))),
                    ),
                },
            },
            InitEventView::Unreachable { reason } => init_failed(
                seq![database_context(database_id), cannot_access(database_id), no_connection(), reason],
            ),
            _ => init_failed(seq![]),
        },
        InitStateView::AskingNotesDir { config_path, home, token, database_id } => match e {
            InitEventView::Answered { line: Ok(a) } => init_moved(
                InitStateView::CreatingDir {
                    config_path,
                    token,
                    database_id,
                    notes_dir: notes_dir_for(trim(a), home),
                },
                InitActionView::CreateDir { path: notes_dir_for(trim(a), home) },
                seq![],
            ),
            InitEventView::Answered { line: Err(cause) } => init_failed(seq![cause]),
            _ => init_failed(seq![]),
        },
        InitStateView::CreatingDir { config_path, token, database_id, notes_dir } => match e {
            InitEventView::DirCreated { error } => match error {
                Some(cause) => init_failed(seq!["Failed to create notes directory: "@ + notes_dir, cause]),
                None => init_moved(
                    InitStateView::Saving { config_path },
                    InitActionView::SaveConfig {
                        path: config_path,
                        config: ConfigView {
                            notes_dir: Some(notes_dir),
                            editor: None,
                            token: Some(token),
                            database_id: Some(database_id),
                        },
                    },
                    "✓  Notes directory: "@ + notes_dir + "\n"@,
                ),
            },
            _ => init_failed(seq![]),
        },
        InitStateView::Saving { config_path } => match e {
            InitEventView::Saved { failure } => match failure {
                Some(chain) => init_failed(chain),
                None => init_moved(InitStateView::Finished, InitActionView::Finish, saved_text(config_path)),
            },
            _ => init_failed(seq![]),
        },
        InitStateView::Finished => init_failed(seq![]),
    }
}


// ───────────────────────── making the moves ─────────────────────────

fn init_move(state: InitState, action: InitAction, out: String) -> (r: InitStep)
    ensures
        r@ == init_moved(state@, action@, out@),
{
    InitStep { state, action, out }
}

fn init_fail(chain: Vec<String>) -> (r: InitStep)
    ensures
        r@ == init_failed(strs_view(chain@)),
{
    InitStep { state: InitState::Finished, action: InitAction::Fail { chain }, out: String::new() }
}

fn welcome_step(config_path: String, home: Option<String>) -> (r: InitStep)
    ensures
        r@ == welcome(config_path@, opt_str(home)),
{
    init_move(
        InitState::AskingToken { config_path, home },
        InitAction::Ask { prompt: string_from("Notion integration token: ") },
        string_from(
            "Welcome to m2n — Markdown to Notion.\n\nCreate an integration at https://www.notion.so/my-integrations,\nthen open your database in Notion → '...' → Connections → add it.\n\n",
        ),
    )
}

fn checking_step(config_path: String, home: Option<String>, e: InitEvent) -> (r: InitStep)
    ensures
        r@ == init_step(InitStateView::CheckingConfig { config_path: config_path@, home: opt_str(home) }, e@),
{
    match e {
        InitEvent::PathChecked { exists } => {
            if exists {
                let mut prompt = string_from("Config already exists at ");
                push_str(&mut prompt, config_path.as_str());
                push_str(&mut prompt, ". Overwrite? [y/N]: ");
                init_move(InitState::Confirming { config_path, home }, InitAction::Ask { prompt }, String::new())
            } else {
                welcome_step(config_path, home)
            }
        },
        _ => init_fail(no_lines()),
    }
}

fn confirming_step(config_path: String, home: Option<String>, e: InitEvent) -> (r: InitStep)
    ensures
        r@ == init_step(InitStateView::Confirming { config_path: config_path@, home: opt_str(home) }, e@),
{
    match e {
        InitEvent::Answered { line } => match line {
            Ok(a) => {
                let t = trimmed(a.as_str());
                let l = to_lowercase(t.as_str());
                if str_eq(l.as_str(), "y") {
                    welcome_step(config_path, home)
                } else {
                    init_move(InitState::Finished, InitAction::Finish, string_from("Aborted.\n"))
                }
            },
            Err(cause) => init_fail(one_line(cause)),
        },
        _ => init_fail(no_lines()),
    }
}

fn token_step(config_path: String, home: Option<String>, e: InitEvent) -> (r: InitStep)
    ensures
        r@ == init_step(InitStateView::AskingToken { config_path: config_path@, home: opt_str(home) }, e@),
{
    match e {
        InitEvent::Answered { line } => match line {
            Ok(a) => {
                let t = trimmed(a.as_str());
                if chars_of(t.as_str()).len() == 0 {
                    init_fail(one_line(string_from("Token cannot be empty. Run `m2n init` again when you have one.")))
                } else {
                    init_move(
                        InitState::AskingDatabase { config_path, home, token: t },
                        InitAction::Ask { prompt: string_from("Notion database URL or ID: ") },
                        String::new(),
                    )
                }
            },
            Err(cause) => init_fail(one_line(cause)),
        },
        _ => init_fail(no_lines()),
    }
}

fn database_step(config_path: String, home: Option<String>, token: String, e: InitEvent) -> (r: InitStep)
    ensures
        r@ == init_step(
            InitStateView::AskingDatabase { config_path: config_path@, home: opt_str(home), token: token@ },
            e@,
        ),
{
    match e {
        InitEvent::Answered { line } => match line {
            Ok(a) => {
                let t = trimmed(a.as_str());
                if chars_of(t.as_str()).len() == 0 {
                    return init_fail(one_line(string_from("Database URL or ID cannot be empty.")));
                }
                match normalize_db_id(t.as_str()) {
                    None => {
                        let mut m = string_from("Could not find a 32-character Notion ID in: ");
                        push_str(&mut m, t.as_str());
                        push_str(
                            &mut m,
                            "\n→ Paste the full database URL (e.g. https://www.notion.so/...) or the bare ID.",
                        );
                        init_fail(one_line(m))
                    },
                    Some(d) => {
                        let url = api_url("/users/me");
                        let tok = copy_string(&token);
                        init_move(
                            InitState::Authenticating { config_path, home, token, database_id: d },
                            InitAction::Send { request: Request { method: Method::Get, url, token: tok, body: None } },
                            string_from("\nTesting connection... "),
                        )
                    },
                }
            },
            Err(cause) => init_fail(one_line(cause)),
        },
        _ => init_fail(no_lines()),
    }
}

fn authenticating_step(
    config_path: String,
    home: Option<String>,
    token: String,
    database_id: String,
    e: InitEvent,
) -> (r: InitStep)
    ensures
        r@ == init_step(
            InitStateView::Authenticating {
                config_path: config_path@,
                home: opt_str(home),
                token: token@,
                database_id: database_id@,
            },
            e@,
        ),
{
    match e {
        InitEvent::Responded { response } => match response_status(&response) {
            Err(err) => init_fail(two_lines(string_from("Authentication failed"), err.message())),
            Ok(()) => {
                let Response { code: _, status: _, message: _, properties: _, id: _, name } = response;
                let who = integration_name(name);
                let mut out = string_from("✓  Connected as \"");
                push_str(&mut out, who.as_str());
                push_str(&mut out, "\"\nChecking database...  ");
                let mut tail = string_from("/databases/");
                push_str(&mut tail, database_id.as_str());
                let url = api_url(tail.as_str());
                let tok = copy_string(&token);
                init_move(
                    InitState::Inspecting { config_path, home, token, database_id },
                    InitAction::Send { request: Request { method: Method::Get, url, token: tok, body: None } },
                    out,
                )
            },
        },
        InitEvent::Unreachable { reason } => {
            let mut chain = two_lines(string_from("Authentication failed"), string_from("Failed to connect to Notion API"));
            add_line(&mut chain, reason);
            assert(strs_view(chain@) =~= seq!["Authentication failed"@, no_connection(), e@->reason]);
            init_fail(chain)
        },
        _ => init_fail(no_lines()),
    }
}

fn context_for(database_id: &str) -> (r: String)
    ensures
        r@ == database_context(database_id@),
{
    let mut c = string_from("Cannot access database '");
    push_str(&mut c, database_id);
    push_str(
        &mut c,
        "'.\n→ Make sure the database is shared with your integration (Notion → '...' → Connections).",
    );
    c
}

fn access_for(database_id: &str) -> (r: String)
    ensures
        r@ == cannot_access(database_id@),
{
    let mut c = string_from("Cannot access database '");
    push_str(&mut c, database_id);
    push_str(&mut c, "'. Make sure it's shared with your integration.");
    c
}

/// What the wizard prints about a database it could read (`info`).
pub fn accessible_report(info: &crate::notion::DatabaseInfo) -> (r: String)
    ensures
        r@ == accessible_text(info@),
{
    let mut out = string_from("✓  Database accessible (title: \"");
    push_str(&mut out, info.title_prop.as_str());
    push_str(&mut out, "\", status: ");
    if info.status_prop.is_some() {
        push_str(&mut out, "✓");
    } else {
        push_str(&mut out, "—");
    }
    push_str(&mut out, ", tags: ");
    if info.tags_prop.is_some() {
        push_str(&mut out, "✓");
    } else {
        push_str(&mut out, "—");
    }
    push_str(&mut out, ")\n");
    let ghost head = out@;
    if info.status_prop.is_none() {
        push_str(
            &mut out,
            "   Note: no \"Status\" (select) property found — status will be skipped on push.\n→ Add a \"Status\" select property in Notion to sync this field.\n",
        );
    }
    let ghost middle = out@;
    if info.tags_prop.is_none() {
        push_str(
            &mut out,
            "   Note: no \"Tags\" (multi_select) property found — tags will be skipped on push.\n→ Add a \"Tags\" multi_select property in Notion to sync this field.\n",
        );
    }
    assert(out@ =~= accessible_text(info@));
    out
}

fn inspecting_step(
    config_path: String,
    home: Option<String>,
    token: String,
    database_id: String,
    e: InitEvent,
) -> (r: InitStep)
    ensures
        r@ == init_step(
            InitStateView::Inspecting {
                config_path: config_path@,
                home: opt_str(home),
                token: token@,
                database_id: database_id@,
            },
            e@,
        ),
{
    match e {
        InitEvent::Responded { response } => match response_status(&response) {
            Err(err) => {
                let mut chain = two_lines(context_for(database_id.as_str()), access_for(database_id.as_str()));
                add_line(&mut chain, err.message());
                assert(strs_view(chain@) =~= seq![
                    database_context(database_id@),
                    cannot_access(database_id@),
                    error_text(err@),
                ]);
                init_fail(chain)
            },
            Ok(()) => {
                let Response { code: _, status: _, message: _, properties, id: _, name: _ } = response;
                match inspect_database(properties) {
                    Err(_) => init_fail(
                        two_lines(context_for(database_id.as_str()), string_from("Database has no properties")),
                    ),
                    Ok(info) => {
                        let out = accessible_report(&info);
                        init_move(
                            InitState::AskingNotesDir { config_path, home, token, database_id },
                            InitAction::Ask { prompt: string_from("Notes directory (e.g. ~/notes): ") },
                            out,
                        )
                    },
                }
            },
        },
        InitEvent::Unreachable { reason } => {
            let mut chain = two_lines(context_for(database_id.as_str()), access_for(database_id.as_str()));
            add_line(&mut chain, string_from("Failed to connect to Notion API"));
            add_line(&mut chain, reason);
            assert(strs_view(chain@) =~= seq![
                database_context(database_id@),
                cannot_access(database_id@),
                no_connection(),
                e@->reason,
            ]);
            init_fail(chain)
        },
        _ => init_fail(no_lines()),
    }
}

/// The notes directory for the answer `raw` (already trimmed): `notes`
/// under the home directory (or the current one) when it is empty, else
/// `raw` with a leading `~` standing for the home directory.
pub fn notes_dir_from(raw: &str, home: &Option<String>) -> (r: String)
    ensures
        r@ == notes_dir_for(raw@, opt_str(*home)),
{
    if chars_of(raw).len() == 0 {
        match home {
            Some(h) => join(h.as_str(), "notes"),
            None => join(".", "notes"),
        }
    } else {
        match home {
            Some(h) => expand_dir(raw, h.as_str()),
            None => {
                let r = expand_dir(raw, "");
                assert(""@ =~= Seq::<char>::empty()) by {
                    reveal_strlit("");
                }
                r
            },
        }
    }
}

fn notes_step(config_path: String, home: Option<String>, token: String, database_id: String, e: InitEvent) -> (r:
    InitStep)
    ensures
        r@ == init_step(
            InitStateView::AskingNotesDir {
                config_path: config_path@,
                home: opt_str(home),
                token: token@,
                database_id: database_id@,
            },
            e@,
        ),
{
    match e {
        InitEvent::Answered { line } => match line {
            Ok(a) => {
                let t = trimmed(a.as_str());
                let dir = notes_dir_from(t.as_str(), &home);
                let p = copy_string(&dir);
                init_move(
                    InitState::CreatingDir { config_path, token, database_id, notes_dir: dir },
                    InitAction::CreateDir { path: p },
                    String::new(),
                )
            },
            Err(cause) => init_fail(one_line(cause)),
        },
        _ => init_fail(no_lines()),
    }
}

fn creating_step(config_path: String, token: String, database_id: String, notes_dir: String, e: InitEvent) -> (r:
    InitStep)
    ensures
        r@ == init_step(
            InitStateView::CreatingDir {
                config_path: config_path@,
                token: token@,
                database_id: database_id@,
                notes_dir: notes_dir@,
            },
            e@,
        ),
{
    match e {
        InitEvent::DirCreated { error } => match error {
            Some(cause) => {
                let mut c = string_from("Failed to create notes directory: ");
                push_str(&mut c, notes_dir.as_str());
                init_fail(two_lines(c, cause))
            },
            None => {
                let mut out = string_from("✓  Notes directory: ");
                push_str(&mut out, notes_dir.as_str());
                push_str(&mut out, "\n");
                let p = copy_string(&config_path);
                let config = Config {
                    notes_dir: Some(notes_dir),
                    editor: None,
                    notion: NotionConfig { token: Some(token), database_id: Some(database_id) },
                };
                init_move(InitState::Saving { config_path }, InitAction::SaveConfig { path: p, config }, out)
            },
        },
        _ => init_fail(no_lines()),
    }
}

fn saving_step(config_path: String, e: InitEvent) -> (r: InitStep)
    ensures
        r@ == init_step(InitStateView::Saving { config_path: config_path@ }, e@),
{
    match e {
        InitEvent::Saved { failure } => match failure {
            Some(chain) => init_fail(chain),
            None => {
                let mut out = string_from("\nConfig saved to ");
                push_str(&mut out, config_path.as_str());
                push_str(
                    &mut out,
                    "\nRun `m2n write \"My Note\"` to create a note and sync it to Notion.\nRun `m2n list` to see all your notes.\n",
                );
                init_move(InitState::Finished, InitAction::Finish, out)
            },
        },
        _ => init_fail(no_lines()),
    }
}

/// The next move of the wizard in state `s` on the event `e` that answers
/// its action: as `init_step` says.
pub fn step(s: InitState, e: InitEvent) -> (r: InitStep)
    requires
        init_expects(s@, e@),
    ensures
        r@ == init_step(s@, e@),
{
    match s {
        InitState::CheckingConfig { config_path, home } => checking_step(config_path, home, e),
        InitState::Confirming { config_path, home } => confirming_step(config_path, home, e),
        InitState::AskingToken { config_path, home } => token_step(config_path, home, e),
        InitState::AskingDatabase { config_path, home, token } => database_step(config_path, home, token, e),
        InitState::Authenticating { config_path, home, token, database_id } => authenticating_step(
            config_path,
            home,
            token,
            database_id,
            e,
        ),
        InitState::Inspecting { config_path, home, token, database_id } => inspecting_step(
            config_path,
            home,
            token,
            database_id,
            e,
        ),
        InitState::AskingNotesDir { config_path, home, token, database_id } => notes_step(
            config_path,
            home,
            token,
            database_id,
            e,
        ),
        InitState::CreatingDir { config_path, token, database_id, notes_dir } => creating_step(
            config_path,
            token,
            database_id,
            notes_dir,
            e,
        ),
        InitState::Saving { config_path } => saving_step(config_path, e),
        InitState::Finished => init_fail(no_lines()),
    }
}


// ───────────────────────── what the wizard promises ─────────────────────────

/// A database id as the wizard saves it: 32 hexadecimal digits.
pub open spec fn hex_id(d: Seq<char>) -> bool {
    d.len() == 32 && forall|i: int| 0 <= i < 32 ==> is_hex(#[trigger] d[i])
}

/// An id found in an address is 32 hexadecimal digits.
pub proof fn lemma_database_id_shape(raw: Seq<char>)
    ensures
        database_id_in(raw) matches Some(d) ==> hex_id(d),
{
    let d = without_dashes(last_segment(trim_end_char(raw.take(query_start(raw)), '/')));
    if d.len() >= 32 && (forall|i: int| d.len() - 32 <= i < d.len() ==> is_hex(#[trigger] d[i])) {
        let id = d.skip(d.len() - 32);
        assert forall|i: int| 0 <= i < 32 implies is_hex(#[trigger] id[i]) by {
            assert(id[i] == d[d.len() - 32 + i]);
        }
    }
}

/// What every state of the wizard keeps: once given, a token that is not
/// empty, and once found, a database id of 32 hexadecimal digits.
pub open spec fn init_keeps(s: InitStateView) -> bool {
    match s {
        InitStateView::AskingDatabase { token, .. } => token.len() > 0,
        InitStateView::Authenticating { token, database_id, .. } => token.len() > 0 && hex_id(database_id),
        InitStateView::Inspecting { token, database_id, .. } => token.len() > 0 && hex_id(database_id),
        InitStateView::AskingNotesDir { token, database_id, .. } => token.len() > 0 && hex_id(database_id),
        InitStateView::CreatingDir { token, database_id, .. } => token.len() > 0 && hex_id(database_id),
        _ => true,
    }
}

/// An action that saves a configuration saves a token that is not empty
/// and a database id of 32 hexadecimal digits.
pub open spec fn saves_checked(a: InitActionView) -> bool {
    match a {
        InitActionView::SaveConfig { config, .. } => match (config.token, config.database_id) {
            (Some(t), Some(d)) => t.len() > 0 && hex_id(d),
            _ => false,
        },
        _ => true,
    }
}

/// Every move of the wizard keeps the token and the database id well
/// formed, and the configuration it saves holds both.
pub proof fn lemma_init_saves_checked_settings(s: InitStateView, e: InitEventView)
    requires
        init_keeps(s),
    ensures
        init_keeps(init_step(s, e).state),
        saves_checked(init_step(s, e).action),
{
    match (s, e) {
        (InitStateView::AskingDatabase { .. }, InitEventView::Answered { line: Ok(a) }) => {
            lemma_database_id_shape(trim(a));
        },
        _ => {},
    }
}


/// What a move of the wizard shows the user: what it prints, the question
/// it asks, and the error when it fails.
pub open spec fn init_shown(r: InitStepView) -> (Seq<char>, Option<Seq<char>>, Option<Seq<Seq<char>>>) {
    (
        r.out,
        match r.action {
            InitActionView::Ask { prompt } => Some(prompt),
            _ => None,
        },
        match r.action {
            InitActionView::Fail { chain } => Some(chain),
            _ => None,
        },
    )
}

/// `s` with the token `t` in place of its own.
pub open spec fn init_retoken(s: InitStateView, t: Seq<char>) -> InitStateView {
    match s {
        InitStateView::AskingDatabase { config_path, home, .. } => InitStateView::AskingDatabase {
            config_path,
            home,
            token: t,
        },
        InitStateView::Authenticating { config_path, home, database_id, .. } => InitStateView::Authenticating {
            config_path,
            home,
            token: t,
            database_id,
        },
        InitStateView::Inspecting { config_path, home, database_id, .. } => InitStateView::Inspecting {
            config_path,
            home,
            token: t,
            database_id,
        },
        InitStateView::AskingNotesDir { config_path, home, database_id, .. } => InitStateView::AskingNotesDir {
            config_path,
            home,
            token: t,
            database_id,
        },
        InitStateView::CreatingDir { config_path, database_id, notes_dir, .. } => InitStateView::CreatingDir {
            config_path,
            token: t,
            database_id,
            notes_dir,
        },
        _ => s,
    }
}

/// The wizard never shows the token it was given: once it has one, with
/// another token it prints and asks the same and fails with the same
/// errors, and goes on the same way.
pub proof fn lemma_init_hides_token(s: InitStateView, e: InitEventView, t: Seq<char>)
    requires
        !(s is AskingToken),
    ensures
        init_shown(init_step(init_retoken(s, t), e)) == init_shown(init_step(s, e)),
        init_step(init_retoken(s, t), e).state == init_retoken(init_step(s, e).state, t),
{
}

/// Typing another token changes nothing that the wizard shows next.
pub proof fn lemma_init_hides_typed_token(config_path: Seq<char>, home: Option<Seq<char>>, a: Seq<char>, b: Seq<char>)
    requires
        trim(a).len() > 0,
        trim(b).len() > 0,
    ensures
        ({
            let s = InitStateView::AskingToken { config_path, home };
            let ea = InitEventView::Answered { line: Ok(a) };
            let eb = InitEventView::Answered { line: Ok(b) };
            &&& init_shown(init_step(s, eb)) == init_shown(init_step(s, ea))
            &&& init_step(s, eb).state == init_retoken(init_step(s, ea).state, trim(b))
        }),
{
}


/// What the wizard shows over the events `es`, answered one after the
/// other from state `s`, move by move.
pub open spec fn init_shows(
    s: InitStateView,
    es: Seq<InitEventView>,
) -> Seq<(Seq<char>, Option<Seq<char>>, Option<Seq<Seq<char>>>)>
    decreases es.len(),
{
    if es.len() == 0 {
        seq![]
    } else {
        seq![init_shown(init_step(s, es[0]))] + init_shows(init_step(s, es[0]).state, es.drop_first())
    }
}

/// The state the wizard reaches after the events `es`.
pub open spec fn init_after(s: InitStateView, es: Seq<InitEventView>) -> InitStateView
    decreases es.len(),
{
    if es.len() == 0 {
        s
    } else {
        init_after(init_step(s, es[0]).state, es.drop_first())
    }
}

/// No move goes back to asking for the token.
proof fn lemma_init_asks_token_first(s: InitStateView, e: InitEventView)
    requires
        !(s is CheckingConfig),
        !(s is Confirming),
    ensures
        !(init_step(s, e).state is AskingToken),
{
}

/// Over whole runs, once the token is given: the wizard with another token,
/// answered the same way, shows the same and ends in the same state up to
/// the token.
pub proof fn lemma_init_runs_hide_token(s: InitStateView, es: Seq<InitEventView>, t: Seq<char>)
    requires
        !(s is AskingToken),
        !(s is CheckingConfig),
        !(s is Confirming),
    ensures
        init_shows(init_retoken(s, t), es) == init_shows(s, es),
        init_after(init_retoken(s, t), es) == init_retoken(init_after(s, es), t),
    decreases es.len(),
{
    if es.len() > 0 {
        lemma_init_hides_token(s, es[0], t);
        lemma_init_asks_token_first(s, es[0]);
        assert(!(init_step(s, es[0]).state is CheckingConfig));
        assert(!(init_step(s, es[0]).state is Confirming));
        lemma_init_runs_hide_token(init_step(s, es[0]).state, es.drop_first(), t);
    }
}

/// A whole run of the wizard never shows the token typed: two runs that
/// differ only in the (non-empty) token typed, answered the same way from
/// then on, show the same.
pub proof fn lemma_init_run_hides_typed_token(
    config_path: Seq<char>,
    home: Option<Seq<char>>,
    a: Seq<char>,
    b: Seq<char>,
    es: Seq<InitEventView>,
)
    requires
        trim(a).len() > 0,
        trim(b).len() > 0,
    ensures
        ({
            let s = InitStateView::AskingToken { config_path, home };
            init_shows(s, seq![InitEventView::Answered { line: Ok(b) }] + es) == init_shows(
                s,
                seq![InitEventView::Answered { line: Ok(a) }] + es,
            )
        }),
{
    let s = InitStateView::AskingToken { config_path, home };
    let ea = InitEventView::Answered { line: Ok(a) };
    let eb = InitEventView::Answered { line: Ok(b) };
    let xa = seq![ea] + es;
    let xb = seq![eb] + es;
    assert(xa[0] == ea);
    assert(xb[0] == eb);
    assert(xa.drop_first() =~= es);
    assert(xb.drop_first() =~= es);
    lemma_init_hides_typed_token(config_path, home, a, b);
    lemma_init_runs_hide_token(init_step(s, ea).state, es, trim(b));
}

} // verus!
