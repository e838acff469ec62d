//! `check`: report on the configuration, the editor and the Notion
//! connection.
//!
//! The program loads the configuration and talks to Notion; `step` decides
//! what to ask next and what to print.
use crate::commands::push::{cannot_access, is_set};
use crate::config::{editor_choice, Config, ConfigView, Installed};
use crate::notion::{
    error_text, info_from, inspect_database, integration_name, lowered_names, opt_str, prop_kinds, prop_names,
    status_outcome, strs_view, DatabaseInfo, DatabaseInfoView,
};
use crate::notion_api::{api, api_url, response_status, Method, Request, RequestView, Response, ResponseView};
use crate::text::{chars_of, copy_string, join_nl, lacks, lemma_lines_join_ended, lines, push_str, string_from};
use vstd::prelude::*;

verus! {

/// Where the check stands.
pub enum CheckState {
    /// Waiting for the configuration; `env_editor` is `$EDITOR` when it is
    /// set.
    Loading { env_editor: Option<String>, installed: Installed },
    /// Waiting for Notion to say who the token belongs to.
    Authenticating { token: String, database: Option<String> },
    /// Waiting for Notion's answer about the database.
    Inspecting { database_id: String },
    /// Nothing more to do.
    Finished,
}

pub enum CheckStateView {
    Loading { env_editor: Option<Seq<char>>, installed: Installed },
    Authenticating { token: Seq<char>, database: Option<Seq<char>> },
    Inspecting { database_id: Seq<char> },
    Finished,
}

impl View for CheckState {
    type V = CheckStateView;

    open spec fn view(&self) -> CheckStateView {
        match self {
            CheckState::Loading { env_editor, installed } => CheckStateView::Loading {
                env_editor: opt_str(*env_editor),
                installed: *installed,
            },
            CheckState::Authenticating { token, database } => CheckStateView::Authenticating {
                token: token@,
                database: opt_str(*database),
            },
            CheckState::Inspecting { database_id } => CheckStateView::Inspecting { database_id: database_id@ },
            CheckState::Finished => CheckStateView::Finished,
        }
    }
}

/// What came of an action.
pub enum CheckEvent {
    /// The configuration was loaded.
    ConfigLoaded { config: Config },
    /// The configuration could not be loaded, for the reasons given
    /// (outermost first).
    ConfigFailed { chain: Vec<String> },
    /// Notion answered.
    Responded { response: Response },
    /// Notion could not be reached.
    Unreachable { reason: String },
}

pub enum CheckEventView {
    ConfigLoaded { config: ConfigView },
    ConfigFailed { chain: Seq<Seq<char>> },
    Responded { response: ResponseView },
    Unreachable { reason: Seq<char> },
}

impl View for CheckEvent {
    type V = CheckEventView;

    open spec fn view(&self) -> CheckEventView {
        match self {
            CheckEvent::ConfigLoaded { config } => CheckEventView::ConfigLoaded { config: config@ },
            CheckEvent::ConfigFailed { chain } => CheckEventView::ConfigFailed { chain: strs_view(chain@) },
            CheckEvent::Responded { response } => CheckEventView::Responded { response: response@ },
            CheckEvent::Unreachable { reason } => CheckEventView::Unreachable { reason: reason@ },
        }
    }
}

/// What the program does next.
pub enum CheckAction {
    /// Load the configuration file.
    LoadConfig,
    /// Send `request` to Notion.
    Send { request: Request },
    /// The check is done.
    Finish,
}

pub enum CheckActionView {
    LoadConfig,
    Send { request: RequestView },
    Finish,
}

impl View for CheckAction {
    type V = CheckActionView;

    open spec fn view(&self) -> CheckActionView {
        match self {
            CheckAction::LoadConfig => CheckActionView::LoadConfig,
            CheckAction::Send { request } => CheckActionView::Send { request: request@ },
            CheckAction::Finish => CheckActionView::Finish,
        }
    }
}

/// One move of the check: the next state and action, and the text to
/// print first.
pub struct CheckStep {
    pub state: CheckState,
    pub action: CheckAction,
    pub out: String,
}

pub struct CheckStepView {
    pub state: CheckStateView,
    pub action: CheckActionView,
    pub out: Seq<char>,
}

impl View for CheckStep {
    type V = CheckStepView;

    open spec fn view(&self) -> CheckStepView {
        CheckStepView { state: self.state@, action: self.action@, out: self.out@ }
    }
}

/// Whether `e` answers the action that led to `s`.
pub open spec fn check_expects(s: CheckStateView, e: CheckEventView) -> bool {
    match s {
        CheckStateView::Loading { .. } => e is ConfigLoaded || e is ConfigFailed,
        CheckStateView::Authenticating { .. } => e is Responded || e is Unreachable,
        CheckStateView::Inspecting { .. } => e is Responded || e is Unreachable,
        CheckStateView::Finished => false,
    }
}

impl CheckState {
    /// Whether `e` answers the action that led to this state.
    pub fn expects(&self, e: &CheckEvent) -> (r: bool)
        ensures
            r == check_expects(self@, e@),
    {
        match self {
            CheckState::Loading { .. } => match e {
                CheckEvent::ConfigLoaded { .. } | CheckEvent::ConfigFailed { .. } => true,
                _ => false,
            },
            CheckState::Authenticating { .. } | CheckState::Inspecting { .. } => match e {
                CheckEvent::Responded { .. } | CheckEvent::Unreachable { .. } => true,
                _ => false,
            },
            CheckState::Finished => false,
        }
    }
}

// ───────────────────────── what each move does ─────────────────────────

pub open spec fn or_else(o: Option<Seq<char>>, fallback: Seq<char>) -> Seq<char> {
    match o {
        Some(s) => s,
        None => fallback,
    }
}

/// A setting when it is present and not empty.
pub open spec fn set_value(o: Option<Seq<char>>) -> Option<Seq<char>> {
    if is_set(o) {
        o
    } else {
        None
    }
}

/// What the check prints about a configuration it could load.
pub open spec fn config_report(c: ConfigView, env_editor: Option<Seq<char>>, installed: Installed) -> Seq<char> {
    "Notes dir   : "@ + or_else(c.notes_dir, "not set"@) + "\nEditor      : "@ + editor_choice(
        c.editor,
        env_editor,
        installed,
    ) + "\n$EDITOR     : "@ + or_else(env_editor, "(not set)"@) + "\nNotion token: "@ + (if is_set(c.token) {
        "set"@
    } else {
        "not set"@
    }) + "\nDatabase ID : "@ + (if is_set(c.database_id) {
        "set"@
    } else {
        "not set"@
    }) + "\n"@
}

/// What the check prints about a database it could read.
pub open spec fn database_report(info: DatabaseInfoView) -> Seq<char> {
    "Database    : accessible\nTitle prop  : "@ + info.title_prop + "\nStatus prop : "@ + or_else(
        info.status_prop,
        "not found"@,
    ) + "\nTags prop   : "@ + or_else(info.tags_prop, "not found"@) + "\n"@
}

/// What the check prints about a database it could read is four lines: that
/// the database is accessible, then the title property, the status property
/// and the tags property that were found. The Status line names the status
/// property when there is one and reads `not found` only when there is
/// none, and the Tags line likewise names the tags property. This holds for
/// property names without line breaks.
pub proof fn lemma_database_report_lines(info: DatabaseInfoView)
    requires
        lacks(info.title_prop, '\n') && lacks(info.title_prop, '\r'),
        info.status_prop matches Some(s) ==> lacks(s, '\n') && lacks(s, '\r'),
        info.tags_prop matches Some(t) ==> lacks(t, '\n') && lacks(t, '\r'),
    ensures
        lines(database_report(info)).len() == 4,
        lines(database_report(info))[0] == "Database    : accessible"@,
        lines(database_report(info))[1] == "Title prop  : "@ + info.title_prop,
        info.status_prop matches Some(s) ==> lines(database_report(info))[2] == "Status prop : "@ + s,
        info.status_prop is None ==> lines(database_report(info))[2] == "Status prop : not found"@,
        info.tags_prop matches Some(t) ==> lines(database_report(info))[3] == "Tags prop   : "@ + t,
        info.tags_prop is None ==> lines(database_report(info))[3] == "Tags prop   : not found"@,
{
    reveal_strlit("Database    : accessible");
    reveal_strlit("Title prop  : ");
    reveal_strlit("Status prop : ");
    reveal_strlit("Tags prop   : ");
    reveal_strlit("not found");
    reveal_strlit("Status prop : not found");
    reveal_strlit("Tags prop   : not found");
    reveal_strlit("Database    : accessible\nTitle prop  : ");
    reveal_strlit("\nStatus prop : ");
    reveal_strlit("\nTags prop   : ");
    reveal_strlit("\n");
    let ls = seq![
        "Database    : accessible"@,
        "Title prop  : "@ + info.title_prop,
        "Status prop : "@ + or_else(info.status_prop, "not found"@),
        "Tags prop   : "@ + or_else(info.tags_prop, "not found"@),
    ];
    let l1 = ls.drop_first();
    let l2 = l1.drop_first();
    let l3 = l2.drop_first();
    assert(l3 =~= seq![ls[3]]);
    assert(join_nl(l3) == ls[3]);
    assert(join_nl(l2) == ls[2] + seq!['\n'] + ls[3]);
    assert(join_nl(l1) == ls[1] + seq!['\n'] + (ls[2] + seq!['\n'] + ls[3]));
    assert(join_nl(ls) =~= ls[0] + seq!['\n'] + ls[1] + seq!['\n'] + ls[2] + seq!['\n'] + ls[3]);
    assert(database_report(info) =~= join_nl(ls) + seq!['\n']);
    assert forall|k: int| 0 <= k < ls.len() implies (#[trigger] ls[k]).len() > 0 && lacks(ls[k], '\n') && lacks(
        ls[k],
        '\r',
    ) by {}
    lemma_lines_join_ended(ls);
}

pub open spec fn check_moved(state: CheckStateView, action: CheckActionView, out: Seq<char>) -> CheckStepView {
    CheckStepView { state, action, out }
}

/// The check ends after printing `out`.
pub open spec fn check_done(out: Seq<char>) -> CheckStepView {
    check_moved(CheckStateView::Finished, CheckActionView::Finish, out)
}

/// The next move of the check in state `s` on event `e`.
pub open spec fn check_step(s: CheckStateView, e: CheckEventView) -> CheckStepView {
    match s {
        CheckStateView::Loading { env_editor, installed } => match e {
            CheckEventView::ConfigFailed { chain } => check_done(
                "Config      : MISSING — "@ + (if chain.len() > 0 {
                    chain[0]
                } else {
                    seq![]
                }) + "\n\nRun `m2n init` to create a config.\n"@,
            ),
            CheckEventView::ConfigLoaded { config } => if is_set(config.token) {
                check_moved(
                    CheckStateView::Authenticating {
                        token: config.token.unwrap(),
                        database: set_value(config.database_id),
                    },
                    CheckActionView::Send {
                        request: RequestView {
                            method: Method::Get,
                            url: api("/users/me"@),
                            token: config.token.unwrap(),
                            body: None,
                        },
                    },
                    config_report(config, env_editor, installed),
                )
            } else {
                check_done(config_report(config, env_editor, installed))
            },
            _ => check_done(seq![]),
        },
        CheckStateView::Authenticating { token, database } => match e {
            CheckEventView::Responded { response: r } => match status_outcome(r.code, r.status, r.message) {
                Err(err) => check_done("Notion auth : FAILED — "@ + error_text(err) + "\n"@),
                Ok(_) => {
                    let line = "Notion auth : ok ("@ + or_else(r.name, "integration"@) + ")\n"@;
                    match database {
                        Some(d) => check_moved(
                            CheckStateView::Inspecting { database_id: d },
                            CheckActionView::Send {
                                request: RequestView {
                                    method: Method::Get,
                                    url: api("/databases/"@ + d),
                                    token,
                                    body: None,
                                },
                            },
                            line,
                        ),
                        None => check_done(line),
                    }
                },
            },
            CheckEventView::Unreachable { .. } => check_done(
                "Notion auth : FAILED — Failed to connect to Notion API\n"@,
            ),
            _ => check_done(seq![]),
        },
        CheckStateView::Inspecting { database_id } => match e {
            CheckEventView::Responded { response: r } => match status_outcome(r.code, r.status, r.message) {
                Err(_) => check_done("Database    : FAILED — "@ + cannot_access(database_id) + "\n"@),
                Ok(_) => match r.properties {
                    None => check_done("Database    : FAILED — Database has no properties\n"@),
                    Some(p) => check_done(database_report(info_from(prop_names(p), prop_kinds(p), lowered_names(p)))),
                },
            },
            CheckEventView::Unreachable { .. } => check_done(
                "Database    : FAILED — "@ + cannot_access(database_id) + "\n"@,
            ),
            _ => check_done(seq![]),
        },
        CheckStateView::Finished => check_done(seq![]),
    }
}

// ───────────────────────── making the moves ─────────────────────────

/// `check` for the configuration at `config_path`, with `$EDITOR` when it
/// is set and the editors that are installed: it prints where the
/// configuration is, then loads it.
pub fn run(config_path: &str, env_editor: Option<String>, installed: Installed) -> (r: CheckStep)
    ensures
        r@ == check_moved(
            CheckStateView::Loading { env_editor: opt_str(env_editor), installed },
            CheckActionView::LoadConfig,
            "Config path : "@ + config_path@ + "\n"@,
        ),
{
    let mut out = string_from("Config path : ");
    push_str(&mut out, config_path);
    push_str(&mut out, "\n");
    CheckStep { state: CheckState::Loading { env_editor, installed }, action: CheckAction::LoadConfig, out }
}

fn check_finish(out: String) -> (r: CheckStep)
    ensures
        r@ == check_done(out@),
{
    CheckStep { state: CheckState::Finished, action: CheckAction::Finish, out }
}

fn push_or(out: &mut String, o: &Option<String>, fallback: &str)
    ensures
        final(out)@ == old(out)@ + or_else(opt_str(*o), fallback@),
{
    match o {
        Some(s) => push_str(out, s.as_str()),
        None => push_str(out, fallback),
    }
}

fn set_copy(o: &Option<String>) -> (r: Option<String>)
    ensures
        opt_str(r) == set_value(opt_str(*o)),
{
    match o {
        Some(s) => if chars_of(s.as_str()).len() > 0 {
            Some(copy_string(s))
        } else {
            None
        },
        None => None,
    }
}

/// What the check prints about a configuration it could load.
pub fn config_lines(config: &Config, env_editor: &Option<String>, installed: Installed) -> (r: String)
    ensures
        r@ == config_report(config@, opt_str(*env_editor), installed),
{
    let mut out = string_from("Notes dir   : ");
    push_or(&mut out, &config.notes_dir, "not set");
    push_str(&mut out, "\nEditor      : ");
    let editor = config.editor(env_editor, installed);
    push_str(&mut out, editor.as_str());
    push_str(&mut out, "\n$EDITOR     : ");
    push_or(&mut out, env_editor, "(not set)");
    push_str(&mut out, "\nNotion token: ");
    let token_set = match &config.notion.token {
        Some(t) => chars_of(t.as_str()).len() > 0,
        None => false,
    };
    if token_set {
        push_str(&mut out, "set");
    } else {
        push_str(&mut out, "not set");
    }
    push_str(&mut out, "\nDatabase ID : ");
    let db_set = match &config.notion.database_id {
        Some(d) => chars_of(d.as_str()).len() > 0,
        None => false,
    };
    if db_set {
        push_str(&mut out, "set");
    } else {
        push_str(&mut out, "not set");
    }
    push_str(&mut out, "\n");
    assert(out@ =~= config_report(config@, opt_str(*env_editor), installed));
    out
}

/// What the check prints about a database it could read (`info`).
pub fn database_lines(info: &DatabaseInfo) -> (r: String)
    ensures
        r@ == database_report(info@),
{
    let mut out = string_from("Database    : accessible\nTitle prop  : ");
    push_str(&mut out, info.title_prop.as_str());
    push_str(&mut out, "\nStatus prop : ");
    push_or(&mut out, &info.status_prop, "not found");
    push_str(&mut out, "\nTags prop   : ");
    push_or(&mut out, &info.tags_prop, "not found");
    push_str(&mut out, "\n");
    out
}

fn access_failed(database_id: &str) -> (r: String)
    ensures
        r@ == "Database    : FAILED — "@ + cannot_access(database_id@) + "\n"@,
{
    let mut out = string_from("Database    : FAILED — Cannot access database '");
    push_str(&mut out, database_id);
    push_str(&mut out, "'. Make sure it's shared with your integration.\n");
    assert(out@ =~= "Database    : FAILED — "@ + cannot_access(database_id@) + "\n"@) by {
        reveal_strlit("Database    : FAILED — Cannot access database '");
        reveal_strlit("Database    : FAILED — ");
        reveal_strlit("Cannot access database '");
        reveal_strlit("'. Make sure it's shared with your integration.\n");
        reveal_strlit("'. Make sure it's shared with your integration.");
        reveal_strlit("\n");
    }
    out
}

/// The next move of the check in state `s` on the event `e` that answers
/// its action: as `check_step` says.
pub fn step(s: CheckState, e: CheckEvent) -> (r: CheckStep)
    requires
        check_expects(s@, e@),
    ensures
        r@ == check_step(s@, e@),
{
    match s {
        CheckState::Loading { env_editor, installed } => match e {
            CheckEvent::ConfigFailed { chain } => {
                let mut out = string_from("Config      : MISSING — ");
                if chain.len() > 0 {
                    push_str(&mut out, chain[0].as_str());
                }
                push_str(&mut out, "\n\nRun `m2n init` to create a config.\n");
                proof {
                    if chain@.len() == 0 {
                        assert(out@ =~= "Config      : MISSING — "@ + Seq::<char>::empty()
                            + "\n\nRun `m2n init` to create a config.\n"@);
                    }
                }
                check_finish(out)
            },
            CheckEvent::ConfigLoaded { config } => {
                let out = config_lines(&config, &env_editor, installed);
                let Config { notes_dir: _, editor: _, notion } = config;
                let crate::config::NotionConfig { token, database_id } = notion;
                let db = set_copy(&database_id);
                match token {
                    Some(t) => if chars_of(t.as_str()).len() > 0 {
                        let url = api_url("/users/me");
                        let tok = copy_string(&t);
                        CheckStep {
                            state: CheckState::Authenticating { token: t, database: db },
                            action: CheckAction::Send { request: Request { method: Method::Get, url, token: tok, body: None } },
                            out,
                        }
                    } else {
                        check_finish(out)
                    },
                    None => check_finish(out),
                }
            },
            _ => check_finish(String::new()),
        },
        CheckState::Authenticating { token, database } => match e {
            CheckEvent::Responded { response } => match response_status(&response) {
                Err(err) => {
                    let mut out = string_from("Notion auth : FAILED — ");
                    let m = err.message();
                    push_str(&mut out, m.as_str());
                    push_str(&mut out, "\n");
                    check_finish(out)
                },
                Ok(()) => {
                    let Response { code: _, status: _, message: _, properties: _, id: _, name } = response;
                    let who = integration_name(name);
                    let mut out = string_from("Notion auth : ok (");
                    push_str(&mut out, who.as_str());
                    push_str(&mut out, ")\n");
                    match database {
                        Some(d) => {
                            let mut tail = string_from("/databases/");
                            push_str(&mut tail, d.as_str());
                            let url = api_url(tail.as_str());
                            CheckStep {
                                state: CheckState::Inspecting { database_id: d },
                                action: CheckAction::Send {
                                    request: Request { method: Method::Get, url, token, body: None },
                                },
                                out,
                            }
                        },
                        None => check_finish(out),
                    }
                },
            },
            CheckEvent::Unreachable { .. } => check_finish(
                string_from("Notion auth : FAILED — Failed to connect to Notion API\n"),
            ),
            _ => check_finish(String::new()),
        },
        CheckState::Inspecting { database_id } => match e {
            CheckEvent::Responded { response } => match response_status(&response) {
                Err(_) => check_finish(access_failed(database_id.as_str())),
                Ok(()) => {
                    let Response { code: _, status: _, message: _, properties, id: _, name: _ } = response;
                    match inspect_database(properties) {
                        Err(_) => check_finish(string_from("Database    : FAILED — Database has no properties\n")),
                        Ok(info) => check_finish(database_lines(&info)),
                    }
                },
            },
            CheckEvent::Unreachable { .. } => check_finish(access_failed(database_id.as_str())),
            _ => check_finish(String::new()),
        },
        CheckState::Finished => check_finish(String::new()),
    }
}


// ───────────────────────── what the check promises ─────────────────────────

/// `s` with the token `t` in place of its own.
pub open spec fn check_retoken(s: CheckStateView, t: Seq<char>) -> CheckStateView {
    match s {
        CheckStateView::Authenticating { database, .. } => CheckStateView::Authenticating { token: t, database },
        _ => s,
    }
}

/// The check never shows the token: with another token it prints the same
/// and goes on the same way.
pub proof fn lemma_check_hides_token(s: CheckStateView, e: CheckEventView, t: Seq<char>)
    requires
        t.len() > 0,
        !(s is Loading),
    ensures
        check_step(check_retoken(s, t), e).out == check_step(s, e).out,
        check_step(check_retoken(s, t), e).state == check_retoken(check_step(s, e).state, t),
{
}

/// The check shows only whether a token is set: configurations that differ
/// only in a token that is set print the same, and the check goes on the
/// same way.
pub proof fn lemma_check_hides_configured_token(
    env_editor: Option<Seq<char>>,
    installed: Installed,
    c: ConfigView,
    t: Seq<char>,
)
    requires
        t.len() > 0,
        is_set(c.token),
    ensures
        ({
            let s = CheckStateView::Loading { env_editor, installed };
            let c2 = ConfigView { notes_dir: c.notes_dir, editor: c.editor, token: Some(t), database_id: c.database_id };
            &&& check_step(s, CheckEventView::ConfigLoaded { config: c2 }).out == check_step(
                s,
                CheckEventView::ConfigLoaded { config: c },
            ).out
            &&& check_step(s, CheckEventView::ConfigLoaded { config: c2 }).state == check_retoken(
                check_step(s, CheckEventView::ConfigLoaded { config: c }).state,
                t,
            )
        }),
{
}


/// The check shows only whether a database id is set, never the id:
/// configurations that differ only in a database id that is set print the
/// same.
pub proof fn lemma_check_hides_database_id(
    env_editor: Option<Seq<char>>,
    installed: Installed,
    c: ConfigView,
    d: Seq<char>,
)
    requires
        d.len() > 0,
        is_set(c.database_id),
    ensures
        ({
            let s = CheckStateView::Loading { env_editor, installed };
            let c2 = ConfigView { notes_dir: c.notes_dir, editor: c.editor, token: c.token, database_id: Some(d) };
            check_step(s, CheckEventView::ConfigLoaded { config: c2 }).out == check_step(
                s,
                CheckEventView::ConfigLoaded { config: c },
            ).out
        }),
{
}


/// What the check prints over the events `es`, answered one after the
/// other from state `s`, move by move.
pub open spec fn check_shows(s: CheckStateView, es: Seq<CheckEventView>) -> Seq<Seq<char>>
    decreases es.len(),
{
    if es.len() == 0 {
        seq![]
    } else {
        seq![check_step(s, es[0]).out] + check_shows(check_step(s, es[0]).state, es.drop_first())
    }
}

/// The state the check reaches after the events `es`.
pub open spec fn check_after(s: CheckStateView, es: Seq<CheckEventView>) -> CheckStateView
    decreases es.len(),
{
    if es.len() == 0 {
        s
    } else {
        check_after(check_step(s, es[0]).state, es.drop_first())
    }
}

/// Over whole runs, once the configuration is loaded: the check with
/// another token prints the same and ends in the same state up to the
/// token.
pub proof fn lemma_check_runs_hide_token(s: CheckStateView, es: Seq<CheckEventView>, t: Seq<char>)
    requires
        t.len() > 0,
        !(s is Loading),
    ensures
        check_shows(check_retoken(s, t), es) == check_shows(s, es),
        check_after(check_retoken(s, t), es) == check_retoken(check_after(s, es), t),
    decreases es.len(),
{
    if es.len() > 0 {
        lemma_check_hides_token(s, es[0], t);
        assert(!(check_step(s, es[0]).state is Loading));
        lemma_check_runs_hide_token(check_step(s, es[0]).state, es.drop_first(), t);
    }
}

/// A whole check never shows the token: with configurations that differ
/// only in a token that is set, and the same answers from Notion, it
/// prints the same.
pub proof fn lemma_check_run_hides_configured_token(
    env_editor: Option<Seq<char>>,
    installed: Installed,
    c: ConfigView,
    t: Seq<char>,
    es: Seq<CheckEventView>,
)
    requires
        t.len() > 0,
        is_set(c.token),
    ensures
        ({
            let s = CheckStateView::Loading { env_editor, installed };
            let c2 = ConfigView { notes_dir: c.notes_dir, editor: c.editor, token: Some(t), database_id: c.database_id };
            check_shows(s, seq![CheckEventView::ConfigLoaded { config: c2 }] + es) == check_shows(
                s,
                seq![CheckEventView::ConfigLoaded { config: c }] + es,
            )
        }),
{
    let s = CheckStateView::Loading { env_editor, installed };
    let c2 = ConfigView { notes_dir: c.notes_dir, editor: c.editor, token: Some(t), database_id: c.database_id };
    let e1 = CheckEventView::ConfigLoaded { config: c };
    let e2 = CheckEventView::ConfigLoaded { config: c2 };
    let a = seq![e1] + es;
    let b = seq![e2] + es;
    assert(a[0] == e1);
    assert(b[0] == e2);
    assert(a.drop_first() =~= es);
    assert(b.drop_first() =~= es);
    lemma_check_hides_configured_token(env_editor, installed, c, t);
    assert(!(check_step(s, e1).state is Loading));
    lemma_check_runs_hide_token(check_step(s, e1).state, es, t);
}

} // verus!
