//! `new`: create a blank page in the Notion database, with no editor and no
//! local file.
//!
//! The program loads the configuration and talks to Notion; `step`
//! decides what to ask next and what to print.
use crate::commands::push::{
    cannot_access, create_failed, database_unset, inspect_failed, is_set, no_connection, page_address, page_url,
    token_unset,
};
use crate::config::{Config, ConfigView, NotionConfig};
use crate::markdown::{blocks_view, Block, BlockView};
use crate::notion::{
    error_text, info_from, inspect_database, lowered_names, opt_str, page_id_of, page_json, plan_page, prop_kinds,
    prop_names, status_outcome, strs_view, PagePlan,
};
use crate::notion_api::{api, api_url, response_status, Method, Request, RequestView, Response, ResponseView};
use crate::text::{chars_of, copy_string, no_lines, one_line, push_str, string_from, two_lines, add_line};
use vstd::prelude::*;

verus! {

/// Where `new` stands.
pub enum NewState {
    /// Waiting for the configuration.
    Loading { title: String },
    /// Waiting for Notion's answer about the database.
    Inspecting { title: String, token: String, database_id: String },
    /// Waiting for Notion to create the page.
    Creating { title: String },
    /// Nothing more to do.
    Finished,
}

pub enum NewStateView {
    Loading { title: Seq<char> },
    Inspecting { title: Seq<char>, token: Seq<char>, database_id: Seq<char> },
    Creating { title: Seq<char> },
    Finished,
}

impl View for NewState {
    type V = NewStateView;

    open spec fn view(&self) -> NewStateView {
        match self {
            NewState::Loading { title } => NewStateView::Loading { title: title@ },
            NewState::Inspecting { title, token, database_id } => NewStateView::Inspecting {
                title: title@,
                token: token@,
                database_id: database_id@,
            },
            NewState::Creating { title } => NewStateView::Creating { title: title@ },
            NewState::Finished => NewStateView::Finished,
        }
    }
}

/// What came of an action.
pub enum NewEvent {
    /// The configuration was loaded.
    ConfigLoaded { config: Config },
    /// The configuration could not be loaded, for the reasons given
    /// (outermost first).
    ConfigFailed { chain: Vec<String> },
    /// Notion answered.
    Responded { response: Response },
    /// Notion could not be reached, for the reason given.
    Unreachable { reason: String },
}

pub enum NewEventView {
    ConfigLoaded { config: ConfigView },
    ConfigFailed { chain: Seq<Seq<char>> },
    Responded { response: ResponseView },
    Unreachable { reason: Seq<char> },
}

impl View for NewEvent {
    type V = NewEventView;

    open spec fn view(&self) -> NewEventView {
        match self {
            NewEvent::ConfigLoaded { config } => NewEventView::ConfigLoaded { config: config@ },
            NewEvent::ConfigFailed { chain } => NewEventView::ConfigFailed { chain: strs_view(chain@) },
            NewEvent::Responded { response } => NewEventView::Responded { response: response@ },
            NewEvent::Unreachable { reason } => NewEventView::Unreachable { reason: reason@ },
        }
    }
}

/// What the program does next: `new` only loads the configuration and
/// talks to Notion.
pub enum NewAction {
    /// Load the configuration file.
    LoadConfig,
    /// Send `request` to Notion.
    Send { request: Request },
    /// The page is created.
    Finish,
    /// `new` failed: the error, then what caused it, outermost first.
    Fail { chain: Vec<String> },
}

pub enum NewActionView {
    LoadConfig,
    Send { request: RequestView },
    Finish,
    Fail { chain: Seq<Seq<char>> },
}

impl View for NewAction {
    type V = NewActionView;

    open spec fn view(&self) -> NewActionView {
        match self {
            NewAction::LoadConfig => NewActionView::LoadConfig,
            NewAction::Send { request } => NewActionView::Send { request: request@ },
            NewAction::Finish => NewActionView::Finish,
            NewAction::Fail { chain } => NewActionView::Fail { chain: strs_view(chain@) },
        }
    }
}

/// One move of `new`: the next state and action, and the text to print
/// first.
pub struct NewStep {
    pub state: NewState,
    pub action: NewAction,
    pub out: String,
}

pub struct NewStepView {
    pub state: NewStateView,
    pub action: NewActionView,
    pub out: Seq<char>,
}

impl View for NewStep {
    type V = NewStepView;

    open spec fn view(&self) -> NewStepView {
        NewStepView { state: self.state@, action: self.action@, out: self.out@ }
    }
}

/// Whether `e` answers the action that led to `s`.
pub open spec fn new_expects(s: NewStateView, e: NewEventView) -> bool {
    match s {
        NewStateView::Loading { .. } => e is ConfigLoaded || e is ConfigFailed,
        NewStateView::Inspecting { .. } => e is Responded || e is Unreachable,
        NewStateView::Creating { .. } => e is Responded || e is Unreachable,
        NewStateView::Finished => false,
    }
}

impl NewState {
    /// Whether `e` answers the action that led to this state.
    pub fn expects(&self, e: &NewEvent) -> (r: bool)
        ensures
            r == new_expects(self@, e@),
    {
        match self {
            NewState::Loading { .. } => match e {
                NewEvent::ConfigLoaded { .. } | NewEvent::ConfigFailed { .. } => true,
                _ => false,
            },
            NewState::Inspecting { .. } | NewState::Creating { .. } => match e {
                NewEvent::Responded { .. } | NewEvent::Unreachable { .. } => true,
                _ => false,
            },
            NewState::Finished => false,
        }
    }
}

// ───────────────────────── what each move does ─────────────────────────

pub open spec fn new_moved(state: NewStateView, action: NewActionView, out: Seq<char>) -> NewStepView {
    NewStepView { state, action, out }
}

/// `new` fails with `chain`.
pub open spec fn new_failed(chain: Seq<Seq<char>>) -> NewStepView {
    new_moved(NewStateView::Finished, NewActionView::Fail { chain }, seq![])
}

/// The request that creates the blank page titled `title` in the database
/// `database_id` whose answer listed the properties `p`: the title, no
/// status, no tags and no blocks.
pub open spec fn blank_page_request(
    token: Seq<char>,
    database_id: Seq<char>,
    title: Seq<char>,
    p: Seq<crate::notion::Property>,
) -> RequestView {
    RequestView {
        method: Method::Post,
        url: api("/pages"@),
        token,
        body: Some(
            page_json(
                database_id,
                info_from(prop_names(p), prop_kinds(p), lowered_names(p)),
                title,
                None,
                seq![],
                seq![],
            ),
        ),
    }
}

/// What `new` prints once the page is created.
pub open spec fn created_text(title: Seq<char>, page_id: Seq<char>) -> Seq<char> {
    "Created: \""@ + title + "\"\nURL:    "@ + page_url(page_id) + "\n"@
}

/// The next move of `new` in state `s` on event `e`.
pub open spec fn new_step(s: NewStateView, e: NewEventView) -> NewStepView {
    match s {
        NewStateView::Loading { title } => match e {
            NewEventView::ConfigLoaded { config: c } => if !is_set(c.token) {
                new_failed(seq![token_unset()])
            } else if !is_set(c.database_id) {
                new_failed(seq![database_unset()])
            } else {
                new_moved(
                    NewStateView::Inspecting { title, token: c.token.unwrap(), database_id: c.database_id.unwrap() },
                    NewActionView::Send {
                        request: RequestView {
                            method: Method::Get,
                            url: api("/databases/"@ + c.database_id.unwrap()),
                            token: c.token.unwrap(),
                            body: None,
                        },
                    },
                    seq![],
                )
            },
            NewEventView::ConfigFailed { chain } => new_failed(chain),
            _ => new_failed(seq![]),
        },
        NewStateView::Inspecting { title, token, database_id } => match e {
            NewEventView::Responded { response: r } => match status_outcome(r.code, r.status, r.message) {
                Err(err) => new_failed(seq![inspect_failed(), cannot_access(database_id), error_text(err)]),
                Ok(_) => match r.properties {
                    None => new_failed(seq![inspect_failed(), "Database has no properties"@]),
                    Some(p) => new_moved(
                        NewStateView::Creating { title },
                        NewActionView::Send { request: blank_page_request(token, database_id, title, p) },
                        seq![],
                    ),
                },
            },
            NewEventView::Unreachable { reason } => new_failed(
                seq![inspect_failed(), cannot_access(database_id), no_connection(), reason],
            ),
            _ => new_failed(seq![]),
        },
        NewStateView::Creating { title } => match e {
            NewEventView::Responded { response: r } => match status_outcome(r.code, r.status, r.message) {
                Err(err) => new_failed(seq![create_failed(), error_text(err)]),
                Ok(_) => match r.id {
                    None => new_failed(seq![create_failed(), "Missing page ID in Notion response"@]),
                    Some(id) => new_moved(NewStateView::Finished, NewActionView::Finish, created_text(title, id)),
                },
            },
            NewEventView::Unreachable { reason } => new_failed(seq![create_failed(), no_connection(), reason]),
            _ => new_failed(seq![]),
        },
        NewStateView::Finished => new_failed(seq![]),
    }
}

// ───────────────────────── making the moves ─────────────────────────

/// `new <title>`: create a blank page titled `title` in the configured
/// database. It starts by loading the configuration.
pub fn run(title: &str) -> (r: (NewState, NewAction))
    ensures
        r.0@ == (NewStateView::Loading { title: title@ }),
        r.1@ == NewActionView::LoadConfig,
{
    (NewState::Loading { title: string_from(title) }, NewAction::LoadConfig)
}

fn new_fail(chain: Vec<String>) -> (r: NewStep)
    ensures
        r@ == new_failed(strs_view(chain@)),
{
    NewStep { state: NewState::Finished, action: NewAction::Fail { chain }, out: String::new() }
}

fn access_text(database_id: &str) -> (r: String)
    ensures
        r@ == cannot_access(database_id@),
{
    let mut c = string_from("Cannot access database '");
    push_str(&mut c, database_id);
    push_str(&mut c, "'. Make sure it's shared with your integration.");
    c
}

fn loading_step(title: String, e: NewEvent) -> (r: NewStep)
    ensures
        r@ == new_step(NewStateView::Loading { title: title@ }, e@),
{
    match e {
        NewEvent::ConfigLoaded { config } => {
            let Config { notes_dir: _, editor: _, notion } = config;
            let NotionConfig { token, database_id } = notion;
            let token_set = match &token {
                Some(t) => chars_of(t.as_str()).len() > 0,
                None => false,
            };
            if !token_set {
                return new_fail(
                    one_line(string_from("notion.token is not set.\n→ Run `m2n init` to set up your Notion integration.")),
                );
            }
            let db_set = match &database_id {
                Some(d) => chars_of(d.as_str()).len() > 0,
                None => false,
            };
            if !db_set {
                return new_fail(
                    one_line(
                        string_from("notion.database_id is not set.\n→ Run `m2n init` to configure your Notion database."),
                    ),
                );
            }
            match (token, database_id) {
                (Some(t), Some(d)) => {
                    let mut tail = string_from("/databases/");
                    push_str(&mut tail, d.as_str());
                    let url = api_url(tail.as_str());
                    let tok = copy_string(&t);
                    NewStep {
                        state: NewState::Inspecting { title, token: t, database_id: d },
                        action: NewAction::Send { request: Request { method: Method::Get, url, token: tok, body: None } },
                        out: String::new(),
                    }
                },
                _ => new_fail(no_lines()),
            }
        },
        NewEvent::ConfigFailed { chain } => new_fail(chain),
        _ => new_fail(no_lines()),
    }
}

fn inspecting_step(title: String, token: String, database_id: String, e: NewEvent) -> (r: NewStep)
    ensures
        r@ == new_step(
            NewStateView::Inspecting { title: title@, token: token@, database_id: database_id@ },
            e@,
        ),
{
    match e {
        NewEvent::Responded { response } => match response_status(&response) {
            Err(err) => {
                let mut chain = two_lines(
                    string_from("Failed to inspect Notion database"),
                    access_text(database_id.as_str()),
                );
                add_line(&mut chain, err.message());
                assert(strs_view(chain@) =~= seq![inspect_failed(), cannot_access(database_id@), error_text(err@)]);
                new_fail(chain)
            },
            Ok(()) => {
                let Response { code: _, status: _, message: _, properties, id: _, name: _ } = response;
                let ghost props = properties;
                match inspect_database(properties) {
                    Err(_) => new_fail(
                        two_lines(
                            string_from("Failed to inspect Notion database"),
                            string_from("Database has no properties"),
                        ),
                    ),
                    Ok(info) => {
                        let blocks: Vec<Block> = Vec::new();
                        let tags: Vec<String> = Vec::new();
                        let plan = plan_page(database_id.as_str(), &info, title.as_str(), &None, &tags, &blocks);
                        proof {
                            assert(blocks_view(blocks@) =~= Seq::<BlockView>::empty());
                            assert(blocks_view(blocks@).take(0) =~= Seq::<BlockView>::empty());
                            assert(strs_view(tags@) =~= Seq::<Seq<char>>::empty());
                        }
                        let PagePlan { create_body, append_bodies: _ } = plan;
                        let url = api_url("/pages");
                        NewStep {
                            state: NewState::Creating { title },
                            action: NewAction::Send {
                                request: Request { method: Method::Post, url, token, body: Some(create_body) },
                            },
                            out: String::new(),
                        }
                    },
                }
            },
        },
        NewEvent::Unreachable { reason } => {
            let mut chain = two_lines(string_from("Failed to inspect Notion database"), access_text(database_id.as_str()));
            add_line(&mut chain, string_from("Failed to connect to Notion API"));
            add_line(&mut chain, reason);
            assert(strs_view(chain@) =~= seq![
                inspect_failed(),
                cannot_access(database_id@),
                no_connection(),
                e@->reason,
            ]);
            new_fail(chain)
        },
        _ => new_fail(no_lines()),
    }
}

fn creating_step(title: String, e: NewEvent) -> (r: NewStep)
    ensures
        r@ == new_step(NewStateView::Creating { title: title@ }, e@),
{
    match e {
        NewEvent::Responded { response } => match response_status(&response) {
            Err(err) => new_fail(two_lines(string_from("Failed to create Notion page"), err.message())),
            Ok(()) => {
                let Response { code: _, status: _, message: _, properties: _, id, name: _ } = response;
                match page_id_of(id) {
                    Err(err) => new_fail(two_lines(string_from("Failed to create Notion page"), err.message())),
                    Ok(pid) => {
                        let mut out = string_from("Created: \"");
                        push_str(&mut out, title.as_str());
                        push_str(&mut out, "\"\nURL:    ");
                        let url = page_address(pid.as_str());
                        push_str(&mut out, url.as_str());
                        push_str(&mut out, "\n");
                        NewStep { state: NewState::Finished, action: NewAction::Finish, out }
                    },
                }
            },
        },
        NewEvent::Unreachable { reason } => {
            let mut chain = two_lines(
                string_from("Failed to create Notion page"),
                string_from("Failed to connect to Notion API"),
            );
            add_line(&mut chain, reason);
            assert(strs_view(chain@) =~= seq![create_failed(), no_connection(), e@->reason]);
            new_fail(chain)
        },
        _ => new_fail(no_lines()),
    }
}

/// The next move of `new` in state `s` on the event `e` that answers its
/// action: as `new_step` says.
pub fn step(s: NewState, e: NewEvent) -> (r: NewStep)
    requires
        new_expects(s@, e@),
    ensures
        r@ == new_step(s@, e@),
{
    match s {
        NewState::Loading { title } => loading_step(title, e),
        NewState::Inspecting { title, token, database_id } => inspecting_step(title, token, database_id, e),
        NewState::Creating { title } => creating_step(title, e),
        NewState::Finished => new_fail(no_lines()),
    }
}

// ───────────────────────── what `new` promises ─────────────────────────

/// A request that creates a page comes only on Notion's answer about the
/// database, and asks for the blank page: the title, and no status, tags
/// or blocks.
pub open spec fn creates_blank_page(s: NewStateView, e: NewEventView) -> bool {
    match new_step(s, e).action {
        NewActionView::Send { request } => request.method == Method::Post ==> match (s, e) {
            (NewStateView::Inspecting { title, token, database_id }, NewEventView::Responded { response }) =>
                match response.properties {
                Some(p) => request == blank_page_request(token, database_id, title, p),
                None => false,
            },
            _ => false,
        },
        _ => true,
    }
}

/// `new` sends Notion one request that creates a page, and that page is
/// blank: it has the title and no status, tags or blocks. After it, `new`
/// sends nothing more. It writes no file and starts no editor: none of its
/// actions does.
pub proof fn lemma_new_creates_one_blank_page(s: NewStateView, e: NewEventView)
    ensures
        creates_blank_page(s, e),
        s is Creating ==> !(new_step(s, e).action is Send),
        new_step(s, e).action is Send && (new_step(s, e).action->request).method == Method::Post ==> new_step(
            s,
            e,
        ).state is Creating,
{
}

} // verus!
