//! Pushing a note to Notion.
//!
//! A push reads the configuration, finds the note, reads it, asks Notion
//! about the database, creates the page (appending the blocks that do not
//! fit in the first request), writes the page id back into the note and
//! may open the page. Everything between those steps is decided here: the
//! program performs each `PushAction` and answers with a `PushEvent`, and
//! `step` says what comes next.
use crate::notion_api::{api, api_url, response_status, Method, Request, RequestView, Response, ResponseView};
use crate::config::{join, join_path, Config, ConfigView, NotionConfig};
use crate::json::{block_json, write_block};
use crate::markdown::{blocks_view, markdown_blocks, markdown_to_blocks, Block, BlockView};
use crate::notion::{
    append_json, batches, check_status, error_text, first_count, frontmatter_text, info_from,
    lowered_names, note_parts, opt_str, page_id_of, page_json, parse_note, plan_page, prop_kinds, prop_names,
    serialize_frontmatter, status_outcome, strs_view, DatabaseInfo, DatabaseInfoView, Frontmatter,
    FrontmatterView, NotionErrorView, Property,
};
use crate::slug::{first_h1, first_heading, slug_of, slugify};
use crate::round_trip::{lemma_frontmatter_round_trip, survives, value_ok};
use crate::text::{
    add_line, no_lines, one_line, two_lines, contains, lemma_trim_start_twice, chars_of, copy_string, decimal, decimal_string, lines, lowercase, push_char, push_str, string_from,
    string_of, trim_start, trim_start_bound,
};
use vstd::prelude::*;

verus! {

// ───────────────────────── states, events, actions ─────────────────────────

/// What a push was asked to push: a path or a note title, or a path
/// that is known to name the note.
pub enum Target {
    Named(String),
    File(String),
}

pub enum TargetView {
    Named(Seq<char>),
    File(Seq<char>),
}

impl View for Target {
    type V = TargetView;

    open spec fn view(&self) -> TargetView {
        match self {
            Target::Named(n) => TargetView::Named(n@),
            Target::File(p) => TargetView::File(p@),
        }
    }
}

/// Where a push stands.
pub enum PushState {
    /// Waiting for the configuration.
    Loading { target: Target, dry_run: bool, open: bool },
    /// Waiting to learn whether `name` is an existing path.
    Resolving { name: String, config: Config, dry_run: bool, open: bool },
    /// Waiting to learn whether the note named after `name` exists.
    TryingSlug { name: String, candidate: String, config: Config, dry_run: bool, open: bool },
    /// Waiting for the note's text.
    Reading { path: String, token: String, database_id: String, dry_run: bool, open: bool },
    /// Waiting for Notion's answer about the database.
    Inspecting {
        path: String,
        token: String,
        database_id: String,
        title: String,
        note: Frontmatter,
        body: String,
        open: bool,
    },
    /// Waiting for Notion to create the page; `appends` are the requests
    /// that add the remaining blocks.
    Creating { path: String, token: String, title: String, note: Frontmatter, body: String, appends: Vec<String>, open: bool },
    /// Waiting for Notion to take `appends[next]`.
    Appending {
        path: String,
        token: String,
        title: String,
        note: Frontmatter,
        body: String,
        page_id: String,
        appends: Vec<String>,
        next: usize,
        open: bool,
    },
    /// Waiting for the note to be written back.
    Writing { path: String, url: String, open: bool },
    /// Waiting for the page to be opened in a browser.
    Opening { url: String },
    /// Nothing more to do.
    Finished,
}

pub enum PushStateView {
    Loading { target: TargetView, dry_run: bool, open: bool },
    Resolving { name: Seq<char>, config: ConfigView, dry_run: bool, open: bool },
    TryingSlug { name: Seq<char>, candidate: Seq<char>, config: ConfigView, dry_run: bool, open: bool },
    Reading { path: Seq<char>, token: Seq<char>, database_id: Seq<char>, dry_run: bool, open: bool },
    Inspecting {
        path: Seq<char>,
        token: Seq<char>,
        database_id: Seq<char>,
        title: Seq<char>,
        note: FrontmatterView,
        body: Seq<char>,
        open: bool,
    },
    Creating {
        path: Seq<char>,
        token: Seq<char>,
        title: Seq<char>,
        note: FrontmatterView,
        body: Seq<char>,
        appends: Seq<Seq<char>>,
        open: bool,
    },
    Appending {
        path: Seq<char>,
        token: Seq<char>,
        title: Seq<char>,
        note: FrontmatterView,
        body: Seq<char>,
        page_id: Seq<char>,
        appends: Seq<Seq<char>>,
        next: nat,
        open: bool,
    },
    Writing { path: Seq<char>, url: Seq<char>, open: bool },
    Opening { url: Seq<char> },
    Finished,
}

impl View for PushState {
    type V = PushStateView;

    open spec fn view(&self) -> PushStateView {
        match self {
            PushState::Loading { target, dry_run, open } => PushStateView::Loading {
                target: target@,
                dry_run: *dry_run,
                open: *open,
            },
            PushState::Resolving { name, config, dry_run, open } => PushStateView::Resolving {
                name: name@,
                config: config@,
                dry_run: *dry_run,
                open: *open,
            },
            PushState::TryingSlug { name, candidate, config, dry_run, open } => PushStateView::TryingSlug {
                name: name@,
                candidate: candidate@,
                config: config@,
                dry_run: *dry_run,
                open: *open,
            },
            PushState::Reading { path, token, database_id, dry_run, open } => PushStateView::Reading {
                path: path@,
                token: token@,
                database_id: database_id@,
                dry_run: *dry_run,
                open: *open,
            },
            PushState::Inspecting { path, token, database_id, title, note, body, open } =>
                PushStateView::Inspecting {
                path: path@,
                token: token@,
                database_id: database_id@,
                title: title@,
                note: note@,
                body: body@,
                open: *open,
            },
            PushState::Creating { path, token, title, note, body, appends, open } => PushStateView::Creating {
                path: path@,
                token: token@,
                title: title@,
                note: note@,
                body: body@,
                appends: strs_view(appends@),
                open: *open,
            },
            PushState::Appending { path, token, title, note, body, page_id, appends, next, open } =>
                PushStateView::Appending {
                path: path@,
                token: token@,
                title: title@,
                note: note@,
                body: body@,
                page_id: page_id@,
                appends: strs_view(appends@),
                next: *next as nat,
                open: *open,
            },
            PushState::Writing { path, url, open } => PushStateView::Writing {
                path: path@,
                url: url@,
                open: *open,
            },
            PushState::Opening { url } => PushStateView::Opening { url: url@ },
            PushState::Finished => PushStateView::Finished,
        }
    }
}


/// What the program does next.
pub enum PushAction {
    /// Load the configuration file.
    LoadConfig,
    /// Find out whether `path` exists.
    CheckPath { path: String },
    /// Read the note at `path`.
    ReadFile { path: String },
    /// Send `request` to Notion.
    Send { request: Request },
    /// Write `content` to `path`.
    WriteFile { path: String, content: String },
    /// Open `url` in the browser.
    OpenUrl { url: String },
    /// The push is done.
    Finish,
    /// The push failed: the error, then what caused it, outermost first.
    Fail { chain: Vec<String> },
}

pub enum PushActionView {
    LoadConfig,
    CheckPath { path: Seq<char> },
    ReadFile { path: Seq<char> },
    Send { request: RequestView },
    WriteFile { path: Seq<char>, content: Seq<char> },
    OpenUrl { url: Seq<char> },
    Finish,
    Fail { chain: Seq<Seq<char>> },
}

impl View for PushAction {
    type V = PushActionView;

    open spec fn view(&self) -> PushActionView {
        match self {
            PushAction::LoadConfig => PushActionView::LoadConfig,
            PushAction::CheckPath { path } => PushActionView::CheckPath { path: path@ },
            PushAction::ReadFile { path } => PushActionView::ReadFile { path: path@ },
            PushAction::Send { request } => PushActionView::Send { request: request@ },
            PushAction::WriteFile { path, content } => PushActionView::WriteFile {
                path: path@,
                content: content@,
            },
            PushAction::OpenUrl { url } => PushActionView::OpenUrl { url: url@ },
            PushAction::Finish => PushActionView::Finish,
            PushAction::Fail { chain } => PushActionView::Fail { chain: strs_view(chain@) },
        }
    }
}

/// What came of an action.
pub enum PushEvent {
    /// The configuration was loaded.
    ConfigLoaded { config: Config },
    /// The configuration could not be loaded, for the reasons given.
    ConfigFailed { chain: Vec<String> },
    /// Whether the checked path exists.
    PathChecked { exists: bool },
    /// The note's text, or why it could not be read.
    FileRead { content: Result<String, String> },
    /// Notion answered.
    Responded { response: Response },
    /// Notion could not be reached, for the reason given.
    Unreachable { reason: String },
    /// The note was written back, or why it was not.
    Written { error: Option<String> },
    /// The browser was started, or why it was not.
    Opened { error: Option<String> },
}

pub enum PushEventView {
    ConfigLoaded { config: ConfigView },
    ConfigFailed { chain: Seq<Seq<char>> },
    PathChecked { exists: bool },
    FileRead { content: Result<Seq<char>, Seq<char>> },
    Responded { response: ResponseView },
    Unreachable { reason: Seq<char> },
    Written { error: Option<Seq<char>> },
    Opened { error: Option<Seq<char>> },
}

impl View for PushEvent {
    type V = PushEventView;

    open spec fn view(&self) -> PushEventView {
        match self {
            PushEvent::ConfigLoaded { config } => PushEventView::ConfigLoaded { config: config@ },
            PushEvent::ConfigFailed { chain } => PushEventView::ConfigFailed { chain: strs_view(chain@) },
            PushEvent::PathChecked { exists } => PushEventView::PathChecked { exists: *exists },
            PushEvent::FileRead { content } => PushEventView::FileRead {
                content: match content {
                    Ok(c) => Ok(c@),
                    Err(e) => Err(e@),
                },
            },
            PushEvent::Responded { response } => PushEventView::Responded { response: response@ },
            PushEvent::Unreachable { reason } => PushEventView::Unreachable { reason: reason@ },
            PushEvent::Written { error } => PushEventView::Written { error: opt_str(*error) },
            PushEvent::Opened { error } => PushEventView::Opened { error: opt_str(*error) },
        }
    }
}

/// One move of a push: the next state and action, and the lines to print
/// first (`out` to standard output, `warn` to standard error).
pub struct PushStep {
    pub state: PushState,
    pub action: PushAction,
    pub out: Vec<String>,
    pub warn: Vec<String>,
}

pub struct PushStepView {
    pub state: PushStateView,
    pub action: PushActionView,
    pub out: Seq<Seq<char>>,
    pub warn: Seq<Seq<char>>,
}

impl View for PushStep {
    type V = PushStepView;

    open spec fn view(&self) -> PushStepView {
        PushStepView {
            state: self.state@,
            action: self.action@,
            out: strs_view(self.out@),
            warn: strs_view(self.warn@),
        }
    }
}

/// Whether `e` answers the action that led to `s`.
pub open spec fn expects(s: PushStateView, e: PushEventView) -> bool {
    match s {
        PushStateView::Loading { .. } => e is ConfigLoaded || e is ConfigFailed,
        PushStateView::Resolving { .. } => e is PathChecked,
        PushStateView::TryingSlug { .. } => e is PathChecked,
        PushStateView::Reading { .. } => e is FileRead,
        PushStateView::Inspecting { .. } => e is Responded || e is Unreachable,
        PushStateView::Creating { .. } => e is Responded || e is Unreachable,
        PushStateView::Appending { .. } => e is Responded || e is Unreachable,
        PushStateView::Writing { .. } => e is Written,
        PushStateView::Opening { .. } => e is Opened,
        PushStateView::Finished => false,
    }
}

impl PushState {
    /// Whether `e` answers the action that led to this state.
    pub fn expects(&self, e: &PushEvent) -> (r: bool)
        ensures
            r == expects(self@, e@),
    {
        match self {
            PushState::Loading { .. } => match e {
                PushEvent::ConfigLoaded { .. } | PushEvent::ConfigFailed { .. } => true,
                _ => false,
            },
            PushState::Resolving { .. } | PushState::TryingSlug { .. } => match e {
                PushEvent::PathChecked { .. } => true,
                _ => false,
            },
            PushState::Reading { .. } => match e {
                PushEvent::FileRead { .. } => true,
                _ => false,
            },
            PushState::Inspecting { .. } | PushState::Creating { .. } | PushState::Appending { .. } =>
                match e {
                PushEvent::Responded { .. } | PushEvent::Unreachable { .. } => true,
                _ => false,
            },
            PushState::Writing { .. } => match e {
                PushEvent::Written { .. } => true,
                _ => false,
            },
            PushState::Opening { .. } => match e {
                PushEvent::Opened { .. } => true,
                _ => false,
            },
            PushState::Finished => false,
        }
    }
}

// ───────────────────────── starting ─────────────────────────

/// `push <path>`: push the note at `path_or_title`, or else the note in the
/// notes directory named after it; `dry_run` only reports what would be
/// pushed, `open` opens the page afterwards. The push starts by loading
/// the configuration.
pub fn run(path_or_title: &str, dry_run: bool, open: bool) -> (r: (PushState, PushAction))
    ensures
        r.0@ == (PushStateView::Loading { target: TargetView::Named(path_or_title@), dry_run, open }),
        r.1@ == PushActionView::LoadConfig,
{
    (PushState::Loading { target: Target::Named(string_from(path_or_title)), dry_run, open }, PushAction::LoadConfig)
}

/// The push that follows editing the note at `path`: no dry run, and the
/// page is not opened.
pub fn run_path(path: &str) -> (r: (PushState, PushAction))
    ensures
        r.0@ == (PushStateView::Loading { target: TargetView::File(path@), dry_run: false, open: false }),
        r.1@ == PushActionView::LoadConfig,
{
    (PushState::Loading { target: Target::File(string_from(path)), dry_run: false, open: false }, PushAction::LoadConfig)
}


// ───────────────────────── what each move does ─────────────────────────


/// A move to `state` with `action`, printing nothing.
pub open spec fn moved(state: PushStateView, action: PushActionView) -> PushStepView {
    PushStepView { state, action, out: seq![], warn: seq![] }
}

/// The push fails with `chain`.
pub open spec fn failed(chain: Seq<Seq<char>>) -> PushStepView {
    moved(PushStateView::Finished, PushActionView::Fail { chain })
}

pub open spec fn not_found(name: Seq<char>) -> Seq<char> {
    "File not found: '"@ + name + "'\nPass a path to an existing Markdown file."@
}

pub open spec fn token_unset() -> Seq<char> {
    "notion.token is not set.\n→ Run `m2n init` to set up your Notion integration."@
}

pub open spec fn database_unset() -> Seq<char> {
    "notion.database_id is not set.\n→ Run `m2n init` to configure your Notion database."@
}

/// A setting that is present and not empty.
pub open spec fn is_set(o: Option<Seq<char>>) -> bool {
    match o {
        Some(t) => t.len() > 0,
        None => false,
    }
}

/// The note is at `path`: with a token and a database id, read it.
pub open spec fn start_reading(path: Seq<char>, c: ConfigView, dry_run: bool, open: bool) -> PushStepView {
    if !is_set(c.token) {
        failed(seq![token_unset()])
    } else if !is_set(c.database_id) {
        failed(seq![database_unset()])
    } else {
        moved(
            PushStateView::Reading {
                path,
                token: c.token.unwrap(),
                database_id: c.database_id.unwrap(),
                dry_run,
                open,
            },
            PushActionView::ReadFile { path },
        )
    }
}

/// Where the note titled `name` would be in the notes directory `dir`.
pub open spec fn slug_candidate(dir: Seq<char>, name: Seq<char>) -> Seq<char> {
    join_path(dir, slug_of(lowercase(name)) + ".md"@)
}

pub open spec fn on_loading(target: TargetView, dry_run: bool, open: bool, e: PushEventView) -> PushStepView {
    match e {
        PushEventView::ConfigLoaded { config } => match target {
            TargetView::Named(n) => moved(
                PushStateView::Resolving { name: n, config, dry_run, open },
                PushActionView::CheckPath { path: n },
            ),
            TargetView::File(p) => start_reading(p, config, dry_run, open),
        },
        PushEventView::ConfigFailed { chain } => failed(chain),
        _ => failed(seq![]),
    }
}

pub open spec fn on_resolving(name: Seq<char>, c: ConfigView, dry_run: bool, open: bool, e: PushEventView) -> PushStepView {
    match e {
        PushEventView::PathChecked { exists } => if exists {
            start_reading(name, c, dry_run, open)
        } else {
            match c.notes_dir {
                Some(d) => moved(
                    PushStateView::TryingSlug { name, candidate: slug_candidate(d, name), config: c, dry_run, open },
                    PushActionView::CheckPath { path: slug_candidate(d, name) },
                ),
                None => failed(seq![not_found(name)]),
            }
        },
        _ => failed(seq![]),
    }
}

pub open spec fn on_trying(
    name: Seq<char>,
    candidate: Seq<char>,
    c: ConfigView,
    dry_run: bool,
    open: bool,
    e: PushEventView,
) -> PushStepView {
    match e {
        PushEventView::PathChecked { exists } => if exists {
            start_reading(candidate, c, dry_run, open)
        } else {
            failed(seq![not_found(name)])
        },
        _ => failed(seq![]),
    }
}

/// The file name of `path` without its extension, as
/// `std::path::Path::file_stem` gives it (empty when it gives none).
pub uninterp spec fn path_stem(path: Seq<char>) -> Seq<char>;

/// `std::path::Path::file_stem` of `path`, made a string (lossily), or
/// empty when it gives none. Claimed: the result depends on `path` alone
/// (`path_stem`); nothing more is said of it.
#[verifier::external_body]
pub(crate) fn file_stem(path: &str) -> (r: String)
    ensures
        r@ == path_stem(path@),
{
    std::path::Path::new(path).file_stem().unwrap_or_default().to_string_lossy().into_owned()
}

/// The title a note is pushed under: its frontmatter title, else its first
/// `# ` heading, else the file's name without extension (`stem`).
pub open spec fn title_of(title: Option<Seq<char>>, body: Seq<char>, stem: Seq<char>) -> Seq<char> {
    match title {
        Some(t) => t,
        None => match first_heading(lines(body)) {
            Some(h) => h,
            None => stem,
        },
    }
}

/// Strings joined with `sep` between them.
pub open spec fn joined(parts: Seq<Seq<char>>, sep: Seq<char>) -> Seq<char>
    decreases parts.len(),
{
    if parts.len() == 0 {
        seq![]
    } else if parts.len() == 1 {
        parts[0]
    } else {
        joined(parts.drop_last(), sep) + sep + parts.last()
    }
}

pub open spec fn tags_line(tags: Seq<Seq<char>>) -> Seq<char> {
    if tags.len() == 0 {
        "  Tags:     (none)"@
    } else {
        "  Tags:     ["@ + joined(tags, ", "@) + "]"@
    }
}

/// A block as the dry run lists it.
pub open spec fn block_line(b: BlockView) -> Seq<char> {
    "    "@ + block_json(b)
}

/// What a dry run prints: the note's path, title, status and tags, the
/// database, how many blocks the note makes, and each block.
pub open spec fn dry_report(
    path: Seq<char>,
    title: Seq<char>,
    note: FrontmatterView,
    database_id: Seq<char>,
    bs: Seq<BlockView>,
) -> Seq<Seq<char>> {
    seq![
        "Dry run — nothing will be pushed to Notion."@,
        Seq::empty(),
        "  File:     "@ + path,
        "  Title:    \""@ + title + "\""@,
        "  Status:   "@ + match note.status {
            Some(st) => st,
            None => "(none)"@,
        },
        tags_line(note.tags),
        "  Database: "@ + database_id,
        "  Blocks:   "@ + decimal(bs.len()),
    ] + bs.map_values(|b: BlockView| block_line(b))
}

pub open spec fn already_pushed() -> Seq<char> {
    "Warning: this note was already pushed (notion_id present). Creating a new page."@
}

/// The note has been read: a dry run reports and stops; a push asks
/// Notion about the database.
pub open spec fn on_read(
    path: Seq<char>,
    token: Seq<char>,
    database_id: Seq<char>,
    dry_run: bool,
    open: bool,
    raw: Seq<char>,
) -> PushStepView {
    let note = note_parts(raw).0;
    let body = note_parts(raw).1;
    let title = title_of(note.title, body, path_stem(path));
    if dry_run {
        PushStepView {
            state: PushStateView::Finished,
            action: PushActionView::Finish,
            out: dry_report(path, title, note, database_id, markdown_blocks(trim_start(body))),
            warn: seq![],
        }
    } else {
        PushStepView {
            state: PushStateView::Inspecting { path, token, database_id, title, note, body, open },
            action: PushActionView::Send {
                request: RequestView {
                    method: Method::Get,
                    url: api("/databases/"@ + database_id),
                    token,
                    body: None,
                },
            },
            out: seq![],
            warn: if note.notion_id is Some {
                seq![already_pushed()]
            } else {
                seq![]
            },
        }
    }
}

pub open spec fn on_reading(
    path: Seq<char>,
    token: Seq<char>,
    database_id: Seq<char>,
    dry_run: bool,
    open: bool,
    e: PushEventView,
) -> PushStepView {
    match e {
        PushEventView::FileRead { content } => match content {
            Ok(raw) => on_read(path, token, database_id, dry_run, open, raw),
            Err(cause) => failed(seq!["Cannot read "@ + path, cause]),
        },
        _ => failed(seq![]),
    }
}

pub open spec fn status_warning(st: Seq<char>) -> Seq<char> {
    "Warning: note has status=\""@ + st
        + "\" but the database has no Status (select) property — field skipped.\n→ Add a \"Status\" select property in Notion to sync this field."@
}

pub open spec fn tags_warning(n: nat) -> Seq<char> {
    "Warning: note has "@ + decimal(n)
        + " tag(s) but the database has no Tags (multi_select) property — field skipped.\n→ Add a \"Tags\" multi_select property in Notion to sync this field."@
}

/// The warnings for frontmatter fields that the database has no property
/// for: a non-empty status, and tags.
pub open spec fn field_warnings(note: FrontmatterView, info: DatabaseInfoView) -> Seq<Seq<char>> {
    (match note.status {
        Some(st) => if st.len() > 0 && info.status_prop is None {
            seq![status_warning(st)]
        } else {
            seq![]
        },
        None => seq![],
    }) + (if note.tags.len() > 0 && info.tags_prop is None {
        seq![tags_warning(note.tags.len())]
    } else {
        seq![]
    })
}

pub open spec fn inspect_failed() -> Seq<char> {
    "Failed to inspect Notion database"@
}

pub open spec fn cannot_access(database_id: Seq<char>) -> Seq<char> {
    "Cannot access database '"@ + database_id + "'. Make sure it's shared with your integration."@
}

pub open spec fn no_connection() -> Seq<char> {
    "Failed to connect to Notion API"@
}

pub open spec fn create_failed() -> Seq<char> {
    "Failed to create Notion page"@
}

/// Notion answered about the database: create the page with the note's
/// title, status, tags and first blocks.
pub open spec fn on_inspected(
    path: Seq<char>,
    token: Seq<char>,
    database_id: Seq<char>,
    title: Seq<char>,
    note: FrontmatterView,
    body: Seq<char>,
    open: bool,
    r: ResponseView,
) -> PushStepView {
    match status_outcome(r.code, r.status, r.message) {
        Err(err) => failed(seq![inspect_failed(), cannot_access(database_id), error_text(err)]),
        Ok(_) => match r.properties {
            None => failed(seq![inspect_failed(), "Database has no properties"@]),
            Some(p) => {
                let info = info_from(prop_names(p), prop_kinds(p), lowered_names(p));
                let bs = markdown_blocks(trim_start(body));
                let k = first_count(bs.len() as int);
                PushStepView {
                    state: PushStateView::Creating {
                        path,
                        token,
                        title,
                        note,
                        body,
                        appends: batches(bs.skip(k)).map_values(|b: Seq<BlockView>| append_json(b)),
                        open,
                    },
                    action: PushActionView::Send {
                        request: RequestView {
                            method: Method::Post,
                            url: api("/pages"@),
                            token,
                            body: Some(page_json(database_id, info, title, note.status, note.tags, bs.take(k))),
                        },
                    },
                    out: seq![],
                    warn: field_warnings(note, info),
                }
            },
        },
    }
}

/// A page id without its dashes.
pub open spec fn without_dashes(s: Seq<char>) -> Seq<char>
    decreases s.len(),
{
    if s.len() == 0 {
        s
    } else if s.last() == '-' {
        without_dashes(s.drop_last())
    } else {
        without_dashes(s.drop_last()).push(s.last())
    }
}

/// The address of the page in Notion.
pub open spec fn page_url(page_id: Seq<char>) -> Seq<char> {
    "https://www.notion.so/"@ + without_dashes(page_id)
}

/// `note` with the id of its page.
pub open spec fn with_page_id(note: FrontmatterView, page_id: Seq<char>) -> FrontmatterView {
    FrontmatterView {
        title: note.title,
        date: note.date,
        status: note.status,
        tags: note.tags,
        notion_id: Some(page_id),
    }
}

/// The note as written back after the push: its frontmatter with the
/// page's id, a blank line, and the body without leading whitespace.
pub open spec fn updated_text(note: FrontmatterView, body: Seq<char>, page_id: Seq<char>) -> Seq<char> {
    frontmatter_text(with_page_id(note, page_id)) + seq!['\n'] + trim_start(body)
}

/// The page exists and holds every block: report it and write the page id
/// back into the note.
pub open spec fn pushed(
    path: Seq<char>,
    title: Seq<char>,
    note: FrontmatterView,
    body: Seq<char>,
    page_id: Seq<char>,
    open: bool,
) -> PushStepView {
    PushStepView {
        state: PushStateView::Writing { path, url: page_url(page_id), open },
        action: PushActionView::WriteFile { path, content: updated_text(note, body, page_id) },
        out: seq!["Pushed: \""@ + title + "\""@, "URL:    "@ + page_url(page_id)],
        warn: seq![],
    }
}

/// Send `appends[next]` to the page, or finish when none is left.
pub open spec fn append_or_finish(
    path: Seq<char>,
    token: Seq<char>,
    title: Seq<char>,
    note: FrontmatterView,
    body: Seq<char>,
    page_id: Seq<char>,
    appends: Seq<Seq<char>>,
    next: nat,
    open: bool,
) -> PushStepView {
    if next < appends.len() {
        moved(
            PushStateView::Appending { path, token, title, note, body, page_id, appends, next, open },
            PushActionView::Send {
                request: RequestView {
                    method: Method::Patch,
                    url: api("/blocks/"@ + page_id + "/children"@),
                    token,
                    body: Some(appends[next as int]),
                },
            },
        )
    } else {
        pushed(path, title, note, body, page_id, open)
    }
}

pub open spec fn on_created(
    path: Seq<char>,
    token: Seq<char>,
    title: Seq<char>,
    note: FrontmatterView,
    body: Seq<char>,
    appends: Seq<Seq<char>>,
    open: bool,
    e: PushEventView,
) -> PushStepView {
    match e {
        PushEventView::Responded { response: r } => match status_outcome(r.code, r.status, r.message) {
            Err(err) => failed(seq![create_failed(), error_text(err)]),
            Ok(_) => match r.id {
                None => failed(seq![create_failed(), "Missing page ID in Notion response"@]),
                Some(id) => append_or_finish(path, token, title, note, body, id, appends, 0, open),
            },
        },
        PushEventView::Unreachable { reason } => failed(seq![create_failed(), no_connection(), reason]),
        _ => failed(seq![]),
    }
}

pub open spec fn on_appended(
    path: Seq<char>,
    token: Seq<char>,
    title: Seq<char>,
    note: FrontmatterView,
    body: Seq<char>,
    page_id: Seq<char>,
    appends: Seq<Seq<char>>,
    next: nat,
    open: bool,
    e: PushEventView,
) -> PushStepView {
    match e {
        PushEventView::Responded { response: r } => match status_outcome(r.code, r.status, r.message) {
            Err(err) => failed(seq![create_failed(), error_text(err)]),
            Ok(_) => append_or_finish(path, token, title, note, body, page_id, appends, next + 1, open),
        },
        PushEventView::Unreachable { reason } => failed(seq![create_failed(), no_connection(), reason]),
        _ => failed(seq![]),
    }
}

/// The next move of a push in state `s` on event `e`.
pub open spec fn push_step(s: PushStateView, e: PushEventView) -> PushStepView {
    match s {
        PushStateView::Loading { target, dry_run, open } => on_loading(target, dry_run, open, e),
        PushStateView::Resolving { name, config, dry_run, open } => on_resolving(name, config, dry_run, open, e),
        PushStateView::TryingSlug { name, candidate, config, dry_run, open } => on_trying(
            name,
            candidate,
            config,
            dry_run,
            open,
            e,
        ),
        PushStateView::Reading { path, token, database_id, dry_run, open } => on_reading(
            path,
            token,
            database_id,
            dry_run,
            open,
            e,
        ),
        PushStateView::Inspecting { path, token, database_id, title, note, body, open } => match e {
            PushEventView::Responded { response } => on_inspected(
                path,
                token,
                database_id,
                title,
                note,
                body,
                open,
                response,
            ),
            PushEventView::Unreachable { reason } => failed(
                seq![inspect_failed(), cannot_access(database_id), no_connection(), reason],
            ),
            _ => failed(seq![]),
        },
        PushStateView::Creating { path, token, title, note, body, appends, open } => on_created(
            path,
            token,
            title,
            note,
            body,
            appends,
            open,
            e,
        ),
        PushStateView::Appending { path, token, title, note, body, page_id, appends, next, open } => on_appended(
            path,
            token,
            title,
            note,
            body,
            page_id,
            appends,
            next,
            open,
            e,
        ),
        PushStateView::Writing { path, url, open } => match e {
            PushEventView::Written { error } => match error {
                Some(cause) => failed(seq!["Pushed successfully but failed to update "@ + path, cause]),
                None => if open {
                    moved(PushStateView::Opening { url }, PushActionView::OpenUrl { url })
                } else {
                    moved(PushStateView::Finished, PushActionView::Finish)
                },
            },
            _ => failed(seq![]),
        },
        PushStateView::Opening { url } => match e {
            PushEventView::Opened { error } => match error {
                Some(cause) => failed(seq!["Failed to open "@ + url, cause]),
                None => moved(PushStateView::Finished, PushActionView::Finish),
            },
            _ => failed(seq![]),
        },
        PushStateView::Finished => failed(seq![]),
    }
}


// ───────────────────────── making the moves ─────────────────────────


fn move_to(state: PushState, action: PushAction) -> (r: PushStep)
    ensures
        r@ == moved(state@, action@),
{
    PushStep { state, action, out: no_lines(), warn: no_lines() }
}

fn fail_with(chain: Vec<String>) -> (r: PushStep)
    ensures
        r@ == failed(strs_view(chain@)),
{
    move_to(PushState::Finished, PushAction::Fail { chain })
}

fn is_set_exec(o: &Option<String>) -> (r: bool)
    ensures
        r == is_set(opt_str(*o)),
{
    match o {
        Some(t) => chars_of(t.as_str()).len() > 0,
        None => false,
    }
}

fn not_found_text(name: &str) -> (r: String)
    ensures
        r@ == not_found(name@),
{
    let mut s = string_from("File not found: '");
    push_str(&mut s, name);
    push_str(&mut s, "'\nPass a path to an existing Markdown file.");
    s
}

/// `s` without leading whitespace.
fn trimmed_start(s: &str) -> (r: String)
    ensures
        r@ == trim_start(s@),
{
    let v = chars_of(s);
    let a = trim_start_bound(&v, 0, v.len());
    assert(v@.subrange(0, v@.len() as int) =~= s@);
    string_of(&v, a, v.len())
}

/// Where the note titled `name` would be in the notes directory `dir`:
/// its slug with `.md`, under `dir`.
pub fn candidate_path(dir: &str, name: &str) -> (r: String)
    ensures
        r@ == slug_candidate(dir@, name@),
{
    let mut f = slugify(name);
    push_str(&mut f, ".md");
    join(dir, f.as_str())
}

fn begin_reading(path: String, config: Config, dry_run: bool, open: bool) -> (r: PushStep)
    ensures
        r@ == start_reading(path@, config@, dry_run, open),
{
    let Config { notes_dir: _, editor: _, notion } = config;
    let NotionConfig { token, database_id } = notion;
    if !is_set_exec(&token) {
        return fail_with(
            one_line(string_from("notion.token is not set.\n→ Run `m2n init` to set up your Notion integration.")),
        );
    }
    if !is_set_exec(&database_id) {
        return fail_with(
            one_line(
                string_from("notion.database_id is not set.\n→ Run `m2n init` to configure your Notion database."),
            ),
        );
    }
    match (token, database_id) {
        (Some(t), Some(d)) => {
            let p = copy_string(&path);
            move_to(PushState::Reading { path, token: t, database_id: d, dry_run, open }, PushAction::ReadFile { path: p })
        },
        _ => fail_with(no_lines()),
    }
}

fn loading_step(target: Target, dry_run: bool, open: bool, e: PushEvent) -> (r: PushStep)
    ensures
        r@ == on_loading(target@, dry_run, open, e@),
{
    match e {
        PushEvent::ConfigLoaded { config } => match target {
            Target::Named(n) => {
                let p = copy_string(&n);
                move_to(PushState::Resolving { name: n, config, dry_run, open }, PushAction::CheckPath { path: p })
            },
            Target::File(p) => begin_reading(p, config, dry_run, open),
        },
        PushEvent::ConfigFailed { chain } => fail_with(chain),
        _ => fail_with(no_lines()),
    }
}

fn resolving_step(name: String, config: Config, dry_run: bool, open: bool, e: PushEvent) -> (r: PushStep)
    ensures
        r@ == on_resolving(name@, config@, dry_run, open, e@),
{
    match e {
        PushEvent::PathChecked { exists } => {
            if exists {
                begin_reading(name, config, dry_run, open)
            } else {
                let cand = match &config.notes_dir {
                    Some(d) => Some(candidate_path(d.as_str(), name.as_str())),
                    None => None,
                };
                match cand {
                    Some(c) => {
                        let p = copy_string(&c);
                        move_to(
                            PushState::TryingSlug { name, candidate: c, config, dry_run, open },
                            PushAction::CheckPath { path: p },
                        )
                    },
                    None => fail_with(one_line(not_found_text(name.as_str()))),
                }
            }
        },
        _ => fail_with(no_lines()),
    }
}

fn trying_step(name: String, candidate: String, config: Config, dry_run: bool, open: bool, e: PushEvent) -> (r:
    PushStep)
    ensures
        r@ == on_trying(name@, candidate@, config@, dry_run, open, e@),
{
    match e {
        PushEvent::PathChecked { exists } => {
            if exists {
                begin_reading(candidate, config, dry_run, open)
            } else {
                fail_with(one_line(not_found_text(name.as_str())))
            }
        },
        _ => fail_with(no_lines()),
    }
}

/// The title a note is pushed under: its frontmatter `title`, else the
/// first `# ` heading of `body`, else `stem`, the file's name without
/// extension.
pub fn note_title(title: &Option<String>, body: &str, stem: String) -> (r: String)
    ensures
        r@ == title_of(opt_str(*title), body@, stem@),
{
    match title {
        Some(t) => copy_string(t),
        None => match first_h1(body) {
            Some(h) => h,
            None => stem,
        },
    }
}

fn joined_exec(parts: &Vec<String>, sep: &str) -> (r: String)
    ensures
        r@ == joined(strs_view(parts@), sep@),
{
    let ghost ps = strs_view(parts@);
    let mut s = String::new();
    let mut i: usize = 0;
    while i < parts.len()
        invariant
            ps == strs_view(parts@),
            i <= parts@.len(),
            s@ == joined(ps.take(i as int), sep@),
        decreases parts@.len() - i,
    {
        if i > 0 {
            push_str(&mut s, sep);
        }
        push_str(&mut s, parts[i].as_str());
        proof {
            let t = ps.take(i + 1);
            assert(t.drop_last() =~= ps.take(i as int));
            assert(t.last() == parts@[i as int]@);
            if i == 0 {
                assert(t[0] == parts@[0]@);
                assert(s@ =~= joined(t, sep@));
            }
        }
        i += 1;
    }
    assert(ps.take(i as int) =~= ps);
    s
}

fn tags_line_exec(tags: &Vec<String>) -> (r: String)
    ensures
        r@ == tags_line(strs_view(tags@)),
{
    if tags.len() == 0 {
        return string_from("  Tags:     (none)");
    }
    let mut l = string_from("  Tags:     [");
    let j = joined_exec(tags, ", ");
    push_str(&mut l, j.as_str());
    push_str(&mut l, "]");
    l
}

/// What a dry run prints for the note at `path`: its title, status and
/// tags, the database, and the blocks it makes.
pub fn dry_run_report(path: &str, title: &str, note: &Frontmatter, database_id: &str, blocks: &Vec<Block>) -> (r:
    Vec<String>)
    ensures
        strs_view(r@) == dry_report(path@, title@, note@, database_id@, blocks_view(blocks@)),
{
    let mut out = no_lines();
    add_line(&mut out, string_from("Dry run — nothing will be pushed to Notion."));
    add_line(&mut out, String::new());
    let mut l = string_from("  File:     ");
    push_str(&mut l, path);
    add_line(&mut out, l);
    let mut l = string_from("  Title:    \"");
    push_str(&mut l, title);
    push_str(&mut l, "\"");
    add_line(&mut out, l);
    let mut l = string_from("  Status:   ");
    match &note.status {
        Some(st) => push_str(&mut l, st.as_str()),
        None => push_str(&mut l, "(none)"),
    }
    add_line(&mut out, l);
    add_line(&mut out, tags_line_exec(&note.tags));
    let mut l = string_from("  Database: ");
    push_str(&mut l, database_id);
    add_line(&mut out, l);
    let mut l = string_from("  Blocks:   ");
    let n = decimal_string(blocks.len());
    push_str(&mut l, n.as_str());
    add_line(&mut out, l);
    let ghost bs = blocks_view(blocks@);
    let ghost head = strs_view(out@);
    let mut i: usize = 0;
    while i < blocks.len()
        invariant
            bs == blocks_view(blocks@),
            i <= blocks@.len(),
            strs_view(out@) == head + bs.take(i as int).map_values(|b: BlockView| block_line(b)),
        decreases blocks@.len() - i,
    {
        let mut l = string_from("    ");
        write_block(&mut l, &blocks[i]);
        add_line(&mut out, l);
        proof {
            assert(bs[i as int] == blocks@[i as int]@);
            assert(bs.take(i + 1) =~= bs.take(i as int).push(bs[i as int]));
            assert(bs.take(i + 1).map_values(|b: BlockView| block_line(b)) =~= bs.take(i as int).map_values(
                |b: BlockView| block_line(b),
            ).push(block_line(bs[i as int])));
        }
        i += 1;
    }
    assert(bs.take(i as int) =~= bs);
    assert(strs_view(out@) =~= dry_report(path@, title@, note@, database_id@, bs));
    out
}


fn read_step(path: String, token: String, database_id: String, dry_run: bool, open: bool, raw: String) -> (r:
    PushStep)
    ensures
        r@ == on_read(path@, token@, database_id@, dry_run, open, raw@),
{
    let (note, body) = parse_note(raw.as_str());
    let stem = file_stem(path.as_str());
    let title = note_title(&note.title, body.as_str(), stem);
    if dry_run {
        let trimmed = trimmed_start(body.as_str());
        let blocks = markdown_to_blocks(trimmed.as_str());
        let out = dry_run_report(path.as_str(), title.as_str(), &note, database_id.as_str(), &blocks);
        PushStep { state: PushState::Finished, action: PushAction::Finish, out, warn: no_lines() }
    } else {
        let warn = if note.notion_id.is_some() {
            one_line(string_from("Warning: this note was already pushed (notion_id present). Creating a new page."))
        } else {
            no_lines()
        };
        let mut tail = string_from("/databases/");
        push_str(&mut tail, database_id.as_str());
        let url = api_url(tail.as_str());
        let tok = copy_string(&token);
        PushStep {
            state: PushState::Inspecting { path, token, database_id, title, note, body, open },
            action: PushAction::Send { request: Request { method: Method::Get, url, token: tok, body: None } },
            out: no_lines(),
            warn,
        }
    }
}

fn reading_step(path: String, token: String, database_id: String, dry_run: bool, open: bool, e: PushEvent) -> (r:
    PushStep)
    ensures
        r@ == on_reading(path@, token@, database_id@, dry_run, open, e@),
{
    match e {
        PushEvent::FileRead { content } => match content {
            Ok(raw) => read_step(path, token, database_id, dry_run, open, raw),
            Err(cause) => {
                let mut ctx = string_from("Cannot read ");
                push_str(&mut ctx, path.as_str());
                fail_with(two_lines(ctx, cause))
            },
        },
        _ => fail_with(no_lines()),
    }
}

/// The warnings for the frontmatter fields of `note` that the database
/// (`info`) has no property for: a non-empty status, and tags.
pub fn note_field_warnings(note: &Frontmatter, info: &DatabaseInfo) -> (r: Vec<String>)
    ensures
        strs_view(r@) == field_warnings(note@, info@),
{
    let mut w = no_lines();
    match &note.status {
        Some(st) => {
            if chars_of(st.as_str()).len() > 0 && info.status_prop.is_none() {
                let mut l = string_from("Warning: note has status=\"");
                push_str(&mut l, st.as_str());
                push_str(
                    &mut l,
                    "\" but the database has no Status (select) property — field skipped.\n→ Add a \"Status\" select property in Notion to sync this field.",
                );
                add_line(&mut w, l);
            }
        },
        None => {},
    }
    let ghost first = strs_view(w@);
    if note.tags.len() > 0 && info.tags_prop.is_none() {
        let mut l = string_from("Warning: note has ");
        let n = decimal_string(note.tags.len());
        push_str(&mut l, n.as_str());
        push_str(
            &mut l,
            " tag(s) but the database has no Tags (multi_select) property — field skipped.\n→ Add a \"Tags\" multi_select property in Notion to sync this field.",
        );
        add_line(&mut w, l);
    }
    assert(strs_view(w@) =~= field_warnings(note@, info@));
    w
}



fn inspected_step(
    path: String,
    token: String,
    database_id: String,
    title: String,
    note: Frontmatter,
    body: String,
    open: bool,
    r: Response,
) -> (out: PushStep)
    ensures
        out@ == on_inspected(path@, token@, database_id@, title@, note@, body@, open, r@),
{
    match response_status(&r) {
        Err(err) => {
            let mut c = string_from("Cannot access database '");
            push_str(&mut c, database_id.as_str());
            push_str(&mut c, "'. Make sure it's shared with your integration.");
            let mut chain = two_lines(string_from("Failed to inspect Notion database"), c);
            add_line(&mut chain, err.message());
            assert(strs_view(chain@) =~= seq![inspect_failed(), cannot_access(database_id@), error_text(err@)]);
            fail_with(chain)
        },
        Ok(()) => {
            let Response { code: _, status: _, message: _, properties, id: _, name: _ } = r;
            match crate::notion::inspect_database(properties) {
                Err(_) => fail_with(
                    two_lines(
                        string_from("Failed to inspect Notion database"),
                        string_from("Database has no properties"),
                    ),
                ),
                Ok(info) => {
                    let trimmed = trimmed_start(body.as_str());
                    let blocks = markdown_to_blocks(trimmed.as_str());
                    let plan = plan_page(database_id.as_str(), &info, title.as_str(), &note.status, &note.tags, &blocks);
                    let warn = note_field_warnings(&note, &info);
                    let url = api_url("/pages");
                    let tok = copy_string(&token);
                    let crate::notion::PagePlan { create_body, append_bodies } = plan;
                    PushStep {
                        state: PushState::Creating { path, token, title, note, body, appends: append_bodies, open },
                        action: PushAction::Send {
                            request: Request { method: Method::Post, url, token: tok, body: Some(create_body) },
                        },
                        out: no_lines(),
                        warn,
                    }
                },
            }
        },
    }
}

/// The page id `page_id` without its dashes.
pub(crate) fn undashed(page_id: &str) -> (r: String)
    ensures
        r@ == without_dashes(page_id@),
{
    let v = chars_of(page_id);
    let mut s = String::new();
    let mut i: usize = 0;
    while i < v.len()
        invariant
            v@ == page_id@,
            i <= v@.len(),
            s@ == without_dashes(v@.take(i as int)),
        decreases v@.len() - i,
    {
        if v[i] != '-' {
            push_char(&mut s, v[i]);
        }
        proof {
            let t = v@.take(i + 1);
            assert(t.drop_last() =~= v@.take(i as int));
            assert(t.last() == v@[i as int]);
        }
        i += 1;
    }
    assert(v@.take(i as int) =~= v@);
    s
}

/// The address of the page `page_id` in Notion.
pub fn page_address(page_id: &str) -> (r: String)
    ensures
        r@ == page_url(page_id@),
{
    let mut s = string_from("https://www.notion.so/");
    let u = undashed(page_id);
    push_str(&mut s, u.as_str());
    s
}

/// The note as written back after a push to the page `page_id`: its
/// frontmatter with the page's id, a blank line, and the body without
/// leading whitespace.
pub fn updated_note(note: Frontmatter, body: &str, page_id: &str) -> (r: String)
    ensures
        r@ == updated_text(note@, body@, page_id@),
{
    let Frontmatter { title, date, status, tags, notion_id: _ } = note;
    let fm = Frontmatter { title, date, status, tags, notion_id: Some(string_from(page_id)) };
    assert(fm@ == with_page_id(note@, page_id@));
    let mut s = serialize_frontmatter(&fm);
    push_char(&mut s, '\n');
    let t = trimmed_start(body);
    push_str(&mut s, t.as_str());
    s
}

fn pushed_step(path: String, title: String, note: Frontmatter, body: String, page_id: String, open: bool) -> (r:
    PushStep)
    ensures
        r@ == pushed(path@, title@, note@, body@, page_id@, open),
{
    let url = page_address(page_id.as_str());
    let mut a = string_from("Pushed: \"");
    push_str(&mut a, title.as_str());
    push_str(&mut a, "\"");
    let mut b = string_from("URL:    ");
    push_str(&mut b, url.as_str());
    let out = two_lines(a, b);
    let content = updated_note(note, body.as_str(), page_id.as_str());
    let p = copy_string(&path);
    PushStep {
        state: PushState::Writing { path, url, open },
        action: PushAction::WriteFile { path: p, content },
        out,
        warn: no_lines(),
    }
}

fn append_or_finish_step(
    path: String,
    token: String,
    title: String,
    note: Frontmatter,
    body: String,
    page_id: String,
    appends: Vec<String>,
    next: usize,
    open: bool,
) -> (r: PushStep)
    ensures
        r@ == append_or_finish(path@, token@, title@, note@, body@, page_id@, strs_view(appends@), next as nat, open),
{
    if next < appends.len() {
        let mut tail = string_from("/blocks/");
        push_str(&mut tail, page_id.as_str());
        push_str(&mut tail, "/children");
        let url = api_url(tail.as_str());
        let tok = copy_string(&token);
        let body_text = copy_string(&appends[next]);
        move_to(
            PushState::Appending { path, token, title, note, body, page_id, appends, next, open },
            PushAction::Send { request: Request { method: Method::Patch, url, token: tok, body: Some(body_text) } },
        )
    } else {
        pushed_step(path, title, note, body, page_id, open)
    }
}

fn created_step(
    path: String,
    token: String,
    title: String,
    note: Frontmatter,
    body: String,
    appends: Vec<String>,
    open: bool,
    e: PushEvent,
) -> (r: PushStep)
    ensures
        r@ == on_created(path@, token@, title@, note@, body@, strs_view(appends@), open, e@),
{
    match e {
        PushEvent::Responded { response } => match response_status(&response) {
            Err(err) => fail_with(two_lines(string_from("Failed to create Notion page"), err.message())),
            Ok(()) => {
                let Response { code: _, status: _, message: _, properties: _, id, name: _ } = response;
                match page_id_of(id) {
                    Err(err) => fail_with(two_lines(string_from("Failed to create Notion page"), err.message())),
                    Ok(pid) => append_or_finish_step(path, token, title, note, body, pid, appends, 0, open),
                }
            },
        },
        PushEvent::Unreachable { reason } => {
            let mut chain = two_lines(
                string_from("Failed to create Notion page"),
                string_from("Failed to connect to Notion API"),
            );
            add_line(&mut chain, reason);
            assert(strs_view(chain@) =~= seq![create_failed(), no_connection(), e@->reason]);
            fail_with(chain)
        },
        _ => fail_with(no_lines()),
    }
}

fn appended_step(
    path: String,
    token: String,
    title: String,
    note: Frontmatter,
    body: String,
    page_id: String,
    appends: Vec<String>,
    next: usize,
    open: bool,
    e: PushEvent,
) -> (r: PushStep)
    ensures
        r@ == on_appended(path@, token@, title@, note@, body@, page_id@, strs_view(appends@), next as nat, open, e@),
{
    match e {
        PushEvent::Responded { response } => match response_status(&response) {
            Err(err) => fail_with(two_lines(string_from("Failed to create Notion page"), err.message())),
            Ok(()) => if next < appends.len() {
                append_or_finish_step(path, token, title, note, body, page_id, appends, next + 1, open)
            } else {
                pushed_step(path, title, note, body, page_id, open)
            },
        },
        PushEvent::Unreachable { reason } => {
            let mut chain = two_lines(
                string_from("Failed to create Notion page"),
                string_from("Failed to connect to Notion API"),
            );
            add_line(&mut chain, reason);
            assert(strs_view(chain@) =~= seq![create_failed(), no_connection(), e@->reason]);
            fail_with(chain)
        },
        _ => fail_with(no_lines()),
    }
}


/// The next move of a push in state `s` on the event `e` that answers its
/// action: as `push_step` says.
pub fn step(s: PushState, e: PushEvent) -> (r: PushStep)
    requires
        expects(s@, e@),
    ensures
        r@ == push_step(s@, e@),
{
    match s {
        PushState::Loading { target, dry_run, open } => loading_step(target, dry_run, open, e),
        PushState::Resolving { name, config, dry_run, open } => resolving_step(name, config, dry_run, open, e),
        PushState::TryingSlug { name, candidate, config, dry_run, open } => trying_step(
            name,
            candidate,
            config,
            dry_run,
            open,
            e,
        ),
        PushState::Reading { path, token, database_id, dry_run, open } => reading_step(
            path,
            token,
            database_id,
            dry_run,
            open,
            e,
        ),
        PushState::Inspecting { path, token, database_id, title, note, body, open } => match e {
            PushEvent::Responded { response } => inspected_step(
                path,
                token,
                database_id,
                title,
                note,
                body,
                open,
                response,
            ),
            PushEvent::Unreachable { reason } => {
                let mut c = string_from("Cannot access database '");
                push_str(&mut c, database_id.as_str());
                push_str(&mut c, "'. Make sure it's shared with your integration.");
                let mut chain = two_lines(string_from("Failed to inspect Notion database"), c);
                add_line(&mut chain, string_from("Failed to connect to Notion API"));
                add_line(&mut chain, reason);
                assert(strs_view(chain@) =~= seq![
                    inspect_failed(),
                    cannot_access(database_id@),
                    no_connection(),
                    e@->reason,
                ]);
                fail_with(chain)
            },
            _ => fail_with(no_lines()),
        },
        PushState::Creating { path, token, title, note, body, appends, open } => created_step(
            path,
            token,
            title,
            note,
            body,
            appends,
            open,
            e,
        ),
        PushState::Appending { path, token, title, note, body, page_id, appends, next, open } => appended_step(
            path,
            token,
            title,
            note,
            body,
            page_id,
            appends,
            next,
            open,
            e,
        ),
        PushState::Writing { path, url, open } => match e {
            PushEvent::Written { error } => match error {
                Some(cause) => {
                    let mut c = string_from("Pushed successfully but failed to update ");
                    push_str(&mut c, path.as_str());
                    fail_with(two_lines(c, cause))
                },
                None => if open {
                    let u = copy_string(&url);
                    move_to(PushState::Opening { url }, PushAction::OpenUrl { url: u })
                } else {
                    move_to(PushState::Finished, PushAction::Finish)
                },
            },
            _ => fail_with(no_lines()),
        },
        PushState::Opening { url } => match e {
            PushEvent::Opened { error } => match error {
                Some(cause) => {
                    let mut c = string_from("Failed to open ");
                    push_str(&mut c, url.as_str());
                    fail_with(two_lines(c, cause))
                },
                None => move_to(PushState::Finished, PushAction::Finish),
            },
            _ => fail_with(no_lines()),
        },
        PushState::Finished => fail_with(no_lines()),
    }
}


// ───────────────────────── what a push promises ─────────────────────────

/// A push that is a dry run and has not finished, or one that has
/// finished.
pub open spec fn dry(s: PushStateView) -> bool {
    match s {
        PushStateView::Loading { dry_run, .. } => dry_run,
        PushStateView::Resolving { dry_run, .. } => dry_run,
        PushStateView::TryingSlug { dry_run, .. } => dry_run,
        PushStateView::Reading { dry_run, .. } => dry_run,
        PushStateView::Finished => true,
        _ => false,
    }
}

/// An action that reaches beyond reading: a request to Notion, a write, or
/// opening a page.
pub open spec fn reaches_out(a: PushActionView) -> bool {
    a is Send || a is WriteFile || a is OpenUrl
}

/// A dry run stays a dry run, and none of its moves sends a request to
/// Notion, writes a file or opens a page.
pub proof fn lemma_dry_run_changes_nothing(s: PushStateView, e: PushEventView)
    requires
        dry(s),
    ensures
        dry(push_step(s, e).state),
        !reaches_out(push_step(s, e).action),
{
}

/// The note written back after a push reads back with the page's id and
/// otherwise the same frontmatter, and with the same body once leading
/// whitespace is trimmed, as a push trims it: pushing it again sends the
/// same fields and blocks. This holds for frontmatter whose fields read
/// back as written, and a body that does not hold a `\r\n`-terminated `---`
/// line.
pub proof fn lemma_written_note_reads_back(note: FrontmatterView, body: Seq<char>, page_id: Seq<char>)
    requires
        survives(with_page_id(note, page_id)),
        !contains(seq!['\n', '\n'] + trim_start(body), "\n---\r\n"@),
    ensures
        note_parts(updated_text(note, body, page_id)).0 == with_page_id(note, page_id),
        trim_start(note_parts(updated_text(note, body, page_id)).1) == trim_start(body),
{
    let fm = with_page_id(note, page_id);
    let rest = seq!['\n'] + trim_start(body);
    assert(seq!['\n'] + rest =~= seq!['\n', '\n'] + trim_start(body));
    lemma_frontmatter_round_trip(fm, rest);
    assert(updated_text(note, body, page_id) =~= frontmatter_text(fm) + rest);
    assert(rest.drop_first() =~= trim_start(body));
    lemma_trim_start_twice(body);
}

/// After a push the note's frontmatter reads back with the page's id as its
/// `notion_id` and with its title, date, status and tags as they were; its
/// body reads back the same once leading whitespace is trimmed. This holds
/// for frontmatter and a page id that read back as written, and a body that
/// does not hold a `\r\n`-terminated `---` line.
pub proof fn lemma_push_keeps_note_fields(note: FrontmatterView, body: Seq<char>, page_id: Seq<char>)
    requires
        survives(note),
        value_ok(page_id),
        !contains(seq!['\n', '\n'] + trim_start(body), "\n---\r\n"@),
    ensures
        note_parts(updated_text(note, body, page_id)).0.title == note.title,
        note_parts(updated_text(note, body, page_id)).0.date == note.date,
        note_parts(updated_text(note, body, page_id)).0.status == note.status,
        note_parts(updated_text(note, body, page_id)).0.tags == note.tags,
        note_parts(updated_text(note, body, page_id)).0.notion_id == Some(page_id),
        trim_start(note_parts(updated_text(note, body, page_id)).1) == trim_start(body),
{
    let fm = with_page_id(note, page_id);
    assert(survives(fm));
    lemma_written_note_reads_back(note, body, page_id);
}


/// Notion accepted the request: the event is an answer with a success
/// status.
pub open spec fn accepted(e: PushEventView) -> bool {
    match e {
        PushEventView::Responded { response } => 200 <= response.code <= 299,
        _ => false,
    }
}

/// The note is written back only on Notion's success answer to the last
/// request of the page.
pub proof fn lemma_write_back_follows_success(s: PushStateView, e: PushEventView)
    ensures
        push_step(s, e).action is WriteFile ==> accepted(e),
{
}


/// What a move shows the user: the lines it prints and, when the push
/// fails, the error.
pub open spec fn shown(r: PushStepView) -> (Seq<Seq<char>>, Seq<Seq<char>>, Option<Seq<Seq<char>>>) {
    (
        r.out,
        r.warn,
        match r.action {
            PushActionView::Fail { chain } => Some(chain),
            _ => None,
        },
    )
}

/// `s` with the token `t` in place of its own.
pub open spec fn retoken(s: PushStateView, t: Seq<char>) -> PushStateView {
    match s {
        PushStateView::Reading { path, database_id, dry_run, open, .. } => PushStateView::Reading {
            path,
            token: t,
            database_id,
            dry_run,
            open,
        },
        PushStateView::Inspecting { path, database_id, title, note, body, open, .. } => PushStateView::Inspecting {
            path,
            token: t,
            database_id,
            title,
            note,
            body,
            open,
        },
        PushStateView::Creating { path, title, note, body, appends, open, .. } => PushStateView::Creating {
            path,
            token: t,
            title,
            note,
            body,
            appends,
            open,
        },
        PushStateView::Appending { path, title, note, body, page_id, appends, next, open, .. } =>
            PushStateView::Appending { path, token: t, title, note, body, page_id, appends, next, open },
        PushStateView::Resolving { name, config, dry_run, open } => if is_set(config.token) {
            PushStateView::Resolving { name, config: config_with_token(config, t), dry_run, open }
        } else {
            s
        },
        PushStateView::TryingSlug { name, candidate, config, dry_run, open } => if is_set(config.token) {
            PushStateView::TryingSlug { name, candidate, config: config_with_token(config, t), dry_run, open }
        } else {
            s
        },
        _ => s,
    }
}

/// `c` with the token `t` in place of its own.
pub open spec fn config_with_token(c: ConfigView, t: Seq<char>) -> ConfigView {
    ConfigView { notes_dir: c.notes_dir, editor: c.editor, token: Some(t), database_id: c.database_id }
}

proof fn lemma_resolving_hides_token(
    name: Seq<char>,
    config: ConfigView,
    dry_run: bool,
    open: bool,
    e: PushEventView,
    t: Seq<char>,
)
    requires
        t.len() > 0,
    ensures
        ({
            let s = PushStateView::Resolving { name, config, dry_run, open };
            &&& shown(push_step(retoken(s, t), e)) == shown(push_step(s, e))
            &&& push_step(retoken(s, t), e).state == retoken(push_step(s, e).state, t)
        }),
{
    let s = PushStateView::Resolving { name, config, dry_run, open };
    if is_set(config.token) {
        let c2 = config_with_token(config, t);
        assert(retoken(s, t) == PushStateView::Resolving { name, config: c2, dry_run, open });
        if let PushEventView::PathChecked { exists } = e {
            if exists {
                assert(push_step(retoken(s, t), e) == start_reading(name, c2, dry_run, open));
                assert(push_step(s, e) == start_reading(name, config, dry_run, open));
                if is_set(config.database_id) {
                    assert(c2.token.unwrap() == t);
                }
            }
        }
    } else {
        assert(retoken(s, t) == s);
    }
}

proof fn lemma_reading_hides_token(
    path: Seq<char>,
    token: Seq<char>,
    database_id: Seq<char>,
    dry_run: bool,
    open: bool,
    e: PushEventView,
    t: Seq<char>,
)
    ensures
        ({
            let s = PushStateView::Reading { path, token, database_id, dry_run, open };
            &&& shown(push_step(retoken(s, t), e)) == shown(push_step(s, e))
            &&& push_step(retoken(s, t), e).state == retoken(push_step(s, e).state, t)
        }),
{
    let s = PushStateView::Reading { path, token, database_id, dry_run, open };
    assert(retoken(s, t) == PushStateView::Reading { path, token: t, database_id, dry_run, open });
    if let PushEventView::FileRead { content: Ok(raw) } = e {
        assert(push_step(s, e) == on_read(path, token, database_id, dry_run, open, raw));
        assert(push_step(retoken(s, t), e) == on_read(path, t, database_id, dry_run, open, raw));
    }
}

proof fn lemma_inspecting_hides_token(
    path: Seq<char>,
    token: Seq<char>,
    database_id: Seq<char>,
    title: Seq<char>,
    note: FrontmatterView,
    body: Seq<char>,
    open: bool,
    e: PushEventView,
    t: Seq<char>,
)
    ensures
        ({
            let s = PushStateView::Inspecting { path, token, database_id, title, note, body, open };
            &&& shown(push_step(retoken(s, t), e)) == shown(push_step(s, e))
            &&& push_step(retoken(s, t), e).state == retoken(push_step(s, e).state, t)
        }),
{
    let s = PushStateView::Inspecting { path, token, database_id, title, note, body, open };
    assert(retoken(s, t) == PushStateView::Inspecting { path, token: t, database_id, title, note, body, open });
    if let PushEventView::Responded { response } = e {
        assert(push_step(s, e) == on_inspected(path, token, database_id, title, note, body, open, response));
        assert(push_step(retoken(s, t), e) == on_inspected(path, t, database_id, title, note, body, open, response));
    }
}

proof fn lemma_append_hides_token(
    path: Seq<char>,
    token: Seq<char>,
    title: Seq<char>,
    note: FrontmatterView,
    body: Seq<char>,
    page_id: Seq<char>,
    appends: Seq<Seq<char>>,
    next: nat,
    open: bool,
    t: Seq<char>,
)
    ensures
        shown(append_or_finish(path, t, title, note, body, page_id, appends, next, open)) == shown(
            append_or_finish(path, token, title, note, body, page_id, appends, next, open),
        ),
        append_or_finish(path, t, title, note, body, page_id, appends, next, open).state == retoken(
            append_or_finish(path, token, title, note, body, page_id, appends, next, open).state,
            t,
        ),
{
}

proof fn lemma_creating_hides_token(
    path: Seq<char>,
    token: Seq<char>,
    title: Seq<char>,
    note: FrontmatterView,
    body: Seq<char>,
    appends: Seq<Seq<char>>,
    open: bool,
    e: PushEventView,
    t: Seq<char>,
)
    ensures
        ({
            let s = PushStateView::Creating { path, token, title, note, body, appends, open };
            &&& shown(push_step(retoken(s, t), e)) == shown(push_step(s, e))
            &&& push_step(retoken(s, t), e).state == retoken(push_step(s, e).state, t)
        }),
{
    let s = PushStateView::Creating { path, token, title, note, body, appends, open };
    assert(retoken(s, t) == PushStateView::Creating { path, token: t, title, note, body, appends, open });
    assert(push_step(s, e) == on_created(path, token, title, note, body, appends, open, e));
    assert(push_step(retoken(s, t), e) == on_created(path, t, title, note, body, appends, open, e));
    if let PushEventView::Responded { response } = e {
        if let Some(id) = response.id {
            lemma_append_hides_token(path, token, title, note, body, id, appends, 0, open, t);
        }
    }
}

proof fn lemma_appending_hides_token(
    path: Seq<char>,
    token: Seq<char>,
    title: Seq<char>,
    note: FrontmatterView,
    body: Seq<char>,
    page_id: Seq<char>,
    appends: Seq<Seq<char>>,
    next: nat,
    open: bool,
    e: PushEventView,
    t: Seq<char>,
)
    ensures
        ({
            let s = PushStateView::Appending { path, token, title, note, body, page_id, appends, next, open };
            &&& shown(push_step(retoken(s, t), e)) == shown(push_step(s, e))
            &&& push_step(retoken(s, t), e).state == retoken(push_step(s, e).state, t)
        }),
{
    let s = PushStateView::Appending { path, token, title, note, body, page_id, appends, next, open };
    assert(retoken(s, t) == PushStateView::Appending { path, token: t, title, note, body, page_id, appends, next, open });
    assert(push_step(s, e) == on_appended(path, token, title, note, body, page_id, appends, next, open, e));
    assert(push_step(retoken(s, t), e) == on_appended(path, t, title, note, body, page_id, appends, next, open, e));
    lemma_append_hides_token(path, token, title, note, body, page_id, appends, next + 1, open, t);
}

proof fn lemma_trying_hides_token(
    name: Seq<char>,
    candidate: Seq<char>,
    config: ConfigView,
    dry_run: bool,
    open: bool,
    e: PushEventView,
    t: Seq<char>,
)
    requires
        t.len() > 0,
    ensures
        ({
            let s = PushStateView::TryingSlug { name, candidate, config, dry_run, open };
            &&& shown(push_step(retoken(s, t), e)) == shown(push_step(s, e))
            &&& push_step(retoken(s, t), e).state == retoken(push_step(s, e).state, t)
        }),
{
    let s = PushStateView::TryingSlug { name, candidate, config, dry_run, open };
    if is_set(config.token) {
        let c2 = config_with_token(config, t);
        assert(retoken(s, t) == PushStateView::TryingSlug { name, candidate, config: c2, dry_run, open });
        if let PushEventView::PathChecked { exists } = e {
            if exists {
                assert(push_step(retoken(s, t), e) == start_reading(candidate, c2, dry_run, open));
                assert(push_step(s, e) == start_reading(candidate, config, dry_run, open));
                if is_set(config.database_id) {
                    assert(c2.token.unwrap() == t);
                }
            }
        }
    } else {
        assert(retoken(s, t) == s);
    }
}

/// A push never shows its token: once the configuration is loaded, a push
/// with another token prints the same lines and fails with the same
/// errors, move by move, and goes on the same way.
#[verifier::rlimit(40)]
#[verifier::spinoff_prover]
pub proof fn lemma_push_hides_token(s: PushStateView, e: PushEventView, t: Seq<char>)
    requires
        t.len() > 0,
        !(s is Loading),
    ensures
        shown(push_step(retoken(s, t), e)) == shown(push_step(s, e)),
        push_step(retoken(s, t), e).state == retoken(push_step(s, e).state, t),
{
    match s {
        PushStateView::Resolving { name, config, dry_run, open } => {
            lemma_resolving_hides_token(name, config, dry_run, open, e, t);
        },
        PushStateView::TryingSlug { name, candidate, config, dry_run, open } => {
            lemma_trying_hides_token(name, candidate, config, dry_run, open, e, t);
        },
        PushStateView::Reading { path, token, database_id, dry_run, open } => {
            lemma_reading_hides_token(path, token, database_id, dry_run, open, e, t);
        },
        PushStateView::Inspecting { path, token, database_id, title, note, body, open } => {
            lemma_inspecting_hides_token(path, token, database_id, title, note, body, open, e, t);
        },
        PushStateView::Creating { path, token, title, note, body, appends, open } => {
            lemma_creating_hides_token(path, token, title, note, body, appends, open, e, t);
        },
        PushStateView::Appending { path, token, title, note, body, page_id, appends, next, open } => {
            lemma_appending_hides_token(path, token, title, note, body, page_id, appends, next, open, e, t);
        },
        _ => {
            assert(retoken(s, t) == s);
        },
    }
}

/// The same holds of the token in the configuration: a configuration
/// with another token that is set leads to the same output and the same
/// push, up to the token.
pub proof fn lemma_push_hides_configured_token(s: PushStateView, c: ConfigView, t: Seq<char>)
    requires
        t.len() > 0,
        is_set(c.token),
    ensures
        shown(push_step(s, PushEventView::ConfigLoaded { config: config_with_token(c, t) })) == shown(
            push_step(s, PushEventView::ConfigLoaded { config: c }),
        ),
        push_step(s, PushEventView::ConfigLoaded { config: config_with_token(c, t) }).state == retoken(
            push_step(s, PushEventView::ConfigLoaded { config: c }).state,
            t,
        ),
{
}



/// What a push shows over the events `es`, answered one after the other
/// from state `s`: move by move, the lines it prints and the error it
/// fails with.
pub open spec fn push_shows(
    s: PushStateView,
    es: Seq<PushEventView>,
) -> Seq<(Seq<Seq<char>>, Seq<Seq<char>>, Option<Seq<Seq<char>>>)>
    decreases es.len(),
{
    if es.len() == 0 {
        seq![]
    } else {
        seq![shown(push_step(s, es[0]))] + push_shows(push_step(s, es[0]).state, es.drop_first())
    }
}

/// The state a push reaches after the events `es`.
pub open spec fn push_after(s: PushStateView, es: Seq<PushEventView>) -> PushStateView
    decreases es.len(),
{
    if es.len() == 0 {
        s
    } else {
        push_after(push_step(s, es[0]).state, es.drop_first())
    }
}

/// No move goes back to loading the configuration.
proof fn lemma_push_never_reloads(s: PushStateView, e: PushEventView)
    ensures
        !(push_step(s, e).state is Loading),
{
}

/// Over whole runs, once the configuration is loaded: a push with another
/// token, answered the same way, prints the same lines and fails with the
/// same errors, and ends in the same state up to the token.
pub proof fn lemma_push_runs_hide_token(s: PushStateView, es: Seq<PushEventView>, t: Seq<char>)
    requires
        t.len() > 0,
        !(s is Loading),
    ensures
        push_shows(retoken(s, t), es) == push_shows(s, es),
        push_after(retoken(s, t), es) == retoken(push_after(s, es), t),
    decreases es.len(),
{
    if es.len() > 0 {
        lemma_push_hides_token(s, es[0], t);
        lemma_push_never_reloads(s, es[0]);
        lemma_push_runs_hide_token(push_step(s, es[0]).state, es.drop_first(), t);
    }
}

/// A whole push never shows its token: two pushes whose configurations
/// differ only in a token that is set, answered the same way from then on,
/// print the same lines and fail with the same errors, and end in the same
/// state up to the token.
pub proof fn lemma_push_run_hides_configured_token(
    s: PushStateView,
    c: ConfigView,
    t: Seq<char>,
    es: Seq<PushEventView>,
)
    requires
        t.len() > 0,
        is_set(c.token),
    ensures
        push_shows(s, seq![PushEventView::ConfigLoaded { config: config_with_token(c, t) }] + es) == push_shows(
            s,
            seq![PushEventView::ConfigLoaded { config: c }] + es,
        ),
        push_after(s, seq![PushEventView::ConfigLoaded { config: config_with_token(c, t) }] + es) == retoken(
            push_after(s, seq![PushEventView::ConfigLoaded { config: c }] + es),
            t,
        ),
{
    let e1 = PushEventView::ConfigLoaded { config: c };
    let e2 = PushEventView::ConfigLoaded { config: config_with_token(c, t) };
    let a = seq![e1] + es;
    let b = seq![e2] + es;
    assert(a[0] == e1);
    assert(b[0] == e2);
    assert(a.drop_first() =~= es);
    assert(b.drop_first() =~= es);
    lemma_push_hides_configured_token(s, c, t);
    lemma_push_never_reloads(s, e1);
    lemma_push_runs_hide_token(push_step(s, e1).state, es, t);
}

} // verus!
