//! `write` and `edit`: find or create a note, open it in the editor, then
//! push it.
//!
//! `write` opens the note named by a path or a title, creating it first
//! when there is none, and pushes it once the editor closes; `edit` does
//! the same for a note that must exist. The program checks and creates the
//! files and runs the editor; `step` decides.
use crate::commands::push::{candidate_path, slug_candidate};
use crate::config::{editor_choice, expand_dir, expand_home, Config, ConfigView, Installed};
use crate::notion::{frontmatter_text, note_parts, opt_str, strs_view, FrontmatterView};
use crate::round_trip::{lemma_escape_plain, lemma_frontmatter_round_trip, survives, title_ok, value_ok};
use crate::text::{
    contains, copy_string, lacks, lemma_trim_end_keeps, lemma_trim_start_keeps, no_lines, occurs_at, one_line, push_str,
    string_from, trim, two_lines,
};
use vstd::prelude::*;

verus! {

/// Which command is running.
#[derive(Clone, Copy, Debug, PartialEq, Eq, Structural)]
pub enum NoteMode {
    Write,
    Edit,
}

/// Where the command stands.
pub enum NoteState {
    /// Waiting for the configuration.
    Loading {
        mode: NoteMode,
        title: String,
        home: Option<String>,
        date: String,
        env_editor: Option<String>,
        installed: Installed,
    },
    /// Waiting to learn whether `title` is the path of a note.
    Resolving { title: String, dir: String, date: String, editor: String },
    /// Waiting to learn whether the note named after `title` exists at
    /// `path`.
    Finding { mode: NoteMode, title: String, dir: String, path: String, date: String, editor: String },
    /// Waiting for the notes directory `dir` to be created.
    MakingDir { mode: NoteMode, title: String, dir: String, path: String, date: String, editor: String },
    /// Waiting to learn whether the note to create exists at `path`.
    Checking { mode: NoteMode, title: String, path: String, date: String, editor: String },
    /// Waiting for the new note to be written.
    Writing { mode: NoteMode, path: String, editor: String },
    /// Waiting for the editor to close.
    Editing { path: String, editor: String },
    /// Nothing more to do.
    Finished,
}

pub enum NoteStateView {
    Loading {
        mode: NoteMode,
        title: Seq<char>,
        home: Option<Seq<char>>,
        date: Seq<char>,
        env_editor: Option<Seq<char>>,
        installed: Installed,
    },
    Resolving { title: Seq<char>, dir: Seq<char>, date: Seq<char>, editor: Seq<char> },
    Finding {
        mode: NoteMode,
        title: Seq<char>,
        dir: Seq<char>,
        path: Seq<char>,
        date: Seq<char>,
        editor: Seq<char>,
    },
    MakingDir {
        mode: NoteMode,
        title: Seq<char>,
        dir: Seq<char>,
        path: Seq<char>,
        date: Seq<char>,
        editor: Seq<char>,
    },
    Checking { mode: NoteMode, title: Seq<char>, path: Seq<char>, date: Seq<char>, editor: Seq<char> },
    Writing { mode: NoteMode, path: Seq<char>, editor: Seq<char> },
    Editing { path: Seq<char>, editor: Seq<char> },
    Finished,
}

impl View for NoteState {
    type V = NoteStateView;

    open spec fn view(&self) -> NoteStateView {
        match self {
            NoteState::Loading { mode, title, home, date, env_editor, installed } => NoteStateView::Loading {
                mode: *mode,
                title: title@,
                home: opt_str(*home),
                date: date@,
                env_editor: opt_str(*env_editor),
                installed: *installed,
            },
            NoteState::Resolving { title, dir, date, editor } => NoteStateView::Resolving {
                title: title@,
                dir: dir@,
                date: date@,
                editor: editor@,
            },
            NoteState::Finding { mode, title, dir, path, date, editor } => NoteStateView::Finding {
                mode: *mode,
                title: title@,
                dir: dir@,
                path: path@,
                date: date@,
                editor: editor@,
            },
            NoteState::MakingDir { mode, title, dir, path, date, editor } => NoteStateView::MakingDir {
                mode: *mode,
                title: title@,
                dir: dir@,
                path: path@,
                date: date@,
                editor: editor@,
            },
            NoteState::Checking { mode, title, path, date, editor } => NoteStateView::Checking {
                mode: *mode,
                title: title@,
                path: path@,
                date: date@,
                editor: editor@,
            },
            NoteState::Writing { mode, path, editor } => NoteStateView::Writing {
                mode: *mode,
                path: path@,
                editor: editor@,
            },
            NoteState::Editing { path, editor } => NoteStateView::Editing { path: path@, editor: editor@ },
            NoteState::Finished => NoteStateView::Finished,
        }
    }
}

/// What came of an action.
pub enum NoteEvent {
    /// The configuration was loaded.
    ConfigLoaded { config: Config },
    /// The configuration could not be loaded, for the reasons given
    /// (outermost first).
    ConfigFailed { chain: Vec<String> },
    /// Whether the checked path exists.
    PathChecked { exists: bool },
    /// The directory was created, or why it was not.
    DirCreated { error: Option<String> },
    /// The note was written, or why it was not.
    Written { error: Option<String> },
    /// Whether the editor exited successfully, or why it could not be
    /// started.
    Edited { outcome: Result<bool, String> },
}

pub enum NoteEventView {
    ConfigLoaded { config: ConfigView },
    ConfigFailed { chain: Seq<Seq<char>> },
    PathChecked { exists: bool },
    DirCreated { error: Option<Seq<char>> },
    Written { error: Option<Seq<char>> },
    Edited { outcome: Result<bool, Seq<char>> },
}

impl View for NoteEvent {
    type V = NoteEventView;

    open spec fn view(&self) -> NoteEventView {
        match self {
            NoteEvent::ConfigLoaded { config } => NoteEventView::ConfigLoaded { config: config@ },
            NoteEvent::ConfigFailed { chain } => NoteEventView::ConfigFailed { chain: strs_view(chain@) },
            NoteEvent::PathChecked { exists } => NoteEventView::PathChecked { exists: *exists },
            NoteEvent::DirCreated { error } => NoteEventView::DirCreated { error: opt_str(*error) },
            NoteEvent::Written { error } => NoteEventView::Written { error: opt_str(*error) },
            NoteEvent::Edited { outcome } => NoteEventView::Edited {
                outcome: match outcome {
                    Ok(b) => Ok(*b),
                    Err(e) => Err(e@),
                },
            },
        }
    }
}

/// What the program does next.
pub enum NoteAction {
    /// Load the configuration file.
    LoadConfig,
    /// Find out whether `path` exists.
    CheckPath { path: String },
    /// Create the directory `path` and its parents.
    CreateDir { path: String },
    /// Write `content` to `path`.
    WriteFile { path: String, content: String },
    /// Run `editor` on `path` and wait for it.
    Edit { editor: String, path: String },
    /// Push the note at `path` (`push::run_path`).
    Push { path: String },
    /// The command is done.
    Finish,
    /// The command failed: the error, then what caused it, outermost first.
    Fail { chain: Vec<String> },
}

pub enum NoteActionView {
    LoadConfig,
    CheckPath { path: Seq<char> },
    CreateDir { path: Seq<char> },
    WriteFile { path: Seq<char>, content: Seq<char> },
    Edit { editor: Seq<char>, path: Seq<char> },
    Push { path: Seq<char> },
    Finish,
    Fail { chain: Seq<Seq<char>> },
}

impl View for NoteAction {
    type V = NoteActionView;

    open spec fn view(&self) -> NoteActionView {
        match self {
            NoteAction::LoadConfig => NoteActionView::LoadConfig,
            NoteAction::CheckPath { path } => NoteActionView::CheckPath { path: path@ },
            NoteAction::CreateDir { path } => NoteActionView::CreateDir { path: path@ },
            NoteAction::WriteFile { path, content } => NoteActionView::WriteFile { path: path@, content: content@ },
            NoteAction::Edit { editor, path } => NoteActionView::Edit { editor: editor@, path: path@ },
            NoteAction::Push { path } => NoteActionView::Push { path: path@ },
            NoteAction::Finish => NoteActionView::Finish,
            NoteAction::Fail { chain } => NoteActionView::Fail { chain: strs_view(chain@) },
        }
    }
}

/// One move: the next state and action, and the text to print first.
pub struct NoteStep {
    pub state: NoteState,
    pub action: NoteAction,
    pub out: String,
}

pub struct NoteStepView {
    pub state: NoteStateView,
    pub action: NoteActionView,
    pub out: Seq<char>,
}

impl View for NoteStep {
    type V = NoteStepView;

    open spec fn view(&self) -> NoteStepView {
        NoteStepView { state: self.state@, action: self.action@, out: self.out@ }
    }
}

/// Whether `e` answers the action that led to `s`.
pub open spec fn note_expects(s: NoteStateView, e: NoteEventView) -> bool {
    match s {
        NoteStateView::Loading { .. } => e is ConfigLoaded || e is ConfigFailed,
        NoteStateView::Resolving { .. } => e is PathChecked,
        NoteStateView::Finding { .. } => e is PathChecked,
        NoteStateView::MakingDir { .. } => e is DirCreated,
        NoteStateView::Checking { .. } => e is PathChecked,
        NoteStateView::Writing { .. } => e is Written,
        NoteStateView::Editing { .. } => e is Edited,
        NoteStateView::Finished => false,
    }
}

impl NoteState {
    /// Whether `e` answers the action that led to this state.
    pub fn expects(&self, e: &NoteEvent) -> (r: bool)
        ensures
            r == note_expects(self@, e@),
    {
        match self {
            NoteState::Loading { .. } => match e {
                NoteEvent::ConfigLoaded { .. } | NoteEvent::ConfigFailed { .. } => true,
                _ => false,
            },
            NoteState::Resolving { .. } | NoteState::Finding { .. } | NoteState::Checking { .. } => match e {
                NoteEvent::PathChecked { .. } => true,
                _ => false,
            },
            NoteState::MakingDir { .. } => match e {
                NoteEvent::DirCreated { .. } => true,
                _ => false,
            },
            NoteState::Writing { .. } => match e {
                NoteEvent::Written { .. } => true,
                _ => false,
            },
            NoteState::Editing { .. } => match e {
                NoteEvent::Edited { .. } => true,
                _ => false,
            },
            NoteState::Finished => false,
        }
    }
}

// ───────────────────────── new notes ─────────────────────────

/// The text of a new note titled `title`, created at `date`: frontmatter
/// with the title, the date, status `draft` and no tags, then the title as
/// a heading.
pub open spec fn note_template(title: Seq<char>, date: Seq<char>) -> Seq<char> {
    "---\ntitle: \""@ + title + "\"\ndate: "@ + date + "\nstatus: draft\ntags: []\n---\n\n# "@ + title + "\n\n"@
}

/// The text of a new note titled `title`, created at `date`.
pub fn template(title: &str, date: &str) -> (r: String)
    ensures
        r@ == note_template(title@, date@),
{
    let mut s = string_from("---\ntitle: \"");
    push_str(&mut s, title);
    push_str(&mut s, "\"\ndate: ");
    push_str(&mut s, date);
    push_str(&mut s, "\nstatus: draft\ntags: []\n---\n\n# ");
    push_str(&mut s, title);
    push_str(&mut s, "\n\n");
    s
}

/// The frontmatter of a new note titled `title`, created at `date`.
pub open spec fn new_note_fields(title: Seq<char>, date: Seq<char>) -> FrontmatterView {
    FrontmatterView { title: Some(title), date: Some(date), status: Some("draft"@), tags: seq![], notion_id: None }
}

/// A note that `write` creates reads back with its title, its date, status `draft` and no
/// tags, followed by its heading -- for a title that reads back as written
/// (one line, no double quote, no apostrophe at either end) and a date of
/// one line without surrounding whitespace.
pub proof fn lemma_created_note_reads_back(title: Seq<char>, date: Seq<char>)
    requires
        title_ok(title),
        value_ok(date),
    ensures
        note_parts(note_template(title, date)).0 == new_note_fields(title, date),
        note_parts(note_template(title, date)).1 == "\n# "@ + title + "\n\n"@,
{
    reveal_strlit("draft");
    reveal_strlit("\n# ");
    reveal_strlit("\n\n");
    reveal_strlit("\n---\r\n");
    let fm = new_note_fields(title, date);
    let rest = "\n# "@ + title + "\n\n"@;
    lemma_escape_plain(title);
    lemma_trim_start_keeps("draft"@);
    lemma_trim_end_keeps("draft"@);
    assert(trim("draft"@) == "draft"@);
    assert(survives(fm));
    let s = seq!['\n'] + rest;
    assert(lacks(s, '\r')) by {
        assert forall|i: int| 0 <= i < s.len() implies s[i] != '\r' by {
            if 4 <= i < 4 + title.len() {
                assert(s[i] == title[i - 4]);
            }
        }
    }
    assert(!contains(s, "\n---\r\n"@)) by {
        if contains(s, "\n---\r\n"@) {
            let i = choose|i: int| occurs_at(s, "\n---\r\n"@, i);
            assert(s.subrange(i, i + 6)[4] == '\r');
            assert(s[i + 4] == '\r');
        }
    }
    lemma_frontmatter_round_trip(fm, rest);
    assert(note_template(title, date) =~= frontmatter_text(fm) + rest) by {
        reveal_strlit("---\n");
        reveal_strlit("title: ");
        reveal_strlit("date: ");
        reveal_strlit("status: ");
        reveal_strlit("tags: ");
        reveal_strlit("---\ntitle: \"");
        reveal_strlit("\"\ndate: ");
        reveal_strlit("\nstatus: draft\ntags: []\n---\n\n# ");
        reveal_strlit("\n\n");
    }
}


// ───────────────────────── starting ─────────────────────────

/// `write <title>`: open the note at the path `title`, or the note titled
/// `title` in the notes directory (creating it, dated `date`, when there
/// is none), in the editor, then push it. `home` is the home directory
/// when there is one; `env_editor` is `$EDITOR` when it is set and
/// `installed` says which fallback editors are installed.
pub fn run(title: &str, home: Option<String>, date: &str, env_editor: Option<String>, installed: Installed) -> (r: (
    NoteState,
    NoteAction,
))
    ensures
        r.0@ == (NoteStateView::Loading {
            mode: NoteMode::Write,
            title: title@,
            home: opt_str(home),
            date: date@,
            env_editor: opt_str(env_editor),
            installed,
        }),
        r.1@ == NoteActionView::LoadConfig,
{
    (
        NoteState::Loading { mode: NoteMode::Write, title: string_from(title), home, date: string_from(date), env_editor, installed },
        NoteAction::LoadConfig,
    )
}


// ───────────────────────── what each move does ─────────────────────────

pub open spec fn note_moved(state: NoteStateView, action: NoteActionView, out: Seq<char>) -> NoteStepView {
    NoteStepView { state, action, out }
}

/// The command fails with `chain`.
pub open spec fn note_failed(chain: Seq<Seq<char>>) -> NoteStepView {
    note_moved(NoteStateView::Finished, NoteActionView::Fail { chain }, seq![])
}

pub open spec fn notes_dir_unset() -> Seq<char> {
    "notes_dir not configured.\n→ Run `m2n init` to set your notes directory."@
}

pub open spec fn no_note(title: Seq<char>) -> Seq<char> {
    "No note found for \""@ + title + "\".\n→ Use `m2n write \""@ + title + "\"` to create it."@
}

/// Open the note at `path` in `editor`, after printing `out`.
pub open spec fn open_in_editor(path: Seq<char>, editor: Seq<char>, out: Seq<char>) -> NoteStepView {
    note_moved(NoteStateView::Editing { path, editor }, NoteActionView::Edit { editor, path }, out)
}

/// The notes directory: the configured one, with a leading `~` standing
/// for the home directory (empty when there is none).
pub open spec fn notes_dir_of(raw: Seq<char>, home: Option<Seq<char>>) -> Seq<char> {
    expand_home(
        raw,
        match home {
            Some(h) => h,
            None => seq![],
        },
    )
}

pub open spec fn on_note_loading(
    mode: NoteMode,
    title: Seq<char>,
    home: Option<Seq<char>>,
    date: Seq<char>,
    env_editor: Option<Seq<char>>,
    installed: Installed,
    e: NoteEventView,
) -> NoteStepView {
    match e {
        NoteEventView::ConfigLoaded { config: c } => {
            let editor = editor_choice(c.editor, env_editor, installed);
            match c.notes_dir {
                None => note_failed(seq![notes_dir_unset()]),
                Some(raw) => {
                    let d = notes_dir_of(raw, home);
                    let p = slug_candidate(d, title);
                    match mode {
                        NoteMode::Write => note_moved(
                            NoteStateView::Resolving { title, dir: d, date, editor },
                            NoteActionView::CheckPath { path: title },
                            seq![],
                        ),
                        NoteMode::Edit => note_moved(
                            NoteStateView::Finding { mode, title, dir: d, path: p, date, editor },
                            NoteActionView::CheckPath { path: p },
                            seq![],
                        ),
                    }
                },
            }
        },
        NoteEventView::ConfigFailed { chain } => note_failed(chain),
        _ => note_failed(seq![]),
    }
}

/// The next move in state `s` on event `e`.
pub open spec fn note_step(s: NoteStateView, e: NoteEventView) -> NoteStepView {
    match s {
        NoteStateView::Loading { mode, title, home, date, env_editor, installed } => on_note_loading(
            mode,
            title,
            home,
            date,
            env_editor,
            installed,
            e,
        ),
        NoteStateView::Resolving { title, dir, date, editor } => match e {
            NoteEventView::PathChecked { exists } => if exists {
                open_in_editor(title, editor, seq![])
            } else {
                note_moved(
                    NoteStateView::Finding {
                        mode: NoteMode::Write,
                        title,
                        dir,
                        path: slug_candidate(dir, title),
                        date,
                        editor,
                    },
                    NoteActionView::CheckPath { path: slug_candidate(dir, title) },
                    seq![],
                )
            },
            _ => note_failed(seq![]),
        },
        NoteStateView::Finding { mode, title, dir, path, date, editor } => match e {
            NoteEventView::PathChecked { exists } => if exists {
                open_in_editor(path, editor, seq![])
            } else if mode == NoteMode::Edit {
                note_failed(seq![no_note(title)])
            } else {
                note_moved(
                    NoteStateView::MakingDir { mode, title, dir, path, date, editor },
                    NoteActionView::CreateDir { path: dir },
                    seq![],
                )
            },
            _ => note_failed(seq![]),
        },
        NoteStateView::MakingDir { mode, title, dir, path, date, editor } => match e {
            NoteEventView::DirCreated { error } => match error {
                Some(cause) => note_failed(seq!["Failed to create notes directory"@, cause]),
                None => note_moved(
                    NoteStateView::Checking { mode, title, path, date, editor },
                    NoteActionView::CheckPath { path },
                    seq![],
                ),
            },
            _ => note_failed(seq![]),
        },
        NoteStateView::Checking { mode, title, path, date, editor } => match e {
            NoteEventView::PathChecked { exists } => if exists {
                open_in_editor(path, editor, "Note already exists: "@ + path + "\n"@)
            } else {
                note_moved(
                    NoteStateView::Writing { mode, path, editor },
                    NoteActionView::WriteFile { path, content: note_template(title, date) },
                    seq![],
                )
            },
            _ => note_failed(seq![]),
        },
        NoteStateView::Writing { mode, path, editor } => match e {
            NoteEventView::Written { error } => match error {
                Some(cause) => note_failed(seq!["Failed to write "@ + path, cause]),
                None => open_in_editor(path, editor, "Created: "@ + path + "\n"@),
            },
            _ => note_failed(seq![]),
        },
        NoteStateView::Editing { path, editor } => match e {
            NoteEventView::Edited { outcome } => match outcome {
                Err(cause) => note_failed(seq!["Failed to launch editor: "@ + editor, cause]),
                Ok(success) => if success {
                    note_moved(NoteStateView::Finished, NoteActionView::Push { path }, seq![])
                } else {
                    note_failed(seq!["Editor exited with non-zero status"@])
                },
            },
            _ => note_failed(seq![]),
        },
        NoteStateView::Finished => note_failed(seq![]),
    }
}

// ───────────────────────── making the moves ─────────────────────────

fn note_move(state: NoteState, action: NoteAction, out: String) -> (r: NoteStep)
    ensures
        r@ == note_moved(state@, action@, out@),
{
    NoteStep { state, action, out }
}

fn note_fail(chain: Vec<String>) -> (r: NoteStep)
    ensures
        r@ == note_failed(strs_view(chain@)),
{
    NoteStep { state: NoteState::Finished, action: NoteAction::Fail { chain }, out: String::new() }
}

fn editing(path: String, editor: String, out: String) -> (r: NoteStep)
    ensures
        r@ == open_in_editor(path@, editor@, out@),
{
    let p = copy_string(&path);
    let ed = copy_string(&editor);
    note_move(NoteState::Editing { path, editor }, NoteAction::Edit { editor: ed, path: p }, out)
}

/// `text` then `path` and a line break.
fn with_path(text: &str, path: &str) -> (r: String)
    ensures
        r@ == text@ + path@ + "\n"@,
{
    let mut s = string_from(text);
    push_str(&mut s, path);
    push_str(&mut s, "\n");
    s
}

fn loading_step(
    mode: NoteMode,
    title: String,
    home: Option<String>,
    date: String,
    env_editor: Option<String>,
    installed: Installed,
    e: NoteEvent,
) -> (r: NoteStep)
    ensures
        r@ == on_note_loading(mode, title@, opt_str(home), date@, opt_str(env_editor), installed, e@),
{
    match e {
        NoteEvent::ConfigLoaded { config } => {
            let editor = config.editor(&env_editor, installed);
            match &config.notes_dir {
                None => note_fail(
                    one_line(string_from("notes_dir not configured.\n→ Run `m2n init` to set your notes directory.")),
                ),
                Some(raw) => {
                    let d = match &home {
                        Some(h) => expand_dir(raw.as_str(), h.as_str()),
                        None => {
                            let x = expand_dir(raw.as_str(), "");
                            assert(""@ =~= Seq::<char>::empty()) by {
                                reveal_strlit("");
                            }
                            x
                        },
                    };
                    let p = candidate_path(d.as_str(), title.as_str());
                    match mode {
                        NoteMode::Write => {
                            let t = copy_string(&title);
                            note_move(
                                NoteState::Resolving { title, dir: d, date, editor },
                                NoteAction::CheckPath { path: t },
                                String::new(),
                            )
                        },
                        NoteMode::Edit => {
                            let pp = copy_string(&p);
                            note_move(
                                NoteState::Finding { mode, title, dir: d, path: p, date, editor },
                                NoteAction::CheckPath { path: pp },
                                String::new(),
                            )
                        },
                    }
                },
            }
        },
        NoteEvent::ConfigFailed { chain } => note_fail(chain),
        _ => note_fail(no_lines()),
    }
}

/// The next move in state `s` on the event `e` that answers its action:
/// as `note_step` says.
pub fn step(s: NoteState, e: NoteEvent) -> (r: NoteStep)
    requires
        note_expects(s@, e@),
    ensures
        r@ == note_step(s@, e@),
{
    match s {
        NoteState::Loading { mode, title, home, date, env_editor, installed } => loading_step(
            mode,
            title,
            home,
            date,
            env_editor,
            installed,
            e,
        ),
        NoteState::Resolving { title, dir, date, editor } => match e {
            NoteEvent::PathChecked { exists } => if exists {
                editing(title, editor, String::new())
            } else {
                let p = candidate_path(dir.as_str(), title.as_str());
                let pp = copy_string(&p);
                note_move(
                    NoteState::Finding { mode: NoteMode::Write, title, dir, path: p, date, editor },
                    NoteAction::CheckPath { path: pp },
                    String::new(),
                )
            },
            _ => note_fail(no_lines()),
        },
        NoteState::Finding { mode, title, dir, path, date, editor } => match e {
            NoteEvent::PathChecked { exists } => if exists {
                editing(path, editor, String::new())
            } else if mode == NoteMode::Edit {
                let mut m = string_from("No note found for \"");
                push_str(&mut m, title.as_str());
                push_str(&mut m, "\".\n→ Use `m2n write \"");
                push_str(&mut m, title.as_str());
                push_str(&mut m, "\"` to create it.");
                note_fail(one_line(m))
            } else {
                let dd = copy_string(&dir);
                note_move(
                    NoteState::MakingDir { mode, title, dir, path, date, editor },
                    NoteAction::CreateDir { path: dd },
                    String::new(),
                )
            },
            _ => note_fail(no_lines()),
        },
        NoteState::MakingDir { mode, title, dir: _, path, date, editor } => match e {
            NoteEvent::DirCreated { error } => match error {
                Some(cause) => note_fail(two_lines(string_from("Failed to create notes directory"), cause)),
                None => {
                    let pp = copy_string(&path);
                    note_move(
                        NoteState::Checking { mode, title, path, date, editor },
                        NoteAction::CheckPath { path: pp },
                        String::new(),
                    )
                },
            },
            _ => note_fail(no_lines()),
        },
        NoteState::Checking { mode, title, path, date, editor } => match e {
            NoteEvent::PathChecked { exists } => if exists {
                let out = with_path("Note already exists: ", path.as_str());
                editing(path, editor, out)
            } else {
                let content = template(title.as_str(), date.as_str());
                let pp = copy_string(&path);
                note_move(
                    NoteState::Writing { mode, path, editor },
                    NoteAction::WriteFile { path: pp, content },
                    String::new(),
                )
            },
            _ => note_fail(no_lines()),
        },
        NoteState::Writing { mode, path, editor } => match e {
            NoteEvent::Written { error } => match error {
                Some(cause) => {
                    let mut c = string_from("Failed to write ");
                    push_str(&mut c, path.as_str());
                    note_fail(two_lines(c, cause))
                },
                None => {
                    let out = with_path("Created: ", path.as_str());
                    editing(path, editor, out)
                },
            },
            _ => note_fail(no_lines()),
        },
        NoteState::Editing { path, editor } => match e {
            NoteEvent::Edited { outcome } => match outcome {
                Err(cause) => {
                    let mut c = string_from("Failed to launch editor: ");
                    push_str(&mut c, editor.as_str());
                    note_fail(two_lines(c, cause))
                },
                Ok(success) => if success {
                    note_move(NoteState::Finished, NoteAction::Push { path }, String::new())
                } else {
                    note_fail(one_line(string_from("Editor exited with non-zero status")))
                },
            },
            _ => note_fail(no_lines()),
        },
        NoteState::Finished => note_fail(no_lines()),
    }
}


// ───────────────────────── what the commands promise ─────────────────────────

/// A state that `edit` can be in.
pub open spec fn editing_existing(s: NoteStateView) -> bool {
    match s {
        NoteStateView::Loading { mode, .. } => mode == NoteMode::Edit,
        NoteStateView::Finding { mode, .. } => mode == NoteMode::Edit,
        NoteStateView::Editing { .. } => true,
        NoteStateView::Finished => true,
        _ => false,
    }
}

/// An action that creates a file or a directory.
pub open spec fn creates(a: NoteActionView) -> bool {
    a is WriteFile || a is CreateDir
}

/// `edit` stays `edit` and never creates a note or a directory: a note
/// that does not exist is an error.
pub proof fn lemma_edit_creates_nothing(s: NoteStateView, e: NoteEventView)
    requires
        editing_existing(s),
    ensures
        editing_existing(note_step(s, e).state),
        !creates(note_step(s, e).action),
{
}

} // verus!
