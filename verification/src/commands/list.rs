//! `list`: the notes in the notes directory, with their sync status.
//!
//! The program lists the directory and reads the notes; `step` decides
//! which files are notes and what is printed.
use crate::commands::push::{file_stem, path_stem};
use crate::commands::write::{notes_dir_of, notes_dir_unset};
use crate::config::{expand_dir, join, join_path, Config, ConfigView};
use crate::notion::{note_parts, opt_str, parse_note, strs_view};
use crate::text::{
    char_len, char_len_utf8, chars_of, copy_string, ends_with, lemma_utf8_len_concat, lowercase, no_lines, one_line,
    push_char, push_str, str_eq, string_from, to_lowercase, two_lines, utf8_len,
};
use vstd::prelude::*;

verus! {

// ───────────────────────── entries ─────────────────────────

/// A note as the list shows it: its title, its status and whether it has
/// been pushed; `key` is the lowercased title it is sorted by.
pub struct ListEntry {
    pub key: String,
    pub title: String,
    pub status: String,
    pub synced: bool,
}

pub struct ListEntryView {
    pub key: Seq<char>,
    pub title: Seq<char>,
    pub status: Seq<char>,
    pub synced: bool,
}

impl View for ListEntry {
    type V = ListEntryView;

    open spec fn view(&self) -> ListEntryView {
        ListEntryView { key: self.key@, title: self.title@, status: self.status@, synced: self.synced }
    }
}

pub open spec fn entries_view(es: Seq<ListEntry>) -> Seq<ListEntryView> {
    es.map_values(|e: ListEntry| e@)
}

/// Whether a directory entry named `name` is a note: its extension (as
/// `Path::extension` finds it) is `md`.
pub open spec fn is_note_name(name: Seq<char>) -> bool {
    name.len() > 3 && ends_with(name, ".md"@)
}

/// The entry for the note at `path` whose text is `raw`: its frontmatter
/// title (else the file's name without extension), its status (else
/// `draft`), and whether it has a Notion id.
pub open spec fn entry_of(path: Seq<char>, raw: Seq<char>) -> ListEntryView {
    let fm = note_parts(raw).0;
    let title = match fm.title {
        Some(t) => t,
        None => path_stem(path),
    };
    ListEntryView {
        key: lowercase(title),
        title,
        status: match fm.status {
            Some(s) => s,
            None => "draft"@,
        },
        synced: fm.notion_id is Some,
    }
}

/// The entries of the notes that could be read (`contents[i]` is the text
/// of `paths[i]`, if it could be read), in order.
pub open spec fn entries_of(paths: Seq<Seq<char>>, contents: Seq<Option<Seq<char>>>) -> Seq<ListEntryView>
    decreases contents.len(),
{
    if contents.len() == 0 {
        seq![]
    } else {
        let rest = entries_of(paths, contents.drop_last());
        match contents.last() {
            Some(raw) => rest.push(entry_of(paths[contents.len() - 1], raw)),
            None => rest,
        }
    }
}

/// Whether `a` comes no later than `b` in the order of `String`s, which
/// compares their characters one by one.
pub open spec fn key_le(a: Seq<char>, b: Seq<char>) -> bool
    decreases a.len(),
{
    if a.len() == 0 {
        true
    } else if b.len() == 0 {
        false
    } else if a[0] != b[0] {
        (a[0] as int) < (b[0] as int)
    } else {
        key_le(a.drop_first(), b.drop_first())
    }
}

/// `e` placed into the sorted `s`: after every entry whose key is no later
/// than its own.
pub open spec fn insert_sorted(s: Seq<ListEntryView>, e: ListEntryView) -> Seq<ListEntryView>
    decreases s.len(),
{
    if s.len() == 0 {
        seq![e]
    } else if key_le(s.last().key, e.key) {
        s.push(e)
    } else {
        insert_sorted(s.drop_last(), e).push(s.last())
    }
}

/// The entries sorted by key, entries with equal keys keeping their order
/// (as a stable sort leaves them).
pub open spec fn sort_entries(es: Seq<ListEntryView>) -> Seq<ListEntryView>
    decreases es.len(),
{
    if es.len() == 0 {
        seq![]
    } else {
        insert_sorted(sort_entries(es.drop_last()), es.last())
    }
}

pub open spec fn sync_tag(e: ListEntryView) -> Seq<char> {
    if e.synced {
        "[synced]"@
    } else if e.status == "draft"@ {
        "[draft]"@
    } else {
        "[unsynced]"@
    }
}

/// The width of the title column: the longest title in UTF-8 bytes, and
/// at least 20.
pub open spec fn title_width(es: Seq<ListEntryView>) -> nat
    decreases es.len(),
{
    if es.len() == 0 {
        20
    } else {
        let w = title_width(es.drop_last());
        let n = utf8_len(es.last().title);
        if n > w {
            n
        } else {
            w
        }
    }
}

/// `t` padded with spaces to `w` characters.
pub open spec fn pad_to(t: Seq<char>, w: nat) -> Seq<char> {
    if t.len() < w {
        t + Seq::new((w - t.len()) as nat, |i: int| ' ')
    } else {
        t
    }
}

pub open spec fn entry_line(e: ListEntryView, w: nat) -> Seq<char> {
    pad_to(e.title, w) + "  "@ + sync_tag(e) + "\n"@
}

/// The lines for `es`, one after the other.
pub open spec fn entry_lines(es: Seq<ListEntryView>, w: nat) -> Seq<char>
    decreases es.len(),
{
    if es.len() == 0 {
        seq![]
    } else {
        entry_lines(es.drop_last(), w) + entry_line(es.last(), w)
    }
}

pub open spec fn no_notes_text() -> Seq<char> {
    "No notes yet. Run `m2n write \"Title\"` to create one.\n"@
}

/// What the list prints for the entries `es`: each, sorted by its
/// lowercased title, with its sync status in a column after the titles.
pub open spec fn list_report(es: Seq<ListEntryView>) -> Seq<char> {
    if es.len() == 0 {
        no_notes_text()
    } else {
        entry_lines(sort_entries(es), title_width(es))
    }
}

/// Whether the directory entry `name` is a note.
pub fn is_note_file(name: &str) -> (r: bool)
    ensures
        r == is_note_name(name@),
{
    let v = chars_of(name);
    let n = v.len();
    if n <= 3 {
        return false;
    }
    let r = v[n - 3] == '.' && v[n - 2] == 'm' && v[n - 1] == 'd';
    proof {
        reveal_strlit(".md");
        if r {
            assert(name@.subrange(n - 3, n as int) =~= ".md"@);
        } else {
            if ends_with(name@, ".md"@) {
                assert(name@.subrange(n - 3, n as int)[0] == '.');
                assert(name@.subrange(n - 3, n as int)[1] == 'm');
                assert(name@.subrange(n - 3, n as int)[2] == 'd');
            }
        }
    }
    r
}

/// The entry for the note at `path` whose text is `raw`.
pub fn list_entry(path: &str, raw: &str) -> (r: ListEntry)
    ensures
        r@ == entry_of(path@, raw@),
{
    let (fm, _) = parse_note(raw);
    let title = match fm.title {
        Some(t) => t,
        None => file_stem(path),
    };
    let key = to_lowercase(title.as_str());
    let status = match fm.status {
        Some(s) => s,
        None => string_from("draft"),
    };
    let synced = fm.notion_id.is_some();
    ListEntry { key, title, status, synced }
}

fn key_le_exec(a: &str, b: &str) -> (r: bool)
    ensures
        r == key_le(a@, b@),
{
    let x = chars_of(a);
    let y = chars_of(b);
    let mut i: usize = 0;
    assert(a@.skip(0) =~= a@);
    assert(b@.skip(0) =~= b@);
    while i < x.len() && i < y.len() && x[i] == y[i]
        invariant
            x@ == a@,
            y@ == b@,
            i <= x@.len(),
            i <= y@.len(),
            key_le(a@, b@) == key_le(a@.skip(i as int), b@.skip(i as int)),
        decreases x@.len() - i,
    {
        assert(a@.skip(i as int).drop_first() =~= a@.skip(i + 1));
        assert(b@.skip(i as int).drop_first() =~= b@.skip(i + 1));
        i += 1;
    }
    if i == x.len() {
        true
    } else if i == y.len() {
        false
    } else {
        x[i] < y[i]
    }
}

/// `es` sorted by key, entries with equal keys keeping their order.
pub fn sorted_entries(es: Vec<ListEntry>) -> (r: Vec<ListEntry>)
    ensures
        entries_view(r@) == sort_entries(entries_view(es@)),
{
    let ghost all = entries_view(es@);
    let mut sorted: Vec<ListEntry> = Vec::new();
    let mut rest = es;
    let ghost n = all.len();
    assert(entries_view(sorted@) =~= sort_entries(all.take(0)));
    while rest.len() > 0
        invariant
            n == all.len(),
            rest@.len() <= n,
            entries_view(rest@) =~= all.skip(n - rest@.len()),
            entries_view(sorted@) == sort_entries(all.take(n - rest@.len())),
        decreases rest@.len(),
    {
        let ghost k = n - rest@.len();
        let ghost old_rest = rest@;
        let e = rest.remove(0);
        proof {
            assert(entries_view(old_rest)[0] == all.skip(k)[0]);
            assert(e@ == all[k]);
            assert(all.take(k + 1).drop_last() =~= all.take(k));
            assert(all.take(k + 1).last() == all[k]);
            assert(rest@ =~= old_rest.subrange(1, old_rest.len() as int));
            assert(entries_view(rest@) =~= entries_view(old_rest).drop_first());
            assert(all.skip(k).drop_first() =~= all.skip(k + 1));
        }
        let mut j = sorted.len();
        assert(entries_view(sorted@).take(j as int) =~= entries_view(sorted@));
        assert(entries_view(sorted@).skip(j as int) =~= Seq::<ListEntryView>::empty());
        while j > 0 && !key_le_exec(sorted[j - 1].key.as_str(), e.key.as_str())
            invariant
                j <= sorted@.len(),
                insert_sorted(entries_view(sorted@), e@) == insert_sorted(entries_view(sorted@).take(j as int), e@)
                    + entries_view(sorted@).skip(j as int),
            decreases j,
        {
            proof {
                let s = entries_view(sorted@);
                assert(s.take(j as int).last() == s[j - 1]);
                assert(s.take(j as int).drop_last() =~= s.take(j - 1));
                assert(s.skip(j - 1) =~= seq![s[j - 1]] + s.skip(j as int));
                assert(insert_sorted(s.take(j - 1), e@).push(s[j - 1]) + s.skip(j as int) =~= insert_sorted(
                    s.take(j - 1),
                    e@,
                ) + s.skip(j - 1));
            }
            j -= 1;
        }
        let ghost before = entries_view(sorted@);
        proof {
            if j > 0 {
                assert(before.take(j as int).last() == before[j - 1]);
            }
            assert(insert_sorted(before.take(j as int), e@) =~= before.take(j as int).push(e@));
        }
        sorted.insert(j, e);
        proof {
            assert(entries_view(sorted@) =~= before.take(j as int).push(e@) + before.skip(j as int));
        }
    }
    assert(all.take(n as int) =~= all);
    sorted
}

fn title_width_exec(es: &Vec<ListEntry>) -> (r: u128)
    ensures
        r == title_width(entries_view(es@)),
{
    let ghost all = entries_view(es@);
    let mut w: u128 = 20;
    let mut i: usize = 0;
    assert(all.take(0) =~= Seq::<ListEntryView>::empty());
    while i < es.len()
        invariant
            all == entries_view(es@),
            i <= es@.len(),
            w == title_width(all.take(i as int)),
        decreases es@.len() - i,
    {
        let v = chars_of(es[i].title.as_str());
        let mut n: u128 = 0;
        let mut k: usize = 0;
        while k < v.len()
            invariant
                k <= v@.len(),
                n == utf8_len(v@.take(k as int)),
                n <= 4 * k,
            decreases v@.len() - k,
        {
            proof {
                lemma_utf8_len_concat(v@.take(k as int), seq![v@[k as int]]);
                assert(v@.take(k + 1) =~= v@.take(k as int) + seq![v@[k as int]]);
                assert(seq![v@[k as int]].drop_first() =~= Seq::<char>::empty());
                assert(utf8_len(Seq::<char>::empty()) == 0);
                assert(utf8_len(seq![v@[k as int]]) == char_len(v@[k as int]) + utf8_len(
                    seq![v@[k as int]].drop_first(),
                ));
            }
            n = n + char_len_utf8(v[k]) as u128;
            k += 1;
        }
        proof {
            assert(v@.take(k as int) =~= v@);
            assert(all.take(i + 1).drop_last() =~= all.take(i as int));
            assert(all.take(i + 1).last() == all[i as int]);
        }
        if n > w {
            w = n;
        }
        i += 1;
    }
    assert(all.take(i as int) =~= all);
    w
}

fn entry_line_exec(out: &mut String, e: &ListEntry, w: u128)
    ensures
        final(out)@ == old(out)@ + entry_line(e@, w as nat),
{
    let v = chars_of(e.title.as_str());
    push_str(out, e.title.as_str());
    let ghost head = out@;
    let mut c: u128 = v.len() as u128;
    while c < w
        invariant
            v@.len() <= c,
            c <= w || c == v@.len(),
            out@ == head + Seq::new((c - v@.len()) as nat, |i: int| ' '),
        decreases w - c,
    {
        push_char(out, ' ');
        assert(head + Seq::new((c + 1 - v@.len()) as nat, |i: int| ' ') =~= head + Seq::new(
            (c - v@.len()) as nat,
            |i: int| ' ',
        ).push(' '));
        c = c + 1;
    }
    proof {
        if (v@.len() as nat) < (w as nat) {
            assert(c == w);
        } else {
            assert(c == v@.len());
            assert(Seq::new(0nat, |i: int| ' ') =~= Seq::<char>::empty());
        }
    }
    push_str(out, "  ");
    if e.synced {
        push_str(out, "[synced]");
    } else if str_eq(e.status.as_str(), "draft") {
        push_str(out, "[draft]");
    } else {
        push_str(out, "[unsynced]");
    }
    push_str(out, "\n");
}

/// What the list prints for the entries `es`.
pub fn list_text(es: Vec<ListEntry>) -> (r: String)
    ensures
        r@ == list_report(entries_view(es@)),
{
    if es.len() == 0 {
        return string_from("No notes yet. Run `m2n write \"Title\"` to create one.\n");
    }
    let w = title_width_exec(&es);
    let sorted = sorted_entries(es);
    let ghost s = entries_view(sorted@);
    let mut out = String::new();
    let mut i: usize = 0;
    assert(s.take(0) =~= Seq::<ListEntryView>::empty());
    while i < sorted.len()
        invariant
            s == entries_view(sorted@),
            i <= sorted@.len(),
            out@ == entry_lines(s.take(i as int), w as nat),
        decreases sorted@.len() - i,
    {
        entry_line_exec(&mut out, &sorted[i], w);
        proof {
            assert(s.take(i + 1).drop_last() =~= s.take(i as int));
            assert(s.take(i + 1).last() == s[i as int]);
        }
        i += 1;
    }
    assert(s.take(i as int) =~= s);
    out
}


// ───────────────────────── the command ─────────────────────────

/// The names of the notes among the directory entries `names`, in order.
pub open spec fn note_names(names: Seq<Seq<char>>) -> Seq<Seq<char>>
    decreases names.len(),
{
    if names.len() == 0 {
        seq![]
    } else if is_note_name(names.last()) {
        note_names(names.drop_last()).push(names.last())
    } else {
        note_names(names.drop_last())
    }
}

/// Where the list stands.
pub enum ListState {
    /// Waiting for the configuration.
    Loading { home: Option<String> },
    /// Waiting to learn whether the notes directory exists.
    Looking { dir: String },
    /// Waiting for the names in the notes directory.
    Listing { dir: String },
    /// Waiting for the notes at `paths` to be read.
    Reading { paths: Vec<String> },
    /// Nothing more to do.
    Finished,
}

pub enum ListStateView {
    Loading { home: Option<Seq<char>> },
    Looking { dir: Seq<char> },
    Listing { dir: Seq<char> },
    Reading { paths: Seq<Seq<char>> },
    Finished,
}

impl View for ListState {
    type V = ListStateView;

    open spec fn view(&self) -> ListStateView {
        match self {
            ListState::Loading { home } => ListStateView::Loading { home: opt_str(*home) },
            ListState::Looking { dir } => ListStateView::Looking { dir: dir@ },
            ListState::Listing { dir } => ListStateView::Listing { dir: dir@ },
            ListState::Reading { paths } => ListStateView::Reading { paths: strs_view(paths@) },
            ListState::Finished => ListStateView::Finished,
        }
    }
}

/// What came of an action.
pub enum ListEvent {
    /// The configuration was loaded.
    ConfigLoaded { config: Config },
    /// The configuration could not be loaded, for the reasons given
    /// (outermost first).
    ConfigFailed { chain: Vec<String> },
    /// Whether the checked path exists.
    PathChecked { exists: bool },
    /// The names of the directory's entries that could be read, or why the
    /// directory could not be read.
    Listed { names: Result<Vec<String>, String> },
    /// The text of each note asked for, in order, where it could be read.
    NotesRead { contents: Vec<Option<String>> },
}

pub enum ListEventView {
    ConfigLoaded { config: ConfigView },
    ConfigFailed { chain: Seq<Seq<char>> },
    PathChecked { exists: bool },
    Listed { names: Result<Seq<Seq<char>>, Seq<char>> },
    NotesRead { contents: Seq<Option<Seq<char>>> },
}

impl View for ListEvent {
    type V = ListEventView;

    open spec fn view(&self) -> ListEventView {
        match self {
            ListEvent::ConfigLoaded { config } => ListEventView::ConfigLoaded { config: config@ },
            ListEvent::ConfigFailed { chain } => ListEventView::ConfigFailed { chain: strs_view(chain@) },
            ListEvent::PathChecked { exists } => ListEventView::PathChecked { exists: *exists },
            ListEvent::Listed { names } => ListEventView::Listed {
                names: match names {
                    Ok(n) => Ok(strs_view(n@)),
                    Err(e) => Err(e@),
                },
            },
            ListEvent::NotesRead { contents } => ListEventView::NotesRead {
                contents: contents@.map_values(|c: Option<String>| opt_str(c)),
            },
        }
    }
}

/// What the program does next.
pub enum ListAction {
    /// Load the configuration file.
    LoadConfig,
    /// Find out whether `path` exists.
    CheckPath { path: String },
    /// List the names in the directory `path`.
    ListDir { path: String },
    /// Read each of the notes at `paths`.
    ReadNotes { paths: Vec<String> },
    /// The list is done.
    Finish,
    /// The list failed: the error, then what caused it, outermost first.
    Fail { chain: Vec<String> },
}

pub enum ListActionView {
    LoadConfig,
    CheckPath { path: Seq<char> },
    ListDir { path: Seq<char> },
    ReadNotes { paths: Seq<Seq<char>> },
    Finish,
    Fail { chain: Seq<Seq<char>> },
}

impl View for ListAction {
    type V = ListActionView;

    open spec fn view(&self) -> ListActionView {
        match self {
            ListAction::LoadConfig => ListActionView::LoadConfig,
            ListAction::CheckPath { path } => ListActionView::CheckPath { path: path@ },
            ListAction::ListDir { path } => ListActionView::ListDir { path: path@ },
            ListAction::ReadNotes { paths } => ListActionView::ReadNotes { paths: strs_view(paths@) },
            ListAction::Finish => ListActionView::Finish,
            ListAction::Fail { chain } => ListActionView::Fail { chain: strs_view(chain@) },
        }
    }
}

/// One move of the list: the next state and action, and the text to print
/// first.
pub struct ListStep {
    pub state: ListState,
    pub action: ListAction,
    pub out: String,
}

pub struct ListStepView {
    pub state: ListStateView,
    pub action: ListActionView,
    pub out: Seq<char>,
}

impl View for ListStep {
    type V = ListStepView;

    open spec fn view(&self) -> ListStepView {
        ListStepView { state: self.state@, action: self.action@, out: self.out@ }
    }
}

/// Whether `e` answers the action that led to `s`: the notes read are
/// those asked for.
pub open spec fn list_expects(s: ListStateView, e: ListEventView) -> bool {
    match s {
        ListStateView::Loading { .. } => e is ConfigLoaded || e is ConfigFailed,
        ListStateView::Looking { .. } => e is PathChecked,
        ListStateView::Listing { .. } => e is Listed,
        ListStateView::Reading { paths } => e matches ListEventView::NotesRead { contents } && contents.len()
            == paths.len(),
        ListStateView::Finished => false,
    }
}

pub open spec fn list_moved(state: ListStateView, action: ListActionView, out: Seq<char>) -> ListStepView {
    ListStepView { state, action, out }
}

pub open spec fn list_failed(chain: Seq<Seq<char>>) -> ListStepView {
    list_moved(ListStateView::Finished, ListActionView::Fail { chain }, seq![])
}

/// The next move of the list in state `s` on event `e`.
pub open spec fn list_step(s: ListStateView, e: ListEventView) -> ListStepView {
    match s {
        ListStateView::Loading { home } => match e {
            ListEventView::ConfigLoaded { config } => match config.notes_dir {
                None => list_failed(seq![notes_dir_unset()]),
                Some(raw) => list_moved(
                    ListStateView::Looking { dir: notes_dir_of(raw, home) },
                    ListActionView::CheckPath { path: notes_dir_of(raw, home) },
                    seq![],
                ),
            },
            ListEventView::ConfigFailed { chain } => list_failed(chain),
            _ => list_failed(seq![]),
        },
        ListStateView::Looking { dir } => match e {
            ListEventView::PathChecked { exists } => if exists {
                list_moved(ListStateView::Listing { dir }, ListActionView::ListDir { path: dir }, seq![])
            } else {
                list_moved(ListStateView::Finished, ListActionView::Finish, no_notes_text())
            },
            _ => list_failed(seq![]),
        },
        ListStateView::Listing { dir } => match e {
            ListEventView::Listed { names } => match names {
                Err(cause) => list_failed(seq!["Cannot read notes directory: "@ + dir, cause]),
                Ok(ns) => {
                    let paths = note_names(ns).map_values(|n: Seq<char>| join_path(dir, n));
                    list_moved(ListStateView::Reading { paths }, ListActionView::ReadNotes { paths }, seq![])
                },
            },
            _ => list_failed(seq![]),
        },
        ListStateView::Reading { paths } => match e {
            ListEventView::NotesRead { contents } => list_moved(
                ListStateView::Finished,
                ListActionView::Finish,
                list_report(entries_of(paths, contents)),
            ),
            _ => list_failed(seq![]),
        },
        ListStateView::Finished => list_failed(seq![]),
    }
}

/// `list`, with `home` the home directory when there is one: it starts by
/// loading the configuration.
pub fn run(home: Option<String>) -> (r: (ListState, ListAction))
    ensures
        r.0@ == (ListStateView::Loading { home: opt_str(home) }),
        r.1@ == ListActionView::LoadConfig,
{
    (ListState::Loading { home }, ListAction::LoadConfig)
}

impl ListState {
    /// Whether `e` answers the action that led to this state.
    pub fn expects(&self, e: &ListEvent) -> (r: bool)
        ensures
            r == list_expects(self@, e@),
    {
        match self {
            ListState::Loading { .. } => match e {
                ListEvent::ConfigLoaded { .. } | ListEvent::ConfigFailed { .. } => true,
                _ => false,
            },
            ListState::Looking { .. } => match e {
                ListEvent::PathChecked { .. } => true,
                _ => false,
            },
            ListState::Listing { .. } => match e {
                ListEvent::Listed { .. } => true,
                _ => false,
            },
            ListState::Reading { paths } => match e {
                ListEvent::NotesRead { contents } => contents.len() == paths.len(),
                _ => false,
            },
            ListState::Finished => false,
        }
    }
}

fn list_fail(chain: Vec<String>) -> (r: ListStep)
    ensures
        r@ == list_failed(strs_view(chain@)),
{
    ListStep { state: ListState::Finished, action: ListAction::Fail { chain }, out: String::new() }
}

/// The paths of the notes among `names`, in the directory `dir`.
fn note_paths(dir: &str, names: &Vec<String>) -> (r: Vec<String>)
    ensures
        strs_view(r@) == note_names(strs_view(names@)).map_values(|n: Seq<char>| join_path(dir@, n)),
{
    let ghost ns = strs_view(names@);
    let mut r: Vec<String> = Vec::new();
    let mut i: usize = 0;
    assert(ns.take(0) =~= Seq::<Seq<char>>::empty());
    assert(strs_view(r@) =~= Seq::<Seq<char>>::empty());
    while i < names.len()
        invariant
            ns == strs_view(names@),
            i <= names@.len(),
            strs_view(r@) == note_names(ns.take(i as int)).map_values(|n: Seq<char>| join_path(dir@, n)),
        decreases names@.len() - i,
    {
        proof {
            assert(ns.take(i + 1).drop_last() =~= ns.take(i as int));
            assert(ns.take(i + 1).last() == names@[i as int]@);
        }
        if is_note_file(names[i].as_str()) {
            let p = join(dir, names[i].as_str());
            let ghost before = strs_view(r@);
            r.push(p);
            proof {
                assert(strs_view(r@) =~= before.push(p@));
                assert(note_names(ns.take(i + 1)) == note_names(ns.take(i as int)).push(names@[i as int]@));
                assert(note_names(ns.take(i + 1)).map_values(|n: Seq<char>| join_path(dir@, n)) =~= note_names(
                    ns.take(i as int),
                ).map_values(|n: Seq<char>| join_path(dir@, n)).push(join_path(dir@, names@[i as int]@)));
            }
        }
        i += 1;
    }
    assert(ns.take(i as int) =~= ns);
    r
}

/// The entries of the notes that could be read.
fn read_entries(paths: &Vec<String>, contents: Vec<Option<String>>) -> (r: Vec<ListEntry>)
    requires
        contents@.len() == paths@.len(),
    ensures
        entries_view(r@) == entries_of(strs_view(paths@), contents@.map_values(|c: Option<String>| opt_str(c))),
{
    let ghost ps = strs_view(paths@);
    let ghost cs = contents@.map_values(|c: Option<String>| opt_str(c));
    let mut r: Vec<ListEntry> = Vec::new();
    let mut i: usize = 0;
    assert(cs.take(0) =~= Seq::<Option<Seq<char>>>::empty());
    assert(entries_view(r@) =~= Seq::<ListEntryView>::empty());
    while i < contents.len()
        invariant
            ps == strs_view(paths@),
            cs == contents@.map_values(|c: Option<String>| opt_str(c)),
            contents@.len() == paths@.len(),
            i <= contents@.len(),
            entries_view(r@) == entries_of(ps, cs.take(i as int)),
        decreases contents@.len() - i,
    {
        proof {
            assert(cs.take(i + 1).drop_last() =~= cs.take(i as int));
            assert(cs.take(i + 1).last() == opt_str(contents@[i as int]));
            assert(cs.take(i + 1).len() - 1 == i);
        }
        match &contents[i] {
            Some(raw) => {
                let e = list_entry(paths[i].as_str(), raw.as_str());
                let ghost before = entries_view(r@);
                r.push(e);
                assert(entries_view(r@) =~= before.push(e@));
            },
            None => {},
        }
        i += 1;
    }
    assert(cs.take(i as int) =~= cs);
    r
}

/// The next move of the list in state `s` on the event `e` that answers
/// its action: as `list_step` says.
pub fn step(s: ListState, e: ListEvent) -> (r: ListStep)
    requires
        list_expects(s@, e@),
    ensures
        r@ == list_step(s@, e@),
{
    match s {
        ListState::Loading { home } => match e {
            ListEvent::ConfigLoaded { config } => match &config.notes_dir {
                None => list_fail(
                    one_line(string_from("notes_dir not configured.\n→ Run `m2n init` to set your notes directory.")),
                ),
                Some(raw) => {
                    let d = match &home {
                        Some(h) => expand_dir(raw.as_str(), h.as_str()),
                        None => {
                            let x = expand_dir(raw.as_str(), "");
                            assert(""@ =~= Seq::<char>::empty()) by {
                                reveal_strlit("");
                            }
                            x
                        },
                    };
                    let p = copy_string(&d);
                    ListStep { state: ListState::Looking { dir: d }, action: ListAction::CheckPath { path: p }, out: String::new() }
                },
            },
            ListEvent::ConfigFailed { chain } => list_fail(chain),
            _ => list_fail(no_lines()),
        },
        ListState::Looking { dir } => match e {
            ListEvent::PathChecked { exists } => if exists {
                let p = copy_string(&dir);
                ListStep { state: ListState::Listing { dir }, action: ListAction::ListDir { path: p }, out: String::new() }
            } else {
                ListStep {
                    state: ListState::Finished,
                    action: ListAction::Finish,
                    out: string_from("No notes yet. Run `m2n write \"Title\"` to create one.\n"),
                }
            },
            _ => list_fail(no_lines()),
        },
        ListState::Listing { dir } => match e {
            ListEvent::Listed { names } => match names {
                Err(cause) => {
                    let mut c = string_from("Cannot read notes directory: ");
                    push_str(&mut c, dir.as_str());
                    list_fail(two_lines(c, cause))
                },
                Ok(ns) => {
                    let paths = note_paths(dir.as_str(), &ns);
                    let mut asked: Vec<String> = Vec::new();
                    let mut i: usize = 0;
                    while i < paths.len()
                        invariant
                            i <= paths@.len(),
                            strs_view(asked@) == strs_view(paths@).take(i as int),
                        decreases paths@.len() - i,
                    {
                        let ghost before = strs_view(asked@);
                        let c = copy_string(&paths[i]);
                        asked.push(c);
                        assert(strs_view(asked@) =~= before.push(c@));
                        assert(strs_view(paths@).take(i + 1) =~= strs_view(paths@).take(i as int).push(paths@[i as int]@));
                        i += 1;
                    }
                    assert(strs_view(paths@).take(i as int) =~= strs_view(paths@));
                    ListStep { state: ListState::Reading { paths }, action: ListAction::ReadNotes { paths: asked }, out: String::new() }
                },
            },
            _ => list_fail(no_lines()),
        },
        ListState::Reading { paths } => match e {
            ListEvent::NotesRead { contents } => {
                let es = read_entries(&paths, contents);
                ListStep { state: ListState::Finished, action: ListAction::Finish, out: list_text(es) }
            },
            _ => list_fail(no_lines()),
        },
        ListState::Finished => list_fail(no_lines()),
    }
}


// ───────────────────────── what the list promises ─────────────────────────

proof fn lemma_key_le_total(a: Seq<char>, b: Seq<char>)
    ensures
        key_le(a, b) || key_le(b, a),
    decreases a.len(),
{
    if a.len() > 0 && b.len() > 0 {
        if a[0] == b[0] {
            lemma_key_le_total(a.drop_first(), b.drop_first());
        } else {
            assert((a[0] as int) != (b[0] as int));
        }
    }
}

proof fn lemma_key_le_trans(a: Seq<char>, b: Seq<char>, c: Seq<char>)
    requires
        key_le(a, b),
        key_le(b, c),
    ensures
        key_le(a, c),
    decreases a.len(),
{
    if a.len() > 0 && b.len() > 0 && c.len() > 0 && a[0] == b[0] && b[0] == c[0] {
        lemma_key_le_trans(a.drop_first(), b.drop_first(), c.drop_first());
    }
}

/// Entries in order of their keys.
pub open spec fn keys_sorted(s: Seq<ListEntryView>) -> bool {
    forall|i: int, j: int| 0 <= i < j < s.len() ==> key_le(#[trigger] s[i].key, #[trigger] s[j].key)
}

proof fn lemma_insert_bound(t: Seq<ListEntryView>, e: ListEntryView, b: Seq<char>)
    requires
        forall|k: int| 0 <= k < t.len() ==> key_le(#[trigger] t[k].key, b),
        key_le(e.key, b),
    ensures
        forall|k: int| 0 <= k < insert_sorted(t, e).len() ==> key_le(#[trigger] insert_sorted(t, e)[k].key, b),
    decreases t.len(),
{
    if t.len() > 0 && !key_le(t.last().key, e.key) {
        lemma_insert_bound(t.drop_last(), e, b);
        let r = insert_sorted(t.drop_last(), e);
        assert forall|k: int| 0 <= k < insert_sorted(t, e).len() implies key_le(
            #[trigger] insert_sorted(t, e)[k].key,
            b,
        ) by {
            if k < r.len() {
                assert(insert_sorted(t, e)[k] == r[k]);
            } else {
                assert(insert_sorted(t, e)[k] == t[t.len() - 1]);
            }
        }
    }
}

proof fn lemma_insert_sorted(s: Seq<ListEntryView>, e: ListEntryView)
    requires
        keys_sorted(s),
    ensures
        keys_sorted(insert_sorted(s, e)),
        insert_sorted(s, e).to_multiset() == s.to_multiset().insert(e),
    decreases s.len(),
{
    broadcast use vstd::seq_lib::group_to_multiset_ensures;

    if s.len() == 0 {
        assert(seq![e] =~= Seq::<ListEntryView>::empty().push(e));
    } else if key_le(s.last().key, e.key) {
        let r = s.push(e);
        assert forall|i: int, j: int| 0 <= i < j < r.len() implies key_le(#[trigger] r[i].key, #[trigger] r[j].key) by {
            if j == s.len() && i < s.len() - 1 {
                lemma_key_le_trans(s[i].key, s.last().key, e.key);
            }
        }
    } else {
        let t = s.drop_last();
        assert(keys_sorted(t));
        lemma_insert_sorted(t, e);
        let m = insert_sorted(t, e);
        lemma_key_le_total(s.last().key, e.key);
        assert forall|k: int| 0 <= k < t.len() implies key_le(#[trigger] t[k].key, s.last().key) by {
            assert(s[k] == t[k]);
        }
        lemma_insert_bound(t, e, s.last().key);
        let r = m.push(s.last());
        assert forall|i: int, j: int| 0 <= i < j < r.len() implies key_le(#[trigger] r[i].key, #[trigger] r[j].key) by {
            if j == m.len() {
                assert(r[i] == m[i]);
            } else {
                assert(r[i] == m[i]);
                assert(r[j] == m[j]);
            }
        }
        assert(t.push(s.last()) =~= s);
    }
}

/// The list shows every note once, sorted by lowercased title.
pub proof fn lemma_list_sorted(es: Seq<ListEntryView>)
    ensures
        keys_sorted(sort_entries(es)),
        sort_entries(es).to_multiset() == es.to_multiset(),
    decreases es.len(),
{
    broadcast use vstd::seq_lib::group_to_multiset_ensures;

    if es.len() > 0 {
        lemma_list_sorted(es.drop_last());
        lemma_insert_sorted(sort_entries(es.drop_last()), es.last());
        assert(es.drop_last().push(es.last()) =~= es);
    }
}

} // verus!
