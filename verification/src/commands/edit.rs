//! `edit`: open an existing note in the editor, then push it.
use crate::commands::write::{NoteAction, NoteActionView, NoteMode, NoteState, NoteStateView};
use crate::config::Installed;
use crate::notion::opt_str;
use crate::text::string_from;
use vstd::prelude::*;

verus! {

/// `edit <title>`: open the note titled `title` in the notes directory in
/// the editor, then push it; it fails when there is no such note. `home`
/// is the home directory when there is one; `env_editor` is `$EDITOR` when
/// it is set and `installed` says which fallback editors are installed.
pub fn run(title: &str, home: Option<String>, env_editor: Option<String>, installed: Installed) -> (r: (
    NoteState,
    NoteAction,
))
    ensures
        r.0@ == (NoteStateView::Loading {
            mode: NoteMode::Edit,
            title: title@,
            home: opt_str(home),
            date: Seq::empty(),
            env_editor: opt_str(env_editor),
            installed,
        }),
        r.1@ == NoteActionView::LoadConfig,
{
    (
        NoteState::Loading {
            mode: NoteMode::Edit,
            title: string_from(title),
            home,
            date: String::new(),
            env_editor,
            installed,
        },
        NoteAction::LoadConfig,
    )
}

} // verus!
