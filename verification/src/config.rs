//! The configuration file's contents, and what is worked out from them.
use crate::notion::opt_str;
use crate::text::{chars_of, push_str, starts_with, starts_with_str, str_eq, string_from, string_of};
use vstd::prelude::*;

verus! {

/// The Notion settings.
#[derive(Debug, PartialEq, Eq)]
pub struct NotionConfig {
    pub token: Option<String>,
    pub database_id: Option<String>,
}

/// The configuration file's contents.
#[derive(Debug, PartialEq, Eq)]
pub struct Config {
    pub notes_dir: Option<String>,
    pub editor: Option<String>,
    pub notion: NotionConfig,
}

pub struct ConfigView {
    pub notes_dir: Option<Seq<char>>,
    pub editor: Option<Seq<char>>,
    pub token: Option<Seq<char>>,
    pub database_id: Option<Seq<char>>,
}

impl View for Config {
    type V = ConfigView;

    open spec fn view(&self) -> ConfigView {
        ConfigView {
            notes_dir: opt_str(self.notes_dir),
            editor: opt_str(self.editor),
            token: opt_str(self.notion.token),
            database_id: opt_str(self.notion.database_id),
        }
    }
}

// ───────────────────────── paths ─────────────────────────

/// `base` joined with `rest` as `PathBuf::push` does on Unix: an absolute
/// `rest` replaces `base`; otherwise a `/` goes between them unless `base`
/// is empty or already ends with one.
pub open spec fn join_path(base: Seq<char>, rest: Seq<char>) -> Seq<char> {
    if rest.len() > 0 && rest[0] == '/' {
        rest
    } else if base.len() == 0 || base.last() == '/' {
        base + rest
    } else {
        base + seq!['/'] + rest
    }
}

/// `base` joined with `rest`, as in `join_path`.
pub fn join(base: &str, rest: &str) -> (r: String)
    ensures
        r@ == join_path(base@, rest@),
{
    let b = chars_of(base);
    let t = chars_of(rest);
    if t.len() > 0 && t[0] == '/' {
        return string_from(rest);
    }
    let mut s = string_from(base);
    if b.len() > 0 && b[b.len() - 1] != '/' {
        crate::text::push_char(&mut s, '/');
    }
    push_str(&mut s, rest);
    proof {
        if b@.len() > 0 {
            assert(b@.last() == b@[b@.len() - 1]);
        }
    }
    s
}

/// Where the notes directory is: `~` stands for the home directory, and a
/// leading `~/` for a path under it.
pub open spec fn expand_home(dir: Seq<char>, home: Seq<char>) -> Seq<char> {
    if starts_with(dir, "~/"@) {
        join_path(home, dir.skip("~/"@.len() as int))
    } else if dir == "~"@ {
        home
    } else {
        dir
    }
}

/// `notes_dir` with a leading `~` expanded to `home`.
pub fn expand_dir(dir: &str, home: &str) -> (r: String)
    ensures
        r@ == expand_home(dir@, home@),
{
    let v = chars_of(dir);
    if starts_with_str(&v, 0, v.len(), "~/") {
        let n = chars_of("~/").len();
        let rest = string_of(&v, n, v.len());
        proof {
            assert(v@.subrange(0, v@.len() as int) =~= dir@);
            assert(dir@.skip("~/"@.len() as int) =~= v@.subrange(n as int, v@.len() as int));
        }
        join(home, rest.as_str())
    } else if str_eq(dir, "~") {
        string_from(home)
    } else {
        proof {
            assert(v@.subrange(0, v@.len() as int) =~= dir@);
        }
        string_from(dir)
    }
}

impl Config {
    /// `notes_dir`: the notes directory, with a leading `~` expanded to
    /// the home directory `home`; none when it is not configured.
    pub fn notes_dir(&self, home: &str) -> (r: Option<String>)
        ensures
            match self.notes_dir {
                Some(d) => r matches Some(x) && x@ == expand_home(d@, home@),
                None => r is None,
            },
    {
        match &self.notes_dir {
            Some(d) => Some(expand_dir(d.as_str(), home)),
            None => None,
        }
    }

    /// `editor`: the configured editor; else `$EDITOR` when it is set and
    /// not empty (`env_editor`); else the first of `nvim`, `vim`, `nano`
    /// that is installed; else `vim`.
    pub fn editor(&self, env_editor: &Option<String>, installed: Installed) -> (r: String)
        ensures
            r@ == editor_choice(opt_str(self.editor), opt_str(*env_editor), installed),
    {
        match &self.editor {
            Some(e) => return crate::text::copy_string(e),
            None => {},
        }
        match env_editor {
            Some(e) => {
                if chars_of(e.as_str()).len() > 0 {
                    return crate::text::copy_string(e);
                }
            },
            None => {},
        }
        if installed.nvim {
            string_from("nvim")
        } else if installed.vim {
            string_from("vim")
        } else if installed.nano {
            string_from("nano")
        } else {
            string_from("vim")
        }
    }
}

/// The editor to open notes with: the configured one, else a non-empty
/// `$EDITOR`, else the first installed of `nvim`, `vim`, `nano`, else
/// `vim`.
pub open spec fn editor_choice(configured: Option<Seq<char>>, env: Option<Seq<char>>, installed: Installed) -> Seq<char> {
    match configured {
        Some(e) => e,
        None => match env {
            Some(e) if e.len() > 0 => e,
            _ => if installed.nvim {
                "nvim"@
            } else if installed.vim {
                "vim"@
            } else if installed.nano {
                "nano"@
            } else {
                "vim"@
            },
        },
    }
}

/// `base` joined with the relative `rest` as Windows paths are joined: a
/// `\` goes between them unless `base` is empty or already ends with `\` or
/// `/`.
pub open spec fn join_windows(base: Seq<char>, rest: Seq<char>) -> Seq<char> {
    if base.len() == 0 || base.last() == '\\' || base.last() == '/' {
        base + rest
    } else {
        base + seq!['\\'] + rest
    }
}

/// `base` joined with the relative `rest`, as in `join_windows`.
fn join_win(base: &str, rest: &str) -> (r: String)
    ensures
        r@ == join_windows(base@, rest@),
{
    let b = chars_of(base);
    let mut s = string_from(base);
    if b.len() > 0 && b[b.len() - 1] != '\\' && b[b.len() - 1] != '/' {
        crate::text::push_char(&mut s, '\\');
    }
    push_str(&mut s, rest);
    proof {
        if b@.len() > 0 {
            assert(b@.last() == b@[b@.len() - 1]);
        }
    }
    s
}

/// Where the configuration file is: `m2n\config.toml` under the
/// application-data directory (`%APPDATA%` on Windows, given as
/// `app_data`) when there is one, else `.config/m2n/config.toml` under the
/// home directory; none when neither is known.
pub open spec fn config_file(home: Option<Seq<char>>, app_data: Option<Seq<char>>) -> Option<Seq<char>> {
    match app_data {
        Some(d) => Some(join_windows(join_windows(d, "m2n"@), "config.toml"@)),
        None => match home {
            Some(h) => Some(join_path(join_path(join_path(h, ".config"@), "m2n"@), "config.toml"@)),
            None => None,
        },
    }
}

/// `config_path`: the configuration file, `m2n\config.toml` under the
/// application-data directory on Windows (`app_data`, which the program
/// gives only there), else `.config/m2n/config.toml` under the home
/// directory `home`; none when neither is known.
pub fn config_path(home: &Option<String>, app_data: &Option<String>) -> (r: Option<String>)
    ensures
        opt_str(r) == config_file(opt_str(*home), opt_str(*app_data)),
{
    match app_data {
        Some(d) => {
            let a = join_win(d.as_str(), "m2n");
            Some(join_win(a.as_str(), "config.toml"))
        },
        None => match home {
            Some(h) => {
                let a = join(h.as_str(), ".config");
                let b = join(a.as_str(), "m2n");
                Some(join(b.as_str(), "config.toml"))
            },
            None => None,
        },
    }
}

/// Which of `nvim`, `vim` and `nano` are installed.
#[derive(Clone, Copy)]
pub struct Installed {
    pub nvim: bool,
    pub vim: bool,
    pub nano: bool,
}



} // verus!
