use m2n::commands::check::{self as check_cmd, CheckAction, CheckEvent, CheckState};
use m2n::commands::edit;
use m2n::commands::init::{self as init_cmd, normalize_db_id, notes_dir_from, InitAction, InitEvent, InitState};
use m2n::commands::list::{self as list_cmd, is_note_file, list_entry, list_text, ListAction, ListEvent, ListState};
use m2n::commands::new::{self as new_cmd, NewAction, NewEvent, NewState};
use m2n::commands::write::{self as write_cmd, NoteAction, NoteEvent, NoteState};
use m2n::config::{config_path, expand_dir, join, Config, Installed, NotionConfig};
use m2n::notion::Property;
use m2n::notion_api::{Method, Response};

const ID: &str = "0123456789abcdef0123456789ABCDEF";

fn response(code: u16, properties: Option<Vec<Property>>, name: Option<&str>) -> Response {
    Response {
        code,
        status: format!("{}", code),
        message: if code == 200 { None } else { Some("denied".to_string()) },
        properties,
        id: None,
        name: name.map(|n| n.to_string()),
    }
}

fn none_installed() -> Installed {
    Installed { nvim: false, vim: false, nano: false }
}

fn cfg(notes_dir: Option<&str>, editor: Option<&str>, token: Option<&str>, db: Option<&str>) -> Config {
    Config {
        notes_dir: notes_dir.map(|s| s.to_string()),
        editor: editor.map(|s| s.to_string()),
        notion: NotionConfig { token: token.map(|s| s.to_string()), database_id: db.map(|s| s.to_string()) },
    }
}

#[test]
fn database_ids_from_addresses() {
    assert_eq!(normalize_db_id(ID), Some(ID.to_string()));
    assert_eq!(
        normalize_db_id("01234567-89ab-cdef-0123-456789abcdef"),
        Some("0123456789abcdef0123456789abcdef".to_string())
    );
    assert_eq!(
        normalize_db_id("https://www.notion.so/work/My-Notes-0123456789abcdef0123456789abcdef?v=ffff"),
        Some("0123456789abcdef0123456789abcdef".to_string())
    );
    assert_eq!(
        normalize_db_id("https://www.notion.so/0123456789abcdef0123456789abcdef/#top"),
        Some("0123456789abcdef0123456789abcdef".to_string())
    );
    assert_eq!(normalize_db_id("https://www.notion.so/work/short-id"), None);
    assert_eq!(normalize_db_id("0123456789abcdef0123456789abcdeg"), None);
    assert_eq!(normalize_db_id(""), None);
}

#[test]
fn the_setup_wizard() {
    let (state, action) = init_cmd::run("/h/.config/m2n/config.toml", Some("/h".to_string()));
    assert!(matches!(&action, InitAction::CheckPath { path } if path == "/h/.config/m2n/config.toml"));
    let s = init_cmd::step(state, InitEvent::PathChecked { exists: false });
    assert!(s.out.starts_with("Welcome to m2n — Markdown to Notion.\n\n"));
    assert!(matches!(&s.action, InitAction::Ask { prompt } if prompt == "Notion integration token: "));
    let s = init_cmd::step(s.state, InitEvent::Answered { line: Ok("  secret_tok \n".to_string()) });
    assert!(matches!(&s.action, InitAction::Ask { prompt } if prompt == "Notion database URL or ID: "));
    let s = init_cmd::step(s.state, InitEvent::Answered { line: Ok(format!("https://www.notion.so/x/DB-{}\n", ID)) });
    assert_eq!(s.out, "\nTesting connection... ");
    match &s.action {
        InitAction::Send { request } => {
            assert_eq!(request.method, Method::Get);
            assert_eq!(request.url, "https://api.notion.com/v1/users/me");
            assert_eq!(request.token, "secret_tok");
        }
        _ => panic!("expected a request"),
    }
    let s = init_cmd::step(s.state, InitEvent::Responded { response: response(200, None, Some("My Bot")) });
    assert_eq!(s.out, "✓  Connected as \"My Bot\"\nChecking database...  ");
    match &s.action {
        InitAction::Send { request } => assert_eq!(request.url, format!("https://api.notion.com/v1/databases/{}", ID)),
        _ => panic!("expected a request"),
    }
    let props = vec![Property { name: "Title".to_string(), kind: "title".to_string() }];
    let s = init_cmd::step(s.state, InitEvent::Responded { response: response(200, Some(props), None) });
    assert!(s.out.starts_with("✓  Database accessible (title: \"Title\", status: —, tags: —)\n   Note: no \"Status\""));
    let s = init_cmd::step(s.state, InitEvent::Answered { line: Ok("~/my notes\n".to_string()) });
    assert!(matches!(&s.action, InitAction::CreateDir { path } if path == "/h/my notes"));
    let s = init_cmd::step(s.state, InitEvent::DirCreated { error: None });
    assert_eq!(s.out, "✓  Notes directory: /h/my notes\n");
    match &s.action {
        InitAction::SaveConfig { path, config } => {
            assert_eq!(path, "/h/.config/m2n/config.toml");
            assert_eq!(config, &cfg(Some("/h/my notes"), None, Some("secret_tok"), Some(ID)));
        }
        _ => panic!("expected a save"),
    }
    let s = init_cmd::step(s.state, InitEvent::Saved { failure: None });
    assert!(s.out.starts_with("\nConfig saved to /h/.config/m2n/config.toml\n"));
    assert!(matches!(s.action, InitAction::Finish));
}

#[test]
fn the_wizard_stops_when_told_not_to_overwrite() {
    let (state, _) = init_cmd::run("/c.toml", None);
    let s = init_cmd::step(state, InitEvent::PathChecked { exists: true });
    assert!(matches!(&s.action, InitAction::Ask { prompt } if prompt == "Config already exists at /c.toml. Overwrite? [y/N]: "));
    let s = init_cmd::step(s.state, InitEvent::Answered { line: Ok("n\n".to_string()) });
    assert_eq!(s.out, "Aborted.\n");
    assert!(matches!(s.action, InitAction::Finish));
    let (state, _) = init_cmd::run("/c.toml", None);
    let s = init_cmd::step(state, InitEvent::PathChecked { exists: true });
    let s = init_cmd::step(s.state, InitEvent::Answered { line: Ok(" Y \n".to_string()) });
    assert!(matches!(&s.action, InitAction::Ask { prompt } if prompt == "Notion integration token: "));
}

fn init_fail_chain(a: &InitAction) -> Vec<String> {
    match a {
        InitAction::Fail { chain } => chain.clone(),
        _ => panic!("expected a failure"),
    }
}

#[test]
fn the_wizard_rejects_bad_answers() {
    let (state, _) = init_cmd::run("/c.toml", None);
    let s = init_cmd::step(state, InitEvent::PathChecked { exists: false });
    let s = init_cmd::step(s.state, InitEvent::Answered { line: Ok("  \n".to_string()) });
    assert_eq!(
        init_fail_chain(&s.action),
        vec!["Token cannot be empty. Run `m2n init` again when you have one.".to_string()]
    );
    let (state, _) = init_cmd::run("/c.toml", None);
    let s = init_cmd::step(state, InitEvent::PathChecked { exists: false });
    let s = init_cmd::step(s.state, InitEvent::Answered { line: Ok("tok".to_string()) });
    let s = init_cmd::step(s.state, InitEvent::Answered { line: Ok("not-an-id".to_string()) });
    assert_eq!(
        init_fail_chain(&s.action),
        vec!["Could not find a 32-character Notion ID in: not-an-id\n→ Paste the full database URL (e.g. https://www.notion.so/...) or the bare ID.".to_string()]
    );
    let (state, _) = init_cmd::run("/c.toml", None);
    let s = init_cmd::step(state, InitEvent::PathChecked { exists: false });
    let s = init_cmd::step(s.state, InitEvent::Answered { line: Ok("tok".to_string()) });
    let s = init_cmd::step(s.state, InitEvent::Answered { line: Ok(ID.to_string()) });
    let s = init_cmd::step(s.state, InitEvent::Responded { response: response(401, None, None) });
    assert_eq!(
        init_fail_chain(&s.action),
        vec![
            "Authentication failed".to_string(),
            "Notion token is invalid. Check notion.token in your config.".to_string()
        ]
    );
}

#[test]
fn notes_directory_answers() {
    assert_eq!(notes_dir_from("", &Some("/h".to_string())), "/h/notes");
    assert_eq!(notes_dir_from("", &None), "./notes");
    assert_eq!(notes_dir_from("~", &Some("/h".to_string())), "/h");
    assert_eq!(notes_dir_from("~/n", &None), "n");
    assert_eq!(notes_dir_from("/abs", &Some("/h".to_string())), "/abs");
}

#[test]
fn the_check_report() {
    let s = check_cmd::run("/h/.config/m2n/config.toml", Some("".to_string()), Installed { nvim: false, vim: true, nano: true });
    assert_eq!(s.out, "Config path : /h/.config/m2n/config.toml\n");
    let s = check_cmd::step(s.state, CheckEvent::ConfigLoaded { config: cfg(Some("~/n"), None, Some("t"), Some("d")) });
    assert_eq!(
        s.out,
        "Notes dir   : ~/n\nEditor      : vim\n$EDITOR     : \nNotion token: set\nDatabase ID : set\n"
    );
    let s = check_cmd::step(s.state, CheckEvent::Responded { response: response(200, None, None) });
    assert_eq!(s.out, "Notion auth : ok (integration)\n");
    let props = vec![
        Property { name: "Name".to_string(), kind: "title".to_string() },
        Property { name: "Tags".to_string(), kind: "multi_select".to_string() },
    ];
    let s = check_cmd::step(s.state, CheckEvent::Responded { response: response(200, Some(props), None) });
    assert_eq!(
        s.out,
        "Database    : accessible\nTitle prop  : Name\nStatus prop : not found\nTags prop   : Tags\n"
    );
    assert!(matches!(s.action, CheckAction::Finish));
    assert!(matches!(s.state, CheckState::Finished));
}

#[test]
fn the_check_without_config_or_token() {
    let s = check_cmd::run("/c", None, none_installed());
    let s = check_cmd::step(s.state, CheckEvent::ConfigFailed { chain: vec!["Config not found at /c.".to_string(), "io".to_string()] });
    assert_eq!(s.out, "Config      : MISSING — Config not found at /c.\n\nRun `m2n init` to create a config.\n");
    let s = check_cmd::run("/c", Some("nano".to_string()), none_installed());
    let s = check_cmd::step(s.state, CheckEvent::ConfigLoaded { config: cfg(None, Some("code"), None, Some("")) });
    assert_eq!(
        s.out,
        "Notes dir   : not set\nEditor      : code\n$EDITOR     : nano\nNotion token: not set\nDatabase ID : not set\n"
    );
    assert!(matches!(s.action, CheckAction::Finish));
    let s = check_cmd::run("/c", None, none_installed());
    let s = check_cmd::step(s.state, CheckEvent::ConfigLoaded { config: cfg(None, None, Some("t"), Some("db")) });
    let s = check_cmd::step(s.state, CheckEvent::Responded { response: response(200, None, Some("Bot")) });
    let s = check_cmd::step(s.state, CheckEvent::Unreachable { reason: "down".to_string() });
    assert_eq!(s.out, "Database    : FAILED — Cannot access database 'db'. Make sure it's shared with your integration.\n");
    let s = check_cmd::run("/c", None, none_installed());
    let s = check_cmd::step(s.state, CheckEvent::ConfigLoaded { config: cfg(None, None, Some("t"), None) });
    let s = check_cmd::step(s.state, CheckEvent::Responded { response: response(403, None, None) });
    assert_eq!(s.out, "Notion auth : FAILED — No access: denied. Share the database with your integration in Notion.\n");
}

#[test]
fn note_files_and_entries() {
    assert!(is_note_file("a.md"));
    assert!(is_note_file("x..md"));
    assert!(!is_note_file(".md"));
    assert!(!is_note_file("a.markdown"));
    assert!(!is_note_file("md"));
    let e = list_entry("/n/plain-note.md", "no frontmatter");
    assert_eq!(e.title, "plain-note");
    assert_eq!(e.status, "draft");
    assert!(!e.synced);
    let e = list_entry("/n/x.md", "---\ntitle: Zed\nstatus: published\nnotion_id: 1\n---\n");
    assert_eq!((e.title.as_str(), e.key.as_str(), e.status.as_str(), e.synced), ("Zed", "zed", "published", true));
}

#[test]
fn the_list_is_sorted_and_aligned() {
    let (state, _) = list_cmd::run(Some("/h".to_string()));
    let s = list_cmd::step(state, ListEvent::ConfigLoaded { config: cfg(Some("~/notes"), None, None, None) });
    assert!(matches!(&s.action, ListAction::CheckPath { path } if path == "/h/notes"));
    let s = list_cmd::step(s.state, ListEvent::PathChecked { exists: true });
    assert!(matches!(&s.action, ListAction::ListDir { path } if path == "/h/notes"));
    let names = vec!["b.md".to_string(), "notes.txt".to_string(), "a.md".to_string(), "c.md".to_string(), "gone.md".to_string()];
    let s = list_cmd::step(s.state, ListEvent::Listed { names: Ok(names) });
    let paths = match &s.action {
        ListAction::ReadNotes { paths } => paths.clone(),
        _ => panic!("expected reads"),
    };
    assert_eq!(paths, vec!["/h/notes/b.md", "/h/notes/a.md", "/h/notes/c.md", "/h/notes/gone.md"]);
    let contents = vec![
        Some("---\ntitle: beta\nstatus: published\n---\n".to_string()),
        Some("---\ntitle: Alpha\nnotion_id: 9\n---\n".to_string()),
        Some("---\ntitle: A very long title that is wide\n---\n".to_string()),
        None,
    ];
    let s = list_cmd::step(s.state, ListEvent::NotesRead { contents });
    assert_eq!(
        s.out,
        format!(
            "A very long title that is wide  [draft]\nAlpha{}  [synced]\nbeta{}  [unsynced]\n",
            " ".repeat(25),
            " ".repeat(26)
        )
    );
    assert!(matches!(s.state, ListState::Finished));
}

#[test]
fn the_list_of_no_notes() {
    assert_eq!(list_text(vec![]), "No notes yet. Run `m2n write \"Title\"` to create one.\n");
    let (state, _) = list_cmd::run(None);
    let s = list_cmd::step(state, ListEvent::ConfigLoaded { config: cfg(Some("/n"), None, None, None) });
    let s = list_cmd::step(s.state, ListEvent::PathChecked { exists: false });
    assert_eq!(s.out, "No notes yet. Run `m2n write \"Title\"` to create one.\n");
    let entries = vec![list_entry("/n/é.md", "---\ntitle: ééé\n---\n")];
    assert_eq!(list_text(entries), format!("ééé{}  [draft]\n", " ".repeat(17)));
}

fn note_fail_chain(a: &NoteAction) -> Vec<String> {
    match a {
        NoteAction::Fail { chain } => chain.clone(),
        _ => panic!("expected a failure"),
    }
}

#[test]
fn new_creates_a_blank_page() {
    let (state, action) = new_cmd::run("Quick Idea");
    assert!(matches!(action, NewAction::LoadConfig));
    let s = new_cmd::step(state, NewEvent::ConfigLoaded { config: cfg(Some("~/notes"), None, Some("tok"), Some("db1")) });
    match &s.action {
        NewAction::Send { request } => {
            assert_eq!(request.method, Method::Get);
            assert_eq!(request.url, "https://api.notion.com/v1/databases/db1");
            assert_eq!(request.token, "tok");
        }
        _ => panic!("expected a request"),
    }
    let props = vec![
        Property { name: "Name".to_string(), kind: "title".to_string() },
        Property { name: "Status".to_string(), kind: "select".to_string() },
        Property { name: "Tags".to_string(), kind: "multi_select".to_string() },
    ];
    let s = new_cmd::step(s.state, NewEvent::Responded { response: response(200, Some(props), None) });
    match &s.action {
        NewAction::Send { request } => {
            assert_eq!(request.method, Method::Post);
            assert_eq!(request.url, "https://api.notion.com/v1/pages");
            let body: serde_json::Value = serde_json::from_str(request.body.as_ref().unwrap()).unwrap();
            assert_eq!(body["parent"]["database_id"], "db1");
            assert_eq!(body["properties"]["Name"]["title"][0]["text"]["content"], "Quick Idea");
            assert_eq!(body["properties"].as_object().unwrap().len(), 1);
            assert_eq!(body["children"].as_array().unwrap().len(), 0);
        }
        _ => panic!("expected a request"),
    }
    let mut created = response(200, None, None);
    created.id = Some("ab-cd".to_string());
    let s = new_cmd::step(s.state, NewEvent::Responded { response: created });
    assert_eq!(s.out, "Created: \"Quick Idea\"\nURL:    https://www.notion.so/abcd\n");
    assert!(matches!(s.action, NewAction::Finish));
    assert!(matches!(s.state, NewState::Finished));
}

#[test]
fn new_needs_the_notion_settings() {
    let (state, _) = new_cmd::run("X");
    let s = new_cmd::step(state, NewEvent::ConfigLoaded { config: cfg(None, None, None, Some("db")) });
    assert!(matches!(&s.action, NewAction::Fail { chain } if chain[0].starts_with("notion.token is not set.")));
    let (state, _) = new_cmd::run("X");
    let s = new_cmd::step(state, NewEvent::ConfigLoaded { config: cfg(None, None, Some("t"), Some("")) });
    assert!(matches!(&s.action, NewAction::Fail { chain } if chain[0].starts_with("notion.database_id is not set.")));
    let (state, _) = new_cmd::run("X");
    let s = new_cmd::step(state, NewEvent::ConfigLoaded { config: cfg(None, None, Some("t"), Some("db")) });
    let s = new_cmd::step(s.state, NewEvent::Responded { response: response(200, Some(vec![]), None) });
    let s = new_cmd::step(s.state, NewEvent::Responded { response: response(403, None, None) });
    assert!(matches!(&s.action, NewAction::Fail { chain } if chain == &vec![
        "Failed to create Notion page".to_string(),
        "No access: denied. Share the database with your integration in Notion.".to_string(),
    ]));
}

#[test]
fn write_opens_then_pushes() {
    let installed = Installed { nvim: true, vim: true, nano: false };
    let (state, _) = write_cmd::run("Daily", Some("/h".to_string()), "d", None, installed);
    let s = write_cmd::step(state, NoteEvent::ConfigLoaded { config: cfg(Some("/n"), None, None, None) });
    assert!(matches!(&s.action, NoteAction::CheckPath { path } if path == "Daily"));
    let s = write_cmd::step(s.state, NoteEvent::PathChecked { exists: false });
    assert!(matches!(&s.action, NoteAction::CheckPath { path } if path == "/n/daily.md"));
    let s = write_cmd::step(s.state, NoteEvent::PathChecked { exists: false });
    assert!(matches!(&s.action, NoteAction::CreateDir { path } if path == "/n"));
    let s = write_cmd::step(s.state, NoteEvent::DirCreated { error: None });
    let s = write_cmd::step(s.state, NoteEvent::PathChecked { exists: false });
    let s = write_cmd::step(s.state, NoteEvent::Written { error: None });
    assert_eq!(s.out, "Created: /n/daily.md\n");
    assert!(matches!(&s.action, NoteAction::Edit { editor, path } if editor == "nvim" && path == "/n/daily.md"));
    let s = write_cmd::step(s.state, NoteEvent::Edited { outcome: Ok(true) });
    assert!(matches!(&s.action, NoteAction::Push { path } if path == "/n/daily.md"));

    let (state, _) = write_cmd::run("./x.md", None, "d", Some("hx".to_string()), none_installed());
    let s = write_cmd::step(state, NoteEvent::ConfigLoaded { config: cfg(Some("/n"), None, None, None) });
    let s = write_cmd::step(s.state, NoteEvent::PathChecked { exists: true });
    assert!(matches!(&s.action, NoteAction::Edit { editor, path } if editor == "hx" && path == "./x.md"));
    let s = write_cmd::step(s.state, NoteEvent::Edited { outcome: Ok(false) });
    assert_eq!(note_fail_chain(&s.action), vec!["Editor exited with non-zero status".to_string()]);
}

#[test]
fn edit_needs_an_existing_note() {
    let (state, _) = edit::run("Gone", None, None, none_installed());
    let s = write_cmd::step(state, NoteEvent::ConfigLoaded { config: cfg(Some("/n"), Some("ed"), None, None) });
    assert!(matches!(&s.action, NoteAction::CheckPath { path } if path == "/n/gone.md"));
    let s = write_cmd::step(s.state, NoteEvent::PathChecked { exists: false });
    assert_eq!(
        note_fail_chain(&s.action),
        vec!["No note found for \"Gone\".\n→ Use `m2n write \"Gone\"` to create it.".to_string()]
    );
    let (state, _) = edit::run("Here", None, None, none_installed());
    let s = write_cmd::step(state, NoteEvent::ConfigLoaded { config: cfg(Some("/n"), Some("ed"), None, None) });
    let s = write_cmd::step(s.state, NoteEvent::PathChecked { exists: true });
    assert!(matches!(&s.action, NoteAction::Edit { editor, path } if editor == "ed" && path == "/n/here.md"));
    let s = write_cmd::step(s.state, NoteEvent::Edited { outcome: Err("not found".to_string()) });
    assert_eq!(
        note_fail_chain(&s.action),
        vec!["Failed to launch editor: ed".to_string(), "not found".to_string()]
    );
    let (state, _) = edit::run("Here", None, None, none_installed());
    let s = write_cmd::step(state, NoteEvent::ConfigLoaded { config: cfg(None, None, None, None) });
    assert_eq!(
        note_fail_chain(&s.action),
        vec!["notes_dir not configured.\n→ Run `m2n init` to set your notes directory.".to_string()]
    );
}

#[test]
fn paths_and_editors() {
    assert_eq!(join("/a", "b"), "/a/b");
    assert_eq!(join("/a/", "b"), "/a/b");
    assert_eq!(join("", "b"), "b");
    assert_eq!(join("/a", "/b"), "/b");
    assert_eq!(expand_dir("~/notes", "/home/u"), "/home/u/notes");
    assert_eq!(expand_dir("~", "/home/u"), "/home/u");
    assert_eq!(expand_dir("~x", "/home/u"), "~x");
    assert_eq!(config_path(&Some("/home/u".to_string()), &None), Some("/home/u/.config/m2n/config.toml".to_string()));
    assert_eq!(
        config_path(&Some("/home/u".to_string()), &Some("C:\\Users\\u\\AppData\\Roaming".to_string())),
        Some("C:\\Users\\u\\AppData\\Roaming\\m2n\\config.toml".to_string())
    );
    assert_eq!(config_path(&None, &None), None);
    let c = cfg(Some("~/n"), None, None, None);
    assert_eq!(c.notes_dir("/home/u"), Some("/home/u/n".to_string()));
    assert_eq!(c.editor(&Some("".to_string()), Installed { nvim: false, vim: false, nano: true }), "nano");
    assert_eq!(c.editor(&Some("emacs".to_string()), Installed { nvim: true, vim: true, nano: true }), "emacs");
    assert_eq!(c.editor(&None, none_installed()), "vim");
    let c = cfg(None, Some("code"), None, None);
    assert_eq!(c.editor(&Some("emacs".to_string()), Installed { nvim: true, vim: true, nano: true }), "code");
    assert_eq!(c.notes_dir("/home/u"), None);
}

#[test]
fn the_check_shows_only_that_a_token_is_set() {
    let s1 = check_cmd::run("/c", None, none_installed());
    let s1 = check_cmd::step(s1.state, CheckEvent::ConfigLoaded { config: cfg(None, None, Some("secret_a"), Some("d")) });
    let s2 = check_cmd::run("/c", None, none_installed());
    let s2 = check_cmd::step(s2.state, CheckEvent::ConfigLoaded { config: cfg(None, None, Some("secret_b"), Some("d")) });
    assert_eq!(s1.out, s2.out);
    assert!(!s1.out.contains("secret"));
}

#[test]
fn the_check_shows_only_that_a_database_id_is_set() {
    let s1 = check_cmd::run("/c", None, none_installed());
    let s1 = check_cmd::step(s1.state, CheckEvent::ConfigLoaded { config: cfg(None, None, None, Some("db-one")) });
    let s2 = check_cmd::run("/c", None, none_installed());
    let s2 = check_cmd::step(s2.state, CheckEvent::ConfigLoaded { config: cfg(None, None, None, Some("db-two")) });
    assert_eq!(s1.out, s2.out);
    assert!(s1.out.ends_with("Database ID : set\n"));
}
