use m2n::commands::push::{
    note_title, page_address, run, run_path, step, updated_note, PushAction, PushEvent, PushState, PushStep,
};
use m2n::config::{Config, NotionConfig};
use m2n::notion::{parse_note, Frontmatter, Property};
use m2n::notion_api::{Method, Response};

fn config(token: Option<&str>, db: Option<&str>, notes_dir: Option<&str>) -> Config {
    Config {
        notes_dir: notes_dir.map(|s| s.to_string()),
        editor: None,
        notion: NotionConfig { token: token.map(|s| s.to_string()), database_id: db.map(|s| s.to_string()) },
    }
}

fn ok_response(properties: Option<Vec<Property>>, id: Option<&str>) -> Response {
    Response {
        code: 200,
        status: "200 OK".to_string(),
        message: None,
        properties,
        id: id.map(|s| s.to_string()),
        name: None,
    }
}

fn db_props() -> Vec<Property> {
    vec![
        Property { name: "Name".to_string(), kind: "title".to_string() },
        Property { name: "Status".to_string(), kind: "select".to_string() },
    ]
}

fn advance(state: PushState, event: PushEvent) -> PushStep {
    assert!(state.expects(&event));
    step(state, event)
}

fn chain_of(action: &PushAction) -> Vec<String> {
    match action {
        PushAction::Fail { chain } => chain.clone(),
        _ => panic!("expected a failure"),
    }
}

const NOTE: &str = "---\ntitle: \"Hello\"\nstatus: draft\ntags: [\"x\"]\n---\n\n# Heading\n\nSome **text**.\n";

#[test]
fn a_full_push() {
    let (state, action) = run("note.md", false, false);
    assert!(matches!(action, PushAction::LoadConfig));
    let s = advance(state, PushEvent::ConfigLoaded { config: config(Some("tok"), Some("db123"), Some("/notes")) });
    assert!(matches!(&s.action, PushAction::CheckPath { path } if path == "note.md"));
    let s = advance(s.state, PushEvent::PathChecked { exists: true });
    assert!(matches!(&s.action, PushAction::ReadFile { path } if path == "note.md"));
    let s = advance(s.state, PushEvent::FileRead { content: Ok(NOTE.to_string()) });
    assert!(s.warn.is_empty());
    match &s.action {
        PushAction::Send { request } => {
            assert_eq!(request.method, Method::Get);
            assert_eq!(request.url, "https://api.notion.com/v1/databases/db123");
            assert_eq!(request.token, "tok");
            assert!(request.body.is_none());
        }
        _ => panic!("expected a request"),
    }
    let s = advance(s.state, PushEvent::Responded { response: ok_response(Some(db_props()), None) });
    assert_eq!(s.warn.len(), 1);
    assert!(s.warn[0].starts_with("Warning: note has 1 tag(s) but the database has no Tags (multi_select) property"));
    match &s.action {
        PushAction::Send { request } => {
            assert_eq!(request.method, Method::Post);
            assert_eq!(request.url, "https://api.notion.com/v1/pages");
            let body: serde_json::Value = serde_json::from_str(request.body.as_ref().unwrap()).unwrap();
            assert_eq!(body["properties"]["Name"]["title"][0]["text"]["content"], "Hello");
            assert_eq!(body["properties"]["Status"]["select"]["name"], "draft");
            assert_eq!(body["children"].as_array().unwrap().len(), 2);
        }
        _ => panic!("expected a request"),
    }
    let s = advance(s.state, PushEvent::Responded { response: ok_response(None, Some("abc-def-123")) });
    assert_eq!(s.out, vec!["Pushed: \"Hello\"".to_string(), "URL:    https://www.notion.so/abcdef123".to_string()]);
    match &s.action {
        PushAction::WriteFile { path, content } => {
            assert_eq!(path, "note.md");
            assert_eq!(
                content,
                "---\ntitle: \"Hello\"\nstatus: draft\ntags: [\"x\"]\nnotion_id: abc-def-123\n---\n\n# Heading\n\nSome **text**.\n"
            );
            let (fm, _) = parse_note(content);
            assert_eq!(fm.notion_id, Some("abc-def-123".to_string()));
        }
        _ => panic!("expected a write"),
    }
    let s = advance(s.state, PushEvent::Written { error: None });
    assert!(matches!(s.action, PushAction::Finish));
    assert!(matches!(s.state, PushState::Finished));
}

#[test]
fn push_then_open() {
    let (state, _) = run("n.md", false, true);
    let s = advance(state, PushEvent::ConfigLoaded { config: config(Some("t"), Some("d"), None) });
    let s = advance(s.state, PushEvent::PathChecked { exists: true });
    let s = advance(s.state, PushEvent::FileRead { content: Ok("---\nnotion_id: old\n---\nx".to_string()) });
    assert_eq!(
        s.warn,
        vec!["Warning: this note was already pushed (notion_id present). Creating a new page.".to_string()]
    );
    let s = advance(s.state, PushEvent::Responded { response: ok_response(Some(vec![]), None) });
    let s = advance(s.state, PushEvent::Responded { response: ok_response(None, Some("p-1")) });
    let s = advance(s.state, PushEvent::Written { error: None });
    assert!(matches!(&s.action, PushAction::OpenUrl { url } if url == "https://www.notion.so/p1"));
    let s = advance(s.state, PushEvent::Opened { error: Some("no browser".to_string()) });
    assert_eq!(chain_of(&s.action), vec!["Failed to open https://www.notion.so/p1".to_string(), "no browser".to_string()]);
}

#[test]
fn long_notes_are_appended_in_batches() {
    let body: String = (0..230).map(|i| format!("line {}\n", i)).collect();
    let (state, _) = run_path("/notes/long.md");
    let s = advance(state, PushEvent::ConfigLoaded { config: config(Some("t"), Some("d"), None) });
    assert!(matches!(&s.action, PushAction::ReadFile { path } if path == "/notes/long.md"));
    let s = advance(s.state, PushEvent::FileRead { content: Ok(body) });
    let s = advance(s.state, PushEvent::Responded { response: ok_response(Some(vec![]), None) });
    let s = advance(s.state, PushEvent::Responded { response: ok_response(None, Some("pg")) });
    let mut sizes = Vec::new();
    let mut s = s;
    loop {
        match &s.action {
            PushAction::Send { request } => {
                assert_eq!(request.method, Method::Patch);
                assert_eq!(request.url, "https://api.notion.com/v1/blocks/pg/children");
                let v: serde_json::Value = serde_json::from_str(request.body.as_ref().unwrap()).unwrap();
                sizes.push(v["children"].as_array().unwrap().len());
                s = advance(s.state, PushEvent::Responded { response: ok_response(None, None) });
            }
            _ => break,
        }
    }
    assert_eq!(sizes, vec![100, 30]);
    assert!(matches!(&s.action, PushAction::WriteFile { .. }));
    assert_eq!(s.out[0], "Pushed: \"long\"");
}

#[test]
fn a_dry_run_only_reports() {
    let (state, _) = run("notes/my-note.md", true, false);
    let s = advance(state, PushEvent::ConfigLoaded { config: config(Some("t"), Some("db9"), None) });
    let s = advance(s.state, PushEvent::PathChecked { exists: true });
    let s = advance(s.state, PushEvent::FileRead { content: Ok("plain body\n---\n".to_string()) });
    assert!(matches!(s.action, PushAction::Finish));
    assert_eq!(
        s.out,
        vec![
            "Dry run — nothing will be pushed to Notion.".to_string(),
            "".to_string(),
            "  File:     notes/my-note.md".to_string(),
            "  Title:    \"my-note\"".to_string(),
            "  Status:   (none)".to_string(),
            "  Tags:     (none)".to_string(),
            "  Database: db9".to_string(),
            "  Blocks:   2".to_string(),
            "    {\"object\":\"block\",\"type\":\"paragraph\",\"paragraph\":{\"rich_text\":[{\"type\":\"text\",\"text\":{\"content\":\"plain body\"}}]}}".to_string(),
            "    {\"object\":\"block\",\"type\":\"divider\",\"divider\":{}}".to_string(),
        ]
    );
}

#[test]
fn a_dry_run_lists_tags_and_status() {
    let (state, _) = run("n.md", true, false);
    let s = advance(state, PushEvent::ConfigLoaded { config: config(Some("t"), Some("d"), None) });
    let s = advance(s.state, PushEvent::PathChecked { exists: true });
    let s = advance(s.state, PushEvent::FileRead { content: Ok(NOTE.to_string()) });
    assert_eq!(s.out[3], "  Title:    \"Hello\"");
    assert_eq!(s.out[4], "  Status:   draft");
    assert_eq!(s.out[5], "  Tags:     [x]");
    assert_eq!(s.out[7], "  Blocks:   2");
}

#[test]
fn a_title_finds_the_note_by_slug() {
    let (state, _) = run("My Note!", false, false);
    let s = advance(state, PushEvent::ConfigLoaded { config: config(Some("t"), Some("d"), Some("/home/u/notes/")) });
    let s = advance(s.state, PushEvent::PathChecked { exists: false });
    assert!(matches!(&s.action, PushAction::CheckPath { path } if path == "/home/u/notes/my-note.md"));
    let s = advance(s.state, PushEvent::PathChecked { exists: true });
    assert!(matches!(&s.action, PushAction::ReadFile { path } if path == "/home/u/notes/my-note.md"));
}

#[test]
fn a_missing_note_fails() {
    let (state, _) = run("Nope", false, false);
    let s = advance(state, PushEvent::ConfigLoaded { config: config(Some("t"), Some("d"), Some("notes")) });
    let s = advance(s.state, PushEvent::PathChecked { exists: false });
    let s = advance(s.state, PushEvent::PathChecked { exists: false });
    assert_eq!(
        chain_of(&s.action),
        vec!["File not found: 'Nope'\nPass a path to an existing Markdown file.".to_string()]
    );
    let (state, _) = run("Nope", false, false);
    let s = advance(state, PushEvent::ConfigLoaded { config: config(Some("t"), Some("d"), None) });
    let s = advance(s.state, PushEvent::PathChecked { exists: false });
    assert_eq!(chain_of(&s.action).len(), 1);
}

#[test]
fn missing_settings_fail_before_reading() {
    let (state, _) = run_path("x.md");
    let s = advance(state, PushEvent::ConfigLoaded { config: config(Some(""), Some("d"), None) });
    assert_eq!(
        chain_of(&s.action),
        vec!["notion.token is not set.\n→ Run `m2n init` to set up your Notion integration.".to_string()]
    );
    let (state, _) = run_path("x.md");
    let s = advance(state, PushEvent::ConfigLoaded { config: config(Some("t"), None, None) });
    assert_eq!(
        chain_of(&s.action),
        vec!["notion.database_id is not set.\n→ Run `m2n init` to configure your Notion database.".to_string()]
    );
    let (state, _) = run_path("x.md");
    let s = advance(state, PushEvent::ConfigFailed { chain: vec!["Config not found".to_string()] });
    assert_eq!(chain_of(&s.action), vec!["Config not found".to_string()]);
}

#[test]
fn notion_errors_are_reported_with_their_context() {
    let (state, _) = run_path("x.md");
    let s = advance(state, PushEvent::ConfigLoaded { config: config(Some("t"), Some("db"), None) });
    let s = advance(s.state, PushEvent::FileRead { content: Err("denied".to_string()) });
    assert_eq!(chain_of(&s.action), vec!["Cannot read x.md".to_string(), "denied".to_string()]);

    let (state, _) = run_path("x.md");
    let s = advance(state, PushEvent::ConfigLoaded { config: config(Some("t"), Some("db"), None) });
    let s = advance(s.state, PushEvent::FileRead { content: Ok("x".to_string()) });
    let r = Response {
        code: 404,
        status: "404 Not Found".to_string(),
        message: Some("Could not find database".to_string()),
        properties: None,
        id: None,
        name: None,
    };
    let s2 = advance(s.state, PushEvent::Responded { response: r });
    assert_eq!(
        chain_of(&s2.action),
        vec![
            "Failed to inspect Notion database".to_string(),
            "Cannot access database 'db'. Make sure it's shared with your integration.".to_string(),
            "Not found (404): Could not find database.".to_string(),
        ]
    );

    let (state, _) = run_path("x.md");
    let s = advance(state, PushEvent::ConfigLoaded { config: config(Some("t"), Some("db"), None) });
    let s = advance(s.state, PushEvent::FileRead { content: Ok("x".to_string()) });
    let s = advance(s.state, PushEvent::Unreachable { reason: "timeout".to_string() });
    assert_eq!(chain_of(&s.action).len(), 4);
    assert_eq!(chain_of(&s.action)[2], "Failed to connect to Notion API");

    let (state, _) = run_path("x.md");
    let s = advance(state, PushEvent::ConfigLoaded { config: config(Some("t"), Some("db"), None) });
    let s = advance(s.state, PushEvent::FileRead { content: Ok("x".to_string()) });
    let s = advance(s.state, PushEvent::Responded { response: ok_response(None, None) });
    assert_eq!(
        chain_of(&s.action),
        vec!["Failed to inspect Notion database".to_string(), "Database has no properties".to_string()]
    );

    let (state, _) = run_path("x.md");
    let s = advance(state, PushEvent::ConfigLoaded { config: config(Some("t"), Some("db"), None) });
    let s = advance(s.state, PushEvent::FileRead { content: Ok("x".to_string()) });
    let s = advance(s.state, PushEvent::Responded { response: ok_response(Some(vec![]), None) });
    let s = advance(s.state, PushEvent::Responded { response: ok_response(None, None) });
    assert_eq!(
        chain_of(&s.action),
        vec!["Failed to create Notion page".to_string(), "Missing page ID in Notion response".to_string()]
    );
}

#[test]
fn a_failed_write_back_is_reported() {
    let (state, _) = run_path("x.md");
    let s = advance(state, PushEvent::ConfigLoaded { config: config(Some("t"), Some("db"), None) });
    let s = advance(s.state, PushEvent::FileRead { content: Ok("x".to_string()) });
    let s = advance(s.state, PushEvent::Responded { response: ok_response(Some(vec![]), None) });
    let s = advance(s.state, PushEvent::Responded { response: ok_response(None, Some("id")) });
    let s = advance(s.state, PushEvent::Written { error: Some("read-only".to_string()) });
    assert_eq!(
        chain_of(&s.action),
        vec!["Pushed successfully but failed to update x.md".to_string(), "read-only".to_string()]
    );
}

#[test]
fn titles_addresses_and_written_notes() {
    assert_eq!(note_title(&Some("T".to_string()), "# H", "stem".to_string()), "T");
    assert_eq!(note_title(&None, "text\n# H \n", "stem".to_string()), "H");
    assert_eq!(note_title(&None, "text", "stem".to_string()), "stem");
    assert_eq!(page_address("1234-abcd-"), "https://www.notion.so/1234abcd");
    let note = Frontmatter { title: Some("T".to_string()), ..Frontmatter::default() };
    assert_eq!(updated_note(note, "  \n\nbody", "id-9"), "---\ntitle: \"T\"\ntags: []\nnotion_id: id-9\n---\n\nbody");
}

#[test]
fn a_written_note_pushes_the_same_again() {
    let note = Frontmatter {
        title: Some("Again".to_string()),
        date: Some("2026-01-01".to_string()),
        status: Some("draft".to_string()),
        tags: vec!["a".to_string()],
        notion_id: None,
    };
    let body = "\n\n# Again\n- item\n";
    let written = updated_note(note, body, "pid");
    let (fm, new_body) = parse_note(&written);
    assert_eq!(fm.notion_id, Some("pid".to_string()));
    assert_eq!(fm.title, Some("Again".to_string()));
    assert_eq!(new_body.trim_start(), body.trim_start());
}

fn pushed_lines(token: &str) -> (Vec<Vec<String>>, Vec<String>) {
    let mut shown = Vec::new();
    let mut tokens = Vec::new();
    let (state, _) = run("n.md", false, false);
    let s = advance(state, PushEvent::ConfigLoaded { config: config(Some(token), Some("d"), None) });
    shown.push(s.out.clone());
    let s = advance(s.state, PushEvent::PathChecked { exists: true });
    let s = advance(s.state, PushEvent::FileRead { content: Ok(NOTE.to_string()) });
    shown.push(s.warn.clone());
    if let PushAction::Send { request } = &s.action {
        tokens.push(request.token.clone());
    }
    let s = advance(s.state, PushEvent::Responded { response: ok_response(Some(db_props()), None) });
    shown.push(s.warn.clone());
    let s = advance(s.state, PushEvent::Responded { response: ok_response(None, Some("p")) });
    shown.push(s.out.clone());
    (shown, tokens)
}

#[test]
fn the_token_is_sent_but_never_shown() {
    let (a, ta) = pushed_lines("secret_one");
    let (b, tb) = pushed_lines("secret_two");
    assert_eq!(a, b);
    assert_eq!(ta, vec!["secret_one".to_string()]);
    assert_eq!(tb, vec!["secret_two".to_string()]);
    assert!(a.iter().flatten().all(|l| !l.contains("secret")));
}
