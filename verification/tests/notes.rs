use m2n::commands::write::template;
use m2n::notion::{parse_note, serialize_frontmatter, Frontmatter};
use m2n::slug::{first_h1, slugify};

fn s(x: &str) -> Option<String> {
    Some(x.to_string())
}

fn strings(xs: &[&str]) -> Vec<String> {
    xs.iter().map(|x| x.to_string()).collect()
}

#[test]
fn frontmatter_fields_are_read() {
    let raw = "---\ntitle: \"My Note\"\ndate: 2026-05-01T10:30:00-07:00\nstatus: draft\ntags: [\"a\", 'b', c, \"\"]\nnotion_id: abc-123\nother: x\n---\n\n# Body\n";
    let (fm, body) = parse_note(raw);
    assert_eq!(
        fm,
        Frontmatter {
            title: s("My Note"),
            date: s("2026-05-01T10:30:00-07:00"),
            status: s("draft"),
            tags: strings(&["a", "b", "c"]),
            notion_id: s("abc-123"),
        }
    );
    assert_eq!(body, "\n# Body\n");
}

#[test]
fn note_without_frontmatter_is_all_body() {
    let (fm, body) = parse_note("# Just text\n---\n");
    assert_eq!(fm, Frontmatter::default());
    assert_eq!(body, "# Just text\n---\n");
    let (fm, body) = parse_note("---\ntitle: never closed\n");
    assert_eq!(fm, Frontmatter::default());
    assert_eq!(body, "---\ntitle: never closed\n");
}

#[test]
fn crlf_frontmatter_is_read() {
    let (fm, body) = parse_note("---\r\ntitle: 'Quoted'\r\nstatus:  published \r\n---\r\nbody");
    assert_eq!(fm.title, s("Quoted"));
    assert_eq!(fm.status, s("published"));
    assert_eq!(body, "body");
}

#[test]
fn tags_outside_brackets_are_ignored() {
    let (fm, _) = parse_note("---\ntags: a, b\n---\n");
    assert!(fm.tags.is_empty());
    let (fm, _) = parse_note("---\ntags: []\n---\n");
    assert!(fm.tags.is_empty());
}

#[test]
fn frontmatter_is_written_in_order() {
    let fm = Frontmatter {
        title: s("Say \"hi\""),
        date: s("2026-05-01"),
        status: None,
        tags: strings(&["x", "y \"z\""]),
        notion_id: s("id-1"),
    };
    assert_eq!(
        serialize_frontmatter(&fm),
        "---\ntitle: \"Say \\\"hi\\\"\"\ndate: 2026-05-01\ntags: [\"x\", \"y \\\"z\\\"\"]\nnotion_id: id-1\n---\n"
    );
    assert_eq!(serialize_frontmatter(&Frontmatter::default()), "---\ntags: []\n---\n");
}

#[test]
fn written_frontmatter_reads_back() {
    let fm = Frontmatter {
        title: s("Round trip"),
        date: s("2026-05-01T10:30:00+02:00"),
        status: s("published"),
        tags: strings(&["rust", "notes"]),
        notion_id: s("0123abcd"),
    };
    let text = format!("{}\nBody line\n", serialize_frontmatter(&fm));
    let (back, body) = parse_note(&text);
    assert_eq!(back, fm);
    assert_eq!(body, "\nBody line\n");
}

#[test]
fn new_note_template_reads_back() {
    let text = template("Meeting Notes", "2026-05-01T10:30:00-07:00");
    assert_eq!(
        text,
        "---\ntitle: \"Meeting Notes\"\ndate: 2026-05-01T10:30:00-07:00\nstatus: draft\ntags: []\n---\n\n# Meeting Notes\n\n"
    );
    let (fm, body) = parse_note(&text);
    assert_eq!(
        fm,
        Frontmatter {
            title: s("Meeting Notes"),
            date: s("2026-05-01T10:30:00-07:00"),
            status: s("draft"),
            tags: Vec::new(),
            notion_id: None,
        }
    );
    assert_eq!(body, "\n# Meeting Notes\n\n");
}

#[test]
fn slugs() {
    assert_eq!(slugify("Hello, World!"), "hello-world");
    assert_eq!(slugify("  Multiple   spaces  "), "multiple-spaces");
    assert_eq!(slugify("Meeting Notes 2026-05-01"), "meeting-notes-2026-05-01");
    assert_eq!(slugify("Ünïcode Çafé"), "ünïcode-çafé");
    assert_eq!(slugify("---"), "");
    assert_eq!(slugify(""), "");
    assert_eq!(slugify(&slugify("Hello, World!")), "hello-world");
}

#[test]
fn first_heading_of_a_body() {
    assert_eq!(first_h1("intro\n## Sub\n# Title  \n# Other"), s("Title"));
    assert_eq!(first_h1("#NoSpace\n ## indented"), None);
    assert_eq!(first_h1("# "), s(""));
}
