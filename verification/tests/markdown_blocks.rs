use m2n::json::blocks_to_json;
use m2n::markdown::{markdown_to_blocks, Annotation, Block, ListItem, Segment, TextKind, MAX_TEXT_LEN};
use m2n::text::{chunk_str, truncate};

fn seg(content: &str, annotation: Annotation, link: Option<&str>) -> Segment {
    Segment { content: content.to_string(), annotation, link: link.map(|l| l.to_string()) }
}

fn plain(content: &str) -> Segment {
    seg(content, Annotation::Plain, None)
}

fn text(kind: TextKind, segs: Vec<Segment>) -> Block {
    Block::Text { kind, rich_text: segs, children: Vec::new() }
}

#[test]
fn headings_of_each_level() {
    let blocks = markdown_to_blocks("# One\n## Two\n### Three\n#### Four");
    assert_eq!(
        blocks,
        vec![
            text(TextKind::Heading1, vec![plain("One")]),
            text(TextKind::Heading2, vec![plain("Two")]),
            text(TextKind::Heading3, vec![plain("Three")]),
            text(TextKind::Heading3, vec![plain("Four")]),
        ]
    );
}

#[test]
fn lists_quotes_dividers_and_paragraphs() {
    let blocks = markdown_to_blocks("- a\n* b\n1. c\n10. d\n> q\n---\n***\n___\nplain text\n#tag");
    assert_eq!(
        blocks,
        vec![
            text(TextKind::BulletedListItem, vec![plain("a")]),
            text(TextKind::BulletedListItem, vec![plain("b")]),
            text(TextKind::NumberedListItem, vec![plain("c")]),
            text(TextKind::NumberedListItem, vec![plain("d")]),
            text(TextKind::Quote, vec![plain("q")]),
            Block::Divider,
            Block::Divider,
            Block::Divider,
            text(TextKind::Paragraph, vec![plain("plain text")]),
            text(TextKind::Paragraph, vec![plain("#tag")]),
        ]
    );
}

#[test]
fn numbered_needs_digits_then_dot_space() {
    let blocks = markdown_to_blocks("1.no space\nx. item\n12. twelve");
    assert_eq!(
        blocks,
        vec![
            text(TextKind::Paragraph, vec![plain("1.no space")]),
            text(TextKind::Paragraph, vec![plain("x. item")]),
            text(TextKind::NumberedListItem, vec![plain("twelve")]),
        ]
    );
}

#[test]
fn to_do_items() {
    let blocks = markdown_to_blocks("- [ ] open task\n- [x] done task");
    assert_eq!(
        blocks,
        vec![
            text(TextKind::ToDo { checked: false }, vec![plain("open task")]),
            text(TextKind::ToDo { checked: true }, vec![plain("done task")]),
        ]
    );
}

#[test]
fn indented_items_nest_under_the_item_before() {
    let blocks = markdown_to_blocks("- parent\n  - child\n\t1. counted\n  - [x] ticked\nafter\n  - not nested");
    assert_eq!(
        blocks,
        vec![
            Block::Text {
                kind: TextKind::BulletedListItem,
                rich_text: vec![plain("parent")],
                children: vec![
                    ListItem { kind: TextKind::BulletedListItem, rich_text: vec![plain("child")] },
                    ListItem { kind: TextKind::NumberedListItem, rich_text: vec![plain("counted")] },
                    ListItem { kind: TextKind::ToDo { checked: true }, rich_text: vec![plain("ticked")] },
                ],
            },
            text(TextKind::Paragraph, vec![plain("after")]),
            text(TextKind::Paragraph, vec![plain("  - not nested")]),
        ]
    );
}

#[test]
fn code_fences_keep_their_lines_and_language() {
    let blocks = markdown_to_blocks("```Rust\nfn main() {}\n\n  let x = 1;\n```\n```\nraw\n```\n```py\nprint(1)\n```");
    assert_eq!(
        blocks,
        vec![
            Block::Code { content: "fn main() {}\n\n  let x = 1;".to_string(), language: "rust".to_string() },
            Block::Code { content: "raw".to_string(), language: "plain text".to_string() },
            Block::Code { content: "print(1)".to_string(), language: "python".to_string() },
        ]
    );
}

#[test]
fn unclosed_code_fence_becomes_plain_text_code() {
    let blocks = markdown_to_blocks("intro\n```js\nlet a = 1;\nlet b = 2;");
    assert_eq!(
        blocks,
        vec![
            text(TextKind::Paragraph, vec![plain("intro")]),
            Block::Code { content: "let a = 1;\nlet b = 2;".to_string(), language: "plain text".to_string() },
        ]
    );
    assert_eq!(markdown_to_blocks("```js\n"), Vec::<Block>::new());
}

#[test]
fn code_languages() {
    let cases = [
        ("js", "javascript"),
        ("TypeScript", "typescript"),
        ("sh", "shell"),
        ("bash", "shell"),
        ("cpp", "c++"),
        ("cs", "c#"),
        ("yml", "yaml"),
        ("md", "markdown"),
        ("toml", "toml"),
        ("go", "go"),
        ("haskell", "plain text"),
    ];
    for (tag, lang) in cases {
        let blocks = markdown_to_blocks(&format!("```{}\nx\n```", tag));
        assert_eq!(blocks, vec![Block::Code { content: "x".to_string(), language: lang.to_string() }], "{}", tag);
    }
}

#[test]
fn blank_lines_are_skipped_and_crlf_is_read() {
    let blocks = markdown_to_blocks("# A\r\n\r\n   \r\n- b\r\n");
    assert_eq!(
        blocks,
        vec![text(TextKind::Heading1, vec![plain("A")]), text(TextKind::BulletedListItem, vec![plain("b")])]
    );
}

#[test]
fn inline_styles() {
    let blocks = markdown_to_blocks("a **b** *c* `d` ~~e~~ [f](https://x.y) g");
    assert_eq!(
        blocks,
        vec![text(
            TextKind::Paragraph,
            vec![
                plain("a "),
                seg("b", Annotation::Bold, None),
                plain(" "),
                seg("c", Annotation::Italic, None),
                plain(" "),
                seg("d", Annotation::Code, None),
                plain(" "),
                seg("e", Annotation::Strikethrough, None),
                plain(" "),
                seg("f", Annotation::Plain, Some("https://x.y")),
                plain(" g"),
            ],
        )]
    );
}

#[test]
fn unclosed_markers_stay_plain() {
    let blocks = markdown_to_blocks("**bold\na * b\nx `y");
    assert_eq!(
        blocks,
        vec![
            text(TextKind::Paragraph, vec![plain("**bold")]),
            text(TextKind::Paragraph, vec![plain("a "), plain("* b")]),
            text(TextKind::Paragraph, vec![plain("x "), plain("`y")]),
        ]
    );
}

#[test]
fn empty_text_gets_one_empty_piece() {
    let blocks = markdown_to_blocks("> \n- \n#  \n# **x");
    assert_eq!(
        blocks,
        vec![
            text(TextKind::Quote, vec![plain("")]),
            text(TextKind::BulletedListItem, vec![plain("")]),
            text(TextKind::Heading1, vec![plain(" ")]),
            text(TextKind::Heading1, vec![plain("**x")]),
        ]
    );
}

#[test]
fn long_text_is_cut_at_the_limit() {
    let long = "a".repeat(4500);
    let blocks = markdown_to_blocks(&long);
    assert_eq!(
        blocks,
        vec![text(TextKind::Paragraph, vec![plain(&"a".repeat(2000)), plain(&"a".repeat(2000)), plain(&"a".repeat(500))])]
    );
    let code = format!("```\n{}\n```", "é".repeat(1500));
    let blocks = markdown_to_blocks(&code);
    assert_eq!(
        blocks,
        vec![
            Block::Code { content: "é".repeat(1000), language: "plain text".to_string() },
            Block::Code { content: "é".repeat(500), language: "plain text".to_string() },
        ]
    );
}

#[test]
fn every_piece_fits_the_limit() {
    let body = format!("# {}\n- {}\n```\n{}\n```\n```\n{}", "ü".repeat(3000), "x".repeat(2001), "z".repeat(7000), "y".repeat(5000));
    for b in markdown_to_blocks(&body) {
        match b {
            Block::Text { rich_text, children, .. } => {
                for s in rich_text {
                    assert!(s.content.len() <= MAX_TEXT_LEN);
                }
                assert!(children.is_empty());
            }
            Block::Code { content, .. } => assert!(content.len() <= MAX_TEXT_LEN),
            Block::Divider => {}
        }
    }
}

#[test]
fn chunks_end_on_character_boundaries() {
    assert_eq!(chunk_str("héllo", 2), vec!["h", "é", "ll", "o"]);
    assert_eq!(chunk_str("", 5), vec![""]);
    assert_eq!(chunk_str("abc", 3), vec!["abc"]);
    assert_eq!(chunk_str("abc", 1), vec!["a", "b", "c"]);
    let parts = chunk_str(&"日本語".repeat(10), 7);
    assert_eq!(parts.concat(), "日本語".repeat(10));
    assert!(parts.iter().all(|p| !p.is_empty() && p.len() <= 7));
}

#[test]
fn truncation_ends_on_a_character_boundary() {
    assert_eq!(truncate("héllo", 2), "h");
    assert_eq!(truncate("héllo", 3), "hé");
    assert_eq!(truncate("short", 10), "short");
}

#[test]
fn blocks_as_notion_json() {
    let blocks = markdown_to_blocks("# Title \"q\"\n- [x] done\n  - sub\n**b** [l](u)\n```rust\nx\n```\n---");
    let json: serde_json::Value = serde_json::from_str(&blocks_to_json(&blocks)).unwrap();
    let expected: serde_json::Value = serde_json::from_str(
        r#"[
        {"object":"block","type":"heading_1","heading_1":{"rich_text":[{"type":"text","text":{"content":"Title \"q\""}}]}},
        {"object":"block","type":"to_do","to_do":{"rich_text":[{"type":"text","text":{"content":"done"}}],"checked":true,
            "children":[{"object":"block","type":"bulleted_list_item","bulleted_list_item":{"rich_text":[{"type":"text","text":{"content":"sub"}}]}}]}},
        {"object":"block","type":"paragraph","paragraph":{"rich_text":[
            {"type":"text","text":{"content":"b"},"annotations":{"bold":true}},
            {"type":"text","text":{"content":" "}},
            {"type":"text","text":{"content":"l","link":{"url":"u"}}}]}},
        {"object":"block","type":"code","code":{"rich_text":[{"type":"text","text":{"content":"x"}}],"language":"rust"}},
        {"object":"block","type":"divider","divider":{}}
    ]"#,
    )
    .unwrap();
    assert_eq!(json, expected);
}

#[test]
fn json_escapes_control_characters() {
    let blocks = vec![Block::Code { content: "tab\there\\ \u{1}".to_string(), language: "plain text".to_string() }];
    let json: serde_json::Value = serde_json::from_str(&blocks_to_json(&blocks)).unwrap();
    assert_eq!(json[0]["code"]["rich_text"][0]["text"]["content"], "tab\there\\ \u{1}");
}
