//! Markdown to Notion blocks: inline rich text and block structure.
use crate::text::{
    chunk_range, chunks, copy_string, find, find_in, is_digit, lemma_find, lines, lowercase, occurs_at,
    line_ranges, pieces, push_range, range_eq, ranges_within, starts_with, starts_with_str, string_from,
    string_of, to_lowercase, trim, trim_bounds, truncate_end, truncated, str_eq, chars_of, utf8_len,
    lemma_chunks, lemma_chars_fit, lemma_fit_count,
};
use vstd::prelude::*;

verus! {

/// Most bytes that one piece of Notion rich text may hold.
pub const MAX_TEXT_LEN: usize = 2000;

// ───────────────────────── rich text ─────────────────────────

/// How a piece of rich text is styled.
#[derive(Clone, Copy, Debug, PartialEq, Eq)]
pub enum Annotation {
    Plain,
    Bold,
    Italic,
    Code,
    Strikethrough,
}

/// One piece of Notion rich text.
#[derive(Debug, PartialEq, Eq)]
pub struct Segment {
    pub content: String,
    pub annotation: Annotation,
    pub link: Option<String>,
}

/// The abstract value of a rich-text piece.
pub struct SegmentView {
    pub content: Seq<char>,
    pub annotation: Annotation,
    pub link: Option<Seq<char>>,
}

pub open spec fn opt_view(o: Option<String>) -> Option<Seq<char>> {
    match o {
        Some(s) => Some(s@),
        None => None,
    }
}

impl View for Segment {
    type V = SegmentView;

    open spec fn view(&self) -> SegmentView {
        SegmentView { content: self.content@, annotation: self.annotation, link: opt_view(self.link) }
    }
}

pub open spec fn segs_view(v: Seq<Segment>) -> Seq<SegmentView> {
    v.map_values(|s: Segment| s@)
}

/// The inline markers, in the order in which ties are broken.
#[derive(Clone, Copy, Debug, PartialEq, Eq)]
pub enum Mark {
    Bold,
    Italic,
    Code,
    Strike,
    Link,
}

pub open spec fn mark_annotation(m: Mark) -> Annotation {
    match m {
        Mark::Bold => Annotation::Bold,
        Mark::Italic => Annotation::Italic,
        Mark::Code => Annotation::Code,
        Mark::Strike => Annotation::Strikethrough,
        Mark::Link => Annotation::Plain,
    }
}

/// The characters that open (and close) a marker.
pub open spec fn mark_text(m: Mark) -> Seq<char> {
    match m {
        Mark::Bold => seq!['*', '*'],
        Mark::Italic => seq!['*'],
        Mark::Code => seq!['`'],
        Mark::Strike => seq!['~', '~'],
        Mark::Link => seq!['['],
    }
}

/// Scanning from `i`: the first `*` that is not part of a `**` pair.
pub open spec fn star_from(s: Seq<char>, i: nat) -> Option<int>
    decreases s.len() - i,
{
    if i >= s.len() {
        None
    } else if s[i as int] == '*' {
        if i + 1 < s.len() && s[i as int + 1] == '*' {
            star_from(s, i + 2)
        } else {
            Some(i as int)
        }
    } else {
        star_from(s, i + 1)
    }
}

/// Where a link `[label](url)` starts, if one is complete.
pub open spec fn link_start(t: Seq<char>) -> Option<int> {
    match find(t, seq!['[']) {
        Some(p) => match find(t.skip(p + 1), seq![']', '(']) {
            Some(q) => match find(t.skip(p + 1 + q + 2), seq![')']) {
                Some(_) => Some(p),
                None => None,
            },
            None => None,
        },
        None => None,
    }
}

/// The position of each kind of marker.
pub open spec fn mark_pos(t: Seq<char>, m: Mark) -> Option<int> {
    match m {
        Mark::Bold => find(t, seq!['*', '*']),
        Mark::Italic => star_from(t, 0),
        Mark::Code => find(t, seq!['`']),
        Mark::Strike => find(t, seq!['~', '~']),
        Mark::Link => link_start(t),
    }
}

/// The earlier of two candidates; the first one on a tie.
pub open spec fn pick(a: Option<(int, Mark)>, b: Option<(int, Mark)>) -> Option<(int, Mark)> {
    match (a, b) {
        (None, _) => b,
        (_, None) => a,
        (Some(x), Some(y)) => if y.0 < x.0 {
            b
        } else {
            a
        },
    }
}

pub open spec fn cand(t: Seq<char>, m: Mark) -> Option<(int, Mark)> {
    match mark_pos(t, m) {
        Some(p) => Some((p, m)),
        None => None,
    }
}

/// The earliest marker in `t`.
#[verifier::opaque]
pub open spec fn earliest(t: Seq<char>) -> Option<(int, Mark)> {
    pick(
        pick(pick(pick(cand(t, Mark::Bold), cand(t, Mark::Italic)), cand(t, Mark::Code)), cand(t, Mark::Strike)),
        cand(t, Mark::Link),
    )
}

/// Where the marker `m` closes in the text after its opening.
pub open spec fn closing_pos(after: Seq<char>, m: Mark) -> Option<int> {
    match m {
        Mark::Italic => star_from(after, 0),
        _ => find(after, mark_text(m)),
    }
}

/// Text cut into rich-text pieces of one style.
pub open spec fn styled(t: Seq<char>, a: Annotation, link: Option<Seq<char>>) -> Seq<SegmentView> {
    chunks(t, MAX_TEXT_LEN as nat).map_values(
        |c: Seq<char>| SegmentView { content: c, annotation: a, link: link },
    )
}

pub open spec fn plain(t: Seq<char>) -> Seq<SegmentView> {
    styled(t, Annotation::Plain, None)
}

/// The rich text of `t`: plain runs and styled spans, left to right. At the
/// earliest marker, text before it is plain; a closed marker styles what it
/// encloses and parsing goes on after it; an unclosed one leaves the rest
/// of `t` plain. A complete `[label](url)` links its label.
pub open spec fn inline(t: Seq<char>) -> Seq<SegmentView>
    decreases t.len(),
{
    if t.len() == 0 {
        seq![]
    } else {
        match earliest(t) {
            None => plain(t),
            Some((pos, m)) => {
                proof {
                    lemma_earliest(t);
                }
                let pre = if pos > 0 {
                    plain(t.take(pos))
                } else {
                    seq![]
                };
                let after = t.skip(pos + mark_text(m).len());
                if m == Mark::Link {
                    let q = find(after, seq![']', '(']).unwrap();
                    let r = find(after.skip(q + 2), seq![')']).unwrap();
                    proof {
                        lemma_link_parts(t);
                    }
                    pre + styled(after.take(q), Annotation::Plain, Some(after.subrange(q + 2, q + 2 + r)))
                        + inline(after.skip(q + 2 + r + 1))
                } else {
                    match closing_pos(after, m) {
                        Some(end) => {
                            proof {
                                lemma_closing_pos(after, m);
                            }
                            pre + styled(after.take(end), mark_annotation(m), None) + inline(
                                after.skip(end + mark_text(m).len()),
                            )
                        },
                        None => pre + plain(t.skip(pos)),
                    }
                }
            },
        }
    }
}

pub proof fn lemma_star_from(s: Seq<char>, i: nat)
    ensures
        star_from(s, i) matches Some(k) ==> i <= k < s.len() && s[k] == '*' && !(k + 1 < s.len()
            && s[k + 1] == '*'),
    decreases s.len() - i,
{
    if i >= s.len() {
    } else if s[i as int] == '*' {
        if i + 1 < s.len() && s[i as int + 1] == '*' {
            lemma_star_from(s, i + 2);
        }
    } else {
        lemma_star_from(s, i + 1);
    }
}

pub proof fn lemma_mark_pos(t: Seq<char>, m: Mark)
    ensures
        mark_pos(t, m) matches Some(p) ==> 0 <= p && p + mark_text(m).len() <= t.len(),
{
    match m {
        Mark::Italic => lemma_star_from(t, 0),
        Mark::Link => {
            lemma_find(t, seq!['[']);
        },
        _ => lemma_find(t, mark_text(m)),
    }
}

pub proof fn lemma_earliest(t: Seq<char>)
    ensures
        earliest(t) matches Some((p, m)) ==> mark_pos(t, m) == Some(p) && 0 <= p && p
            + mark_text(m).len() <= t.len(),
{
    reveal(earliest);
    lemma_mark_pos(t, Mark::Bold);
    lemma_mark_pos(t, Mark::Italic);
    lemma_mark_pos(t, Mark::Code);
    lemma_mark_pos(t, Mark::Strike);
    lemma_mark_pos(t, Mark::Link);
}

pub proof fn lemma_closing_pos(after: Seq<char>, m: Mark)
    requires
        m != Mark::Link,
    ensures
        closing_pos(after, m) matches Some(e) ==> 0 <= e && e + mark_text(m).len() <= after.len(),
{
    match m {
        Mark::Italic => lemma_star_from(after, 0),
        _ => lemma_find(after, mark_text(m)),
    }
}

/// A complete link splits into label, `](`, url and `)`.
pub proof fn lemma_link_parts(t: Seq<char>)
    ensures
        link_start(t) matches Some(p) ==> {
            let after = t.skip(p + 1);
            &&& 0 <= p < t.len()
            &&& find(after, seq![']', '(']) matches Some(q)
            &&& 0 <= q && q + 2 <= after.len()
            &&& find(after.skip(q + 2), seq![')']) matches Some(r)
            &&& 0 <= r && q + 2 + r + 1 <= after.len()
        },
{
    lemma_find(t, seq!['[']);
    if let Some(p) = find(t, seq!['[']) {
        let after = t.skip(p + 1);
        assert(after =~= t.skip(p + 1 + 0));
        lemma_find(after, seq![']', '(']);
        if let Some(q) = find(after, seq![']', '(']) {
            assert(t.skip(p + 1 + q + 2) =~= after.skip(q + 2));
            lemma_find(after.skip(q + 2), seq![')']);
        }
    }
}

/// The rich text of a block: as `inline`, with one empty plain piece when
/// there is no text at all.
pub open spec fn rich(t: Seq<char>) -> Seq<SegmentView> {
    if t.len() == 0 {
        seq![SegmentView { content: seq![], annotation: Annotation::Plain, link: None }]
    } else {
        inline(t)
    }
}


pub open spec fn prefix_plain(t: Seq<char>, p: int) -> Seq<SegmentView> {
    if p > 0 {
        plain(t.take(p))
    } else {
        seq![]
    }
}

/// How `inline` unfolds at a style marker.
pub proof fn lemma_inline_mark(t: Seq<char>, p: int, m: Mark)
    requires
        t.len() > 0,
        m != Mark::Link,
        earliest(t) == Some((p, m)),
    ensures
        ({
            let after = t.skip(p + mark_text(m).len());
            match closing_pos(after, m) {
                Some(end) => inline(t) == prefix_plain(t, p) + styled(after.take(end), mark_annotation(m), None)
                    + inline(after.skip(end + mark_text(m).len())),
                None => inline(t) == prefix_plain(t, p) + plain(t.skip(p)),
            }
        }),
{
}

/// How `inline` unfolds at a link.
pub proof fn lemma_inline_link(t: Seq<char>, p: int)
    requires
        t.len() > 0,
        earliest(t) == Some((p, Mark::Link)),
    ensures
        ({
            let after = t.skip(p + 1);
            let q = find(after, seq![']', '(']).unwrap();
            let r = find(after.skip(q + 2), seq![')']).unwrap();
            inline(t) == prefix_plain(t, p) + styled(after.take(q), Annotation::Plain, Some(after.subrange(q + 2, q + 2 + r)))
                + inline(after.skip(q + 2 + r + 1))
        }),
{
    reveal(inline);
}

/// `inline` of the empty text, and of a text without markers.
pub proof fn lemma_inline_base(t: Seq<char>)
    ensures
        t.len() == 0 ==> inline(t) == Seq::<SegmentView>::empty(),
        t.len() > 0 && earliest(t) is None ==> inline(t) == plain(t),
{
    reveal(inline);
}

// ───────────────────────── blocks ─────────────────────────

/// The Notion block types that carry rich text.
#[derive(Clone, Copy, Debug, PartialEq, Eq)]
pub enum TextKind {
    Heading1,
    Heading2,
    Heading3,
    BulletedListItem,
    NumberedListItem,
    ToDo { checked: bool },
    Quote,
    Paragraph,
}

/// A list item nested under another list item.
#[derive(Debug, PartialEq, Eq)]
pub struct ListItem {
    pub kind: TextKind,
    pub rich_text: Vec<Segment>,
}

/// One Notion block.
#[derive(Debug, PartialEq, Eq)]
pub enum Block {
    Text { kind: TextKind, rich_text: Vec<Segment>, children: Vec<ListItem> },
    Code { content: String, language: String },
    Divider,
}

pub struct ListItemView {
    pub kind: TextKind,
    pub rich_text: Seq<SegmentView>,
}

pub enum BlockView {
    Text { kind: TextKind, rich_text: Seq<SegmentView>, children: Seq<ListItemView> },
    Code { content: Seq<char>, language: Seq<char> },
    Divider,
}

impl View for ListItem {
    type V = ListItemView;

    open spec fn view(&self) -> ListItemView {
        ListItemView { kind: self.kind, rich_text: segs_view(self.rich_text@) }
    }
}

pub open spec fn items_view(v: Seq<ListItem>) -> Seq<ListItemView> {
    v.map_values(|c: ListItem| c@)
}

impl View for Block {
    type V = BlockView;

    open spec fn view(&self) -> BlockView {
        match self {
            Block::Text { kind, rich_text, children } => BlockView::Text {
                kind: *kind,
                rich_text: segs_view(rich_text@),
                children: items_view(children@),
            },
            Block::Code { content, language } => BlockView::Code { content: content@, language: language@ },
            Block::Divider => BlockView::Divider,
        }
    }
}

pub open spec fn blocks_view(v: Seq<Block>) -> Seq<BlockView> {
    v.map_values(|b: Block| b@)
}

/// Number of leading ASCII digits.
pub open spec fn digits_len(l: Seq<char>) -> nat
    decreases l.len(),
{
    if l.len() > 0 && is_digit(l[0]) {
        1 + digits_len(l.drop_first())
    } else {
        0
    }
}

/// A numbered-list line: one or more ASCII digits, then `. `.
pub open spec fn numbered(l: Seq<char>) -> bool {
    digits_len(l) >= 1 && starts_with(l.skip(digits_len(l) as int), ". "@)
}

pub open spec fn after(l: Seq<char>, p: Seq<char>) -> Seq<char> {
    l.skip(p.len() as int)
}

/// A list-item line: its kind and its text.
pub open spec fn list_item(u: Seq<char>) -> Option<(TextKind, Seq<char>)> {
    if starts_with(u, "- [ ] "@) {
        Some((TextKind::ToDo { checked: false }, after(u, "- [ ] "@)))
    } else if starts_with(u, "- [x] "@) {
        Some((TextKind::ToDo { checked: true }, after(u, "- [x] "@)))
    } else if starts_with(u, "- "@) {
        Some((TextKind::BulletedListItem, after(u, "- "@)))
    } else if starts_with(u, "* "@) {
        Some((TextKind::BulletedListItem, after(u, "* "@)))
    } else if numbered(u) {
        Some((TextKind::NumberedListItem, u.skip((digits_len(u) + ". "@.len()) as int)))
    } else {
        None
    }
}

pub open spec fn is_list_kind(k: TextKind) -> bool {
    match k {
        TextKind::BulletedListItem | TextKind::NumberedListItem | TextKind::ToDo { .. } => true,
        _ => false,
    }
}

pub open spec fn text_block(k: TextKind, t: Seq<char>) -> BlockView {
    BlockView::Text { kind: k, rich_text: rich(t), children: seq![] }
}

/// The block that a line outside code fences becomes.
pub open spec fn line_block(l: Seq<char>) -> BlockView {
    if starts_with(l, "#### "@) {
        text_block(TextKind::Heading3, after(l, "#### "@))
    } else if starts_with(l, "### "@) {
        text_block(TextKind::Heading3, after(l, "### "@))
    } else if starts_with(l, "## "@) {
        text_block(TextKind::Heading2, after(l, "## "@))
    } else if starts_with(l, "# "@) {
        text_block(TextKind::Heading1, after(l, "# "@))
    } else if list_item(l) is Some {
        text_block(list_item(l).unwrap().0, list_item(l).unwrap().1)
    } else if starts_with(l, "> "@) {
        text_block(TextKind::Quote, after(l, "> "@))
    } else if l == "---"@ || l == "***"@ || l == "___"@ {
        BlockView::Divider
    } else {
        text_block(TextKind::Paragraph, l)
    }
}

/// Number of leading spaces and tabs.
pub open spec fn indent_len(l: Seq<char>) -> nat
    decreases l.len(),
{
    if l.len() > 0 && (l[0] == ' ' || l[0] == '\t') {
        1 + indent_len(l.drop_first())
    } else {
        0
    }
}

/// An indented list item right after a list item is nested under it.
pub open spec fn nests(blocks: Seq<BlockView>, l: Seq<char>) -> bool {
    &&& indent_len(l) > 0
    &&& list_item(l.skip(indent_len(l) as int)) is Some
    &&& last_is_list(blocks)
}

/// The last block is a list item.
pub open spec fn last_is_list(blocks: Seq<BlockView>) -> bool {
    &&& blocks.len() > 0
    &&& blocks.last() matches BlockView::Text { kind, .. } && is_list_kind(kind)
}

/// The list of blocks with an indented list-item line nested under the
/// last block.
pub open spec fn add_child(blocks: Seq<BlockView>, l: Seq<char>) -> Seq<BlockView> {
    let (k, t) = list_item(l.skip(indent_len(l) as int)).unwrap();
    match blocks.last() {
        BlockView::Text { kind, rich_text, children } => blocks.update(
            blocks.len() - 1,
            BlockView::Text {
                kind,
                rich_text,
                children: children.push(ListItemView { kind: k, rich_text: rich(t) }),
            },
        ),
        _ => blocks,
    }
}

/// The Notion language of a lowercased code-fence tag.
pub open spec fn language_of(l: Seq<char>) -> Seq<char> {
    if l == "rust"@ {
        "rust"@
    } else if l == "js"@ || l == "javascript"@ {
        "javascript"@
    } else if l == "ts"@ || l == "typescript"@ {
        "typescript"@
    } else if l == "py"@ || l == "python"@ {
        "python"@
    } else if l == "sh"@ || l == "bash"@ || l == "shell"@ {
        "shell"@
    } else if l == "go"@ {
        "go"@
    } else if l == "java"@ {
        "java"@
    } else if l == "c"@ {
        "c"@
    } else if l == "cpp"@ || l == "c++"@ {
        "c++"@
    } else if l == "cs"@ || l == "csharp"@ {
        "c#"@
    } else if l == "rb"@ || l == "ruby"@ {
        "ruby"@
    } else if l == "sql"@ {
        "sql"@
    } else if l == "json"@ {
        "json"@
    } else if l == "yaml"@ || l == "yml"@ {
        "yaml"@
    } else if l == "html"@ {
        "html"@
    } else if l == "css"@ {
        "css"@
    } else if l == "md"@ || l == "markdown"@ {
        "markdown"@
    } else if l == "toml"@ {
        "toml"@
    } else {
        "plain text"@
    }
}

/// The language of a code block, by its fence's tag lowercased: each name
/// Notion knows, under each of its common aliases, names that language
/// (`py` and `python` both give `python`, `yml` and `yaml` both `yaml`,
/// and so on), and any other tag gives plain text.
pub proof fn lemma_fence_languages(tag: Seq<char>)
    ensures
        ({
            let t = lowercase(tag);
            &&& (t == "rust"@ ==> language_of(t) == "rust"@)
            &&& ((t == "js"@ || t == "javascript"@) ==> language_of(t) == "javascript"@)
            &&& ((t == "ts"@ || t == "typescript"@) ==> language_of(t) == "typescript"@)
            &&& ((t == "py"@ || t == "python"@) ==> language_of(t) == "python"@)
            &&& ((t == "sh"@ || t == "bash"@ || t == "shell"@) ==> language_of(t) == "shell"@)
            &&& (t == "go"@ ==> language_of(t) == "go"@)
            &&& (t == "java"@ ==> language_of(t) == "java"@)
            &&& (t == "c"@ ==> language_of(t) == "c"@)
            &&& ((t == "cpp"@ || t == "c++"@) ==> language_of(t) == "c++"@)
            &&& ((t == "cs"@ || t == "csharp"@) ==> language_of(t) == "c#"@)
            &&& ((t == "rb"@ || t == "ruby"@) ==> language_of(t) == "ruby"@)
            &&& (t == "sql"@ ==> language_of(t) == "sql"@)
            &&& (t == "json"@ ==> language_of(t) == "json"@)
            &&& ((t == "yaml"@ || t == "yml"@) ==> language_of(t) == "yaml"@)
            &&& (t == "html"@ ==> language_of(t) == "html"@)
            &&& (t == "css"@ ==> language_of(t) == "css"@)
            &&& ((t == "md"@ || t == "markdown"@) ==> language_of(t) == "markdown"@)
            &&& (t == "toml"@ ==> language_of(t) == "toml"@)
            &&& (!(t == "rust"@ || t == "js"@ || t == "javascript"@ || t == "ts"@ || t == "typescript"@ || t == "py"@ || t == "python"@ || t == "sh"@ || t == "bash"@ || t == "shell"@ || t == "go"@ || t == "java"@ || t == "c"@ || t == "cpp"@ || t == "c++"@ || t == "cs"@ || t == "csharp"@ || t == "rb"@ || t == "ruby"@ || t == "sql"@ || t == "json"@ || t == "yaml"@ || t == "yml"@ || t == "html"@ || t == "css"@ || t == "md"@ || t == "markdown"@ || t == "toml"@) ==> language_of(t) == "plain text"@)
        }),
{
    reveal_strlit("bash");
    reveal_strlit("c");
    reveal_strlit("c#");
    reveal_strlit("c++");
    reveal_strlit("cpp");
    reveal_strlit("cs");
    reveal_strlit("csharp");
    reveal_strlit("css");
    reveal_strlit("go");
    reveal_strlit("html");
    reveal_strlit("java");
    reveal_strlit("javascript");
    reveal_strlit("js");
    reveal_strlit("json");
    reveal_strlit("markdown");
    reveal_strlit("md");
    reveal_strlit("plain text");
    reveal_strlit("py");
    reveal_strlit("python");
    reveal_strlit("rb");
    reveal_strlit("ruby");
    reveal_strlit("rust");
    reveal_strlit("sh");
    reveal_strlit("shell");
    reveal_strlit("sql");
    reveal_strlit("toml");
    reveal_strlit("ts");
    reveal_strlit("typescript");
    reveal_strlit("yaml");
    reveal_strlit("yml");
    // Tags of one length differ at some position.
    assert("bash"@[0] != "html"@[0]);
    assert("bash"@[0] != "java"@[0]);
    assert("bash"@[0] != "json"@[0]);
    assert("bash"@[0] != "ruby"@[0]);
    assert("bash"@[0] != "rust"@[0]);
    assert("bash"@[0] != "toml"@[0]);
    assert("bash"@[0] != "yaml"@[0]);
    assert("c#"@[1] != "cs"@[1]);
    assert("c#"@[0] != "go"@[0]);
    assert("c#"@[0] != "js"@[0]);
    assert("c#"@[0] != "md"@[0]);
    assert("c#"@[0] != "py"@[0]);
    assert("c#"@[0] != "rb"@[0]);
    assert("c#"@[0] != "sh"@[0]);
    assert("c#"@[0] != "ts"@[0]);
    assert("c++"@[1] != "cpp"@[1]);
    assert("c++"@[1] != "css"@[1]);
    assert("c++"@[0] != "sql"@[0]);
    assert("c++"@[0] != "yml"@[0]);
    assert("cpp"@[1] != "css"@[1]);
    assert("cpp"@[0] != "sql"@[0]);
    assert("cpp"@[0] != "yml"@[0]);
    assert("cs"@[0] != "go"@[0]);
    assert("cs"@[0] != "js"@[0]);
    assert("cs"@[0] != "md"@[0]);
    assert("cs"@[0] != "py"@[0]);
    assert("cs"@[0] != "rb"@[0]);
    assert("cs"@[0] != "sh"@[0]);
    assert("cs"@[0] != "ts"@[0]);
    assert("csharp"@[0] != "python"@[0]);
    assert("css"@[0] != "sql"@[0]);
    assert("css"@[0] != "yml"@[0]);
    assert("go"@[0] != "js"@[0]);
    assert("go"@[0] != "md"@[0]);
    assert("go"@[0] != "py"@[0]);
    assert("go"@[0] != "rb"@[0]);
    assert("go"@[0] != "sh"@[0]);
    assert("go"@[0] != "ts"@[0]);
    assert("html"@[0] != "java"@[0]);
    assert("html"@[0] != "json"@[0]);
    assert("html"@[0] != "ruby"@[0]);
    assert("html"@[0] != "rust"@[0]);
    assert("html"@[0] != "toml"@[0]);
    assert("html"@[0] != "yaml"@[0]);
    assert("java"@[1] != "json"@[1]);
    assert("java"@[0] != "ruby"@[0]);
    assert("java"@[0] != "rust"@[0]);
    assert("java"@[0] != "toml"@[0]);
    assert("java"@[0] != "yaml"@[0]);
    assert("javascript"@[0] != "plain text"@[0]);
    assert("javascript"@[0] != "typescript"@[0]);
    assert("js"@[0] != "md"@[0]);
    assert("js"@[0] != "py"@[0]);
    assert("js"@[0] != "rb"@[0]);
    assert("js"@[0] != "sh"@[0]);
    assert("js"@[0] != "ts"@[0]);
    assert("json"@[0] != "ruby"@[0]);
    assert("json"@[0] != "rust"@[0]);
    assert("json"@[0] != "toml"@[0]);
    assert("json"@[0] != "yaml"@[0]);
    assert("md"@[0] != "py"@[0]);
    assert("md"@[0] != "rb"@[0]);
    assert("md"@[0] != "sh"@[0]);
    assert("md"@[0] != "ts"@[0]);
    assert("plain text"@[0] != "typescript"@[0]);
    assert("py"@[0] != "rb"@[0]);
    assert("py"@[0] != "sh"@[0]);
    assert("py"@[0] != "ts"@[0]);
    assert("rb"@[0] != "sh"@[0]);
    assert("rb"@[0] != "ts"@[0]);
    assert("ruby"@[2] != "rust"@[2]);
    assert("ruby"@[0] != "toml"@[0]);
    assert("ruby"@[0] != "yaml"@[0]);
    assert("rust"@[0] != "toml"@[0]);
    assert("rust"@[0] != "yaml"@[0]);
    assert("sh"@[0] != "ts"@[0]);
    assert("sql"@[0] != "yml"@[0]);
    assert("toml"@[0] != "yaml"@[0]);
    // Each tag, taken in turn, passes the earlier ones.
    let t = lowercase(tag);
    if t == "rust"@ {
        assert(language_of("rust"@) == language_of(t));
    } else if t == "js"@ {
        assert(language_of("js"@) == language_of(t));
    } else if t == "javascript"@ {
        assert(language_of("javascript"@) == language_of(t));
    } else if t == "ts"@ {
        assert(language_of("ts"@) == language_of(t));
    } else if t == "typescript"@ {
        assert(language_of("typescript"@) == language_of(t));
    } else if t == "py"@ {
        assert(language_of("py"@) == language_of(t));
    } else if t == "python"@ {
        assert(language_of("python"@) == language_of(t));
    } else if t == "sh"@ {
        assert(language_of("sh"@) == language_of(t));
    } else if t == "bash"@ {
        assert(language_of("bash"@) == language_of(t));
    } else if t == "shell"@ {
        assert(language_of("shell"@) == language_of(t));
    } else if t == "go"@ {
        assert(language_of("go"@) == language_of(t));
    } else if t == "java"@ {
        assert(language_of("java"@) == language_of(t));
    } else if t == "c"@ {
        assert(language_of("c"@) == language_of(t));
    } else if t == "cpp"@ {
        assert(language_of("cpp"@) == language_of(t));
    } else if t == "c++"@ {
        assert(language_of("c++"@) == language_of(t));
    } else if t == "cs"@ {
        assert(language_of("cs"@) == language_of(t));
    } else if t == "csharp"@ {
        assert(language_of("csharp"@) == language_of(t));
    } else if t == "rb"@ {
        assert(language_of("rb"@) == language_of(t));
    } else if t == "ruby"@ {
        assert(language_of("ruby"@) == language_of(t));
    } else if t == "sql"@ {
        assert(language_of("sql"@) == language_of(t));
    } else if t == "json"@ {
        assert(language_of("json"@) == language_of(t));
    } else if t == "yaml"@ {
        assert(language_of("yaml"@) == language_of(t));
    } else if t == "yml"@ {
        assert(language_of("yml"@) == language_of(t));
    } else if t == "html"@ {
        assert(language_of("html"@) == language_of(t));
    } else if t == "css"@ {
        assert(language_of("css"@) == language_of(t));
    } else if t == "md"@ {
        assert(language_of("md"@) == language_of(t));
    } else if t == "markdown"@ {
        assert(language_of("markdown"@) == language_of(t));
    } else if t == "toml"@ {
        assert(language_of("toml"@) == language_of(t));
    }

}

/// Lines joined with `\n` between them.
pub open spec fn join_lines(ls: Seq<Seq<char>>) -> Seq<char>
    decreases ls.len(),
{
    if ls.len() == 0 {
        seq![]
    } else if ls.len() == 1 {
        ls[0]
    } else {
        join_lines(ls.drop_last()) + seq!['\n'] + ls.last()
    }
}

/// The blocks of a closed code fence: its text cut into pieces.
pub open spec fn code_blocks(content: Seq<char>, tag: Seq<char>) -> Seq<BlockView> {
    chunks(content, MAX_TEXT_LEN as nat).map_values(
        |c: Seq<char>| BlockView::Code { content: c, language: language_of(lowercase(tag)) },
    )
}

/// Where the conversion stands between lines.
pub struct MdState {
    pub blocks: Seq<BlockView>,
    pub in_code: bool,
    pub tag: Seq<char>,
    pub code: Seq<Seq<char>>,
}

pub open spec fn md_start() -> MdState {
    MdState { blocks: seq![], in_code: false, tag: seq![], code: seq![] }
}

/// The effect of one line.
pub open spec fn md_step(st: MdState, l: Seq<char>) -> MdState {
    if starts_with(l, "```"@) {
        if st.in_code {
            MdState {
                blocks: st.blocks + code_blocks(join_lines(st.code), st.tag),
                in_code: false,
                tag: seq![],
                code: seq![],
            }
        } else {
            MdState { in_code: true, tag: trim(after(l, "```"@)), ..st }
        }
    } else if st.in_code {
        MdState { code: st.code.push(l), ..st }
    } else if trim(l).len() == 0 {
        st
    } else if nests(st.blocks, l) {
        MdState { blocks: add_child(st.blocks, l), ..st }
    } else {
        MdState { blocks: st.blocks.push(line_block(l)), ..st }
    }
}

/// The state after a sequence of lines.
pub open spec fn md_fold(ls: Seq<Seq<char>>) -> MdState
    decreases ls.len(),
{
    if ls.len() == 0 {
        md_start()
    } else {
        md_step(md_fold(ls.drop_last()), ls.last())
    }
}

/// The blocks when the text ends: a code fence left open becomes one
/// plain-text block cut at the size limit.
pub open spec fn md_finish(st: MdState) -> Seq<BlockView> {
    if st.in_code && st.code.len() > 0 {
        st.blocks.push(
            BlockView::Code {
                content: truncated(join_lines(st.code), MAX_TEXT_LEN as nat),
                language: "plain text"@,
            },
        )
    } else {
        st.blocks
    }
}

/// The Notion blocks of a Markdown body.
pub open spec fn markdown_blocks(body: Seq<char>) -> Seq<BlockView> {
    md_finish(md_fold(lines(body)))
}

// ───────────────────────── the size limit ─────────────────────────

/// Every piece of rich text fits the size limit.
pub open spec fn segs_fit(segs: Seq<SegmentView>) -> bool {
    forall|i: int| 0 <= i < segs.len() ==> utf8_len(#[trigger] segs[i].content) <= MAX_TEXT_LEN
}

/// Every piece of text in a block fits the size limit.
pub open spec fn block_fits(b: BlockView) -> bool {
    match b {
        BlockView::Text { rich_text, children, .. } => segs_fit(rich_text) && forall|i: int|
            0 <= i < children.len() ==> segs_fit(#[trigger] children[i].rich_text),
        BlockView::Code { content, .. } => utf8_len(content) <= MAX_TEXT_LEN,
        BlockView::Divider => true,
    }
}

pub open spec fn blocks_fit(bs: Seq<BlockView>) -> bool {
    forall|i: int| 0 <= i < bs.len() ==> block_fits(#[trigger] bs[i])
}

pub proof fn lemma_styled_fits(t: Seq<char>, a: Annotation, link: Option<Seq<char>>)
    ensures
        segs_fit(styled(t, a, link)),
{
    lemma_chars_fit(t, MAX_TEXT_LEN as nat);
    lemma_chunks(t, MAX_TEXT_LEN as nat);
    let cs = chunks(t, MAX_TEXT_LEN as nat);
    assert forall|i: int| 0 <= i < styled(t, a, link).len() implies utf8_len(
        #[trigger] styled(t, a, link)[i].content,
    ) <= MAX_TEXT_LEN by {
        assert(styled(t, a, link)[i].content == cs[i]);
    }
}

pub proof fn lemma_segs_fit_concat(a: Seq<SegmentView>, b: Seq<SegmentView>)
    requires
        segs_fit(a),
        segs_fit(b),
    ensures
        segs_fit(a + b),
{
    assert forall|i: int| 0 <= i < (a + b).len() implies utf8_len(#[trigger] (a + b)[i].content) <= MAX_TEXT_LEN by {
        if i < a.len() {
            assert((a + b)[i] == a[i]);
        } else {
            assert((a + b)[i] == b[i - a.len()]);
        }
    }
}

/// Rich text never holds a piece beyond the size limit.
pub proof fn lemma_inline_fits(t: Seq<char>)
    ensures
        segs_fit(inline(t)),
    decreases t.len(),
{
    reveal(inline);
    if t.len() == 0 {
    } else {
        match earliest(t) {
            None => lemma_styled_fits(t, Annotation::Plain, None),
            Some((pos, m)) => {
                lemma_earliest(t);
                let pre = prefix_plain(t, pos);
                if pos > 0 {
                    lemma_styled_fits(t.take(pos), Annotation::Plain, None);
                }
                let after = t.skip(pos + mark_text(m).len());
                if m == Mark::Link {
                    lemma_link_parts(t);
                    let q = find(after, seq![']', '(']).unwrap();
                    let r = find(after.skip(q + 2), seq![')']).unwrap();
                    let st = styled(after.take(q), Annotation::Plain, Some(after.subrange(q + 2, q + 2 + r)));
                    lemma_styled_fits(after.take(q), Annotation::Plain, Some(after.subrange(q + 2, q + 2 + r)));
                    lemma_inline_fits(after.skip(q + 2 + r + 1));
                    lemma_segs_fit_concat(pre, st);
                    lemma_segs_fit_concat(pre + st, inline(after.skip(q + 2 + r + 1)));
                } else {
                    match closing_pos(after, m) {
                        Some(end) => {
                            lemma_closing_pos(after, m);
                            let st = styled(after.take(end), mark_annotation(m), None);
                            lemma_styled_fits(after.take(end), mark_annotation(m), None);
                            lemma_inline_fits(after.skip(end + mark_text(m).len()));
                            lemma_segs_fit_concat(pre, st);
                            lemma_segs_fit_concat(pre + st, inline(after.skip(end + mark_text(m).len())));
                        },
                        None => {
                            lemma_styled_fits(t.skip(pos), Annotation::Plain, None);
                            lemma_segs_fit_concat(pre, plain(t.skip(pos)));
                        },
                    }
                }
            },
        }
    }
}

pub proof fn lemma_rich_fits(t: Seq<char>)
    ensures
        segs_fit(rich(t)),
{
    if t.len() == 0 {
        assert(utf8_len(Seq::<char>::empty()) == 0);
    } else {
        lemma_inline_fits(t);
    }
}

pub proof fn lemma_line_block_fits(l: Seq<char>)
    ensures
        block_fits(line_block(l)),
{
    if starts_with(l, "#### "@) {
        lemma_rich_fits(after(l, "#### "@));
    } else if starts_with(l, "### "@) {
        lemma_rich_fits(after(l, "### "@));
    } else if starts_with(l, "## "@) {
        lemma_rich_fits(after(l, "## "@));
    } else if starts_with(l, "# "@) {
        lemma_rich_fits(after(l, "# "@));
    } else if list_item(l) is Some {
        lemma_rich_fits(list_item(l).unwrap().1);
    } else if starts_with(l, "> "@) {
        lemma_rich_fits(after(l, "> "@));
    } else if l == "---"@ || l == "***"@ || l == "___"@ {
    } else {
        lemma_rich_fits(l);
    }
}

pub proof fn lemma_step_fits(st: MdState, l: Seq<char>)
    requires
        blocks_fit(st.blocks),
    ensures
        blocks_fit(md_step(st, l).blocks),
{
    let bs = st.blocks;
    if starts_with(l, "```"@) {
        if st.in_code {
            let content = join_lines(st.code);
            let cb = code_blocks(content, st.tag);
            lemma_chars_fit(content, MAX_TEXT_LEN as nat);
            lemma_chunks(content, MAX_TEXT_LEN as nat);
            assert forall|i: int| 0 <= i < (bs + cb).len() implies block_fits(#[trigger] (bs + cb)[i]) by {
                if i >= bs.len() {
                    assert((bs + cb)[i] == cb[i - bs.len()]);
                } else {
                    assert((bs + cb)[i] == bs[i]);
                }
            }
        }
    } else if st.in_code {
    } else if trim(l).len() == 0 {
    } else if nests(bs, l) {
        let (k, t) = list_item(l.skip(indent_len(l) as int)).unwrap();
        lemma_rich_fits(t);
        let nb = add_child(bs, l);
        assert(block_fits(bs[bs.len() - 1]));
        assert forall|i: int| 0 <= i < nb.len() implies block_fits(#[trigger] nb[i]) by {
            if i < bs.len() - 1 {
                assert(nb[i] == bs[i]);
            } else {
                match bs.last() {
                    BlockView::Text { kind, rich_text, children } => {
                        let ch = children.push(ListItemView { kind: k, rich_text: rich(t) });
                        assert forall|j: int| 0 <= j < ch.len() implies segs_fit(#[trigger] ch[j].rich_text) by {
                            if j < children.len() {
                                assert(ch[j] == children[j]);
                            }
                        }
                    },
                    _ => {},
                }
            }
        }
    } else {
        lemma_line_block_fits(l);
        let nb = bs.push(line_block(l));
        assert forall|i: int| 0 <= i < nb.len() implies block_fits(#[trigger] nb[i]) by {
            if i < bs.len() {
                assert(nb[i] == bs[i]);
            }
        }
    }
}

pub proof fn lemma_fold_fits(ls: Seq<Seq<char>>)
    ensures
        blocks_fit(md_fold(ls).blocks),
    decreases ls.len(),
{
    if ls.len() > 0 {
        lemma_fold_fits(ls.drop_last());
        lemma_step_fits(md_fold(ls.drop_last()), ls.last());
    }
}

/// Every piece of text in the blocks of any Markdown body -- rich text,
/// nested items and code -- is at most `MAX_TEXT_LEN` bytes, the most that
/// Notion accepts.
pub proof fn lemma_markdown_blocks_fit(body: Seq<char>)
    ensures
        blocks_fit(markdown_blocks(body)),
{
    let st = md_fold(lines(body));
    lemma_fold_fits(lines(body));
    if st.in_code && st.code.len() > 0 {
        let content = join_lines(st.code);
        lemma_fit_count(content, MAX_TEXT_LEN as nat);
        let nb = md_finish(st);
        assert forall|i: int| 0 <= i < nb.len() implies block_fits(#[trigger] nb[i]) by {
            if i < st.blocks.len() {
                assert(nb[i] == st.blocks[i]);
            }
        }
    }
}

// ───────────────────────── executable inline parsing ─────────────────────────

/// The characters of a marker.
pub fn mark_chars(m: Mark) -> (r: Vec<char>)
    ensures
        r@ == mark_text(m),
{
    let r = match m {
        Mark::Bold => vec!['*', '*'],
        Mark::Italic => vec!['*'],
        Mark::Code => vec!['`'],
        Mark::Strike => vec!['~', '~'],
        Mark::Link => vec!['['],
    };
    assert(r@ =~= mark_text(m));
    r
}

/// The first `*` in `v[lo..hi]` that is not part of `**`, relative to `lo`.
pub fn first_single_star(v: &Vec<char>, lo: usize, hi: usize) -> (r: Option<usize>)
    requires
        lo <= hi <= v@.len(),
    ensures
        match r {
            Some(k) => star_from(v@.subrange(lo as int, hi as int), 0) == Some(k as int),
            None => star_from(v@.subrange(lo as int, hi as int), 0) is None,
        },
{
    let ghost s = v@.subrange(lo as int, hi as int);
    let mut i: usize = 0;
    while i < hi - lo
        invariant
            lo <= hi <= v@.len(),
            s == v@.subrange(lo as int, hi as int),
            star_from(s, 0) == star_from(s, i as nat),
        decreases hi - lo - i,
    {
        if v[lo + i] == '*' {
            if i + 1 < hi - lo && v[lo + i + 1] == '*' {
                i = i + 2;
            } else {
                return Some(i);
            }
        } else {
            i = i + 1;
        }
    }
    None
}

/// Where the marker `m` closes in `v[lo..hi]`, relative to `lo`; for `*`
/// the pairs `**` are passed over.
pub fn closing(v: &Vec<char>, lo: usize, hi: usize, m: Mark) -> (r: Option<usize>)
    requires
        lo <= hi <= v@.len(),
        m != Mark::Link,
    ensures
        match r {
            Some(k) => closing_pos(v@.subrange(lo as int, hi as int), m) == Some(k as int),
            None => closing_pos(v@.subrange(lo as int, hi as int), m) is None,
        },
{
    match m {
        Mark::Italic => first_single_star(v, lo, hi),
        _ => {
            let p = mark_chars(m);
            find_in(v, lo, hi, p.as_slice())
        },
    }
}

/// The positions (relative to `lo`) of a complete link: its `[`, its `](`
/// after the `[`, and its `)` after the `](`.
pub fn link_parts(v: &Vec<char>, lo: usize, hi: usize) -> (r: Option<(usize, usize, usize)>)
    requires
        lo <= hi <= v@.len(),
    ensures
        ({
            let t = v@.subrange(lo as int, hi as int);
            match r {
                Some((p, q, e)) => {
                    &&& link_start(t) == Some(p as int)
                    &&& find(t.skip(p + 1), seq![']', '(']) == Some(q as int)
                    &&& find(t.skip(p + 1).skip(q + 2), seq![')']) == Some(e as int)
                    &&& p + 1 + q + 2 + e + 1 <= hi - lo
                },
                None => link_start(t) is None,
            }
        }),
{
    let ghost t = v@.subrange(lo as int, hi as int);
    let open_p: Vec<char> = vec!['['];
    let mid_p: Vec<char> = vec![']', '('];
    let close_p: Vec<char> = vec![')'];
    proof {
        assert(open_p@ =~= seq!['[']);
        assert(mid_p@ =~= seq![']', '(']);
        assert(close_p@ =~= seq![')']);
        lemma_link_parts(t);
    }
    match find_in(v, lo, hi, open_p.as_slice()) {
        None => None,
        Some(p) => {
            proof {
                lemma_find(t, seq!['[']);
            }
            let a = lo + p + 1;
            proof {
                assert(t.skip(p + 1) =~= v@.subrange(a as int, hi as int));
            }
            match find_in(v, a, hi, mid_p.as_slice()) {
                None => None,
                Some(q) => {
                    proof {
                        lemma_find(v@.subrange(a as int, hi as int), seq![']', '(']);
                        assert(t.skip(p + 1 + q + 2) =~= v@.subrange(a + q + 2, hi as int));
                        assert(t.skip(p + 1).skip(q + 2) =~= v@.subrange(a + q + 2, hi as int));
                    }
                    match find_in(v, a + q + 2, hi, close_p.as_slice()) {
                        None => None,
                        Some(e) => {
                            proof {
                                lemma_find(v@.subrange(a + q + 2, hi as int), seq![')']);
                            }
                            Some((p, q, e))
                        },
                    }
                },
            }
        },
    }
}

fn pick_exec(a: Option<(usize, Mark)>, b: Option<(usize, Mark)>) -> (r: Option<(usize, Mark)>)
    ensures
        opt_pos(r) == pick(opt_pos(a), opt_pos(b)),
{
    match (a, b) {
        (None, _) => b,
        (_, None) => a,
        (Some(x), Some(y)) => if y.0 < x.0 {
            b
        } else {
            a
        },
    }
}

pub open spec fn opt_pos(o: Option<(usize, Mark)>) -> Option<(int, Mark)> {
    match o {
        Some((p, m)) => Some((p as int, m)),
        None => None,
    }
}

fn cand_exec(v: &Vec<char>, lo: usize, hi: usize, m: Mark) -> (r: Option<(usize, Mark)>)
    requires
        lo <= hi <= v@.len(),
    ensures
        opt_pos(r) == cand(v@.subrange(lo as int, hi as int), m),
{
    let pos = match m {
        Mark::Italic => first_single_star(v, lo, hi),
        Mark::Link => match link_parts(v, lo, hi) {
            Some((p, _, _)) => Some(p),
            None => None,
        },
        _ => {
            let p = mark_chars(m);
            find_in(v, lo, hi, p.as_slice())
        },
    };
    match pos {
        Some(p) => Some((p, m)),
        None => None,
    }
}

/// The earliest marker in `v[lo..hi]`, relative to `lo`.
pub fn earliest_mark(v: &Vec<char>, lo: usize, hi: usize) -> (r: Option<(usize, Mark)>)
    requires
        lo <= hi <= v@.len(),
    ensures
        opt_pos(r) == earliest(v@.subrange(lo as int, hi as int)),
{
    let b = cand_exec(v, lo, hi, Mark::Bold);
    let i = cand_exec(v, lo, hi, Mark::Italic);
    let c = cand_exec(v, lo, hi, Mark::Code);
    let s = cand_exec(v, lo, hi, Mark::Strike);
    let l = cand_exec(v, lo, hi, Mark::Link);
    proof {
        reveal(earliest);
    }
    pick_exec(pick_exec(pick_exec(pick_exec(b, i), c), s), l)
}

pub open spec fn link_view(v: Seq<char>, link: Option<(usize, usize)>) -> Option<Seq<char>> {
    match link {
        Some((x, y)) => Some(v.subrange(x as int, y as int)),
        None => None,
    }
}

/// Appends the text `v[lo..hi]`, cut into pieces, with one style.
pub fn push_styled(
    v: &Vec<char>,
    lo: usize,
    hi: usize,
    a: Annotation,
    link: Option<(usize, usize)>,
    out: &mut Vec<Segment>,
)
    requires
        lo <= hi <= v@.len(),
        link matches Some((x, y)) ==> x <= y <= v@.len(),
    ensures
        segs_view(final(out)@) == segs_view(old(out)@) + styled(
            v@.subrange(lo as int, hi as int),
            a,
            link_view(v@, link),
        ),
{
    proof {
        lemma_chars_fit(v@.subrange(lo as int, hi as int), MAX_TEXT_LEN as nat);
    }
    let pieces = chunk_range(v, lo, hi, MAX_TEXT_LEN);
    let ghost cs = chunks(v@.subrange(lo as int, hi as int), MAX_TEXT_LEN as nat);
    let ghost f = |c: Seq<char>| SegmentView { content: c, annotation: a, link: link_view(v@, link) };
    let mut i: usize = 0;
    while i < pieces.len()
        invariant
            0 <= i <= pieces@.len(),
            pieces@.map_values(|c: String| c@) == cs,
            link matches Some((x, y)) ==> x <= y <= v@.len(),
            f == (|c: Seq<char>| SegmentView { content: c, annotation: a, link: link_view(v@, link) }),
            segs_view(out@) == segs_view(old(out)@) + cs.take(i as int).map_values(f),
        decreases pieces@.len() - i,
    {
        let content = copy_string(&pieces[i]);
        let l = match link {
            Some((x, y)) => Some(string_of(v, x, y)),
            None => None,
        };
        let ghost before = out@;
        out.push(Segment { content, annotation: a, link: l });
        proof {
            assert(pieces@.map_values(|c: String| c@)[i as int] == pieces@[i as int]@);
            assert(cs.take(i + 1).map_values(f) =~= cs.take(i as int).map_values(f).push(f(cs[i as int])));
            assert(segs_view(out@) =~= segs_view(before).push(out@[i + old(out)@.len()]@));
        }
        i += 1;
    }
    proof {
        assert(cs.take(i as int) =~= cs);
    }
}


/// One step of inline parsing at a link that starts `p` characters into
/// `v[pos..hi]`; gives the position after the link.
fn link_step(v: &Vec<char>, pos: usize, hi: usize, p: usize, out: &mut Vec<Segment>) -> (next: usize)
    requires
        pos < hi <= v@.len(),
        earliest(v@.subrange(pos as int, hi as int)) == Some((p as int, Mark::Link)),
    ensures
        pos < next <= hi,
        segs_view(final(out)@) + inline(v@.subrange(next as int, hi as int)) == segs_view(old(out)@)
            + inline(v@.subrange(pos as int, hi as int)),
{
    let ghost t = v@.subrange(pos as int, hi as int);
    let ghost before = segs_view(out@);
    proof {
        lemma_earliest(t);
        lemma_link_parts(t);
        lemma_inline_link(t, p as int);
    }
    let ghost pre = prefix_plain(t, p as int);
    if p > 0 {
        push_styled(v, pos, pos + p, Annotation::Plain, None, out);
        proof {
            assert(t.take(p as int) =~= v@.subrange(pos as int, pos + p));
        }
    }
    assert(segs_view(out@) =~= before + pre);
    let lp = link_parts(v, pos, hi);
    let (_, q, e) = lp.unwrap();
    let a = pos + p + 1;
    let u = a + q + 2;
    push_styled(v, a, a + q, Annotation::Plain, Some((u, u + e)), out);
    proof {
        let after = t.skip(p + 1);
        assert(after =~= v@.subrange(a as int, hi as int));
        assert(after.take(q as int) =~= v@.subrange(a as int, a + q));
        assert(after.subrange(q + 2, q + 2 + e) =~= v@.subrange(u as int, u + e));
        assert(after.skip(q + 2 + e + 1) =~= v@.subrange(u + e + 1, hi as int));
        assert(segs_view(out@) + inline(v@.subrange(u + e + 1, hi as int)) =~= before + inline(t));
    }
    u + e + 1
}

/// One step of inline parsing at a style marker `m` that starts `p`
/// characters into `v[pos..hi]`; gives the position where parsing goes on.
#[verifier::spinoff_prover]
#[verifier::rlimit(40)]
fn mark_step(v: &Vec<char>, pos: usize, hi: usize, p: usize, m: Mark, out: &mut Vec<Segment>) -> (next: usize)
    requires
        pos < hi <= v@.len(),
        m != Mark::Link,
        earliest(v@.subrange(pos as int, hi as int)) == Some((p as int, m)),
    ensures
        pos < next <= hi,
        segs_view(final(out)@) + inline(v@.subrange(next as int, hi as int)) == segs_view(old(out)@)
            + inline(v@.subrange(pos as int, hi as int)),
{
    let ghost t = v@.subrange(pos as int, hi as int);
    let ghost before = segs_view(out@);
    proof {
        lemma_earliest(t);
    }
    let ghost pre = prefix_plain(t, p as int);
    proof {
        lemma_inline_mark(t, p as int, m);
    }
    let mlen: usize = match m {
        Mark::Bold => 2,
        Mark::Strike => 2,
        _ => 1,
    };
    assert(mlen == mark_text(m).len());
    let a = pos + p + mlen;
    let ghost after = t.skip(p + mark_text(m).len());
    assert(after =~= v@.subrange(a as int, hi as int));
    match closing(v, a, hi, m) {
        Some(end) => {
            if p > 0 {
                push_styled(v, pos, pos + p, Annotation::Plain, None, out);
                proof {
                    assert(t.take(p as int) =~= v@.subrange(pos as int, pos + p));
                }
            }
            assert(segs_view(out@) =~= before + pre);
            proof {
                lemma_closing_pos(after, m);
            }
            push_styled(v, a, a + end, mark_annotation_exec(m), None, out);
            proof {
                assert(after.take(end as int) =~= v@.subrange(a as int, a + end));
                assert(after.skip(end + mark_text(m).len()) =~= v@.subrange(a + end + mlen, hi as int));
                assert(segs_view(out@) + inline(v@.subrange(a + end + mlen, hi as int)) =~= before + inline(t));
            }
            a + end + mlen
        },
        None => {
            if p > 0 {
                push_styled(v, pos, pos + p, Annotation::Plain, None, out);
                proof {
                    assert(t.take(p as int) =~= v@.subrange(pos as int, pos + p));
                }
            }
            assert(segs_view(out@) =~= before + pre);
            push_styled(v, pos + p, hi, Annotation::Plain, None, out);
            proof {
                assert(t.skip(p as int) =~= v@.subrange(pos + p, hi as int));
                assert(v@.subrange(hi as int, hi as int) =~= Seq::<char>::empty());
                lemma_inline_base(v@.subrange(hi as int, hi as int));
                assert(segs_view(out@) + inline(v@.subrange(hi as int, hi as int)) =~= before + inline(t));
            }
            hi
        },
    }
}

/// `parse_inline`: appends the rich text of `v[lo..hi]` to `out`.
pub fn parse_inline(v: &Vec<char>, lo: usize, hi: usize, out: &mut Vec<Segment>)
    requires
        lo <= hi <= v@.len(),
    ensures
        segs_view(final(out)@) == segs_view(old(out)@) + inline(v@.subrange(lo as int, hi as int)),
{
    let mut pos = lo;
    let ghost whole = v@.subrange(lo as int, hi as int);
    while pos < hi
        invariant
            lo <= pos <= hi <= v@.len(),
            whole == v@.subrange(lo as int, hi as int),
            segs_view(old(out)@) + inline(whole) == segs_view(out@) + inline(
                v@.subrange(pos as int, hi as int),
            ),
        decreases hi - pos,
    {
        let ghost t = v@.subrange(pos as int, hi as int);
        let ghost before = segs_view(out@);
        match earliest_mark(v, pos, hi) {
            None => {
                push_styled(v, pos, hi, Annotation::Plain, None, out);
                proof {
                    lemma_inline_base(t);
                    lemma_inline_base(v@.subrange(hi as int, hi as int));
                    assert(v@.subrange(hi as int, hi as int) =~= Seq::<char>::empty());
                    assert(segs_view(out@) + inline(v@.subrange(hi as int, hi as int)) =~= before + inline(t));
                }
                pos = hi;
            },
            Some((p, Mark::Link)) => {
                pos = link_step(v, pos, hi, p, out);
            },
            Some((p, m)) => {
                pos = mark_step(v, pos, hi, p, m, out);
            },
        }
    }
    proof {
        assert(v@.subrange(pos as int, hi as int) =~= Seq::<char>::empty());
        lemma_inline_base(v@.subrange(pos as int, hi as int));
        assert(segs_view(out@) + inline(v@.subrange(pos as int, hi as int)) =~= segs_view(out@));
    }
}

/// The style that the marker `m` gives its text.
pub fn mark_annotation_exec(m: Mark) -> (a: Annotation)
    ensures
        a == mark_annotation(m),
{
    match m {
        Mark::Bold => Annotation::Bold,
        Mark::Italic => Annotation::Italic,
        Mark::Code => Annotation::Code,
        Mark::Strike => Annotation::Strikethrough,
        Mark::Link => Annotation::Plain,
    }
}

/// `rich_text`: the rich text of `v[lo..hi]`, never empty.
pub fn rich_text(v: &Vec<char>, lo: usize, hi: usize) -> (r: Vec<Segment>)
    requires
        lo <= hi <= v@.len(),
    ensures
        segs_view(r@) == rich(v@.subrange(lo as int, hi as int)),
{
    let mut out: Vec<Segment> = Vec::new();
    if lo == hi {
        out.push(Segment { content: String::new(), annotation: Annotation::Plain, link: None });
        proof {
            assert(segs_view(out@) =~= rich(v@.subrange(lo as int, hi as int)));
        }
        return out;
    }
    parse_inline(v, lo, hi, &mut out);
    proof {
        assert(segs_view(Seq::<Segment>::empty()) =~= Seq::<SegmentView>::empty());
        assert(Seq::<SegmentView>::empty() + inline(v@.subrange(lo as int, hi as int)) =~= inline(v@.subrange(lo as int, hi as int)));
    }
    out
}


// ───────────────────────── executable blocks ─────────────────────────

/// End of the leading ASCII digits of `v[lo..hi]`.
pub fn digits_end(v: &Vec<char>, lo: usize, hi: usize) -> (e: usize)
    requires
        lo <= hi <= v@.len(),
    ensures
        lo <= e <= hi,
        e - lo == digits_len(v@.subrange(lo as int, hi as int)),
{
    let mut i = lo;
    while i < hi && crate::text::is_ascii_digit(v[i])
        invariant
            lo <= i <= hi <= v@.len(),
            digits_len(v@.subrange(lo as int, hi as int)) == (i - lo) + digits_len(v@.subrange(i as int, hi as int)),
        decreases hi - i,
    {
        assert(v@.subrange(i as int, hi as int).drop_first() =~= v@.subrange(i + 1, hi as int));
        i += 1;
    }
    i
}

/// `is_numbered`: whether `v[lo..hi]` is a numbered-list line.
pub fn is_numbered(v: &Vec<char>, lo: usize, hi: usize) -> (r: bool)
    requires
        lo <= hi <= v@.len(),
    ensures
        r == numbered(v@.subrange(lo as int, hi as int)),
{
    let e = digits_end(v, lo, hi);
    proof {
        assert(v@.subrange(lo as int, hi as int).skip(e - lo) =~= v@.subrange(e as int, hi as int));
    }
    e > lo && starts_with_str(v, e, hi, ". ")
}

/// The kind and text start of a list-item line `v[lo..hi]`.
pub fn list_item_at(v: &Vec<char>, lo: usize, hi: usize) -> (r: Option<(TextKind, usize)>)
    requires
        lo <= hi <= v@.len(),
    ensures
        match r {
            Some((k, start)) => lo <= start <= hi && list_item(v@.subrange(lo as int, hi as int)) == Some(
                (k, v@.subrange(start as int, hi as int)),
            ),
            None => list_item(v@.subrange(lo as int, hi as int)) is None,
        },
{
    let ghost l = v@.subrange(lo as int, hi as int);
    if starts_with_str(v, lo, hi, "- [ ] ") {
        let n = chars_of("- [ ] ").len();
        assert(after(l, "- [ ] "@) =~= v@.subrange(lo + n, hi as int));
        Some((TextKind::ToDo { checked: false }, lo + n))
    } else if starts_with_str(v, lo, hi, "- [x] ") {
        let n = chars_of("- [x] ").len();
        assert(after(l, "- [x] "@) =~= v@.subrange(lo + n, hi as int));
        Some((TextKind::ToDo { checked: true }, lo + n))
    } else if starts_with_str(v, lo, hi, "- ") {
        let n = chars_of("- ").len();
        assert(after(l, "- "@) =~= v@.subrange(lo + n, hi as int));
        Some((TextKind::BulletedListItem, lo + n))
    } else if starts_with_str(v, lo, hi, "* ") {
        let n = chars_of("* ").len();
        assert(after(l, "* "@) =~= v@.subrange(lo + n, hi as int));
        Some((TextKind::BulletedListItem, lo + n))
    } else if is_numbered(v, lo, hi) {
        let e = digits_end(v, lo, hi);
        proof {
            let dot = ". "@;
            assert(l.skip(e - lo) =~= v@.subrange(e as int, hi as int));
            assert(starts_with(v@.subrange(e as int, hi as int), dot));
        }
        let n = chars_of(". ").len();
        assert(l.skip((digits_len(l) + ". "@.len()) as int) =~= v@.subrange(e + n, hi as int));
        Some((TextKind::NumberedListItem, e + n))
    } else {
        None
    }
}

/// `block_with_rt`: a block of the given kind holding the rich text of
/// `v[lo..hi]`.
pub fn block_with_rt(kind: TextKind, v: &Vec<char>, lo: usize, hi: usize) -> (b: Block)
    requires
        lo <= hi <= v@.len(),
    ensures
        b@ == text_block(kind, v@.subrange(lo as int, hi as int)),
{
    let rt = rich_text(v, lo, hi);
    let children: Vec<ListItem> = Vec::new();
    let b = Block::Text { kind, rich_text: rt, children };
    assert(items_view(children@) =~= Seq::<ListItemView>::empty());
    b
}

/// The block that the line `v[lo..hi]` becomes outside code fences.
pub fn line_to_block(v: &Vec<char>, lo: usize, hi: usize) -> (b: Block)
    requires
        lo <= hi <= v@.len(),
    ensures
        b@ == line_block(v@.subrange(lo as int, hi as int)),
{
    let ghost l = v@.subrange(lo as int, hi as int);
    if starts_with_str(v, lo, hi, "#### ") {
        let n = chars_of("#### ").len();
        assert(after(l, "#### "@) =~= v@.subrange(lo + n, hi as int));
        block_with_rt(TextKind::Heading3, v, lo + n, hi)
    } else if starts_with_str(v, lo, hi, "### ") {
        let n = chars_of("### ").len();
        assert(after(l, "### "@) =~= v@.subrange(lo + n, hi as int));
        block_with_rt(TextKind::Heading3, v, lo + n, hi)
    } else if starts_with_str(v, lo, hi, "## ") {
        let n = chars_of("## ").len();
        assert(after(l, "## "@) =~= v@.subrange(lo + n, hi as int));
        block_with_rt(TextKind::Heading2, v, lo + n, hi)
    } else if starts_with_str(v, lo, hi, "# ") {
        let n = chars_of("# ").len();
        assert(after(l, "# "@) =~= v@.subrange(lo + n, hi as int));
        block_with_rt(TextKind::Heading1, v, lo + n, hi)
    } else if let Some((k, start)) = list_item_at(v, lo, hi) {
        block_with_rt(k, v, start, hi)
    } else if starts_with_str(v, lo, hi, "> ") {
        let n = chars_of("> ").len();
        assert(after(l, "> "@) =~= v@.subrange(lo + n, hi as int));
        block_with_rt(TextKind::Quote, v, lo + n, hi)
    } else if range_eq(v, lo, hi, "---") || range_eq(v, lo, hi, "***") || range_eq(v, lo, hi, "___") {
        Block::Divider
    } else {
        block_with_rt(TextKind::Paragraph, v, lo, hi)
    }
}

/// The Notion language of a lowercased code-fence tag.
pub fn language_for(lower: &str) -> (r: String)
    ensures
        r@ == language_of(lower@),
{
    let l = lower;
    let name = if str_eq(l, "rust") {
        "rust"
    } else if str_eq(l, "js") || str_eq(l, "javascript") {
        "javascript"
    } else if str_eq(l, "ts") || str_eq(l, "typescript") {
        "typescript"
    } else if str_eq(l, "py") || str_eq(l, "python") {
        "python"
    } else if str_eq(l, "sh") || str_eq(l, "bash") || str_eq(l, "shell") {
        "shell"
    } else if str_eq(l, "go") {
        "go"
    } else if str_eq(l, "java") {
        "java"
    } else if str_eq(l, "c") {
        "c"
    } else if str_eq(l, "cpp") || str_eq(l, "c++") {
        "c++"
    } else if str_eq(l, "cs") || str_eq(l, "csharp") {
        "c#"
    } else if str_eq(l, "rb") || str_eq(l, "ruby") {
        "ruby"
    } else if str_eq(l, "sql") {
        "sql"
    } else if str_eq(l, "json") {
        "json"
    } else if str_eq(l, "yaml") || str_eq(l, "yml") {
        "yaml"
    } else if str_eq(l, "html") {
        "html"
    } else if str_eq(l, "css") {
        "css"
    } else if str_eq(l, "md") || str_eq(l, "markdown") {
        "markdown"
    } else if str_eq(l, "toml") {
        "toml"
    } else {
        "plain text"
    };
    string_from(name)
}

/// `lang_name`: the Notion language of a code-fence tag, compared without
/// regard to case.
pub fn lang_name(tag: &str) -> (r: String)
    ensures
        r@ == language_of(lowercase(tag@)),
{
    let lower = to_lowercase(tag);
    language_for(lower.as_str())
}


/// End of the leading spaces and tabs of `v[lo..hi]`.
pub fn indent_end(v: &Vec<char>, lo: usize, hi: usize) -> (e: usize)
    requires
        lo <= hi <= v@.len(),
    ensures
        lo <= e <= hi,
        e - lo == indent_len(v@.subrange(lo as int, hi as int)),
        v@.subrange(lo as int, hi as int).skip(e - lo) == v@.subrange(e as int, hi as int),
{
    let mut i = lo;
    while i < hi && (v[i] == ' ' || v[i] == '\t')
        invariant
            lo <= i <= hi <= v@.len(),
            indent_len(v@.subrange(lo as int, hi as int)) == (i - lo) + indent_len(v@.subrange(i as int, hi as int)),
        decreases hi - i,
    {
        assert(v@.subrange(i as int, hi as int).drop_first() =~= v@.subrange(i + 1, hi as int));
        i += 1;
    }
    assert(v@.subrange(lo as int, hi as int).skip(i - lo) =~= v@.subrange(i as int, hi as int));
    i
}

/// Whether blocks of kind `k` are list items.
pub fn is_list_kind_exec(k: TextKind) -> (r: bool)
    ensures
        r == is_list_kind(k),
{
    match k {
        TextKind::BulletedListItem | TextKind::NumberedListItem | TextKind::ToDo { .. } => true,
        _ => false,
    }
}

/// Whether the last block is a list item that an indented item can nest
/// under.
fn last_is_list_item(blocks: &Vec<Block>) -> (r: bool)
    ensures
        r == last_is_list(blocks_view(blocks@)),
{
    if blocks.len() == 0 {
        return false;
    }
    let ghost bv = blocks_view(blocks@);
    assert(bv.last() == blocks@.last()@);
    match &blocks[blocks.len() - 1] {
        Block::Text { kind, .. } => is_list_kind_exec(*kind),
        _ => false,
    }
}

/// Adds a line that is neither in a code fence nor blank: nested under the
/// last list item when it is an indented list item, else as a block of
/// its own.
fn add_line(v: &Vec<char>, lo: usize, hi: usize, blocks: &mut Vec<Block>)
    requires
        lo <= hi <= v@.len(),
    ensures
        ({
            let l = v@.subrange(lo as int, hi as int);
            let bs = blocks_view(old(blocks)@);
            blocks_view(final(blocks)@) == if nests(bs, l) {
                add_child(bs, l)
            } else {
                bs.push(line_block(l))
            }
        }),
{
    let ghost l = v@.subrange(lo as int, hi as int);
    let ghost bs = blocks_view(blocks@);
    let e = indent_end(v, lo, hi);
    if e > lo && last_is_list_item(blocks) {
        if let Some((k, start)) = list_item_at(v, e, hi) {
            let child = ListItem { kind: k, rich_text: rich_text(v, start, hi) };
            let last = blocks.pop().unwrap();
            let ghost rest = blocks@;
            assert(bs =~= blocks_view(rest).push(last@));
            match last {
                Block::Text { kind, rich_text, mut children } => {
                    let ghost old_children = children@;
                    children.push(child);
                    assert(items_view(children@) =~= items_view(old_children).push(
                        ListItemView { kind: k, rich_text: rich(v@.subrange(start as int, hi as int)) },
                    ));
                    blocks.push(Block::Text { kind, rich_text, children });
                    assert(blocks_view(blocks@) =~= add_child(bs, l));
                },
                _ => {
                    blocks.push(last);
                    assert(false);
                },
            }
            return;
        }
    }
    let b = line_to_block(v, lo, hi);
    blocks.push(b);
    assert(blocks_view(blocks@) =~= bs.push(line_block(l)));
}

/// The code lines `v[code[i]]` joined with `\n`.
pub fn join_code(v: &Vec<char>, code: &Vec<(usize, usize)>) -> (r: String)
    requires
        ranges_within(code@, 0, v@.len() as int),
    ensures
        r@ == join_lines(pieces(v@, code@)),
{
    let mut s = String::new();
    let mut i: usize = 0;
    while i < code.len()
        invariant
            ranges_within(code@, 0, v@.len() as int),
            0 <= i <= code@.len(),
            s@ == join_lines(pieces(v@, code@).take(i as int)),
        decreases code@.len() - i,
    {
        let (lo, hi) = code[i];
        let ghost before = s@;
        if i > 0 {
            crate::text::push_char(&mut s, '\n');
        }
        push_range(&mut s, v, lo, hi);
        proof {
            let ps = pieces(v@, code@);
            assert(ps.take(i + 1).drop_last() =~= ps.take(i as int));
            assert(ps.take(i + 1).last() == v@.subrange(lo as int, hi as int));
            if i == 0 {
                assert(ps.take(0) =~= Seq::<Seq<char>>::empty());
                assert(s@ =~= ps.take(1)[0]);
            } else {
                assert(s@ =~= before + seq!['\n'] + v@.subrange(lo as int, hi as int));
            }
        }
        i += 1;
    }
    proof {
        assert(pieces(v@, code@).take(i as int) =~= pieces(v@, code@));
    }
    s
}

/// Closes a code fence: its text cut into code blocks.
fn close_code(v: &Vec<char>, code: &Vec<(usize, usize)>, tag: (usize, usize), blocks: &mut Vec<Block>)
    requires
        ranges_within(code@, 0, v@.len() as int),
        tag.0 <= tag.1 <= v@.len(),
    ensures
        blocks_view(final(blocks)@) == blocks_view(old(blocks)@) + code_blocks(
            join_lines(pieces(v@, code@)),
            v@.subrange(tag.0 as int, tag.1 as int),
        ),
{
    let content = join_code(v, code);
    let tag_s = string_of(v, tag.0, tag.1);
    let cv = chars_of(content.as_str());
    proof {
        lemma_chars_fit(cv@.subrange(0, cv@.len() as int), MAX_TEXT_LEN as nat);
    }
    let pieces_s = chunk_range(&cv, 0, cv.len(), MAX_TEXT_LEN);
    let ghost cs = chunks(content@, MAX_TEXT_LEN as nat);
    proof {
        assert(cv@.subrange(0, cv@.len() as int) =~= content@);
    }
    let ghost lang = language_of(lowercase(tag_s@));
    let ghost f = |c: Seq<char>| BlockView::Code { content: c, language: lang };
    let mut i: usize = 0;
    while i < pieces_s.len()
        invariant
            0 <= i <= pieces_s@.len(),
            pieces_s@.map_values(|c: String| c@) == cs,
            f == (|c: Seq<char>| BlockView::Code { content: c, language: lang }),
            lang == language_of(lowercase(tag_s@)),
            blocks_view(blocks@) == blocks_view(old(blocks)@) + cs.take(i as int).map_values(f),
        decreases pieces_s@.len() - i,
    {
        let c = copy_string(&pieces_s[i]);
        let language = lang_name(tag_s.as_str());
        let ghost before = blocks@;
        blocks.push(Block::Code { content: c, language });
        proof {
            assert(pieces_s@.map_values(|c: String| c@)[i as int] == pieces_s@[i as int]@);
            assert(cs.take(i + 1).map_values(f) =~= cs.take(i as int).map_values(f).push(f(cs[i as int])));
            assert(blocks_view(blocks@) =~= blocks_view(before).push(blocks@.last()@));
        }
        i += 1;
    }
    proof {
        assert(cs.take(i as int) =~= cs);
    }
}

pub open spec fn state_of(
    v: Seq<char>,
    blocks: Seq<Block>,
    in_code: bool,
    tag: (usize, usize),
    code: Seq<(usize, usize)>,
) -> MdState {
    MdState {
        blocks: blocks_view(blocks),
        in_code,
        tag: v.subrange(tag.0 as int, tag.1 as int),
        code: pieces(v, code),
    }
}

/// `markdown_to_blocks`: the Notion blocks of a Markdown body. Headings
/// (`#`, `##`, `###`), bulleted (`- `, `* `), numbered (`1. `) and to-do
/// (`- [ ] `, `- [x] `) list items, quotes (`> `), dividers (`---`,
/// `***`, `___`) and paragraphs, one per non-blank line; indented list
/// items nest under the list item above; fenced code becomes code blocks.
pub fn markdown_to_blocks(body: &str) -> (r: Vec<Block>)
    ensures
        blocks_view(r@) == markdown_blocks(body@),
        blocks_fit(blocks_view(r@)),
{
    proof {
        lemma_markdown_blocks_fit(body@);
    }
    let v = chars_of(body);
    let ls = line_ranges(&v, 0, v.len());
    let ghost lv = pieces(v@, ls@);
    proof {
        assert(v@.subrange(0, v@.len() as int) =~= body@);
    }
    let mut blocks: Vec<Block> = Vec::new();
    let mut in_code = false;
    let mut tag: (usize, usize) = (0, 0);
    let mut code: Vec<(usize, usize)> = Vec::new();
    let mut k: usize = 0;
    proof {
        assert(lv.take(0) =~= Seq::<Seq<char>>::empty());
        assert(blocks_view(blocks@) =~= Seq::<BlockView>::empty());
        assert(v@.subrange(0, 0) =~= Seq::<char>::empty());
        assert(pieces(v@, code@) =~= Seq::<Seq<char>>::empty());
        assert(state_of(v@, blocks@, in_code, tag, code@) =~= md_start());
    }
    while k < ls.len()
        invariant
            v@ == body@,
            lv == pieces(v@, ls@),
            lv == lines(body@),
            ranges_within(ls@, 0, v@.len() as int),
            ranges_within(code@, 0, v@.len() as int),
            tag.0 <= tag.1 <= v@.len(),
            0 <= k <= ls@.len(),
            state_of(v@, blocks@, in_code, tag, code@) == md_fold(lv.take(k as int)),
        decreases ls@.len() - k,
    {
        let (lo, hi) = ls[k];
        let ghost l = v@.subrange(lo as int, hi as int);
        let ghost st = state_of(v@, blocks@, in_code, tag, code@);
        proof {
            assert(lv.take(k + 1).drop_last() =~= lv.take(k as int));
            assert(lv.take(k + 1).last() == l);
            assert(md_fold(lv.take(k + 1)) == md_step(st, l));
        }
        if starts_with_str(&v, lo, hi, "```") {
            if in_code {
                close_code(&v, &code, tag, &mut blocks);
                in_code = false;
                tag = (0, 0);
                code = Vec::new();
                proof {
                    assert(v@.subrange(0, 0) =~= Seq::<char>::empty());
                    assert(pieces(v@, code@) =~= Seq::<Seq<char>>::empty());
                    assert(state_of(v@, blocks@, in_code, tag, code@) =~= md_step(st, l));
                }
            } else {
                let n = chars_of("```").len();
                let tb = trim_bounds(&v, lo + n, hi);
                in_code = true;
                tag = tb;
                proof {
                    assert(after(l, "```"@) =~= v@.subrange(lo + n, hi as int));
                    assert(state_of(v@, blocks@, in_code, tag, code@) =~= md_step(st, l));
                }
            }
        } else if in_code {
            let ghost old_code = code@;
            code.push((lo, hi));
            proof {
                assert(pieces(v@, code@) =~= pieces(v@, old_code).push(l));
                assert(state_of(v@, blocks@, in_code, tag, code@) =~= md_step(st, l));
            }
        } else {
            let tb = trim_bounds(&v, lo, hi);
            if tb.0 == tb.1 {
                proof {
                    assert(trim(l).len() == 0);
                }
            } else {
                add_line(&v, lo, hi, &mut blocks);
                proof {
                    assert(state_of(v@, blocks@, in_code, tag, code@) =~= md_step(st, l));
                }
            }
        }
        k += 1;
    }
    proof {
        assert(lv.take(k as int) =~= lv);
    }
    if in_code && code.len() > 0 {
        let content = join_code(&v, &code);
        let cv = chars_of(content.as_str());
        let e = truncate_end(&cv, 0, cv.len(), MAX_TEXT_LEN);
        let c = string_of(&cv, 0, e);
        let ghost before = blocks@;
        blocks.push(Block::Code { content: c, language: string_from("plain text") });
        proof {
            assert(cv@.subrange(0, cv@.len() as int) =~= content@);
            assert(blocks_view(blocks@) =~= blocks_view(before).push(blocks@.last()@));
        }
    }
    blocks
}

} // verus!
