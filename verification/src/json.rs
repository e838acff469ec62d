//! The JSON that the Notion API is sent: blocks, pages and appended
//! children, written as text.
use crate::markdown::{
    blocks_view, items_view, segs_view, Annotation, Block, BlockView, ListItem, ListItemView, Segment,
    SegmentView, TextKind,
};
use crate::text::{ends_with, push_all, push_char, push_str};
use vstd::prelude::*;

verus! {

// ───────────────────────── strings ─────────────────────────

/// Lowercase hexadecimal digit of `n` (below 16).
pub open spec fn hex_digit(n: int) -> char {
    seq!['0', '1', '2', '3', '4', '5', '6', '7', '8', '9', 'a', 'b', 'c', 'd', 'e', 'f'][n]
}

/// How `serde_json` writes one character inside a string literal: `"` and
/// `\` and the control characters escaped, everything else as it is.
pub open spec fn escape_char(c: char) -> Seq<char> {
    if c == '"' {
        seq!['\\', '"']
    } else if c == '\\' {
        seq!['\\', '\\']
    } else if c == '\u{8}' {
        seq!['\\', 'b']
    } else if c == '\u{c}' {
        seq!['\\', 'f']
    } else if c == '\n' {
        seq!['\\', 'n']
    } else if c == '\r' {
        seq!['\\', 'r']
    } else if c == '\t' {
        seq!['\\', 't']
    } else if (c as u32) < 0x20 {
        seq!['\\', 'u', '0', '0', hex_digit(((c as u32) / 16) as int), hex_digit(((c as u32) % 16) as int)]
    } else {
        seq![c]
    }
}

pub open spec fn escape_str(s: Seq<char>) -> Seq<char>
    decreases s.len(),
{
    if s.len() == 0 {
        seq![]
    } else {
        escape_str(s.drop_last()) + escape_char(s.last())
    }
}

/// A JSON string literal holding `s`.
pub open spec fn json_str(s: Seq<char>) -> Seq<char> {
    seq!['"'] + escape_str(s) + seq!['"']
}

/// `serde_json::to_string` of a string: the string as a JSON string
/// literal. The contract states `serde_json`'s escaping (its `ESCAPE`
/// table): `"`, `\`, backspace, form feed, newline, carriage return and
/// tab as two-character escapes, the other characters below U+0020 as
/// `\u00XX` with lowercase hex digits, all else unchanged. Serialising a
/// string into memory does not fail.
#[verifier::external_body]
fn json_quote(s: &str) -> (r: String)
    ensures
        r@ == json_str(s@),
{
    match serde_json::to_string(s) {
        Ok(j) => j,
        Err(_) => String::new(),
    }
}

/// Appends `s` as a JSON string literal.
pub fn write_str(out: &mut String, s: &str)
    ensures
        final(out)@ == old(out)@ + json_str(s@),
{
    let q = json_quote(s);
    push_str(out, q.as_str());
}

/// Items separated by commas.
pub open spec fn commas(items: Seq<Seq<char>>) -> Seq<char>
    decreases items.len(),
{
    if items.len() == 0 {
        seq![]
    } else if items.len() == 1 {
        items[0]
    } else {
        commas(items.drop_last()) + seq![','] + items.last()
    }
}

/// A JSON array of already written items.
pub open spec fn json_list(items: Seq<Seq<char>>) -> Seq<char> {
    seq!['['] + commas(items) + seq![']']
}

// ───────────────────────── rich text ─────────────────────────

pub open spec fn link_part(l: Option<Seq<char>>) -> Seq<char> {
    match l {
        Some(u) => ",\"link\":{\"url\":"@ + json_str(u) + "}"@,
        None => seq![],
    }
}

pub open spec fn annotation_part(a: Annotation) -> Seq<char> {
    match a {
        Annotation::Plain => seq![],
        Annotation::Bold => ",\"annotations\":{\"bold\":true}"@,
        Annotation::Italic => ",\"annotations\":{\"italic\":true}"@,
        Annotation::Code => ",\"annotations\":{\"code\":true}"@,
        Annotation::Strikethrough => ",\"annotations\":{\"strikethrough\":true}"@,
    }
}

/// A rich-text object.
pub open spec fn segment_json(s: SegmentView) -> Seq<char> {
    "{\"type\":\"text\",\"text\":{\"content\":"@ + json_str(s.content) + link_part(s.link) + "}"@
        + annotation_part(s.annotation) + "}"@
}

/// A rich-text piece's JSON names its style and no other: a bold, italic,
/// code or strikethrough piece is the plain piece's JSON with
/// `"annotations":{"<style>":true}` added as its last member, and a plain
/// piece's JSON ends without any such member. So two pieces with the same
/// text and link give the same JSON only when their styles are the same.
pub proof fn lemma_piece_names_its_style(s: SegmentView, t: SegmentView)
    ensures
        ({
            let j = segment_json(s);
            let plain = segment_json(SegmentView { annotation: Annotation::Plain, ..s });
            &&& s.annotation == Annotation::Plain ==> !ends_with(j, "true}}"@)
            &&& s.annotation == Annotation::Bold ==> j == plain.drop_last() + ",\"annotations\":{\"bold\":true}}"@
            &&& s.annotation == Annotation::Italic ==> j == plain.drop_last()
                + ",\"annotations\":{\"italic\":true}}"@
            &&& s.annotation == Annotation::Code ==> j == plain.drop_last() + ",\"annotations\":{\"code\":true}}"@
            &&& s.annotation == Annotation::Strikethrough ==> j == plain.drop_last()
                + ",\"annotations\":{\"strikethrough\":true}}"@
        }),
        s.content == t.content && s.link == t.link && segment_json(s) == segment_json(t) ==> s.annotation
            == t.annotation,
{
    reveal_strlit(",\"annotations\":{\"bold\":true}");
    reveal_strlit(",\"annotations\":{\"italic\":true}");
    reveal_strlit(",\"annotations\":{\"code\":true}");
    reveal_strlit(",\"annotations\":{\"strikethrough\":true}");
    reveal_strlit(",\"annotations\":{\"bold\":true}}");
    reveal_strlit(",\"annotations\":{\"italic\":true}}");
    reveal_strlit(",\"annotations\":{\"code\":true}}");
    reveal_strlit(",\"annotations\":{\"strikethrough\":true}}");
    reveal_strlit("true}}");
    reveal_strlit("}");
    let head = "{\"type\":\"text\",\"text\":{\"content\":"@ + json_str(s.content) + link_part(s.link) + "}"@;
    let plain = segment_json(SegmentView { annotation: Annotation::Plain, ..s });
    assert(plain =~= head + "}"@);
    assert(plain.drop_last() =~= head);
    assert(segment_json(s) =~= head + annotation_part(s.annotation) + "}"@);
    if s.annotation == Annotation::Plain {
        reveal_strlit("{\"type\":\"text\",\"text\":{\"content\":");
        reveal_strlit("}}");
        let j = segment_json(s);
        let body = "{\"type\":\"text\",\"text\":{\"content\":"@ + json_str(s.content) + link_part(s.link);
        assert(j =~= body + "}}"@);
        match s.link {
            Some(u) => {
                assert(link_part(s.link) =~= (",\"link\":{\"url\":"@ + json_str(u)) + "}"@);
            },
            None => {
                assert(body =~= ("{\"type\":\"text\",\"text\":{\"content\":"@ + seq!['"'] + escape_str(
                    s.content,
                )) + seq!['"']);
            },
        }
        assert(j[j.len() - 3] == body.last());
        assert(j.skip(j.len() - 6)[3] == j[j.len() - 3]);
    }
    if s.content == t.content && s.link == t.link && segment_json(s) == segment_json(t) {
        assert(segment_json(t) =~= head + annotation_part(t.annotation) + "}"@);
        let a = annotation_part(s.annotation);
        let b = annotation_part(t.annotation);
        assert(a =~= segment_json(s).subrange(head.len() as int, segment_json(s).len() - 1));
        assert(b =~= segment_json(t).subrange(head.len() as int, segment_json(t).len() - 1));
        assert(a == b);
        assert(a.len() == b.len() && (a.len() > 17 ==> a[17] == b[17]));
    }
}

pub open spec fn rich_json(segs: Seq<SegmentView>) -> Seq<char> {
    json_list(segs.map_values(|s: SegmentView| segment_json(s)))
}

fn write_segment(out: &mut String, s: &Segment)
    ensures
        final(out)@ == old(out)@ + segment_json(s@),
{
    push_str(out, "{\"type\":\"text\",\"text\":{\"content\":");
    write_str(out, s.content.as_str());
    match &s.link {
        Some(u) => {
            push_str(out, ",\"link\":{\"url\":");
            write_str(out, u.as_str());
            push_str(out, "}");
        },
        None => {},
    }
    push_str(out, "}");
    match s.annotation {
        Annotation::Plain => {},
        Annotation::Bold => push_str(out, ",\"annotations\":{\"bold\":true}"),
        Annotation::Italic => push_str(out, ",\"annotations\":{\"italic\":true}"),
        Annotation::Code => push_str(out, ",\"annotations\":{\"code\":true}"),
        Annotation::Strikethrough => push_str(out, ",\"annotations\":{\"strikethrough\":true}"),
    }
    push_str(out, "}");
    assert(out@ =~= old(out)@ + segment_json(s@));
}

proof fn lemma_commas_push(items: Seq<Seq<char>>, x: Seq<char>)
    ensures
        commas(items.push(x)) == if items.len() == 0 {
            x
        } else {
            commas(items) + seq![','] + x
        },
{
    assert(items.push(x).drop_last() =~= items);
    if items.len() == 0 {
        assert(items.push(x)[0] == x);
    }
}

fn write_rich(out: &mut String, segs: &Vec<Segment>)
    ensures
        final(out)@ == old(out)@ + rich_json(segs_view(segs@)),
{
    let ghost items = segs_view(segs@).map_values(|s: SegmentView| segment_json(s));
    push_char(out, '[');
    let ghost start = out@;
    let mut i: usize = 0;
    while i < segs.len()
        invariant
            items == segs_view(segs@).map_values(|s: SegmentView| segment_json(s)),
            0 <= i <= segs@.len(),
            out@ == start + commas(items.take(i as int)),
        decreases segs@.len() - i,
    {
        if i > 0 {
            push_char(out, ',');
        }
        write_segment(out, &segs[i]);
        proof {
            assert(items.take(i + 1) =~= items.take(i as int).push(items[i as int]));
            assert(items[i as int] == segment_json(segs@[i as int]@));
            lemma_commas_push(items.take(i as int), items[i as int]);
        }
        i += 1;
    }
    push_char(out, ']');
    assert(items.take(i as int) =~= items);
    assert(out@ =~= old(out)@ + rich_json(segs_view(segs@)));
}

// ───────────────────────── blocks ─────────────────────────

/// The Notion name of a block type.
pub open spec fn kind_name(k: TextKind) -> Seq<char> {
    match k {
        TextKind::Heading1 => "heading_1"@,
        TextKind::Heading2 => "heading_2"@,
        TextKind::Heading3 => "heading_3"@,
        TextKind::BulletedListItem => "bulleted_list_item"@,
        TextKind::NumberedListItem => "numbered_list_item"@,
        TextKind::ToDo { .. } => "to_do"@,
        TextKind::Quote => "quote"@,
        TextKind::Paragraph => "paragraph"@,
    }
}

/// The Notion name of a block type.
pub fn kind_str(k: TextKind) -> (r: &'static str)
    ensures
        r@ == kind_name(k),
{
    match k {
        TextKind::Heading1 => "heading_1",
        TextKind::Heading2 => "heading_2",
        TextKind::Heading3 => "heading_3",
        TextKind::BulletedListItem => "bulleted_list_item",
        TextKind::NumberedListItem => "numbered_list_item",
        TextKind::ToDo { .. } => "to_do",
        TextKind::Quote => "quote",
        TextKind::Paragraph => "paragraph",
    }
}

pub open spec fn checked_part(k: TextKind) -> Seq<char> {
    match k {
        TextKind::ToDo { checked } => if checked {
            ",\"checked\":true"@
        } else {
            ",\"checked\":false"@
        },
        _ => seq![],
    }
}

/// The start of a block that carries rich text, up to its nested items.
pub open spec fn block_head(k: TextKind, rt: Seq<SegmentView>) -> Seq<char> {
    "{\"object\":\"block\",\"type\":\""@ + kind_name(k) + "\",\""@ + kind_name(k) + "\":{\"rich_text\":"@
        + rich_json(rt) + checked_part(k)
}

/// A block that carries rich text, with any nested items.
pub open spec fn text_block_json(k: TextKind, rt: Seq<SegmentView>, children: Seq<ListItemView>) -> Seq<char> {
    block_head(k, rt) + children_part(children) + "}}"@
}

/// A nested list item.
pub open spec fn item_json(c: ListItemView) -> Seq<char> {
    block_head(c.kind, c.rich_text) + "}}"@
}

pub open spec fn children_part(children: Seq<ListItemView>) -> Seq<char> {
    if children.len() == 0 {
        seq![]
    } else {
        ",\"children\":"@ + json_list(children.map_values(|c: ListItemView| item_json(c)))
    }
}

/// A Notion block object.
pub open spec fn block_json(b: BlockView) -> Seq<char> {
    match b {
        BlockView::Text { kind, rich_text, children } => text_block_json(kind, rich_text, children),
        BlockView::Code { content, language } => "{\"object\":\"block\",\"type\":\"code\",\"code\":{\"rich_text\":[{\"type\":\"text\",\"text\":{\"content\":"@
            + json_str(content) + "}}],\"language\":"@ + json_str(language) + "}}"@,
        BlockView::Divider => "{\"object\":\"block\",\"type\":\"divider\",\"divider\":{}}"@,
    }
}

/// A JSON array of blocks.
pub open spec fn blocks_json(bs: Seq<BlockView>) -> Seq<char> {
    json_list(bs.map_values(|b: BlockView| block_json(b)))
}

fn write_text_block_head(out: &mut String, k: TextKind, rt: &Vec<Segment>)
    ensures
        final(out)@ == old(out)@ + block_head(k, segs_view(rt@)),
{
    push_str(out, "{\"object\":\"block\",\"type\":\"");
    push_str(out, kind_str(k));
    push_str(out, "\",\"");
    push_str(out, kind_str(k));
    push_str(out, "\":{\"rich_text\":");
    write_rich(out, rt);
    match k {
        TextKind::ToDo { checked } => if checked {
            push_str(out, ",\"checked\":true");
        } else {
            push_str(out, ",\"checked\":false");
        },
        _ => {},
    }
    assert(out@ =~= old(out)@ + block_head(k, segs_view(rt@)));
}

fn write_item(out: &mut String, c: &ListItem)
    ensures
        final(out)@ == old(out)@ + item_json(c@),
{
    write_text_block_head(out, c.kind, &c.rich_text);
    push_str(out, "}}");
    assert(out@ =~= old(out)@ + item_json(c@));
}

fn write_children(out: &mut String, children: &Vec<ListItem>)
    ensures
        final(out)@ == old(out)@ + children_part(items_view(children@)),
{
    if children.len() == 0 {
        assert(out@ =~= old(out)@ + children_part(items_view(children@)));
        return;
    }
    let ghost items = items_view(children@).map_values(|c: ListItemView| item_json(c));
    push_str(out, ",\"children\":");
    push_char(out, '[');
    let ghost start = out@;
    let mut i: usize = 0;
    while i < children.len()
        invariant
            items == items_view(children@).map_values(|c: ListItemView| item_json(c)),
            0 <= i <= children@.len(),
            out@ == start + commas(items.take(i as int)),
        decreases children@.len() - i,
    {
        if i > 0 {
            push_char(out, ',');
        }
        write_item(out, &children[i]);
        proof {
            assert(items.take(i + 1) =~= items.take(i as int).push(items[i as int]));
            assert(items[i as int] == item_json(children@[i as int]@));
            lemma_commas_push(items.take(i as int), items[i as int]);
        }
        i += 1;
    }
    push_char(out, ']');
    assert(items.take(i as int) =~= items);
    assert(out@ =~= old(out)@ + children_part(items_view(children@)));
}

/// Appends one block as JSON.
pub fn write_block(out: &mut String, b: &Block)
    ensures
        final(out)@ == old(out)@ + block_json(b@),
{
    match b {
        Block::Text { kind, rich_text, children } => {
            write_text_block_head(out, *kind, rich_text);
            write_children(out, children);
            push_str(out, "}}");
        },
        Block::Code { content, language } => {
            push_str(
                out,
                "{\"object\":\"block\",\"type\":\"code\",\"code\":{\"rich_text\":[{\"type\":\"text\",\"text\":{\"content\":",
            );
            write_str(out, content.as_str());
            push_str(out, "}}],\"language\":");
            write_str(out, language.as_str());
            push_str(out, "}}");
        },
        Block::Divider => {
            push_str(out, "{\"object\":\"block\",\"type\":\"divider\",\"divider\":{}}");
        },
    }
    assert(out@ =~= old(out)@ + block_json(b@));
}

/// Appends the blocks `bs[lo..hi]` as a JSON array.
pub fn write_blocks(out: &mut String, bs: &Vec<Block>, lo: usize, hi: usize)
    requires
        lo <= hi <= bs@.len(),
    ensures
        final(out)@ == old(out)@ + blocks_json(blocks_view(bs@.subrange(lo as int, hi as int))),
{
    let ghost sub = blocks_view(bs@.subrange(lo as int, hi as int));
    let ghost items = sub.map_values(|b: BlockView| block_json(b));
    push_char(out, '[');
    let ghost start = out@;
    let mut i: usize = lo;
    while i < hi
        invariant
            lo <= i <= hi <= bs@.len(),
            sub == blocks_view(bs@.subrange(lo as int, hi as int)),
            items == sub.map_values(|b: BlockView| block_json(b)),
            out@ == start + commas(items.take(i - lo)),
        decreases hi - i,
    {
        if i > lo {
            push_char(out, ',');
        }
        write_block(out, &bs[i]);
        proof {
            let k = i - lo;
            assert(items.take(k + 1) =~= items.take(k as int).push(items[k as int]));
            assert(items[k as int] == block_json(bs@[i as int]@));
            lemma_commas_push(items.take(k as int), items[k as int]);
        }
        i += 1;
    }
    push_char(out, ']');
    assert(items.take(hi - lo) =~= items);
    assert(out@ =~= old(out)@ + blocks_json(sub));
}

/// The JSON array of blocks, as sent to Notion.
pub fn blocks_to_json(bs: &Vec<Block>) -> (r: String)
    ensures
        r@ == blocks_json(blocks_view(bs@)),
{
    let mut out = String::new();
    write_blocks(&mut out, bs, 0, bs.len());
    assert(bs@.subrange(0, bs@.len() as int) =~= bs@);
    assert(out@ =~= blocks_json(blocks_view(bs@)));
    out
}

} // verus!
