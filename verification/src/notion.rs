//! Notes with YAML-like frontmatter, and the Notion side of a push.
use crate::text::{
    chars_of, find, find_in, line_ranges, lines, pieces, push_char, push_str, ranges_within, split,
    split_ranges, starts_with, starts_with_str, string_of, trim, trim_bounds, trim_char, trim_char_bounds,
};
use crate::json::{blocks_json, commas, json_list, json_str, write_blocks, write_str};
use crate::markdown::{blocks_view, Block, BlockView, MAX_TEXT_LEN};
use crate::text::{lowercase, str_eq, to_lowercase, truncate, truncated};
use vstd::prelude::*;

verus! {

// ───────────────────────── frontmatter ─────────────────────────

/// The fields of a note's frontmatter.
#[derive(Debug, PartialEq, Eq)]
pub struct Frontmatter {
    pub title: Option<String>,
    pub date: Option<String>,
    pub status: Option<String>,
    pub tags: Vec<String>,
    pub notion_id: Option<String>,
}

pub struct FrontmatterView {
    pub title: Option<Seq<char>>,
    pub date: Option<Seq<char>>,
    pub status: Option<Seq<char>>,
    pub tags: Seq<Seq<char>>,
    pub notion_id: Option<Seq<char>>,
}

pub open spec fn opt_str(o: Option<String>) -> Option<Seq<char>> {
    match o {
        Some(s) => Some(s@),
        None => None,
    }
}

pub open spec fn strs_view(v: Seq<String>) -> Seq<Seq<char>> {
    v.map_values(|s: String| s@)
}

impl View for Frontmatter {
    type V = FrontmatterView;

    open spec fn view(&self) -> FrontmatterView {
        FrontmatterView {
            title: opt_str(self.title),
            date: opt_str(self.date),
            status: opt_str(self.status),
            tags: strs_view(self.tags@),
            notion_id: opt_str(self.notion_id),
        }
    }
}

/// Frontmatter with no field set.
pub open spec fn fm_empty() -> FrontmatterView {
    FrontmatterView { title: None, date: None, status: None, tags: seq![], notion_id: None }
}

impl Default for Frontmatter {
    fn default() -> (r: Frontmatter)
        ensures
            r@ == fm_empty(),
    {
        let r = Frontmatter { title: None, date: None, status: None, tags: Vec::new(), notion_id: None };
        assert(strs_view(r.tags@) =~= Seq::<Seq<char>>::empty());
        r
    }
}

pub open spec fn after(l: Seq<char>, p: Seq<char>) -> Seq<char> {
    l.skip(p.len() as int)
}

/// A value with surrounding whitespace, then quotes, then apostrophes
/// removed.
pub open spec fn unquote(v: Seq<char>) -> Seq<char> {
    trim_char(trim_char(trim(v), '"'), '\'')
}

/// The tags in the text between `[` and `]`: the comma-separated pieces,
/// unquoted, leaving out empty ones.
pub open spec fn tag_list(parts: Seq<Seq<char>>) -> Seq<Seq<char>>
    decreases parts.len(),
{
    if parts.len() == 0 {
        seq![]
    } else {
        let prev = tag_list(parts.drop_last());
        let t = unquote(parts.last());
        if t.len() > 0 {
            prev.push(t)
        } else {
            prev
        }
    }
}

/// The effect of one frontmatter line: `title:`, `date:`, `status:`,
/// `tags: [..]` and `notion_id:` set their field; other lines are ignored.
pub open spec fn apply_line(fm: FrontmatterView, line: Seq<char>) -> FrontmatterView {
    if starts_with(line, "title:"@) {
        FrontmatterView { title: Some(unquote(after(line, "title:"@))), ..fm }
    } else if starts_with(line, "date:"@) {
        FrontmatterView { date: Some(trim(after(line, "date:"@))), ..fm }
    } else if starts_with(line, "status:"@) {
        FrontmatterView { status: Some(trim(after(line, "status:"@))), ..fm }
    } else if starts_with(line, "tags:"@) {
        let v = trim(after(line, "tags:"@));
        if v.len() > 0 && v[0] == '[' && v.last() == ']' {
            FrontmatterView { tags: tag_list(split(v.subrange(1, v.len() - 1), ',')), ..fm }
        } else {
            fm
        }
    } else if starts_with(line, "notion_id:"@) {
        FrontmatterView { notion_id: Some(trim(after(line, "notion_id:"@))), ..fm }
    } else {
        fm
    }
}

/// The frontmatter that a sequence of lines gives, the later line winning.
pub open spec fn apply_lines(ls: Seq<Seq<char>>) -> FrontmatterView
    decreases ls.len(),
{
    if ls.len() == 0 {
        fm_empty()
    } else {
        apply_line(apply_lines(ls.drop_last()), ls.last())
    }
}

/// The text after the opening `---` line, if the note opens with one.
pub open spec fn after_open_marker(content: Seq<char>) -> Option<Seq<char>> {
    if starts_with(content, "---\r\n"@) {
        Some(after(content, "---\r\n"@))
    } else if starts_with(content, "---\n"@) {
        Some(after(content, "---\n"@))
    } else {
        None
    }
}

/// Where the closing `---` line starts in `a`, and how long it is.
pub open spec fn close_marker(a: Seq<char>) -> Option<(int, int)> {
    match find(a, "\n---\r\n"@) {
        Some(p) => Some((p, "\n---\r\n"@.len() as int)),
        None => match find(a, "\n---\n"@) {
            Some(p) => Some((p, "\n---\n"@.len() as int)),
            None => None,
        },
    }
}

/// A note split into its frontmatter and its body. A note that does not
/// open with a `---` line, or whose block is never closed by one, has no
/// frontmatter and is all body.
pub open spec fn note_parts(content: Seq<char>) -> (FrontmatterView, Seq<char>) {
    match after_open_marker(content) {
        None => (fm_empty(), content),
        Some(a) => match close_marker(a) {
            None => (fm_empty(), content),
            Some((p, n)) => (apply_lines(lines(a.take(p))), a.skip(p + n)),
        },
    }
}

/// The unquoted value `v[lo..hi]`, as bounds.
fn unquote_bounds(v: &Vec<char>, lo: usize, hi: usize) -> (r: (usize, usize))
    requires
        lo <= hi <= v@.len(),
    ensures
        lo <= r.0 <= r.1 <= hi,
        v@.subrange(r.0 as int, r.1 as int) == unquote(v@.subrange(lo as int, hi as int)),
{
    let (a, b) = trim_bounds(v, lo, hi);
    let (c, d) = trim_char_bounds(v, a, b, '"');
    trim_char_bounds(v, c, d, '\'')
}

/// The tags between `[` and `]`, as in `tag_list`.
fn parse_tags(v: &Vec<char>, lo: usize, hi: usize) -> (r: Vec<String>)
    requires
        lo <= hi <= v@.len(),
    ensures
        strs_view(r@) == tag_list(split(v@.subrange(lo as int, hi as int), ',')),
{
    let parts = split_ranges(v, lo, hi, ',');
    let ghost ps = pieces(v@, parts@);
    let mut r: Vec<String> = Vec::new();
    let mut i: usize = 0;
    proof {
        assert(ps.take(0) =~= Seq::<Seq<char>>::empty());
        assert(strs_view(r@) =~= Seq::<Seq<char>>::empty());
    }
    while i < parts.len()
        invariant
            lo <= hi <= v@.len(),
            ranges_within(parts@, lo as int, hi as int),
            ps == pieces(v@, parts@),
            0 <= i <= parts@.len(),
            strs_view(r@) == tag_list(ps.take(i as int)),
        decreases parts@.len() - i,
    {
        let (a, b) = parts[i];
        let (c, d) = unquote_bounds(v, a, b);
        let ghost before = r@;
        proof {
            assert(ps.take(i + 1).drop_last() =~= ps.take(i as int));
            assert(ps.take(i + 1).last() == v@.subrange(a as int, b as int));
        }
        if c < d {
            r.push(string_of(v, c, d));
            assert(strs_view(r@) =~= strs_view(before).push(v@.subrange(c as int, d as int)));
        }
        i += 1;
    }
    proof {
        assert(ps.take(i as int) =~= ps);
    }
    r
}

/// Applies the frontmatter line `v[lo..hi]` to `fm`.
fn apply_line_exec(fm: &mut Frontmatter, v: &Vec<char>, lo: usize, hi: usize)
    requires
        lo <= hi <= v@.len(),
    ensures
        final(fm)@ == apply_line(old(fm)@, v@.subrange(lo as int, hi as int)),
{
    let ghost l = v@.subrange(lo as int, hi as int);
    if starts_with_str(v, lo, hi, "title:") {
        let n = chars_of("title:").len();
        assert(after(l, "title:"@) =~= v@.subrange(lo + n, hi as int));
        let (a, b) = unquote_bounds(v, lo + n, hi);
        fm.title = Some(string_of(v, a, b));
    } else if starts_with_str(v, lo, hi, "date:") {
        let n = chars_of("date:").len();
        assert(after(l, "date:"@) =~= v@.subrange(lo + n, hi as int));
        let (a, b) = trim_bounds(v, lo + n, hi);
        fm.date = Some(string_of(v, a, b));
    } else if starts_with_str(v, lo, hi, "status:") {
        let n = chars_of("status:").len();
        assert(after(l, "status:"@) =~= v@.subrange(lo + n, hi as int));
        let (a, b) = trim_bounds(v, lo + n, hi);
        fm.status = Some(string_of(v, a, b));
    } else if starts_with_str(v, lo, hi, "tags:") {
        let n = chars_of("tags:").len();
        assert(after(l, "tags:"@) =~= v@.subrange(lo + n, hi as int));
        let (a, b) = trim_bounds(v, lo + n, hi);
        let ghost t = v@.subrange(a as int, b as int);
        if b > a && v[a] == '[' && v[b - 1] == ']' {
            fm.tags = parse_tags(v, a + 1, b - 1);
            assert(t.subrange(1, t.len() - 1) =~= v@.subrange(a + 1, b - 1));
        }
    } else if starts_with_str(v, lo, hi, "notion_id:") {
        let n = chars_of("notion_id:").len();
        assert(after(l, "notion_id:"@) =~= v@.subrange(lo + n, hi as int));
        let (a, b) = trim_bounds(v, lo + n, hi);
        fm.notion_id = Some(string_of(v, a, b));
    }
}

/// `parse_note`: splits a note into its frontmatter and its body. A note
/// that does not open with a `---` line, or whose block is never closed by
/// a `---` line, has default frontmatter and is all body.
pub fn parse_note(content: &str) -> (r: (Frontmatter, String))
    ensures
        r.0@ == note_parts(content@).0,
        r.1@ == note_parts(content@).1,
{
    let mut fm = Frontmatter::default();
    let v = chars_of(content);
    let len = v.len();
    proof {
        assert(v@.subrange(0, len as int) =~= content@);
    }
    let start = if starts_with_str(&v, 0, len, "---\r\n") {
        chars_of("---\r\n").len()
    } else if starts_with_str(&v, 0, len, "---\n") {
        chars_of("---\n").len()
    } else {
        return (fm, string_of(&v, 0, len));
    };
    let ghost a = v@.subrange(start as int, len as int);
    assert(after_open_marker(content@) == Some(a));
    let found = match find_in(&v, start, len, chars_of("\n---\r\n").as_slice()) {
        Some(p) => Some((p, chars_of("\n---\r\n").len())),
        None => match find_in(&v, start, len, chars_of("\n---\n").as_slice()) {
            Some(p) => Some((p, chars_of("\n---\n").len())),
            None => None,
        },
    };
    let (p, n) = match found {
        Some(x) => x,
        None => {
            return (fm, string_of(&v, 0, len));
        },
    };
    proof {
        crate::text::lemma_find(a, "\n---\r\n"@);
        crate::text::lemma_find(a, "\n---\n"@);
    }
    let yaml_end = start + p;
    let ls = line_ranges(&v, start, yaml_end);
    let ghost lv = pieces(v@, ls@);
    proof {
        assert(a.take(p as int) =~= v@.subrange(start as int, yaml_end as int));
    }
    let mut i: usize = 0;
    proof {
        assert(lv.take(0) =~= Seq::<Seq<char>>::empty());
    }
    while i < ls.len()
        invariant
            ranges_within(ls@, start as int, yaml_end as int),
            yaml_end <= len == v@.len(),
            lv == pieces(v@, ls@),
            0 <= i <= ls@.len(),
            fm@ == apply_lines(lv.take(i as int)),
        decreases ls@.len() - i,
    {
        let (lo, hi) = ls[i];
        proof {
            assert(lv.take(i + 1).drop_last() =~= lv.take(i as int));
            assert(lv.take(i + 1).last() == v@.subrange(lo as int, hi as int));
        }
        apply_line_exec(&mut fm, &v, lo, hi);
        i += 1;
    }
    proof {
        assert(lv.take(i as int) =~= lv);
        assert(a.skip(p + n) =~= v@.subrange(yaml_end + n, len as int));
    }
    (fm, string_of(&v, yaml_end + n, len))
}


/// `t` with each `"` written as `\"`.
pub open spec fn escape_quotes(t: Seq<char>) -> Seq<char>
    decreases t.len(),
{
    if t.len() == 0 {
        seq![]
    } else {
        escape_quotes(t.drop_last()) + if t.last() == '"' {
            seq!['\\', '"']
        } else {
            seq![t.last()]
        }
    }
}

/// `t` in double quotes, its own quotes escaped.
pub open spec fn quoted(t: Seq<char>) -> Seq<char> {
    seq!['"'] + escape_quotes(t) + seq!['"']
}

/// The quoted tags separated by `, `.
pub open spec fn tag_items(tags: Seq<Seq<char>>) -> Seq<char>
    decreases tags.len(),
{
    if tags.len() == 0 {
        seq![]
    } else if tags.len() == 1 {
        quoted(tags[0])
    } else {
        tag_items(tags.drop_last()) + seq![',', ' '] + quoted(tags.last())
    }
}

/// The value of the `tags:` line: `[]`, or the quoted tags in brackets.
pub open spec fn tags_value(tags: Seq<Seq<char>>) -> Seq<char> {
    seq!['['] + tag_items(tags) + seq![']']
}

/// A `key value` line, when the field is set.
pub open spec fn field_line(key: Seq<char>, v: Option<Seq<char>>) -> Seq<char> {
    match v {
        Some(x) => key + x + seq!['\n'],
        None => seq![],
    }
}

/// The frontmatter block of a note: `---`, the fields that are set (the
/// title quoted, tags always), `---`, each on its own line.
pub open spec fn frontmatter_text(fm: FrontmatterView) -> Seq<char> {
    "---\n"@ + field_line("title: "@, match fm.title {
        Some(t) => Some(quoted(t)),
        None => None,
    }) + field_line("date: "@, fm.date) + field_line("status: "@, fm.status) + "tags: "@ + tags_value(fm.tags)
        + seq!['\n'] + field_line("notion_id: "@, fm.notion_id) + "---\n"@
}

/// Appends `t` in double quotes, its own quotes escaped.
fn push_quoted(s: &mut String, t: &String)
    ensures
        final(s)@ == old(s)@ + quoted(t@),
{
    let v = chars_of(t.as_str());
    push_char(s, '"');
    let ghost start = s@;
    let mut i: usize = 0;
    while i < v.len()
        invariant
            v@ == t@,
            0 <= i <= v@.len(),
            start == old(s)@.push('"'),
            s@ == start + escape_quotes(v@.take(i as int)),
        decreases v@.len() - i,
    {
        let ghost before = s@;
        if v[i] == '"' {
            push_char(s, '\\');
            push_char(s, '"');
        } else {
            push_char(s, v[i]);
        }
        proof {
            assert(v@.take(i + 1).drop_last() =~= v@.take(i as int));
            assert(v@.take(i + 1).last() == v@[i as int]);
            assert(s@ =~= start + escape_quotes(v@.take(i + 1)));
        }
        i += 1;
    }
    push_char(s, '"');
    proof {
        assert(v@.take(i as int) =~= t@);
        assert(s@ =~= old(s)@ + quoted(t@));
    }
}

/// Appends a `key value` line when the field is set.
fn push_field(s: &mut String, key: &str, v: &Option<String>)
    ensures
        final(s)@ == old(s)@ + field_line(key@, opt_str(*v)),
{
    match v {
        Some(x) => {
            push_str(s, key);
            push_str(s, x.as_str());
            push_char(s, '\n');
            assert(s@ =~= old(s)@ + field_line(key@, opt_str(*v)));
        },
        None => {
            assert(s@ =~= old(s)@ + field_line(key@, opt_str(*v)));
        },
    }
}

/// `serialize_frontmatter`: the frontmatter block of a note, the title and
/// tags in double quotes with their own quotes escaped.
pub fn serialize_frontmatter(fm: &Frontmatter) -> (r: String)
    ensures
        r@ == frontmatter_text(fm@),
{
    let mut s = String::new();
    push_str(&mut s, "---\n");
    match &fm.title {
        Some(t) => {
            push_str(&mut s, "title: ");
            push_quoted(&mut s, t);
            push_char(&mut s, '\n');
        },
        None => {},
    }
    let ghost after_title = s@;
    assert(after_title =~= "---\n"@ + field_line("title: "@, match fm@.title {
        Some(t) => Some(quoted(t)),
        None => None,
    }));
    push_field(&mut s, "date: ", &fm.date);
    push_field(&mut s, "status: ", &fm.status);
    push_str(&mut s, "tags: ");
    let ghost before_tags = s@;
    push_char(&mut s, '[');
    let mut i: usize = 0;
    let ghost tags = strs_view(fm.tags@);
    while i < fm.tags.len()
        invariant
            tags == strs_view(fm.tags@),
            0 <= i <= fm.tags@.len(),
            s@ == before_tags + seq!['['] + tag_items(tags.take(i as int)),
        decreases fm.tags@.len() - i,
    {
        let ghost before = s@;
        if i > 0 {
            push_char(&mut s, ',');
            push_char(&mut s, ' ');
        }
        push_quoted(&mut s, &fm.tags[i]);
        proof {
            assert(tags.take(i + 1).drop_last() =~= tags.take(i as int));
            assert(tags.take(i + 1).last() == fm.tags@[i as int]@);
            if i == 0 {
                assert(tags.take(0) =~= Seq::<Seq<char>>::empty());
                assert(s@ =~= before_tags + seq!['['] + tag_items(tags.take(1)));
            } else {
                assert(s@ =~= before_tags + seq!['['] + tag_items(tags.take(i + 1)));
            }
        }
        i += 1;
    }
    push_char(&mut s, ']');
    push_char(&mut s, '\n');
    proof {
        assert(tags.take(i as int) =~= tags);
    }
    push_field(&mut s, "notion_id: ", &fm.notion_id);
    push_str(&mut s, "---\n");
    assert(s@ =~= frontmatter_text(fm@));
    s
}


// ───────────────────────── the database ─────────────────────────

/// Most blocks that one Notion request may carry.
pub const MAX_BLOCKS_PER_REQ: usize = 100;

/// The database properties that a push fills in.
#[derive(Debug, PartialEq, Eq)]
pub struct DatabaseInfo {
    pub title_prop: String,
    pub status_prop: Option<String>,
    pub tags_prop: Option<String>,
}

pub struct DatabaseInfoView {
    pub title_prop: Seq<char>,
    pub status_prop: Option<Seq<char>>,
    pub tags_prop: Option<Seq<char>>,
}

impl View for DatabaseInfo {
    type V = DatabaseInfoView;

    open spec fn view(&self) -> DatabaseInfoView {
        DatabaseInfoView {
            title_prop: self.title_prop@,
            status_prop: opt_str(self.status_prop),
            tags_prop: opt_str(self.tags_prop),
        }
    }
}

/// A property of a Notion database: its name and its type.
#[derive(Debug, PartialEq, Eq)]
pub struct Property {
    pub name: String,
    pub kind: String,
}

/// What the properties say, scanned in order, given each name lowercased:
/// the title property (`Name` if there is none), a `select` property named
/// `status` and a `multi_select` property named `tags`, in any case; a
/// later match wins.
pub open spec fn info_from(names: Seq<Seq<char>>, kinds: Seq<Seq<char>>, lowered: Seq<Seq<char>>) -> DatabaseInfoView
    decreases names.len(),
{
    if names.len() == 0 {
        DatabaseInfoView { title_prop: "Name"@, status_prop: None, tags_prop: None }
    } else {
        let n = names.len() - 1;
        let prev = info_from(names.drop_last(), kinds.drop_last(), lowered.drop_last());
        if kinds[n] == "title"@ {
            DatabaseInfoView { title_prop: names[n], ..prev }
        } else if kinds[n] == "select"@ && lowered[n] == "status"@ {
            DatabaseInfoView { status_prop: Some(names[n]), ..prev }
        } else if kinds[n] == "multi_select"@ && lowered[n] == "tags"@ {
            DatabaseInfoView { tags_prop: Some(names[n]), ..prev }
        } else {
            prev
        }
    }
}

pub open spec fn prop_names(props: Seq<Property>) -> Seq<Seq<char>> {
    props.map_values(|p: Property| p.name@)
}

pub open spec fn prop_kinds(props: Seq<Property>) -> Seq<Seq<char>> {
    props.map_values(|p: Property| p.kind@)
}

/// The database's push properties, from its properties and their names
/// lowercased.
pub fn select_properties(props: &Vec<Property>, lowered: &Vec<String>) -> (r: DatabaseInfo)
    requires
        props@.len() == lowered@.len(),
    ensures
        r@ == info_from(prop_names(props@), prop_kinds(props@), strs_view(lowered@)),
{
    let ghost names = prop_names(props@);
    let ghost kinds = prop_kinds(props@);
    let ghost lows = strs_view(lowered@);
    let mut title_prop = crate::text::string_from("Name");
    let mut status_prop: Option<String> = None;
    let mut tags_prop: Option<String> = None;
    let mut i: usize = 0;
    proof {
        assert(names.take(0) =~= Seq::<Seq<char>>::empty());
        assert(kinds.take(0) =~= Seq::<Seq<char>>::empty());
        assert(lows.take(0) =~= Seq::<Seq<char>>::empty());
    }
    while i < props.len()
        invariant
            props@.len() == lowered@.len(),
            names == prop_names(props@),
            kinds == prop_kinds(props@),
            lows == strs_view(lowered@),
            0 <= i <= props@.len(),
            (DatabaseInfoView { title_prop: title_prop@, status_prop: opt_str(status_prop), tags_prop: opt_str(tags_prop) })
                == info_from(names.take(i as int), kinds.take(i as int), lows.take(i as int)),
        decreases props@.len() - i,
    {
        let p = &props[i];
        proof {
            assert(names.take(i + 1).drop_last() =~= names.take(i as int));
            assert(kinds.take(i + 1).drop_last() =~= kinds.take(i as int));
            assert(lows.take(i + 1).drop_last() =~= lows.take(i as int));
            assert(names.take(i + 1)[i as int] == p.name@);
            assert(kinds.take(i + 1)[i as int] == p.kind@);
            assert(lows.take(i + 1)[i as int] == lowered@[i as int]@);
        }
        if str_eq(p.kind.as_str(), "title") {
            title_prop = crate::text::copy_string(&p.name);
        } else if str_eq(p.kind.as_str(), "select") && str_eq(lowered[i].as_str(), "status") {
            status_prop = Some(crate::text::copy_string(&p.name));
        } else if str_eq(p.kind.as_str(), "multi_select") && str_eq(lowered[i].as_str(), "tags") {
            tags_prop = Some(crate::text::copy_string(&p.name));
        }
        i += 1;
    }
    proof {
        assert(names.take(i as int) =~= names);
        assert(kinds.take(i as int) =~= kinds);
        assert(lows.take(i as int) =~= lows);
    }
    DatabaseInfo { title_prop, status_prop, tags_prop }
}

/// The names of the properties, lowercased.
pub open spec fn lowered_names(props: Seq<Property>) -> Seq<Seq<char>> {
    props.map_values(|p: Property| lowercase(p.name@))
}

/// The database's push properties: the title property (`Name` if there is
/// none), a `select` property named `status` and a `multi_select` property
/// named `tags`, names compared without regard to case.
pub fn database_info(props: &Vec<Property>) -> (r: DatabaseInfo)
    ensures
        r@ == info_from(prop_names(props@), prop_kinds(props@), lowered_names(props@)),
{
    let mut lowered: Vec<String> = Vec::new();
    let mut i: usize = 0;
    while i < props.len()
        invariant
            0 <= i <= props@.len(),
            strs_view(lowered@) == lowered_names(props@).take(i as int),
        decreases props@.len() - i,
    {
        let l = to_lowercase(props[i].name.as_str());
        let ghost before = lowered@;
        lowered.push(l);
        assert(strs_view(lowered@) =~= strs_view(before).push(l@));
        assert(lowered_names(props@).take(i + 1) =~= lowered_names(props@).take(i as int).push(
            lowercase(props@[i as int].name@),
        ));
        i += 1;
    }
    assert(lowered_names(props@).take(i as int) =~= lowered_names(props@));
    select_properties(props, &lowered)
}

/// A property that names the database's title.
pub open spec fn is_title_prop(q: Property) -> bool {
    q.kind@ == "title"@
}

/// A `select` property named `status`, in any case.
pub open spec fn is_status_prop(q: Property) -> bool {
    q.kind@ == "select"@ && lowercase(q.name@) == "status"@
}

/// A `multi_select` property named `tags`, in any case.
pub open spec fn is_tags_prop(q: Property) -> bool {
    q.kind@ == "multi_select"@ && lowercase(q.name@) == "tags"@
}

proof fn lemma_info_last(p: Seq<Property>)
    requires
        p.len() > 0,
    ensures
        prop_names(p.drop_last()) == prop_names(p).drop_last(),
        prop_kinds(p.drop_last()) == prop_kinds(p).drop_last(),
        lowered_names(p.drop_last()) == lowered_names(p).drop_last(),
        prop_names(p)[p.len() - 1] == p.last().name@,
        prop_kinds(p)[p.len() - 1] == p.last().kind@,
        lowered_names(p)[p.len() - 1] == lowercase(p.last().name@),
        prop_names(p).len() == p.len(),
        "title"@ != "select"@,
        "title"@ != "multi_select"@,
        "select"@ != "multi_select"@,
{
    assert(prop_names(p.drop_last()) =~= prop_names(p).drop_last());
    assert(prop_kinds(p.drop_last()) =~= prop_kinds(p).drop_last());
    assert(lowered_names(p.drop_last()) =~= lowered_names(p).drop_last());
    reveal_strlit("title");
    reveal_strlit("select");
    reveal_strlit("multi_select");
    assert("title"@.len() != "select"@.len());
    assert("title"@.len() != "multi_select"@.len());
    assert("select"@.len() != "multi_select"@.len());
}

proof fn lemma_title_at(p: Seq<Property>, i: int)
    requires
        0 <= i < p.len(),
        is_title_prop(p[i]),
        forall|j: int| i < j < p.len() ==> !is_title_prop(#[trigger] p[j]),
    ensures
        info_from(prop_names(p), prop_kinds(p), lowered_names(p)).title_prop == p[i].name@,
    decreases p.len(),
{
    lemma_info_last(p);
    if i < p.len() - 1 {
        lemma_title_at(p.drop_last(), i);
    }
}

proof fn lemma_no_title(p: Seq<Property>)
    requires
        forall|j: int| 0 <= j < p.len() ==> !is_title_prop(#[trigger] p[j]),
    ensures
        info_from(prop_names(p), prop_kinds(p), lowered_names(p)).title_prop == "Name"@,
    decreases p.len(),
{
    if p.len() > 0 {
        lemma_info_last(p);
        lemma_no_title(p.drop_last());
    }
}

proof fn lemma_status_at(p: Seq<Property>, i: int)
    requires
        0 <= i < p.len(),
        is_status_prop(p[i]),
        forall|j: int| i < j < p.len() ==> !is_status_prop(#[trigger] p[j]),
    ensures
        info_from(prop_names(p), prop_kinds(p), lowered_names(p)).status_prop == Some(p[i].name@),
    decreases p.len(),
{
    lemma_info_last(p);
    if i < p.len() - 1 {
        lemma_status_at(p.drop_last(), i);
    }
}

proof fn lemma_no_status(p: Seq<Property>)
    requires
        forall|j: int| 0 <= j < p.len() ==> !is_status_prop(#[trigger] p[j]),
    ensures
        info_from(prop_names(p), prop_kinds(p), lowered_names(p)).status_prop is None,
    decreases p.len(),
{
    if p.len() > 0 {
        lemma_info_last(p);
        lemma_no_status(p.drop_last());
    }
}

proof fn lemma_tags_at(p: Seq<Property>, i: int)
    requires
        0 <= i < p.len(),
        is_tags_prop(p[i]),
        forall|j: int| i < j < p.len() ==> !is_tags_prop(#[trigger] p[j]),
    ensures
        info_from(prop_names(p), prop_kinds(p), lowered_names(p)).tags_prop == Some(p[i].name@),
    decreases p.len(),
{
    lemma_info_last(p);
    if i < p.len() - 1 {
        lemma_tags_at(p.drop_last(), i);
    }
}

proof fn lemma_no_tags(p: Seq<Property>)
    requires
        forall|j: int| 0 <= j < p.len() ==> !is_tags_prop(#[trigger] p[j]),
    ensures
        info_from(prop_names(p), prop_kinds(p), lowered_names(p)).tags_prop is None,
    decreases p.len(),
{
    if p.len() > 0 {
        lemma_info_last(p);
        lemma_no_tags(p.drop_last());
    }
}

/// What a database's properties give a push, as `database_info` finds it:
/// the title is the name of the last `title` property, or `Name` when
/// there is none; the status property is the last `select` property whose
/// name lowercases to `status`, and none when there is no such property;
/// the tags property is the last `multi_select` property whose name
/// lowercases to `tags`, and none when there is no such property. A name
/// is matched by its lowercase form alone, so `tags`, `Tags` and `TAGS`
/// are all found.
pub proof fn lemma_database_properties(p: Seq<Property>)
    ensures
        forall|i: int|
            0 <= i < p.len() && is_title_prop(#[trigger] p[i]) && (forall|j: int|
                i < j < p.len() ==> !is_title_prop(#[trigger] p[j])) ==> info_from(
                prop_names(p),
                prop_kinds(p),
                lowered_names(p),
            ).title_prop == p[i].name@,
        (forall|j: int| 0 <= j < p.len() ==> !is_title_prop(#[trigger] p[j])) ==> info_from(
            prop_names(p),
            prop_kinds(p),
            lowered_names(p),
        ).title_prop == "Name"@,
        forall|i: int|
            0 <= i < p.len() && is_status_prop(#[trigger] p[i]) && (forall|j: int|
                i < j < p.len() ==> !is_status_prop(#[trigger] p[j])) ==> info_from(
                prop_names(p),
                prop_kinds(p),
                lowered_names(p),
            ).status_prop == Some(p[i].name@),
        (forall|j: int| 0 <= j < p.len() ==> !is_status_prop(#[trigger] p[j])) ==> info_from(
            prop_names(p),
            prop_kinds(p),
            lowered_names(p),
        ).status_prop is None,
        forall|i: int|
            0 <= i < p.len() && is_tags_prop(#[trigger] p[i]) && (forall|j: int|
                i < j < p.len() ==> !is_tags_prop(#[trigger] p[j])) ==> info_from(
                prop_names(p),
                prop_kinds(p),
                lowered_names(p),
            ).tags_prop == Some(p[i].name@),
        (forall|j: int| 0 <= j < p.len() ==> !is_tags_prop(#[trigger] p[j])) ==> info_from(
            prop_names(p),
            prop_kinds(p),
            lowered_names(p),
        ).tags_prop is None,
{
    assert forall|i: int|
        0 <= i < p.len() && is_title_prop(#[trigger] p[i]) && (forall|j: int|
            i < j < p.len() ==> !is_title_prop(#[trigger] p[j])) implies info_from(
        prop_names(p),
        prop_kinds(p),
        lowered_names(p),
    ).title_prop == p[i].name@ by {
        lemma_title_at(p, i);
    }
    assert forall|i: int|
        0 <= i < p.len() && is_status_prop(#[trigger] p[i]) && (forall|j: int|
            i < j < p.len() ==> !is_status_prop(#[trigger] p[j])) implies info_from(
        prop_names(p),
        prop_kinds(p),
        lowered_names(p),
    ).status_prop == Some(p[i].name@) by {
        lemma_status_at(p, i);
    }
    assert forall|i: int|
        0 <= i < p.len() && is_tags_prop(#[trigger] p[i]) && (forall|j: int|
            i < j < p.len() ==> !is_tags_prop(#[trigger] p[j])) implies info_from(
        prop_names(p),
        prop_kinds(p),
        lowered_names(p),
    ).tags_prop == Some(p[i].name@) by {
        lemma_tags_at(p, i);
    }
    if forall|j: int| 0 <= j < p.len() ==> !is_title_prop(#[trigger] p[j]) {
        lemma_no_title(p);
    }
    if forall|j: int| 0 <= j < p.len() ==> !is_status_prop(#[trigger] p[j]) {
        lemma_no_status(p);
    }
    if forall|j: int| 0 <= j < p.len() ==> !is_tags_prop(#[trigger] p[j]) {
        lemma_no_tags(p);
    }
}

// ───────────────────────── responses ─────────────────────────

/// Why a Notion request did not give what was asked.
#[derive(Debug, PartialEq, Eq)]
pub enum NotionError {
    InvalidToken,
    NoAccess { message: String },
    NotFound { message: String },
    Api { status: String, message: String },
    NoProperties,
    MissingPageId,
}

/// `check_status`: a response status in the 2xx range is a success;
/// otherwise the error for it, carrying the response's message (or
/// `unknown error`).
pub open spec fn status_outcome(code: u16, status: Seq<char>, message: Option<Seq<char>>) -> Result<(), NotionErrorView> {
    let msg = match message {
        Some(m) => m,
        None => "unknown error"@,
    };
    if 200 <= code <= 299 {
        Ok(())
    } else if code == 401 {
        Err(NotionErrorView::InvalidToken)
    } else if code == 403 {
        Err(NotionErrorView::NoAccess { message: msg })
    } else if code == 404 {
        Err(NotionErrorView::NotFound { message: msg })
    } else {
        Err(NotionErrorView::Api { status, message: msg })
    }
}

pub enum NotionErrorView {
    InvalidToken,
    NoAccess { message: Seq<char> },
    NotFound { message: Seq<char> },
    Api { status: Seq<char>, message: Seq<char> },
    NoProperties,
    MissingPageId,
}

impl View for NotionError {
    type V = NotionErrorView;

    open spec fn view(&self) -> NotionErrorView {
        match self {
            NotionError::InvalidToken => NotionErrorView::InvalidToken,
            NotionError::NoAccess { message } => NotionErrorView::NoAccess { message: message@ },
            NotionError::NotFound { message } => NotionErrorView::NotFound { message: message@ },
            NotionError::Api { status, message } => NotionErrorView::Api { status: status@, message: message@ },
            NotionError::NoProperties => NotionErrorView::NoProperties,
            NotionError::MissingPageId => NotionErrorView::MissingPageId,
        }
    }
}

pub open spec fn result_view(r: Result<(), NotionError>) -> Result<(), NotionErrorView> {
    match r {
        Ok(()) => Ok(()),
        Err(e) => Err(e@),
    }
}

/// `check_status`: what a response with this status code (and its text,
/// such as `500 Internal Server Error`) and message means.
pub fn check_status(code: u16, status: &str, message: Option<&str>) -> (r: Result<(), NotionError>)
    ensures
        result_view(r) == status_outcome(code, status@, match message {
            Some(m) => Some(m@),
            None => None,
        }),
{
    let msg = match message {
        Some(m) => crate::text::string_from(m),
        None => crate::text::string_from("unknown error"),
    };
    if 200 <= code && code <= 299 {
        Ok(())
    } else if code == 401 {
        Err(NotionError::InvalidToken)
    } else if code == 403 {
        Err(NotionError::NoAccess { message: msg })
    } else if code == 404 {
        Err(NotionError::NotFound { message: msg })
    } else {
        Err(NotionError::Api { status: crate::text::string_from(status), message: msg })
    }
}

/// The text of an error, as shown to the user.
pub open spec fn error_text(e: NotionErrorView) -> Seq<char> {
    match e {
        NotionErrorView::InvalidToken => "Notion token is invalid. Check notion.token in your config."@,
        NotionErrorView::NoAccess { message } => "No access: "@ + message
            + ". Share the database with your integration in Notion."@,
        NotionErrorView::NotFound { message } => "Not found (404): "@ + message + "."@,
        NotionErrorView::Api { status, message } => "Notion API error ("@ + status + "): "@ + message,
        NotionErrorView::NoProperties => "Database has no properties"@,
        NotionErrorView::MissingPageId => "Missing page ID in Notion response"@,
    }
}

impl NotionError {
    /// The text of the error, as shown to the user.
    pub fn message(&self) -> (r: String)
        ensures
            r@ == error_text(self@),
    {
        let mut s = String::new();
        match self {
            NotionError::InvalidToken => {
                push_str(&mut s, "Notion token is invalid. Check notion.token in your config.");
            },
            NotionError::NoAccess { message } => {
                push_str(&mut s, "No access: ");
                push_str(&mut s, message.as_str());
                push_str(&mut s, ". Share the database with your integration in Notion.");
            },
            NotionError::NotFound { message } => {
                push_str(&mut s, "Not found (404): ");
                push_str(&mut s, message.as_str());
                push_str(&mut s, ".");
            },
            NotionError::Api { status, message } => {
                push_str(&mut s, "Notion API error (");
                push_str(&mut s, status.as_str());
                push_str(&mut s, "): ");
                push_str(&mut s, message.as_str());
            },
            NotionError::NoProperties => {
                push_str(&mut s, "Database has no properties");
            },
            NotionError::MissingPageId => {
                push_str(&mut s, "Missing page ID in Notion response");
            },
        }
        assert(s@ =~= error_text(self@));
        s
    }
}

/// `check_auth`: the integration's name, or `integration` when the
/// response gives none.
pub fn integration_name(name: Option<String>) -> (r: String)
    ensures
        r@ == match name {
            Some(n) => n@,
            None => "integration"@,
        },
{
    match name {
        Some(n) => n,
        None => crate::text::string_from("integration"),
    }
}

/// `inspect_database`: the push properties of a database, or an error when
/// its response lists no properties.
pub fn inspect_database(props: Option<Vec<Property>>) -> (r: Result<DatabaseInfo, NotionError>)
    ensures
        match props {
            None => r matches Err(e) && e@ == NotionErrorView::NoProperties,
            Some(p) => r matches Ok(info) && info@ == info_from(prop_names(p@), prop_kinds(p@), lowered_names(p@)),
        },
{
    match props {
        None => Err(NotionError::NoProperties),
        Some(p) => Ok(database_info(&p)),
    }
}

/// The id of a created page, or an error when the response has none.
pub fn page_id_of(id: Option<String>) -> (r: Result<String, NotionError>)
    ensures
        match id {
            Some(i) => r matches Ok(x) && x@ == i@,
            None => r matches Err(e) && e@ == NotionErrorView::MissingPageId,
        },
{
    match id {
        Some(i) => Ok(i),
        None => Err(NotionError::MissingPageId),
    }
}


// ───────────────────────── creating a page ─────────────────────────

/// Blocks cut into requests of at most `MAX_BLOCKS_PER_REQ`, in order.
pub open spec fn batches(bs: Seq<BlockView>) -> Seq<Seq<BlockView>>
    decreases bs.len(),
{
    if bs.len() == 0 {
        seq![]
    } else if bs.len() <= MAX_BLOCKS_PER_REQ {
        seq![bs]
    } else {
        seq![bs.take(MAX_BLOCKS_PER_REQ as int)] + batches(bs.skip(MAX_BLOCKS_PER_REQ as int))
    }
}

/// How many blocks go with the page itself.
pub open spec fn first_count(n: int) -> int {
    if n <= MAX_BLOCKS_PER_REQ {
        n
    } else {
        MAX_BLOCKS_PER_REQ as int
    }
}

/// Sequences laid end to end.
pub open spec fn flatten(ss: Seq<Seq<BlockView>>) -> Seq<BlockView>
    decreases ss.len(),
{
    if ss.len() == 0 {
        seq![]
    } else {
        ss[0] + flatten(ss.drop_first())
    }
}

/// The batches hold every block once, in order, none of them empty or
/// over the limit.
pub proof fn lemma_batches(bs: Seq<BlockView>)
    ensures
        flatten(batches(bs)) == bs,
        forall|i: int| 0 <= i < batches(bs).len() ==> 0 < (#[trigger] batches(bs)[i]).len() <= MAX_BLOCKS_PER_REQ,
    decreases bs.len(),
{
    if bs.len() == 0 {
    } else if bs.len() <= MAX_BLOCKS_PER_REQ {
        assert(seq![bs].drop_first() =~= Seq::<Seq<BlockView>>::empty());
        assert(flatten(Seq::<Seq<BlockView>>::empty()) == Seq::<BlockView>::empty());
        assert(seq![bs][0] == bs);
        assert(flatten(seq![bs]) == bs + flatten(Seq::<Seq<BlockView>>::empty()));
        assert(flatten(seq![bs]) =~= bs);
    } else {
        let t = bs.skip(MAX_BLOCKS_PER_REQ as int);
        lemma_batches(t);
        let b = batches(bs);
        assert(b.drop_first() =~= batches(t));
        assert(bs.take(MAX_BLOCKS_PER_REQ as int) + t =~= bs);
        assert forall|i: int| 0 <= i < b.len() implies 0 < (#[trigger] b[i]).len() <= MAX_BLOCKS_PER_REQ by {
            if i > 0 {
                assert(b[i] == batches(t)[i - 1]);
            }
        }
    }
}

/// The request that creates a page and the requests that append to it
/// carry every block once and in order, at most `MAX_BLOCKS_PER_REQ` in
/// each, and no append request is empty.
pub proof fn lemma_page_requests_carry_every_block(bs: Seq<BlockView>)
    ensures
        bs.take(first_count(bs.len() as int)) + flatten(batches(bs.skip(first_count(bs.len() as int)))) == bs,
        bs.take(first_count(bs.len() as int)).len() <= MAX_BLOCKS_PER_REQ,
        forall|i: int|
            0 <= i < batches(bs.skip(first_count(bs.len() as int))).len() ==> 0 < (#[trigger] batches(
                bs.skip(first_count(bs.len() as int)),
            )[i]).len() <= MAX_BLOCKS_PER_REQ,
{
    let k = first_count(bs.len() as int);
    lemma_batches(bs.skip(k));
    assert(bs.take(k) + bs.skip(k) =~= bs);
}

pub open spec fn status_prop_json(prop: Option<Seq<char>>, status: Option<Seq<char>>) -> Seq<char> {
    match (prop, status) {
        (Some(p), Some(st)) => if st.len() > 0 {
            ","@ + json_str(p) + ":{\"select\":{\"name\":"@ + json_str(st) + "}}"@
        } else {
            seq![]
        },
        _ => seq![],
    }
}

pub open spec fn tag_json(t: Seq<char>) -> Seq<char> {
    "{\"name\":"@ + json_str(t) + "}"@
}

pub open spec fn tags_prop_json(prop: Option<Seq<char>>, tags: Seq<Seq<char>>) -> Seq<char> {
    match prop {
        Some(p) => if tags.len() > 0 {
            ","@ + json_str(p) + ":{\"multi_select\":"@ + json_list(tags.map_values(|t: Seq<char>| tag_json(t)))
                + "}"@
        } else {
            seq![]
        },
        None => seq![],
    }
}

/// The request that creates a page in the database: its title (cut to
/// the size limit), its status and tags where the database has such
/// properties, and its first blocks.
pub open spec fn page_json(
    db_id: Seq<char>,
    info: DatabaseInfoView,
    title: Seq<char>,
    status: Option<Seq<char>>,
    tags: Seq<Seq<char>>,
    children: Seq<BlockView>,
) -> Seq<char> {
    "{\"parent\":{\"database_id\":"@ + json_str(db_id) + "},\"properties\":{"@ + json_str(info.title_prop)
        + ":{\"title\":[{\"text\":{\"content\":"@ + json_str(truncated(title, MAX_TEXT_LEN as nat)) + "}}]}"@
        + status_prop_json(info.status_prop, status) + tags_prop_json(info.tags_prop, tags) + "},\"children\":"@
        + blocks_json(children) + "}"@
}

/// The request that appends blocks to a page.
pub open spec fn append_json(children: Seq<BlockView>) -> Seq<char> {
    "{\"children\":"@ + blocks_json(children) + "}"@
}

/// The requests that create a page: one that creates it with its first
/// blocks, then one per further batch of blocks.
pub struct PagePlan {
    pub create_body: String,
    pub append_bodies: Vec<String>,
}

fn write_tags_prop(out: &mut String, prop: &Option<String>, tags: &Vec<String>)
    ensures
        final(out)@ == old(out)@ + tags_prop_json(opt_str(*prop), strs_view(tags@)),
{
    match prop {
        Some(p) => {
            if tags.len() > 0 {
                push_str(out, ",");
                write_str(out, p.as_str());
                push_str(out, ":{\"multi_select\":");
                let ghost items = strs_view(tags@).map_values(|t: Seq<char>| tag_json(t));
                push_char(out, '[');
                let ghost start = out@;
                let mut i: usize = 0;
                while i < tags.len()
                    invariant
                        items == strs_view(tags@).map_values(|t: Seq<char>| tag_json(t)),
                        0 <= i <= tags@.len(),
                        out@ == start + commas(items.take(i as int)),
                    decreases tags@.len() - i,
                {
                    let ghost before = out@;
                    if i > 0 {
                        push_char(out, ',');
                    }
                    push_str(out, "{\"name\":");
                    write_str(out, tags[i].as_str());
                    push_str(out, "}");
                    proof {
                        let t = items.take(i as int);
                        assert(items.take(i + 1) =~= t.push(items[i as int]));
                        assert(items[i as int] == tag_json(tags@[i as int]@));
                        assert(t.push(items[i as int]).drop_last() =~= t);
                        if i == 0 {
                            assert(t.push(items[0])[0] == items[0]);
                            assert(out@ =~= start + commas(items.take(i + 1)));
                        } else {
                            assert(out@ =~= start + commas(items.take(i + 1)));
                        }
                    }
                    i += 1;
                }
                push_char(out, ']');
                push_str(out, "}");
                assert(items.take(i as int) =~= items);
            }
        },
        None => {},
    }
    assert(out@ =~= old(out)@ + tags_prop_json(opt_str(*prop), strs_view(tags@)));
}

#[verifier::spinoff_prover]
#[verifier::rlimit(30)]
fn write_page(
    out: &mut String,
    db_id: &str,
    info: &DatabaseInfo,
    title: &str,
    status: &Option<String>,
    tags: &Vec<String>,
    blocks: &Vec<Block>,
    n: usize,
)
    requires
        n <= blocks@.len(),
    ensures
        final(out)@ == old(out)@ + page_json(
            db_id@,
            info@,
            title@,
            opt_str(*status),
            strs_view(tags@),
            blocks_view(blocks@.subrange(0, n as int)),
        ),
{
    push_str(out, "{\"parent\":{\"database_id\":");
    write_str(out, db_id);
    push_str(out, "},\"properties\":{");
    write_str(out, info.title_prop.as_str());
    push_str(out, ":{\"title\":[{\"text\":{\"content\":");
    let t = truncate(title, MAX_TEXT_LEN);
    write_str(out, t.as_str());
    push_str(out, "}}]}");
    let ghost before_status = out@;
    match (&info.status_prop, status) {
        (Some(p), Some(st)) => {
            if crate::text::chars_of(st.as_str()).len() > 0 {
                push_str(out, ",");
                write_str(out, p.as_str());
                push_str(out, ":{\"select\":{\"name\":");
                write_str(out, st.as_str());
                push_str(out, "}}");
            }
        },
        _ => {},
    }
    assert(out@ =~= before_status + status_prop_json(info@.status_prop, opt_str(*status)));
    write_tags_prop(out, &info.tags_prop, tags);
    push_str(out, "},\"children\":");
    write_blocks(out, blocks, 0, n);
    push_str(out, "}");
    assert(out@ =~= old(out)@ + page_json(
        db_id@,
        info@,
        title@,
        opt_str(*status),
        strs_view(tags@),
        blocks_view(blocks@.subrange(0, n as int)),
    ));
}

/// `create_page`: the requests that create a page for a note, its first
/// `MAX_BLOCKS_PER_REQ` blocks sent with it and the rest appended in
/// batches of that size.
pub fn plan_page(
    db_id: &str,
    info: &DatabaseInfo,
    title: &str,
    status: &Option<String>,
    tags: &Vec<String>,
    blocks: &Vec<Block>,
) -> (r: PagePlan)
    ensures
        ({
            let bs = blocks_view(blocks@);
            let k = first_count(bs.len() as int);
            &&& r.create_body@ == page_json(db_id@, info@, title@, opt_str(*status), strs_view(tags@), bs.take(k))
            &&& strs_view(r.append_bodies@) == batches(bs.skip(k)).map_values(
                |b: Seq<BlockView>| append_json(b),
            )
        }),
{
    let n = blocks.len();
    let ghost bs = blocks_view(blocks@);
    let first = if n <= MAX_BLOCKS_PER_REQ {
        n
    } else {
        MAX_BLOCKS_PER_REQ
    };
    let mut create_body = String::new();
    write_page(&mut create_body, db_id, info, title, status, tags, blocks, first);
    assert(blocks_view(blocks@.subrange(0, first as int)) =~= bs.take(first as int));
    let mut append_bodies: Vec<String> = Vec::new();
    let mut offset = first;
    proof {
        assert(strs_view(append_bodies@) =~= Seq::<Seq<char>>::empty());
    }
    while offset < n
        invariant
            first <= offset <= n == blocks@.len(),
            bs == blocks_view(blocks@),
            first == first_count(n as int),
            batches(bs.skip(first as int)).map_values(|b: Seq<BlockView>| append_json(b)) == strs_view(
                append_bodies@,
            ) + batches(bs.skip(offset as int)).map_values(|b: Seq<BlockView>| append_json(b)),
        decreases n - offset,
    {
        let end = if n - offset <= MAX_BLOCKS_PER_REQ {
            n
        } else {
            offset + MAX_BLOCKS_PER_REQ
        };
        let mut body = String::new();
        push_str(&mut body, "{\"children\":");
        write_blocks(&mut body, blocks, offset, end);
        push_str(&mut body, "}");
        let ghost before = append_bodies@;
        append_bodies.push(body);
        proof {
            let rest = bs.skip(offset as int);
            assert(blocks_view(blocks@.subrange(offset as int, end as int)) =~= rest.take(end - offset));
            assert(body@ =~= append_json(rest.take(end - offset)));
            let f = |b: Seq<BlockView>| append_json(b);
            if end == n {
                assert(rest.take(end - offset) =~= rest);
                assert(batches(rest) == seq![rest]);
                assert(bs.skip(end as int) =~= Seq::<BlockView>::empty());
                assert(batches(bs.skip(end as int)) =~= Seq::<Seq<BlockView>>::empty());
            } else {
                assert(rest.skip(MAX_BLOCKS_PER_REQ as int) =~= bs.skip(end as int));
                assert(batches(rest) == seq![rest.take(MAX_BLOCKS_PER_REQ as int)] + batches(bs.skip(end as int)));
            }
            assert(batches(rest).map_values(f) =~= seq![append_json(rest.take(end - offset))] + batches(
                bs.skip(end as int),
            ).map_values(f));
            assert(strs_view(append_bodies@) =~= strs_view(before).push(body@));
        }
        offset = end;
    }
    proof {
        assert(bs.skip(offset as int) =~= Seq::<BlockView>::empty());
        assert(batches(bs.skip(offset as int)) =~= Seq::<Seq<BlockView>>::empty());
    }
    PagePlan { create_body, append_bodies }
}

} // verus!
