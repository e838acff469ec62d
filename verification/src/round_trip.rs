//! A note's frontmatter survives being written out and read back.
use crate::notion::{
    after, after_open_marker, apply_line, apply_lines, close_marker, escape_quotes, field_line, fm_empty,
    frontmatter_text, note_parts, quoted, tag_items, tag_list, tags_value, unquote, FrontmatterView,
};
use crate::text::{
    contains, find, join_nl, lacks, lemma_find, lemma_find_none, lemma_find_unique, lemma_lines_join,
    lemma_occurs_skip, lemma_split_concat, lemma_split_single, lemma_trim_char_keeps, lemma_trim_char_wrapped,
    lemma_trim_end_keeps, lemma_trim_start_keeps, lemma_trim_start_space, is_ws, lines, occurs_at, split,
    starts_with, trim, trim_end, trim_start,
};
use vstd::prelude::*;

verus! {

/// No line break in `s`.
pub open spec fn no_breaks(s: Seq<char>) -> bool {
    lacks(s, '\n') && lacks(s, '\r')
}

/// A title that reads back as written: one line, no double quote, and no
/// apostrophe at either end.
pub open spec fn title_ok(t: Seq<char>) -> bool {
    &&& no_breaks(t)
    &&& lacks(t, '"')
    &&& t.len() > 0 ==> t[0] != '\'' && t.last() != '\''
}

/// A plain value that reads back as written: one line, no surrounding
/// whitespace.
pub open spec fn value_ok(v: Seq<char>) -> bool {
    no_breaks(v) && trim(v) == v
}

/// A tag that reads back as written: as a title, and not empty and without
/// commas.
pub open spec fn tag_ok(t: Seq<char>) -> bool {
    title_ok(t) && t.len() > 0 && lacks(t, ',')
}

/// Frontmatter whose every field reads back as written.
pub open spec fn survives(fm: FrontmatterView) -> bool {
    &&& fm.title matches Some(t) ==> title_ok(t)
    &&& fm.date matches Some(d) ==> value_ok(d)
    &&& fm.status matches Some(s) ==> value_ok(s)
    &&& fm.notion_id matches Some(n) ==> value_ok(n)
    &&& forall|i: int| 0 <= i < fm.tags.len() ==> tag_ok(#[trigger] fm.tags[i])
}

pub open spec fn opt_lines(key: Seq<char>, v: Option<Seq<char>>) -> Seq<Seq<char>> {
    match v {
        Some(x) => seq![key + x],
        None => seq![],
    }
}

pub open spec fn quoted_title(fm: FrontmatterView) -> Option<Seq<char>> {
    match fm.title {
        Some(t) => Some(quoted(t)),
        None => None,
    }
}

/// The lines of the frontmatter block, without their line breaks.
pub open spec fn fm_lines(fm: FrontmatterView) -> Seq<Seq<char>> {
    opt_lines("title: "@, quoted_title(fm)) + opt_lines("date: "@, fm.date) + opt_lines("status: "@, fm.status)
        + seq!["tags: "@ + tags_value(fm.tags)] + opt_lines("notion_id: "@, fm.notion_id)
}

/// Lines, each followed by a line break.
pub open spec fn cat_lines(ls: Seq<Seq<char>>) -> Seq<char>
    decreases ls.len(),
{
    if ls.len() == 0 {
        seq![]
    } else {
        ls[0] + seq!['\n'] + cat_lines(ls.drop_first())
    }
}

proof fn lemma_cat_lines_concat(a: Seq<Seq<char>>, b: Seq<Seq<char>>)
    ensures
        cat_lines(a + b) == cat_lines(a) + cat_lines(b),
    decreases a.len(),
{
    if a.len() == 0 {
        assert(a + b =~= b);
    } else {
        assert((a + b).drop_first() =~= a.drop_first() + b);
        lemma_cat_lines_concat(a.drop_first(), b);
        assert(cat_lines(a + b) =~= cat_lines(a) + cat_lines(b));
    }
}

proof fn lemma_cat_lines_single(l: Seq<char>)
    ensures
        cat_lines(seq![l]) == l + seq!['\n'],
{
    assert(seq![l].drop_first() =~= Seq::<Seq<char>>::empty());
    assert(cat_lines(Seq::<Seq<char>>::empty()) == Seq::<char>::empty());
    assert(seq![l][0] == l);
    assert(cat_lines(seq![l]) == l + seq!['\n'] + cat_lines(Seq::<Seq<char>>::empty()));
    assert(cat_lines(seq![l]) =~= l + seq!['\n']);
}

proof fn lemma_field_line(key: Seq<char>, v: Option<Seq<char>>)
    ensures
        field_line(key, v) == cat_lines(opt_lines(key, v)),
{
    match v {
        Some(x) => {
            lemma_cat_lines_single(key + x);
        },
        None => {},
    }
}

/// The block is the opening marker, its lines, and the closing marker.
proof fn lemma_text_is_lines(fm: FrontmatterView)
    ensures
        frontmatter_text(fm) == "---\n"@ + cat_lines(fm_lines(fm)) + "---\n"@,
{
    let t = opt_lines("title: "@, quoted_title(fm));
    let d = opt_lines("date: "@, fm.date);
    let s = opt_lines("status: "@, fm.status);
    let g = seq!["tags: "@ + tags_value(fm.tags)];
    let n = opt_lines("notion_id: "@, fm.notion_id);
    lemma_field_line("title: "@, quoted_title(fm));
    lemma_field_line("date: "@, fm.date);
    lemma_field_line("status: "@, fm.status);
    lemma_field_line("notion_id: "@, fm.notion_id);
    lemma_cat_lines_single("tags: "@ + tags_value(fm.tags));
    lemma_cat_lines_concat(t, d);
    lemma_cat_lines_concat(t + d, s);
    lemma_cat_lines_concat(t + d + s, g);
    lemma_cat_lines_concat(t + d + s + g, n);
    assert(frontmatter_text(fm) =~= "---\n"@ + cat_lines(fm_lines(fm)) + "---\n"@);
}

proof fn lemma_cat_lines_join(ls: Seq<Seq<char>>)
    requires
        ls.len() > 0,
    ensures
        cat_lines(ls) == join_nl(ls) + seq!['\n'],
    decreases ls.len(),
{
    if ls.len() == 1 {
        lemma_cat_lines_single(ls[0]);
        assert(ls =~= seq![ls[0]]);
    } else {
        lemma_cat_lines_join(ls.drop_first());
        assert(cat_lines(ls) =~= join_nl(ls) + seq!['\n']);
    }
}

/// A line of the block: not empty, unbroken, and not starting with `-`.
pub open spec fn good_line(l: Seq<char>) -> bool {
    l.len() > 0 && no_breaks(l) && l[0] != '-'
}

pub open spec fn good_lines(ls: Seq<Seq<char>>) -> bool {
    forall|k: int| 0 <= k < ls.len() ==> good_line(#[trigger] ls[k])
}

/// In lines that do not start with `-`, no line break before the last is
/// followed by `-`, and there is no carriage return.
proof fn lemma_cat_lines_shape(ls: Seq<Seq<char>>)
    requires
        good_lines(ls),
    ensures
        ({
            let y = cat_lines(ls);
            &&& lacks(y, '\r')
            &&& forall|j: int| #![trigger y[j]] 0 <= j < y.len() - 1 && y[j] == '\n' ==> y[j + 1] != '-'
            &&& ls.len() > 0 ==> y.len() > 0 && y.last() == '\n'
            &&& ls.len() > 0 ==> y[0] != '-'
        }),
    decreases ls.len(),
{
    if ls.len() > 0 {
        let l = ls[0];
        let rest = ls.drop_first();
        assert(good_line(l));
        assert forall|k: int| 0 <= k < rest.len() implies good_line(#[trigger] rest[k]) by {
            assert(rest[k] == ls[k + 1]);
        }
        lemma_cat_lines_shape(rest);
        let y = cat_lines(ls);
        let r = cat_lines(rest);
        assert(y == l + seq!['\n'] + r);
        assert forall|i: int| 0 <= i < y.len() implies y[i] != '\r' by {
            if i < l.len() {
                assert(y[i] == l[i]);
            } else if i > l.len() {
                assert(y[i] == r[i - l.len() - 1]);
            }
        }
        assert forall|j: int| #![trigger y[j]] 0 <= j < y.len() - 1 && y[j] == '\n' implies y[j + 1] != '-' by {
            if j < l.len() {
                assert(y[j] == l[j]);
            } else if j == l.len() {
                assert(rest.len() > 0);
                assert(y[j + 1] == r[0]);
                assert(r[0] == rest[0][0]);
            } else {
                assert(y[j] == r[j - l.len() - 1]);
                assert(y[j + 1] == r[j - l.len()]);
            }
        }
        if rest.len() == 0 {
            assert(y.last() == '\n');
        } else {
            assert(y.last() == r.last());
        }
        assert(y[0] == l[0]);
    }
}

pub proof fn lemma_escape_plain(t: Seq<char>)
    requires
        lacks(t, '"'),
    ensures
        escape_quotes(t) == t,
    decreases t.len(),
{
    if t.len() > 0 {
        assert(lacks(t.drop_last(), '"'));
        lemma_escape_plain(t.drop_last());
        assert(t.drop_last() + seq![t.last()] =~= t);
    }
}

proof fn lemma_quoted_shape(t: Seq<char>)
    requires
        title_ok(t),
    ensures
        quoted(t) == seq!['"'] + t + seq!['"'],
        no_breaks(quoted(t)),
        lacks(t, ',') ==> lacks(quoted(t), ','),
{
    lemma_escape_plain(t);
    let q = quoted(t);
    assert forall|i: int| 0 <= i < q.len() implies q[i] != '\n' && q[i] != '\r' && (lacks(t, ',') ==> q[i] != ',') by {
        if 0 < i < q.len() - 1 {
            assert(q[i] == t[i - 1]);
        }
    }
}


proof fn lemma_trim_space_value(d: Seq<char>)
    requires
        value_ok(d),
    ensures
        trim(seq![' '] + d) == d,
{
    lemma_trim_start_space(d);
}

proof fn lemma_unquote_quoted(t: Seq<char>)
    requires
        title_ok(t),
    ensures
        unquote(seq![' '] + quoted(t)) == t,
        unquote(quoted(t)) == t,
{
    lemma_quoted_shape(t);
    let q = quoted(t);
    lemma_trim_start_space(q);
    assert(q[0] == '"');
    assert(q.last() == '"');
    lemma_trim_start_keeps(q);
    lemma_trim_end_keeps(q);
    lemma_trim_char_wrapped(t, '"');
    lemma_trim_char_keeps(t, '\'');
}

/// The tags written between the brackets read back as the same tags.
proof fn lemma_tag_items(tags: Seq<Seq<char>>)
    requires
        forall|i: int| 0 <= i < tags.len() ==> tag_ok(#[trigger] tags[i]),
    ensures
        tag_list(split(tag_items(tags), ',')) == tags,
    decreases tags.len(),
{
    if tags.len() == 0 {
        let e = Seq::<char>::empty();
        lemma_split_single(e, ',');
        assert(seq![e].drop_last() =~= Seq::<Seq<char>>::empty());
        assert(unquote(e) =~= e);
        assert(tag_list(seq![e]) == tag_list(Seq::<Seq<char>>::empty()));
    } else if tags.len() == 1 {
        let t = tags[0];
        assert(tag_ok(t));
        lemma_quoted_shape(t);
        lemma_split_single(quoted(t), ',');
        lemma_unquote_quoted(t);
        assert(seq![quoted(t)].drop_last() =~= Seq::<Seq<char>>::empty());
        assert(seq![quoted(t)].last() == quoted(t));
        assert(tag_list(Seq::<Seq<char>>::empty()) == Seq::<Seq<char>>::empty());
        assert(tag_list(seq![quoted(t)]) == tag_list(Seq::<Seq<char>>::empty()).push(t));
        assert(tag_list(seq![quoted(t)]) =~= seq![t]);
        assert(tags =~= seq![t]);
    } else {
        let d = tags.drop_last();
        let l = tags.last();
        assert(tag_ok(l));
        assert forall|i: int| 0 <= i < d.len() implies tag_ok(#[trigger] d[i]) by {
            assert(d[i] == tags[i]);
        }
        lemma_tag_items(d);
        lemma_quoted_shape(l);
        let x = seq![' '] + quoted(l);
        assert(lacks(x, ',')) by {
            assert forall|i: int| 0 <= i < x.len() implies x[i] != ',' by {
                if i > 0 {
                    assert(x[i] == quoted(l)[i - 1]);
                }
            }
        }
        assert(tag_items(tags) =~= tag_items(d) + seq![','] + x);
        lemma_split_concat(tag_items(d), x, ',');
        lemma_split_single(x, ',');
        let ps = split(tag_items(d), ',') + seq![x];
        assert(ps.drop_last() =~= split(tag_items(d), ','));
        assert(ps.last() == x);
        lemma_unquote_quoted(l);
        assert(tag_list(ps) =~= d.push(l));
        assert(d.push(l) =~= tags);
    }
}

proof fn lemma_title_line(st: FrontmatterView, t: Seq<char>)
    requires
        title_ok(t),
    ensures
        apply_line(st, "title: "@ + quoted(t)) == (FrontmatterView { title: Some(t), ..st }),
{
    reveal_strlit("title: ");
    reveal_strlit("title:");
    let line = "title: "@ + quoted(t);
    assert(line.take(6) =~= "title:"@);
    assert(after(line, "title:"@) =~= seq![' '] + quoted(t));
    lemma_unquote_quoted(t);
}

proof fn lemma_date_line(st: FrontmatterView, d: Seq<char>)
    requires
        value_ok(d),
    ensures
        apply_line(st, "date: "@ + d) == (FrontmatterView { date: Some(d), ..st }),
{
    reveal_strlit("date: ");
    reveal_strlit("date:");
    reveal_strlit("title:");
    let line = "date: "@ + d;
    assert(line[0] == 'd');
    assert(!starts_with(line, "title:"@)) by {
        if starts_with(line, "title:"@) {
            assert(line.take(6)[0] == 't');
        }
    }
    assert(line.take(5) =~= "date:"@);
    assert(after(line, "date:"@) =~= seq![' '] + d);
    lemma_trim_space_value(d);
}

proof fn lemma_status_line(st: FrontmatterView, d: Seq<char>)
    requires
        value_ok(d),
    ensures
        apply_line(st, "status: "@ + d) == (FrontmatterView { status: Some(d), ..st }),
{
    reveal_strlit("status: ");
    reveal_strlit("status:");
    reveal_strlit("date:");
    reveal_strlit("title:");
    let line = "status: "@ + d;
    assert(line[0] == 's');
    assert(!starts_with(line, "title:"@)) by {
        if starts_with(line, "title:"@) {
            assert(line.take(6)[0] == 't');
        }
    }
    assert(!starts_with(line, "date:"@)) by {
        if starts_with(line, "date:"@) {
            assert(line.take(5)[0] == 'd');
        }
    }
    assert(line.take(7) =~= "status:"@);
    assert(after(line, "status:"@) =~= seq![' '] + d);
    lemma_trim_space_value(d);
}

proof fn lemma_notion_id_line(st: FrontmatterView, d: Seq<char>)
    requires
        value_ok(d),
    ensures
        apply_line(st, "notion_id: "@ + d) == (FrontmatterView { notion_id: Some(d), ..st }),
{
    reveal_strlit("notion_id: ");
    reveal_strlit("notion_id:");
    reveal_strlit("tags:");
    reveal_strlit("status:");
    reveal_strlit("date:");
    reveal_strlit("title:");
    let line = "notion_id: "@ + d;
    assert(line[0] == 'n');
    assert(!starts_with(line, "title:"@)) by {
        if starts_with(line, "title:"@) {
            assert(line.take(6)[0] == 't');
        }
    }
    assert(!starts_with(line, "date:"@)) by {
        if starts_with(line, "date:"@) {
            assert(line.take(5)[0] == 'd');
        }
    }
    assert(!starts_with(line, "status:"@)) by {
        if starts_with(line, "status:"@) {
            assert(line.take(7)[0] == 's');
        }
    }
    assert(!starts_with(line, "tags:"@)) by {
        if starts_with(line, "tags:"@) {
            assert(line.take(5)[0] == 't');
        }
    }
    assert(line.take(10) =~= "notion_id:"@);
    assert(after(line, "notion_id:"@) =~= seq![' '] + d);
    lemma_trim_space_value(d);
}

proof fn lemma_tags_line(st: FrontmatterView, tags: Seq<Seq<char>>)
    requires
        forall|i: int| 0 <= i < tags.len() ==> tag_ok(#[trigger] tags[i]),
    ensures
        apply_line(st, "tags: "@ + tags_value(tags)) == (FrontmatterView { tags: tags, ..st }),
{
    reveal_strlit("tags: ");
    reveal_strlit("tags:");
    reveal_strlit("status:");
    reveal_strlit("date:");
    reveal_strlit("title:");
    let line = "tags: "@ + tags_value(tags);
    assert(line[0] == 't');
    assert(line[1] == 'a');
    assert(!starts_with(line, "title:"@)) by {
        if starts_with(line, "title:"@) {
            assert(line.take(6)[1] == 'i');
        }
    }
    assert(!starts_with(line, "date:"@)) by {
        if starts_with(line, "date:"@) {
            assert(line.take(5)[0] == 'd');
        }
    }
    assert(!starts_with(line, "status:"@)) by {
        if starts_with(line, "status:"@) {
            assert(line.take(7)[0] == 's');
        }
    }
    assert(line.take(5) =~= "tags:"@);
    let v = tags_value(tags);
    assert(after(line, "tags:"@) =~= seq![' '] + v);
    lemma_trim_start_space(v);
    assert(v[0] == '[');
    assert(v.last() == ']');
    lemma_trim_start_keeps(v);
    lemma_trim_end_keeps(v);
    assert(trim(seq![' '] + v) == v);
    assert(v.subrange(1, v.len() - 1) =~= tag_items(tags));
    lemma_tag_items(tags);
}


proof fn lemma_apply_lines_push(a: Seq<Seq<char>>, x: Seq<char>)
    ensures
        apply_lines(a.push(x)) == apply_line(apply_lines(a), x),
{
    assert(a.push(x).drop_last() =~= a);
}

/// The lines of the block give back the frontmatter.
proof fn lemma_apply_fm_lines(fm: FrontmatterView)
    requires
        survives(fm),
    ensures
        apply_lines(fm_lines(fm)) == fm,
{
    let t = opt_lines("title: "@, quoted_title(fm));
    let d = opt_lines("date: "@, fm.date);
    let s = opt_lines("status: "@, fm.status);
    let g = "tags: "@ + tags_value(fm.tags);
    let n = opt_lines("notion_id: "@, fm.notion_id);
    assert(apply_lines(Seq::<Seq<char>>::empty()) == fm_empty());
    let s0 = FrontmatterView { title: fm.title, ..fm_empty() };
    match fm.title {
        Some(x) => {
            assert(t =~= Seq::<Seq<char>>::empty().push("title: "@ + quoted(x)));
            lemma_apply_lines_push(Seq::<Seq<char>>::empty(), "title: "@ + quoted(x));
            lemma_title_line(fm_empty(), x);
        },
        None => {
            assert(t =~= Seq::<Seq<char>>::empty());
        },
    }
    assert(apply_lines(t) == s0);
    let s1 = FrontmatterView { date: fm.date, ..s0 };
    match fm.date {
        Some(x) => {
            assert(t + d =~= t.push("date: "@ + x));
            lemma_apply_lines_push(t, "date: "@ + x);
            lemma_date_line(s0, x);
        },
        None => {
            assert(t + d =~= t);
        },
    }
    assert(apply_lines(t + d) == s1);
    let s2 = FrontmatterView { status: fm.status, ..s1 };
    match fm.status {
        Some(x) => {
            assert(t + d + s =~= (t + d).push("status: "@ + x));
            lemma_apply_lines_push(t + d, "status: "@ + x);
            lemma_status_line(s1, x);
        },
        None => {
            assert(t + d + s =~= t + d);
        },
    }
    assert(apply_lines(t + d + s) == s2);
    let s3 = FrontmatterView { tags: fm.tags, ..s2 };
    assert(t + d + s + seq![g] =~= (t + d + s).push(g));
    lemma_apply_lines_push(t + d + s, g);
    lemma_tags_line(s2, fm.tags);
    assert(apply_lines(t + d + s + seq![g]) == s3);
    let s4 = FrontmatterView { notion_id: fm.notion_id, ..s3 };
    match fm.notion_id {
        Some(x) => {
            assert(t + d + s + seq![g] + n =~= (t + d + s + seq![g]).push("notion_id: "@ + x));
            lemma_apply_lines_push(t + d + s + seq![g], "notion_id: "@ + x);
            lemma_notion_id_line(s3, x);
        },
        None => {
            assert(t + d + s + seq![g] + n =~= t + d + s + seq![g]);
        },
    }
    assert(apply_lines(fm_lines(fm)) == s4);
    assert(s4.tags =~= fm.tags);
}

proof fn lemma_no_breaks_concat(a: Seq<char>, b: Seq<char>)
    requires
        no_breaks(a),
        no_breaks(b),
    ensures
        no_breaks(a + b),
{
    assert forall|i: int| 0 <= i < (a + b).len() implies (a + b)[i] != '\n' && (a + b)[i] != '\r' by {
        if i < a.len() {
            assert((a + b)[i] == a[i]);
        } else {
            assert((a + b)[i] == b[i - a.len()]);
        }
    }
}

proof fn lemma_tag_items_unbroken(tags: Seq<Seq<char>>)
    requires
        forall|i: int| 0 <= i < tags.len() ==> tag_ok(#[trigger] tags[i]),
    ensures
        no_breaks(tag_items(tags)),
    decreases tags.len(),
{
    if tags.len() == 1 {
        assert(tag_ok(tags[0]));
        lemma_quoted_shape(tags[0]);
    } else if tags.len() > 1 {
        let d = tags.drop_last();
        assert forall|i: int| 0 <= i < d.len() implies tag_ok(#[trigger] d[i]) by {
            assert(d[i] == tags[i]);
        }
        lemma_tag_items_unbroken(d);
        assert(tag_ok(tags.last()));
        lemma_quoted_shape(tags.last());
        lemma_no_breaks_concat(tag_items(d), seq![',', ' ']);
        lemma_no_breaks_concat(tag_items(d) + seq![',', ' '], quoted(tags.last()));
    }
}

proof fn lemma_key_line(key: Seq<char>, v: Seq<char>)
    requires
        key.len() > 0,
        key[0] != '-',
        no_breaks(key),
        no_breaks(v),
    ensures
        good_line(key + v),
{
    lemma_no_breaks_concat(key, v);
}

proof fn lemma_opt_lines_good(key: Seq<char>, v: Option<Seq<char>>)
    requires
        key.len() > 0,
        key[0] != '-',
        no_breaks(key),
        v matches Some(x) ==> no_breaks(x),
    ensures
        good_lines(opt_lines(key, v)),
{
    if let Some(x) = v {
        lemma_key_line(key, x);
    }
}

proof fn lemma_good_lines_concat(a: Seq<Seq<char>>, b: Seq<Seq<char>>)
    requires
        good_lines(a),
        good_lines(b),
    ensures
        good_lines(a + b),
{
    assert forall|k: int| 0 <= k < (a + b).len() implies good_line(#[trigger] (a + b)[k]) by {
        if k < a.len() {
            assert((a + b)[k] == a[k]);
        } else {
            assert((a + b)[k] == b[k - a.len()]);
        }
    }
}

/// Every line of the block is a good line.
proof fn lemma_fm_lines_good(fm: FrontmatterView)
    requires
        survives(fm),
    ensures
        good_lines(fm_lines(fm)),
        fm_lines(fm).len() > 0,
{
    reveal_strlit("title: ");
    reveal_strlit("date: ");
    reveal_strlit("status: ");
    reveal_strlit("tags: ");
    reveal_strlit("notion_id: ");
    if let Some(t) = fm.title {
        lemma_quoted_shape(t);
    }
    lemma_opt_lines_good("title: "@, quoted_title(fm));
    lemma_opt_lines_good("date: "@, fm.date);
    lemma_opt_lines_good("status: "@, fm.status);
    lemma_opt_lines_good("notion_id: "@, fm.notion_id);
    lemma_tag_items_unbroken(fm.tags);
    let tv = tags_value(fm.tags);
    lemma_no_breaks_concat(seq!['['], tag_items(fm.tags));
    lemma_no_breaks_concat(seq!['['] + tag_items(fm.tags), seq![']']);
    lemma_key_line("tags: "@, tv);
    let g = seq!["tags: "@ + tv];
    assert(good_lines(g)) by {
        assert(g[0] == "tags: "@ + tv);
    }
    let t = opt_lines("title: "@, quoted_title(fm));
    let d = opt_lines("date: "@, fm.date);
    let s = opt_lines("status: "@, fm.status);
    let n = opt_lines("notion_id: "@, fm.notion_id);
    lemma_good_lines_concat(t, d);
    lemma_good_lines_concat(t + d, s);
    lemma_good_lines_concat(t + d + s, g);
    lemma_good_lines_concat(t + d + s + g, n);
}

/// Frontmatter written out in front of a body, and the note read back,
/// gives back that frontmatter and that body -- for frontmatter whose
/// fields read back as written (`survives`), and a body that does not put
/// a `\r\n`-terminated `---` line right at its start or after a line break.
pub proof fn lemma_frontmatter_round_trip(fm: FrontmatterView, rest: Seq<char>)
    requires
        survives(fm),
        !contains(seq!['\n'] + rest, "\n---\r\n"@),
    ensures
        note_parts(frontmatter_text(fm) + rest).0 == fm,
        note_parts(frontmatter_text(fm) + rest).1 == rest,
{
    reveal_strlit("---\r\n");
    reveal_strlit("---\n");
    reveal_strlit("\n---\r\n");
    reveal_strlit("\n---\n");
    let ls = fm_lines(fm);
    lemma_fm_lines_good(fm);
    lemma_text_is_lines(fm);
    lemma_cat_lines_shape(ls);
    lemma_cat_lines_join(ls);
    let y = cat_lines(ls);
    let content = frontmatter_text(fm) + rest;
    assert(content =~= "---\n"@ + y + "---\n"@ + rest);
    assert(content[3] == '\n');
    assert(!starts_with(content, "---\r\n"@)) by {
        if starts_with(content, "---\r\n"@) {
            assert(content.take(5)[3] == '\r');
        }
    }
    assert(content.take(4) =~= "---\n"@);
    let a = after(content, "---\n"@);
    assert(a =~= y + "---\n"@ + rest);
    assert(after_open_marker(content) == Some(a));
    let yl = y.len() as int;
    // no `\n---\r\n` in `a`
    let p1 = "\n---\r\n"@;
    assert forall|i: int| !occurs_at(a, p1, i) by {
        if occurs_at(a, p1, i) {
            assert(a.subrange(i, i + 6)[4] == '\r');
            assert(a[i + 4] == '\r');
            assert(a.subrange(i, i + 6)[0] == '\n');
            assert(a[i] == '\n');
            if i + 4 < yl {
                assert(a[i + 4] == y[i + 4]);
            } else if i + 4 < yl + 4 {
                assert(a[i + 4] == "---\n"@[i + 4 - yl]);
            } else if i < yl + 3 {
                assert(a[i] == "---\n"@[i - yl]);
            } else {
                lemma_occurs_skip(a, p1, i, yl + 3);
                assert(a.skip(yl + 3) =~= seq!['\n'] + rest);
                assert(contains(seq!['\n'] + rest, p1));
            }
        }
    }
    lemma_find_none(a, p1);
    // the closing marker is right after the lines
    let p2 = "\n---\n"@;
    assert(occurs_at(a, p2, yl - 1)) by {
        assert(a.subrange(yl - 1, yl + 4) =~= p2);
    }
    assert forall|j: int| 0 <= j < yl - 1 implies !occurs_at(a, p2, j) by {
        if occurs_at(a, p2, j) {
            assert(a.subrange(j, j + 5)[0] == '\n');
            assert(a.subrange(j, j + 5)[1] == '-');
            assert(a[j] == y[j]);
            assert(a[j + 1] == y[j + 1]);
        }
    }
    lemma_find_unique(a, p2, yl - 1);
    assert(close_marker(a) == Some((yl - 1, 5int)));
    assert(a.take(yl - 1) =~= join_nl(ls));
    assert forall|k: int| 0 <= k < ls.len() implies (#[trigger] ls[k]).len() > 0 && lacks(ls[k], '\n')
        && lacks(ls[k], '\r') by {
        assert(good_line(ls[k]));
    }
    lemma_lines_join(ls);
    lemma_apply_fm_lines(fm);
    assert(a.skip(yl - 1 + 5) =~= rest);
}

} // verus!
