//! File names for notes: slugs of their titles, and titles from bodies.
use crate::text::{
    alphanumeric, chars_of, find, is_alphanumeric, lacks, lemma_find, line_ranges, lines, lowercase, pieces,
    push_char, push_range, ranges_within, split, split_ranges, starts_with, starts_with_str, string_of,
    to_lowercase, trim, trim_bounds,
};
use vstd::prelude::*;

verus! {

/// A character of a slug: itself if alphanumeric, else `-`.
pub open spec fn slug_char(c: char) -> char {
    if alphanumeric(c) {
        c
    } else {
        '-'
    }
}

/// The pieces that are not empty, in order.
pub open spec fn nonempty(parts: Seq<Seq<char>>) -> Seq<Seq<char>>
    decreases parts.len(),
{
    if parts.len() == 0 {
        seq![]
    } else if parts.last().len() > 0 {
        nonempty(parts.drop_last()).push(parts.last())
    } else {
        nonempty(parts.drop_last())
    }
}

/// Pieces joined with `-`.
pub open spec fn join_dash(parts: Seq<Seq<char>>) -> Seq<char>
    decreases parts.len(),
{
    if parts.len() == 0 {
        seq![]
    } else if parts.len() == 1 {
        parts[0]
    } else {
        join_dash(parts.drop_last()) + seq!['-'] + parts.last()
    }
}

/// The slug of an already lowercased title: each character that is not
/// alphanumeric becomes `-`, and the runs between dashes are joined by
/// single dashes, with none at either end.
pub open spec fn slug_of(lower: Seq<char>) -> Seq<char> {
    join_dash(nonempty(split(lower.map_values(|c: char| slug_char(c)), '-')))
}

/// A slug: alphanumeric runs joined by single dashes.
pub open spec fn is_slug(s: Seq<char>) -> bool {
    &&& forall|i: int| 0 <= i < s.len() ==> alphanumeric(#[trigger] s[i]) || s[i] == '-'
    &&& s.len() > 0 ==> s[0] != '-' && s.last() != '-'
    &&& forall|i: int| 0 <= i < s.len() - 1 && #[trigger] s[i] == '-' ==> s[i + 1] != '-'
}

/// Every piece of a split holds only characters of the whole.
proof fn lemma_split_pieces(s: Seq<char>, c: char)
    ensures
        forall|k: int, j: int|
            0 <= k < split(s, c).len() && 0 <= j < split(s, c)[k].len() ==> (#[trigger] split(s, c)[k][j] != c)
                && exists|m: int| 0 <= m < s.len() && s[m] == split(s, c)[k][j],
    decreases s.len(),
{
    lemma_find(s, seq![c]);
    match find(s, seq![c]) {
        Some(i) => {
            let rest = s.skip(i + 1);
            lemma_split_pieces(rest, c);
            let sp = split(s, c);
            assert(sp == seq![s.take(i)] + split(rest, c));
            assert forall|k: int, j: int| 0 <= k < sp.len() && 0 <= j < sp[k].len() implies (
            #[trigger] sp[k][j] != c) && exists|m: int| 0 <= m < s.len() && s[m] == sp[k][j] by {
                if k == 0 {
                    assert(sp[0] == s.take(i));
                    assert(sp[0][j] == s[j]);
                    if s[j] == c {
                        assert(s.subrange(j, j + 1) =~= seq![c]);
                        assert(occurs_at_first(s, c, j));
                    }
                } else {
                    assert(sp[k] == split(rest, c)[k - 1]);
                    let m = choose|m: int| 0 <= m < rest.len() && rest[m] == split(rest, c)[k - 1][j];
                    assert(s[m + i + 1] == rest[m]);
                }
            }
        },
        None => {
            assert(split(s, c) == seq![s]);
            assert forall|k: int, j: int| 0 <= k < split(s, c).len() && 0 <= j < split(s, c)[k].len() implies (
            #[trigger] split(s, c)[k][j] != c) && exists|m: int| 0 <= m < s.len() && s[m] == split(s, c)[k][j] by {
                assert(split(s, c)[k] == s);
                assert(s[j] == split(s, c)[k][j]);
                if s[j] == c {
                    assert(s.subrange(j, j + 1) =~= seq![c]);
                    assert(occurs_at_first(s, c, j));
                }
            }
        },
    }
}

proof fn lemma_join_dash_slug(parts: Seq<Seq<char>>)
    requires
        forall|k: int| 0 <= k < parts.len() ==> (#[trigger] parts[k]).len() > 0 && lacks(parts[k], '-')
            && forall|j: int| 0 <= j < parts[k].len() ==> alphanumeric(#[trigger] parts[k][j]),
    ensures
        is_slug(join_dash(parts)),
        parts.len() > 0 ==> join_dash(parts).len() > 0,
    decreases parts.len(),
{
    if parts.len() == 1 {
        let p = parts[0];
        assert(join_dash(parts) == p);
        assert forall|i: int| 0 <= i < p.len() - 1 && #[trigger] p[i] == '-' implies p[i + 1] != '-' by {}
    } else if parts.len() > 1 {
        let d = parts.drop_last();
        let l = parts.last();
        assert forall|k: int| 0 <= k < d.len() implies (#[trigger] d[k]).len() > 0 && lacks(d[k], '-') && forall|
            j: int,
        | 0 <= j < d[k].len() ==> alphanumeric(#[trigger] d[k][j]) by {
            assert(d[k] == parts[k]);
        }
        lemma_join_dash_slug(d);
        let a = join_dash(d);
        let j = a + seq!['-'] + l;
        assert(join_dash(parts) == j);
        assert(parts[parts.len() - 1] == l);
        assert forall|i: int| 0 <= i < j.len() implies alphanumeric(#[trigger] j[i]) || j[i] == '-' by {
            if i < a.len() {
                assert(j[i] == a[i]);
            } else if i > a.len() {
                assert(j[i] == l[i - a.len() - 1]);
            }
        }
        assert(j[0] == a[0]);
        assert(j.last() == l.last());
        assert forall|i: int| 0 <= i < j.len() - 1 && #[trigger] j[i] == '-' implies j[i + 1] != '-' by {
            if i < a.len() - 1 {
                assert(j[i] == a[i]);
                assert(j[i + 1] == a[i + 1]);
            } else if i == a.len() - 1 {
                assert(j[i] == a.last());
            } else if i == a.len() {
                assert(j[i + 1] == l[0]);
            } else {
                assert(j[i] == l[i - a.len() - 1]);
                assert(j[i + 1] == l[i - a.len()]);
            }
        }
    }
}

proof fn lemma_nonempty_parts(parts: Seq<Seq<char>>, p: spec_fn(char) -> bool)
    requires
        forall|k: int, j: int| 0 <= k < parts.len() && 0 <= j < parts[k].len() ==> p(#[trigger] parts[k][j]),
    ensures
        forall|k: int| 0 <= k < nonempty(parts).len() ==> (#[trigger] nonempty(parts)[k]).len() > 0 && forall|
            j: int,
        | 0 <= j < nonempty(parts)[k].len() ==> p(#[trigger] nonempty(parts)[k][j]),
    decreases parts.len(),
{
    if parts.len() > 0 {
        let d = parts.drop_last();
        assert forall|k: int, j: int| 0 <= k < d.len() && 0 <= j < d[k].len() implies p(#[trigger] d[k][j]) by {
            assert(d[k] == parts[k]);
        }
        lemma_nonempty_parts(d, p);
        let n = nonempty(parts);
        if parts.last().len() > 0 {
            assert forall|k: int| 0 <= k < n.len() implies (#[trigger] n[k]).len() > 0 && forall|j: int|
                0 <= j < n[k].len() ==> p(#[trigger] n[k][j]) by {
                if k == n.len() - 1 {
                    assert(n[k] == parts[parts.len() - 1]);
                } else {
                    assert(n[k] == nonempty(d)[k]);
                }
            }
        } else {
            assert(n == nonempty(d));
        }
    }
}

/// Slugs are made of alphanumeric runs joined by single dashes.
pub proof fn lemma_slug_shape(lower: Seq<char>)
    ensures
        is_slug(slug_of(lower)),
{
    let m = lower.map_values(|c: char| slug_char(c));
    lemma_split_pieces(m, '-');
    let sp = split(m, '-');
    let p = |c: char| c != '-' && alphanumeric(c);
    assert forall|k: int, j: int| 0 <= k < sp.len() && 0 <= j < sp[k].len() implies p(#[trigger] sp[k][j]) by {
        let x = choose|x: int| 0 <= x < m.len() && m[x] == sp[k][j];
        assert(m[x] == slug_char(lower[x]));
    }
    lemma_nonempty_parts(sp, p);
    let n = nonempty(sp);
    assert forall|k: int| 0 <= k < n.len() implies (#[trigger] n[k]).len() > 0 && lacks(n[k], '-') && forall|j: int|
        0 <= j < n[k].len() ==> alphanumeric(#[trigger] n[k][j]) by {
        assert forall|j: int| 0 <= j < n[k].len() implies n[k][j] != '-' && alphanumeric(n[k][j]) by {
            assert(p(n[k][j]));
        }
    }
    lemma_join_dash_slug(n);
}

/// The slug of an already lowercased title.
pub fn slug_from_lowercase(lower: &str) -> (r: String)
    ensures
        r@ == slug_of(lower@),
        is_slug(r@),
{
    let v = chars_of(lower);
    let mut m: Vec<char> = Vec::new();
    let mut i: usize = 0;
    while i < v.len()
        invariant
            v@ == lower@,
            0 <= i <= v@.len(),
            m@ == v@.take(i as int).map_values(|c: char| slug_char(c)),
        decreases v@.len() - i,
    {
        let c = v[i];
        let d = if is_alphanumeric(c) {
            c
        } else {
            '-'
        };
        m.push(d);
        assert(v@.take(i + 1).map_values(|c: char| slug_char(c)) =~= v@.take(i as int).map_values(
            |c: char| slug_char(c),
        ).push(slug_char(c)));
        i += 1;
    }
    assert(v@.take(i as int) =~= lower@);
    let parts = split_ranges(&m, 0, m.len(), '-');
    let ghost ps = pieces(m@, parts@);
    assert(m@.subrange(0, m@.len() as int) =~= m@);
    let mut s = String::new();
    let mut wrote = false;
    let mut k: usize = 0;
    assert(ps.take(0) =~= Seq::<Seq<char>>::empty());
    while k < parts.len()
        invariant
            ranges_within(parts@, 0, m@.len() as int),
            ps == pieces(m@, parts@),
            0 <= k <= parts@.len(),
            s@ == join_dash(nonempty(ps.take(k as int))),
            wrote == (nonempty(ps.take(k as int)).len() > 0),
            forall|j: int| 0 <= j < nonempty(ps.take(k as int)).len() ==> (#[trigger] nonempty(ps.take(k as int))[j]).len() > 0,
        decreases parts@.len() - k,
    {
        let (a, b) = parts[k];
        proof {
            assert(ps.take(k + 1).drop_last() =~= ps.take(k as int));
            assert(ps.take(k + 1).last() == m@.subrange(a as int, b as int));
        }
        if a < b {
            let ghost before = s@;
            let ghost n = nonempty(ps.take(k as int));
            if wrote {
                push_char(&mut s, '-');
            }
            push_range(&mut s, &m, a, b);
            wrote = true;
            proof {
                let n2 = nonempty(ps.take(k + 1));
                assert(n2 == n.push(m@.subrange(a as int, b as int)));
                if n.len() == 0 {
                    assert(before.len() == 0);
                    assert(s@ =~= join_dash(n2));
                } else {
                    assert(n2.drop_last() =~= n);
                    assert(n2.last() == m@.subrange(a as int, b as int));
                    assert(join_dash(n2) == join_dash(n) + seq!['-'] + m@.subrange(a as int, b as int));
                    assert(s@ =~= join_dash(n2));
                }
                assert forall|j: int| 0 <= j < n2.len() implies (#[trigger] n2[j]).len() > 0 by {
                    if j < n.len() {
                        assert(n2[j] == n[j]);
                    }
                }
            }
        }
        k += 1;
    }
    proof {
        assert(ps.take(k as int) =~= ps);
        lemma_slug_shape(lower@);
    }
    s
}

/// `slugify`: the file name stem of a note titled `title`: lowercased,
/// every character that is not alphanumeric turned into a dash, and the
/// runs between dashes joined by single dashes, none at either end.
pub fn slugify(title: &str) -> (r: String)
    ensures
        r@ == slug_of(lowercase(title@)),
        is_slug(r@),
{
    let lower = to_lowercase(title);
    slug_from_lowercase(lower.as_str())
}

/// The text of the first `# ` heading line, trimmed.
pub open spec fn first_heading(ls: Seq<Seq<char>>) -> Option<Seq<char>>
    decreases ls.len(),
{
    if ls.len() == 0 {
        None
    } else if starts_with(ls[0], "# "@) {
        Some(trim(ls[0].skip("# "@.len() as int)))
    } else {
        first_heading(ls.drop_first())
    }
}

/// `first_h1`: the trimmed text of the first line of `body` that starts
/// with `# `.
pub fn first_h1(body: &str) -> (r: Option<String>)
    ensures
        match r {
            Some(t) => first_heading(lines(body@)) == Some(t@),
            None => first_heading(lines(body@)) is None,
        },
{
    let v = chars_of(body);
    let ls = line_ranges(&v, 0, v.len());
    let ghost lv = pieces(v@, ls@);
    proof {
        assert(v@.subrange(0, v@.len() as int) =~= body@);
        assert(lv.skip(0) =~= lv);
    }
    let mut k: usize = 0;
    while k < ls.len()
        invariant
            ranges_within(ls@, 0, v@.len() as int),
            lv == pieces(v@, ls@),
            lv == lines(body@),
            0 <= k <= ls@.len(),
            first_heading(lv) == first_heading(lv.skip(k as int)),
        decreases ls@.len() - k,
    {
        let (lo, hi) = ls[k];
        let ghost l = v@.subrange(lo as int, hi as int);
        assert(lv.skip(k as int)[0] == l);
        assert(lv.skip(k as int).drop_first() =~= lv.skip(k + 1));
        if starts_with_str(&v, lo, hi, "# ") {
            let n = chars_of("# ").len();
            let (a, b) = trim_bounds(&v, lo + n, hi);
            assert(l.skip("# "@.len() as int) =~= v@.subrange(lo + n, hi as int));
            return Some(string_of(&v, a, b));
        }
        k += 1;
    }
    assert(lv.skip(k as int) =~= Seq::<Seq<char>>::empty());
    None
}

spec fn occurs_at_first(s: Seq<char>, c: char, j: int) -> bool {
    crate::text::occurs_at(s, seq![c], j)
}


// ───────────────────────── slugs of slugs ─────────────────────────

proof fn lemma_nonempty_front(a: Seq<char>, q: Seq<Seq<char>>)
    requires
        a.len() > 0,
    ensures
        nonempty(seq![a] + q) == seq![a] + nonempty(q),
    decreases q.len(),
{
    assert(nonempty(Seq::<Seq<char>>::empty()) == Seq::<Seq<char>>::empty());
    if q.len() == 0 {
        assert(seq![a] + q =~= seq![a]);
        assert(seq![a].drop_last() =~= Seq::<Seq<char>>::empty());
        assert(seq![a].last() == a);
        assert(nonempty(seq![a]) =~= seq![a]);
        assert(seq![a] + nonempty(q) =~= seq![a]);
    } else {
        assert((seq![a] + q).drop_last() =~= seq![a] + q.drop_last());
        assert((seq![a] + q).last() == q.last());
        lemma_nonempty_front(a, q.drop_last());
        if q.last().len() > 0 {
            assert(seq![a] + nonempty(q.drop_last()).push(q.last()) =~= (seq![a] + nonempty(q.drop_last())).push(
                q.last(),
            ));
        }
    }
}

proof fn lemma_join_dash_front(a: Seq<char>, p: Seq<Seq<char>>)
    requires
        p.len() > 0,
    ensures
        join_dash(seq![a] + p) == a + seq!['-'] + join_dash(p),
    decreases p.len(),
{
    let w = seq![a] + p;
    assert(w.drop_last() =~= seq![a] + p.drop_last());
    assert(w.last() == p.last());
    if p.len() == 1 {
        assert(p.drop_last() =~= Seq::<Seq<char>>::empty());
        assert(w.drop_last() =~= seq![a]);
        assert(join_dash(seq![a]) == a);
    } else {
        lemma_join_dash_front(a, p.drop_last());
        assert(a + seq!['-'] + join_dash(p.drop_last()) + seq!['-'] + p.last() =~= a + seq!['-'] + (join_dash(
            p.drop_last(),
        ) + seq!['-'] + p.last()));
    }
}

/// The runs of a slug, joined again by dashes, give the slug back.
proof fn lemma_slug_runs(x: Seq<char>)
    requires
        is_slug(x),
    ensures
        join_dash(nonempty(split(x, '-'))) == x,
        x.len() > 0 ==> nonempty(split(x, '-')).len() > 0,
    decreases x.len(),
{
    lemma_find(x, seq!['-']);
    match find(x, seq!['-']) {
        None => {
            assert(lacks(x, '-')) by {
                assert forall|i: int| 0 <= i < x.len() implies x[i] != '-' by {
                    if x[i] == '-' {
                        assert(x.subrange(i, i + 1) =~= seq!['-']);
                        assert(crate::text::occurs_at(x, seq!['-'], i));
                    }
                }
            }
            crate::text::lemma_split_single(x, '-');
            assert(seq![x].drop_last() =~= Seq::<Seq<char>>::empty());
            assert(seq![x].last() == x);
            assert(nonempty(Seq::<Seq<char>>::empty()) == Seq::<Seq<char>>::empty());
            if x.len() > 0 {
                assert(nonempty(seq![x]) =~= seq![x]);
            } else {
                assert(nonempty(seq![x]) =~= Seq::<Seq<char>>::empty());
            }
        },
        Some(k) => {
            assert(x.subrange(k, k + 1)[0] == x[k]);
            let a = x.take(k);
            let b = x.skip(k + 1);
            assert(lacks(a, '-')) by {
                assert forall|i: int| 0 <= i < a.len() implies a[i] != '-' by {
                    assert(a[i] == x[i]);
                    if a[i] == '-' {
                        assert(x.subrange(i, i + 1) =~= seq!['-']);
                        assert(crate::text::occurs_at(x, seq!['-'], i));
                    }
                }
            }
            assert(a + seq!['-'] + b =~= x);
            crate::text::lemma_split_concat(a, b, '-');
            crate::text::lemma_split_single(a, '-');
            assert(k > 0);
            assert(k + 1 < x.len());
            assert(b[0] == x[k + 1]);
            assert(is_slug(b)) by {
                assert forall|i: int| 0 <= i < b.len() - 1 && #[trigger] b[i] == '-' implies b[i + 1] != '-' by {
                    assert(b[i] == x[k + 1 + i]);
                    assert(b[i + 1] == x[k + 2 + i]);
                }
                assert forall|i: int| 0 <= i < b.len() implies alphanumeric(#[trigger] b[i]) || b[i] == '-' by {
                    assert(b[i] == x[k + 1 + i]);
                }
                assert(b.last() == x.last());
            }
            lemma_slug_runs(b);
            assert(split(x, '-') == seq![a] + split(b, '-'));
            lemma_nonempty_front(a, split(b, '-'));
            lemma_join_dash_front(a, nonempty(split(b, '-')));
        },
    }
}

/// A slug that lowercasing leaves as it is is its own slug: the note file
/// named after such a slug's title is the slug itself.
pub proof fn lemma_slug_of_slug(x: Seq<char>)
    requires
        is_slug(x),
        lowercase(x) == x,
    ensures
        slug_of(lowercase(x)) == x,
{
    assert(x.map_values(|c: char| slug_char(c)) =~= x);
    lemma_slug_runs(x);
}

} // verus!
