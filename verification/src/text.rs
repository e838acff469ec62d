//! Character-level string toolkit: views of strings as `Seq<char>`,
//! searching, line splitting, trimming and UTF-8 aware chunking.
use crate::notion::strs_view;
use vstd::prelude::*;

verus! {

// ───────────────────────── building strings ─────────────────────────

/// Appends one character to a string (`String::push`).
#[verifier::external_body]
pub(crate) fn push_char(s: &mut String, c: char)
    ensures
        final(s)@ == old(s)@.push(c),
{
    s.push(c);
}

/// The characters of `s`, in order.
pub fn chars_of(s: &str) -> (r: Vec<char>)
    ensures
        r@ == s@,
{
    let mut r: Vec<char> = Vec::new();
    for c in it: s.chars()
        invariant
            r@ == it.seq().take(it.index() as int),
    {
        r.push(c);
    }
    r
}

/// Appends the characters `v[lo..hi]` to `s`.
pub fn push_range(s: &mut String, v: &Vec<char>, lo: usize, hi: usize)
    requires
        lo <= hi <= v@.len(),
    ensures
        final(s)@ == old(s)@ + v@.subrange(lo as int, hi as int),
{
    let mut i = lo;
    while i < hi
        invariant
            lo <= i <= hi <= v@.len(),
            s@ == old(s)@ + v@.subrange(lo as int, i as int),
        decreases hi - i,
    {
        push_char(s, v[i]);
        assert(v@.subrange(lo as int, i + 1) =~= v@.subrange(lo as int, i as int).push(v@[i as int]));
        i += 1;
    }
}

/// A new string holding `v[lo..hi]`.
pub fn string_of(v: &Vec<char>, lo: usize, hi: usize) -> (r: String)
    requires
        lo <= hi <= v@.len(),
    ensures
        r@ == v@.subrange(lo as int, hi as int),
{
    let mut s = String::new();
    push_range(&mut s, v, lo, hi);
    assert(Seq::<char>::empty() + v@.subrange(lo as int, hi as int) =~= v@.subrange(lo as int, hi as int));
    s
}

/// Appends every character of `t` to `s`.
pub fn push_all(s: &mut String, t: &Vec<char>)
    ensures
        final(s)@ == old(s)@ + t@,
{
    push_range(s, t, 0, t.len());
    assert(t@.subrange(0, t@.len() as int) =~= t@);
}

/// Appends the string `t` to `s`.
pub fn push_str(s: &mut String, t: &str)
    ensures
        final(s)@ == old(s)@ + t@,
{
    let v = chars_of(t);
    push_all(s, &v);
}

/// A new string holding `t`.
pub fn string_from(t: &str) -> (r: String)
    ensures
        r@ == t@,
{
    let mut s = String::new();
    push_str(&mut s, t);
    assert(Seq::<char>::empty() + t@ =~= t@);
    s
}

/// Whether two strings hold the same characters.
pub fn str_eq(a: &str, b: &str) -> (r: bool)
    ensures
        r == (a@ == b@),
{
    let x = chars_of(a);
    let y = chars_of(b);
    if x.len() != y.len() {
        return false;
    }
    let mut i: usize = 0;
    while i < x.len()
        invariant
            x@ == a@,
            y@ == b@,
            x@.len() == y@.len(),
            0 <= i <= x@.len(),
            forall|j: int| 0 <= j < i ==> x@[j] == y@[j],
        decreases x@.len() - i,
    {
        if x[i] != y[i] {
            return false;
        }
        i += 1;
    }
    assert(x@ =~= y@);
    true
}

/// Whether `v[lo..hi]` holds exactly the characters of `t`.
pub fn range_eq(v: &Vec<char>, lo: usize, hi: usize, t: &str) -> (r: bool)
    requires
        lo <= hi <= v@.len(),
    ensures
        r == (v@.subrange(lo as int, hi as int) == t@),
{
    let y = chars_of(t);
    if hi - lo != y.len() {
        return false;
    }
    let mut i: usize = 0;
    while i < y.len()
        invariant
            lo <= hi <= v@.len(),
            y@ == t@,
            hi - lo == y@.len(),
            0 <= i <= y@.len(),
            forall|j: int| 0 <= j < i ==> v@[lo + j] == y@[j],
        decreases y@.len() - i,
    {
        if v[lo + i] != y[i] {
            assert(v@.subrange(lo as int, hi as int)[i as int] != t@[i as int]);
            return false;
        }
        i += 1;
    }
    assert(v@.subrange(lo as int, hi as int) =~= y@);
    true
}

/// A copy of a string.
pub fn copy_string(t: &String) -> (r: String)
    ensures
        r@ == t@,
{
    let v = chars_of(t.as_str());
    string_of(&v, 0, v.len())
}


// ───────────────────────── searching ─────────────────────────

/// `p` occurs in `s` at index `i`.
pub open spec fn occurs_at(s: Seq<char>, p: Seq<char>, i: int) -> bool {
    0 <= i && i + p.len() <= s.len() && s.subrange(i, i + p.len()) == p
}

/// Index of the first occurrence of `p` in `s` (as `str::find`).
pub open spec fn find(s: Seq<char>, p: Seq<char>) -> Option<int>
    decreases s.len(),
{
    if s.len() < p.len() {
        None
    } else if s.take(p.len() as int) == p {
        Some(0)
    } else if s.len() == 0 {
        None
    } else {
        match find(s.drop_first(), p) {
            Some(i) => Some(i + 1),
            None => None,
        }
    }
}

/// `s` starts with `p`.
pub open spec fn starts_with(s: Seq<char>, p: Seq<char>) -> bool {
    p.len() <= s.len() && s.take(p.len() as int) == p
}

/// `s` ends with `p`.
pub open spec fn ends_with(s: Seq<char>, p: Seq<char>) -> bool {
    p.len() <= s.len() && s.skip(s.len() - p.len()) == p
}

/// `p` occurs somewhere in `s`.
pub open spec fn contains(s: Seq<char>, p: Seq<char>) -> bool {
    exists|i: int| occurs_at(s, p, i)
}

/// What `find` gives: the first occurrence, or none at all.
pub proof fn lemma_find(s: Seq<char>, p: Seq<char>)
    ensures
        match find(s, p) {
            Some(i) => occurs_at(s, p, i) && forall|j: int| 0 <= j < i ==> !occurs_at(s, p, j),
            None => forall|j: int| !occurs_at(s, p, j),
        },
    decreases s.len(),
{
    if s.len() < p.len() {
    } else if s.take(p.len() as int) == p {
        assert(s.subrange(0, p.len() as int) == s.take(p.len() as int));
    } else if s.len() == 0 {
        assert(p.len() == 0);
        assert(s.take(0) =~= p);
    } else {
        lemma_find(s.drop_first(), p);
        let t = s.drop_first();
        assert forall|j: int| 0 <= j && j + p.len() <= t.len() implies
            #[trigger] t.subrange(j, j + p.len()) == s.subrange(j + 1, j + 1 + p.len()) by {
            assert(t.subrange(j, j + p.len()) =~= s.subrange(j + 1, j + 1 + p.len()));
        }
        assert(!occurs_at(s, p, 0)) by {
            assert(s.subrange(0, p.len() as int) == s.take(p.len() as int));
        }
        match find(t, p) {
            Some(i) => {
                assert forall|j: int| 0 <= j < i + 1 implies !occurs_at(s, p, j) by {
                    if j > 0 {
                        assert(!occurs_at(t, p, j - 1));
                    }
                }
            },
            None => {
                assert forall|j: int| !occurs_at(s, p, j) by {
                    if j > 0 {
                        assert(!occurs_at(t, p, j - 1));
                    }
                }
            },
        }
    }
}

/// `find` is determined by the first occurrence.
pub proof fn lemma_find_unique(s: Seq<char>, p: Seq<char>, i: int)
    requires
        occurs_at(s, p, i),
        forall|j: int| 0 <= j < i ==> !occurs_at(s, p, j),
    ensures
        find(s, p) == Some(i),
{
    lemma_find(s, p);
    match find(s, p) {
        Some(k) => {
            if k < i {
            } else if k > i {
            }
        },
        None => {},
    }
}

/// `find` gives none exactly when `p` does not occur.
pub proof fn lemma_find_none(s: Seq<char>, p: Seq<char>)
    requires
        forall|j: int| !occurs_at(s, p, j),
    ensures
        find(s, p) is None,
{
    lemma_find(s, p);
}

/// `v[lo..hi]` holds `p` at relative index `i`.
pub fn matches_at(v: &Vec<char>, lo: usize, hi: usize, i: usize, p: &[char]) -> (r: bool)
    requires
        lo <= hi <= v@.len(),
    ensures
        r == occurs_at(v@.subrange(lo as int, hi as int), p@, i as int),
{
    let ghost s = v@.subrange(lo as int, hi as int);
    if i > hi - lo || p.len() > hi - lo - i {
        return false;
    }
    let mut k: usize = 0;
    while k < p.len()
        invariant
            lo <= hi <= v@.len(),
            i + p@.len() <= hi - lo,
            s == v@.subrange(lo as int, hi as int),
            0 <= k <= p@.len(),
            forall|m: int| 0 <= m < k ==> s[i + m] == p@[m],
        decreases p.len() - k,
    {
        if v[lo + i + k] != p[k] {
            assert(s.subrange(i as int, i + p@.len())[k as int] != p@[k as int]);
            return false;
        }
        k += 1;
    }
    assert(s.subrange(i as int, i + p@.len()) =~= p@);
    true
}

/// First occurrence of `p` in `v[lo..hi]`, relative to `lo`.
pub fn find_in(v: &Vec<char>, lo: usize, hi: usize, p: &[char]) -> (r: Option<usize>)
    requires
        lo <= hi <= v@.len(),
    ensures
        match r {
            Some(i) => find(v@.subrange(lo as int, hi as int), p@) == Some(i as int),
            None => find(v@.subrange(lo as int, hi as int), p@) is None,
        },
{
    let ghost s = v@.subrange(lo as int, hi as int);
    if p.len() > hi - lo {
        proof {
            assert forall|j: int| !occurs_at(s, p@, j) by {}
            lemma_find_none(s, p@);
        }
        return None;
    }
    if p.len() == 0 {
        proof {
            assert(s.take(0) =~= p@);
        }
        return Some(0);
    }
    let last = hi - lo - p.len();
    let mut i: usize = 0;
    while i <= last
        invariant
            lo <= hi <= v@.len(),
            1 <= p@.len() <= hi - lo,
            last == hi - lo - p@.len(),
            s == v@.subrange(lo as int, hi as int),
            0 <= i <= hi - lo + 1,
            forall|j: int| 0 <= j < i ==> !occurs_at(s, p@, j),
        decreases hi - lo + 1 - i,
    {
        if matches_at(v, lo, hi, i, p) {
            proof { lemma_find_unique(s, p@, i as int); }
            return Some(i);
        }
        i += 1;
    }
    proof {
        assert forall|j: int| !occurs_at(s, p@, j) by {
            if 0 <= j < i {
            }
        }
        lemma_find_none(s, p@);
    }
    None
}

/// `v[lo..hi]` starts with the characters of `t`.
pub fn starts_with_str(v: &Vec<char>, lo: usize, hi: usize, t: &str) -> (r: bool)
    requires
        lo <= hi <= v@.len(),
    ensures
        r == starts_with(v@.subrange(lo as int, hi as int), t@),
        r ==> lo + t@.len() <= hi,
{
    let p = chars_of(t);
    starts_with_at(v, lo, hi, p.as_slice())
}

/// `v[lo..hi]` starts with `p`.
pub fn starts_with_at(v: &Vec<char>, lo: usize, hi: usize, p: &[char]) -> (r: bool)
    requires
        lo <= hi <= v@.len(),
    ensures
        r == starts_with(v@.subrange(lo as int, hi as int), p@),
{
    let r = matches_at(v, lo, hi, 0, p);
    proof {
        let s = v@.subrange(lo as int, hi as int);
        if p@.len() <= s.len() {
            assert(s.subrange(0, p@.len() as int) == s.take(p@.len() as int));
        }
    }
    r
}


// ───────────────────────── lines ─────────────────────────

/// A line without its carriage return, as `str::lines` gives it back when
/// the line was ended by `\r\n`.
pub open spec fn strip_cr(l: Seq<char>) -> Seq<char> {
    if l.len() > 0 && l.last() == '\r' {
        l.drop_last()
    } else {
        l
    }
}

/// The lines of `s`, as `str::lines` splits them: at each `\n`, dropping a
/// `\r` just before it; a final line ending adds no empty line.
pub open spec fn lines(s: Seq<char>) -> Seq<Seq<char>>
    decreases s.len(),
{
    if s.len() == 0 {
        seq![]
    } else {
        match find(s, seq!['\n']) {
            Some(i) => {
                proof {
                    lemma_find(s, seq!['\n']);
                }
                seq![strip_cr(s.take(i))] + lines(s.skip(i + 1))
            },
            None => seq![s],
        }
    }
}

/// The pieces of `v` that a list of index ranges picks out.
pub open spec fn pieces(v: Seq<char>, r: Seq<(usize, usize)>) -> Seq<Seq<char>> {
    r.map_values(|p: (usize, usize)| v.subrange(p.0 as int, p.1 as int))
}

/// All ranges lie within `lo..hi`.
pub open spec fn ranges_within(r: Seq<(usize, usize)>, lo: int, hi: int) -> bool {
    forall|k: int| 0 <= k < r.len() ==> lo <= (#[trigger] r[k]).0 <= r[k].1 <= hi
}

/// The index ranges of the lines of `v[lo..hi]`.
pub fn line_ranges(v: &Vec<char>, lo: usize, hi: usize) -> (r: Vec<(usize, usize)>)
    requires
        lo <= hi <= v@.len(),
    ensures
        ranges_within(r@, lo as int, hi as int),
        pieces(v@, r@) == lines(v@.subrange(lo as int, hi as int)),
{
    let mut r: Vec<(usize, usize)> = Vec::new();
    let mut pos = lo;
    let ghost whole = v@.subrange(lo as int, hi as int);
    while pos < hi
        invariant
            lo <= pos <= hi <= v@.len(),
            whole == v@.subrange(lo as int, hi as int),
            ranges_within(r@, lo as int, hi as int),
            lines(whole) == pieces(v@, r@) + lines(v@.subrange(pos as int, hi as int)),
        decreases hi - pos,
    {
        let ghost sub = v@.subrange(pos as int, hi as int);
        let ghost old_r = r@;
        let nl: [char; 1] = ['\n'];
        let found = find_in(v, pos, hi, &nl);
        proof {
            assert(nl@ =~= seq!['\n']);
        }
        match found {
            Some(i) => {
                proof {
                    lemma_find(sub, seq!['\n']);
                }
                let mut end = pos + i;
                if i > 0 && v[end - 1] == '\r' {
                    end = end - 1;
                }
                r.push((pos, end));
                proof {
                    assert(v@.subrange(pos as int, end as int) == strip_cr(sub.take(i as int))) by {
                        if i > 0 && v@[pos + i - 1] == '\r' {
                            assert(v@.subrange(pos as int, end as int) =~= sub.take(i as int).drop_last());
                        } else {
                            assert(v@.subrange(pos as int, end as int) =~= sub.take(i as int));
                        }
                    }
                    assert(sub.skip(i + 1) =~= v@.subrange(pos + i + 1, hi as int));
                    assert(pieces(v@, r@) =~= pieces(v@, old_r).push(v@.subrange(pos as int, end as int)));
                    assert(lines(sub) == seq![strip_cr(sub.take(i as int))] + lines(sub.skip(i + 1)));
                    assert(pieces(v@, old_r) + lines(sub) =~= pieces(v@, r@) + lines(sub.skip(i + 1)));
                }
                pos = pos + i + 1;
            },
            None => {
                r.push((pos, hi));
                proof {
                    assert(pieces(v@, r@) =~= pieces(v@, old_r).push(sub));
                    assert(lines(sub) == seq![sub]);
                    assert(v@.subrange(hi as int, hi as int) =~= Seq::<char>::empty());
                    assert(lines(v@.subrange(hi as int, hi as int)) =~= Seq::<Seq<char>>::empty());
                    assert(pieces(v@, old_r) + lines(sub) =~= pieces(v@, r@) + lines(v@.subrange(hi as int, hi as int)));
                }
                pos = hi;
            },
        }
    }
    proof {
        assert(v@.subrange(pos as int, hi as int) =~= Seq::<char>::empty());
        assert(pieces(v@, r@) + lines(v@.subrange(pos as int, hi as int)) =~= pieces(v@, r@));
    }
    r
}

/// The pieces of `s` between the copies of `c` (`str::split(c)`); there is
/// always at least one.
pub open spec fn split(s: Seq<char>, c: char) -> Seq<Seq<char>>
    decreases s.len(),
{
    match find(s, seq![c]) {
        Some(i) => {
            proof {
                lemma_find(s, seq![c]);
            }
            seq![s.take(i)] + split(s.skip(i + 1), c)
        },
        None => seq![s],
    }
}

/// The index ranges of the pieces of `v[lo..hi]` between copies of `c`.
pub fn split_ranges(v: &Vec<char>, lo: usize, hi: usize, c: char) -> (r: Vec<(usize, usize)>)
    requires
        lo <= hi <= v@.len(),
    ensures
        ranges_within(r@, lo as int, hi as int),
        pieces(v@, r@) == split(v@.subrange(lo as int, hi as int), c),
{
    let mut r: Vec<(usize, usize)> = Vec::new();
    let mut pos = lo;
    let ghost whole = v@.subrange(lo as int, hi as int);
    let pat: [char; 1] = [c];
    proof {
        assert(pat@ =~= seq![c]);
    }
    loop
        invariant
            lo <= pos <= hi <= v@.len(),
            whole == v@.subrange(lo as int, hi as int),
            pat@ == seq![c],
            ranges_within(r@, lo as int, hi as int),
            split(whole, c) == pieces(v@, r@) + split(v@.subrange(pos as int, hi as int), c),
        decreases hi - pos,
    {
        let ghost sub = v@.subrange(pos as int, hi as int);
        let ghost old_r = r@;
        match find_in(v, pos, hi, &pat) {
            Some(i) => {
                proof {
                    lemma_find(sub, seq![c]);
                }
                r.push((pos, pos + i));
                proof {
                    assert(v@.subrange(pos as int, pos + i) =~= sub.take(i as int));
                    assert(sub.skip(i + 1) =~= v@.subrange(pos + i + 1, hi as int));
                    assert(pieces(v@, r@) =~= pieces(v@, old_r).push(sub.take(i as int)));
                    assert(pieces(v@, old_r) + split(sub, c) =~= pieces(v@, r@) + split(sub.skip(i + 1), c));
                }
                pos = pos + i + 1;
            },
            None => {
                r.push((pos, hi));
                proof {
                    assert(pieces(v@, r@) =~= pieces(v@, old_r).push(sub));
                    assert(pieces(v@, old_r) + split(sub, c) =~= pieces(v@, r@));
                }
                return r;
            },
        }
    }
}

// ───────────────────────── whitespace and trimming ─────────────────────────

/// Unicode `White_Space`, the set that `char::is_whitespace` tests.
pub open spec fn is_ws(c: char) -> bool {
    ||| ('\u{9}' <= c && c <= '\u{d}')
    ||| c == ' '
    ||| c == '\u{85}'
    ||| c == '\u{a0}'
    ||| c == '\u{1680}'
    ||| ('\u{2000}' <= c && c <= '\u{200a}')
    ||| c == '\u{2028}'
    ||| c == '\u{2029}'
    ||| c == '\u{202f}'
    ||| c == '\u{205f}'
    ||| c == '\u{3000}'
}

/// `char::is_whitespace`.
pub fn is_whitespace(c: char) -> (r: bool)
    ensures
        r == is_ws(c),
{
    ('\u{9}' <= c && c <= '\u{d}') || c == ' ' || c == '\u{85}' || c == '\u{a0}' || c == '\u{1680}'
        || ('\u{2000}' <= c && c <= '\u{200a}') || c == '\u{2028}' || c == '\u{2029}' || c
        == '\u{202f}' || c == '\u{205f}' || c == '\u{3000}'
}

/// `s` without leading whitespace (`str::trim_start`).
pub open spec fn trim_start(s: Seq<char>) -> Seq<char>
    decreases s.len(),
{
    if s.len() > 0 && is_ws(s[0]) {
        trim_start(s.drop_first())
    } else {
        s
    }
}

/// `s` without trailing whitespace (`str::trim_end`).
pub open spec fn trim_end(s: Seq<char>) -> Seq<char>
    decreases s.len(),
{
    if s.len() > 0 && is_ws(s.last()) {
        trim_end(s.drop_last())
    } else {
        s
    }
}

/// `s` without leading or trailing whitespace (`str::trim`).
pub open spec fn trim(s: Seq<char>) -> Seq<char> {
    trim_end(trim_start(s))
}

/// `s` without leading copies of `c`.
pub open spec fn trim_start_char(s: Seq<char>, c: char) -> Seq<char>
    decreases s.len(),
{
    if s.len() > 0 && s[0] == c {
        trim_start_char(s.drop_first(), c)
    } else {
        s
    }
}

/// `s` without trailing copies of `c`.
pub open spec fn trim_end_char(s: Seq<char>, c: char) -> Seq<char>
    decreases s.len(),
{
    if s.len() > 0 && s.last() == c {
        trim_end_char(s.drop_last(), c)
    } else {
        s
    }
}

/// `s` without leading or trailing copies of `c` (`str::trim_matches(c)`).
pub open spec fn trim_char(s: Seq<char>, c: char) -> Seq<char> {
    trim_end_char(trim_start_char(s, c), c)
}

/// Bounds of `v[lo..hi]` with leading whitespace removed.
pub fn trim_start_bound(v: &Vec<char>, lo: usize, hi: usize) -> (a: usize)
    requires
        lo <= hi <= v@.len(),
    ensures
        lo <= a <= hi,
        v@.subrange(a as int, hi as int) == trim_start(v@.subrange(lo as int, hi as int)),
{
    let mut i = lo;
    while i < hi && is_whitespace(v[i])
        invariant
            lo <= i <= hi <= v@.len(),
            trim_start(v@.subrange(lo as int, hi as int)) == trim_start(v@.subrange(i as int, hi as int)),
        decreases hi - i,
    {
        assert(v@.subrange(i as int, hi as int).drop_first() =~= v@.subrange(i + 1, hi as int));
        i += 1;
    }
    i
}

/// Bounds of `v[lo..hi]` with trailing whitespace removed.
pub fn trim_end_bound(v: &Vec<char>, lo: usize, hi: usize) -> (b: usize)
    requires
        lo <= hi <= v@.len(),
    ensures
        lo <= b <= hi,
        v@.subrange(lo as int, b as int) == trim_end(v@.subrange(lo as int, hi as int)),
{
    let mut j = hi;
    while j > lo && is_whitespace(v[j - 1])
        invariant
            lo <= j <= hi <= v@.len(),
            trim_end(v@.subrange(lo as int, hi as int)) == trim_end(v@.subrange(lo as int, j as int)),
        decreases j - lo,
    {
        assert(v@.subrange(lo as int, j as int).drop_last() =~= v@.subrange(lo as int, j - 1));
        j -= 1;
    }
    j
}

/// `s` trimmed of whitespace on both sides (`str::trim`).
pub fn trimmed(s: &str) -> (r: String)
    ensures
        r@ == trim(s@),
{
    let v = chars_of(s);
    let (a, b) = trim_bounds(&v, 0, v.len());
    assert(v@.subrange(0, v@.len() as int) =~= s@);
    string_of(&v, a, b)
}

/// Bounds of `v[lo..hi]` trimmed of whitespace on both sides.
pub fn trim_bounds(v: &Vec<char>, lo: usize, hi: usize) -> (r: (usize, usize))
    requires
        lo <= hi <= v@.len(),
    ensures
        lo <= r.0 <= r.1 <= hi,
        v@.subrange(r.0 as int, r.1 as int) == trim(v@.subrange(lo as int, hi as int)),
{
    let a = trim_start_bound(v, lo, hi);
    let b = trim_end_bound(v, a, hi);
    (a, b)
}

/// Bounds of `v[lo..hi]` trimmed of copies of `c` on both sides.
pub fn trim_char_bounds(v: &Vec<char>, lo: usize, hi: usize, c: char) -> (r: (usize, usize))
    requires
        lo <= hi <= v@.len(),
    ensures
        lo <= r.0 <= r.1 <= hi,
        v@.subrange(r.0 as int, r.1 as int) == trim_char(v@.subrange(lo as int, hi as int), c),
{
    let mut i = lo;
    while i < hi && v[i] == c
        invariant
            lo <= i <= hi <= v@.len(),
            trim_start_char(v@.subrange(lo as int, hi as int), c) == trim_start_char(v@.subrange(i as int, hi as int), c),
        decreases hi - i,
    {
        assert(v@.subrange(i as int, hi as int).drop_first() =~= v@.subrange(i + 1, hi as int));
        i += 1;
    }
    let mut j = hi;
    while j > i && v[j - 1] == c
        invariant
            lo <= i <= j <= hi <= v@.len(),
            trim_start_char(v@.subrange(lo as int, hi as int), c) == v@.subrange(i as int, hi as int),
            trim_end_char(v@.subrange(i as int, hi as int), c) == trim_end_char(v@.subrange(i as int, j as int), c),
        decreases j - i,
    {
        assert(v@.subrange(i as int, j as int).drop_last() =~= v@.subrange(i as int, j - 1));
        j -= 1;
    }
    (i, j)
}


// ───────────────────────── facts about trimming, splitting and lines ─────────

/// `s` holds no copy of `c`.
pub open spec fn lacks(s: Seq<char>, c: char) -> bool {
    forall|i: int| 0 <= i < s.len() ==> s[i] != c
}

pub proof fn lemma_trim_start_space(x: Seq<char>)
    ensures
        trim_start(seq![' '] + x) == trim_start(x),
{
    assert((seq![' '] + x).drop_first() =~= x);
}

pub proof fn lemma_trim_start_keeps(x: Seq<char>)
    requires
        x.len() == 0 || !is_ws(x[0]),
    ensures
        trim_start(x) == x,
{
}

/// Trimming leading whitespace twice trims no more than once.
pub proof fn lemma_trim_start_twice(x: Seq<char>)
    ensures
        trim_start(trim_start(x)) == trim_start(x),
    decreases x.len(),
{
    if x.len() > 0 && is_ws(x[0]) {
        lemma_trim_start_twice(x.drop_first());
    }
}

pub proof fn lemma_trim_end_keeps(x: Seq<char>)
    requires
        x.len() == 0 || !is_ws(x.last()),
    ensures
        trim_end(x) == x,
{
}

pub proof fn lemma_trim_char_keeps(x: Seq<char>, c: char)
    requires
        x.len() == 0 || (x[0] != c && x.last() != c),
    ensures
        trim_char(x, c) == x,
{
}

/// A value in one pair of quotes loses them.
pub proof fn lemma_trim_char_wrapped(x: Seq<char>, c: char)
    requires
        lacks(x, c),
    ensures
        trim_char(seq![c] + x + seq![c], c) == x,
{
    let w = seq![c] + x + seq![c];
    assert(w[0] == c);
    assert(w.drop_first() =~= x + seq![c]);
    assert(trim_start_char(w, c) == trim_start_char(x + seq![c], c));
    if x.len() == 0 {
        assert(x + seq![c] =~= seq![c]);
        assert(seq![c][0] == c);
        assert(seq![c].drop_first() =~= Seq::<char>::empty());
        assert(trim_start_char(seq![c], c) == trim_start_char(Seq::<char>::empty(), c));
        assert(trim_start_char(w, c) =~= Seq::<char>::empty());
    } else {
        assert((x + seq![c])[0] == x[0]);
        assert(x[0] != c);
        assert(trim_start_char(w, c) == x + seq![c]);
        assert((x + seq![c]).last() == c);
        assert((x + seq![c]).drop_last() =~= x);
        assert(x[x.len() - 1] != c);
        assert(trim_end_char(x + seq![c], c) == trim_end_char(x, c));
    }
}

/// Splitting at the first copy of `c` after a piece without one.
pub proof fn lemma_split_concat(a: Seq<char>, b: Seq<char>, c: char)
    ensures
        split(a + seq![c] + b, c) == split(a, c) + split(b, c),
    decreases a.len(),
{
    let w = a + seq![c] + b;
    lemma_find(w, seq![c]);
    lemma_find(a, seq![c]);
    match find(a, seq![c]) {
        None => {
            assert(occurs_at(w, seq![c], a.len() as int)) by {
                assert(w.subrange(a.len() as int, a.len() as int + 1) =~= seq![c]);
            }
            assert forall|j: int| 0 <= j < a.len() implies !occurs_at(w, seq![c], j) by {
                if occurs_at(w, seq![c], j) {
                    assert(w.subrange(j, j + 1)[0] == w[j]);
                    assert(occurs_at(a, seq![c], j)) by {
                        assert(a.subrange(j, j + 1) =~= w.subrange(j, j + 1));
                    }
                }
            }
            lemma_find_unique(w, seq![c], a.len() as int);
            assert(w.take(a.len() as int) =~= a);
            assert(w.skip(a.len() as int + 1) =~= b);
            assert(split(a, c) == seq![a]);
        },
        Some(i) => {
            let a2 = a.skip(i + 1);
            assert(occurs_at(w, seq![c], i)) by {
                assert(w.subrange(i, i + 1) =~= a.subrange(i, i + 1));
            }
            assert forall|j: int| 0 <= j < i implies !occurs_at(w, seq![c], j) by {
                if occurs_at(w, seq![c], j) {
                    assert(j + 1 <= a.len());
                    assert(a.subrange(j, j + 1) =~= w.subrange(j, j + 1));
                    assert(occurs_at(a, seq![c], j));
                }
            }
            lemma_find_unique(w, seq![c], i);
            assert(w.take(i) =~= a.take(i));
            assert(w.skip(i + 1) =~= a2 + seq![c] + b);
            lemma_split_concat(a2, b, c);
            assert(split(a, c) == seq![a.take(i)] + split(a2, c));
            assert(split(w, c) =~= split(a, c) + split(b, c));
        },
    }
}

/// A piece without `c` splits into itself.
pub proof fn lemma_split_single(a: Seq<char>, c: char)
    requires
        lacks(a, c),
    ensures
        split(a, c) == seq![a],
{
    lemma_find(a, seq![c]);
    if let Some(i) = find(a, seq![c]) {
        assert(a.subrange(i, i + 1)[0] == a[i]);
    }
}

/// Lines joined by `\n`, front to back.
pub open spec fn join_nl(ls: Seq<Seq<char>>) -> Seq<char>
    decreases ls.len(),
{
    if ls.len() <= 1 {
        if ls.len() == 1 {
            ls[0]
        } else {
            seq![]
        }
    } else {
        ls[0] + seq!['\n'] + join_nl(ls.drop_first())
    }
}

/// Lines without breaks, joined by `\n`, split back into the same lines.
pub proof fn lemma_lines_join(ls: Seq<Seq<char>>)
    requires
        ls.len() > 0,
        forall|k: int| 0 <= k < ls.len() ==> (#[trigger] ls[k]).len() > 0 && lacks(ls[k], '\n') && lacks(ls[k], '\r'),
    ensures
        lines(join_nl(ls)) == ls,
    decreases ls.len(),
{
    let l0 = ls[0];
    lemma_find(l0, seq!['\n']);
    if let Some(i) = find(l0, seq!['\n']) {
        assert(l0.subrange(i, i + 1)[0] == l0[i]);
    }
    if ls.len() == 1 {
        assert(join_nl(ls) == l0);
        assert(lines(l0) == seq![l0]);
        assert(lines(join_nl(ls)) =~= ls);
    } else {
        let rest = ls.drop_first();
        let w = l0 + seq!['\n'] + join_nl(rest);
        assert(join_nl(ls) == w);
        assert(occurs_at(w, seq!['\n'], l0.len() as int)) by {
            assert(w.subrange(l0.len() as int, l0.len() as int + 1) =~= seq!['\n']);
        }
        assert forall|j: int| 0 <= j < l0.len() implies !occurs_at(w, seq!['\n'], j) by {
            if occurs_at(w, seq!['\n'], j) {
                assert(w.subrange(j, j + 1)[0] == w[j]);
                assert(w[j] == l0[j]);
            }
        }
        lemma_find_unique(w, seq!['\n'], l0.len() as int);
        assert(w.take(l0.len() as int) =~= l0);
        assert(w.skip(l0.len() as int + 1) =~= join_nl(rest));
        assert(strip_cr(l0) == l0) by {
            assert(l0[l0.len() - 1] != '\r');
        }
        assert forall|k: int| 0 <= k < rest.len() implies (#[trigger] rest[k]).len() > 0 && lacks(rest[k], '\n')
            && lacks(rest[k], '\r') by {
            assert(rest[k] == ls[k + 1]);
        }
        lemma_lines_join(rest);
        assert(lines(w) =~= ls);
    }
}

/// Lines without breaks, each followed by `\n`, split back into the same
/// lines.
pub proof fn lemma_lines_join_ended(ls: Seq<Seq<char>>)
    requires
        ls.len() > 0,
        forall|k: int| 0 <= k < ls.len() ==> (#[trigger] ls[k]).len() > 0 && lacks(ls[k], '\n') && lacks(ls[k], '\r'),
    ensures
        lines(join_nl(ls) + seq!['\n']) == ls,
    decreases ls.len(),
{
    let l0 = ls[0];
    let tail = if ls.len() == 1 {
        seq![]
    } else {
        join_nl(ls.drop_first()) + seq!['\n']
    };
    let w = l0 + seq!['\n'] + tail;
    assert(join_nl(ls) + seq!['\n'] =~= w);
    assert(occurs_at(w, seq!['\n'], l0.len() as int)) by {
        assert(w.subrange(l0.len() as int, l0.len() as int + 1) =~= seq!['\n']);
    }
    assert forall|j: int| 0 <= j < l0.len() implies !occurs_at(w, seq!['\n'], j) by {
        if occurs_at(w, seq!['\n'], j) {
            assert(w.subrange(j, j + 1)[0] == w[j]);
            assert(w[j] == l0[j]);
        }
    }
    lemma_find_unique(w, seq!['\n'], l0.len() as int);
    assert(w.take(l0.len() as int) =~= l0);
    assert(w.skip(l0.len() as int + 1) =~= tail);
    assert(strip_cr(l0) == l0) by {
        assert(l0[l0.len() - 1] != '\r');
    }
    if ls.len() == 1 {
        assert(lines(tail) == Seq::<Seq<char>>::empty());
    } else {
        let rest = ls.drop_first();
        assert forall|k: int| 0 <= k < rest.len() implies (#[trigger] rest[k]).len() > 0 && lacks(rest[k], '\n')
            && lacks(rest[k], '\r') by {
            assert(rest[k] == ls[k + 1]);
        }
        lemma_lines_join_ended(rest);
    }
    assert(lines(w) =~= ls);
}

/// An occurrence seen from a later starting point.
pub proof fn lemma_occurs_skip(s: Seq<char>, p: Seq<char>, i: int, k: int)
    requires
        0 <= k <= i,
        k <= s.len(),
    ensures
        occurs_at(s, p, i) == occurs_at(s.skip(k), p, i - k),
{
    if i + p.len() <= s.len() {
        assert(s.subrange(i, i + p.len()) =~= s.skip(k).subrange(i - k, i - k + p.len()));
    }
}

// ───────────────────────── UTF-8 sizes and chunking ─────────────────────────

/// Number of bytes of `c` in UTF-8 (`char::len_utf8`).
pub open spec fn char_len(c: char) -> nat {
    if (c as u32) <= 0x7f {
        1
    } else if (c as u32) <= 0x7ff {
        2
    } else if (c as u32) <= 0xffff {
        3
    } else {
        4
    }
}

/// Number of bytes of `s` in UTF-8 (`str::len`).
pub open spec fn utf8_len(s: Seq<char>) -> nat
    decreases s.len(),
{
    if s.len() == 0 {
        0
    } else {
        char_len(s[0]) + utf8_len(s.drop_first())
    }
}

/// How many leading characters of `s` fit in `max` bytes.
pub open spec fn fit_count(s: Seq<char>, max: nat) -> nat
    decreases s.len(),
{
    if s.len() > 0 && char_len(s[0]) <= max {
        1 + fit_count(s.drop_first(), (max - char_len(s[0])) as nat)
    } else {
        0
    }
}

/// The longest prefix of `s` of at most `max` bytes that ends on a
/// character boundary.
pub open spec fn truncated(s: Seq<char>, max: nat) -> Seq<char> {
    s.take(fit_count(s, max) as int)
}

/// The pieces that `s` is cut into so that none exceeds `max` bytes: the
/// whole of `s` if it fits, else the longest fitting prefix followed by the
/// pieces of the rest.
pub open spec fn chunks(s: Seq<char>, max: nat) -> Seq<Seq<char>>
    decreases s.len(),
{
    if utf8_len(s) <= max || fit_count(s, max) == 0 {
        seq![s]
    } else {
        proof {
            lemma_fit_count(s, max);
        }
        seq![s.take(fit_count(s, max) as int)] + chunks(s.skip(fit_count(s, max) as int), max)
    }
}

/// The concatenation of a sequence of strings.
pub open spec fn concat(parts: Seq<Seq<char>>) -> Seq<char>
    decreases parts.len(),
{
    if parts.len() == 0 {
        seq![]
    } else {
        parts[0] + concat(parts.drop_first())
    }
}

pub proof fn lemma_char_len_bounds(c: char)
    ensures
        1 <= char_len(c) <= 4,
{
}

pub proof fn lemma_utf8_len_concat(a: Seq<char>, b: Seq<char>)
    ensures
        utf8_len(a + b) == utf8_len(a) + utf8_len(b),
    decreases a.len(),
{
    if a.len() == 0 {
        assert(a + b =~= b);
    } else {
        assert((a + b).drop_first() =~= a.drop_first() + b);
        lemma_utf8_len_concat(a.drop_first(), b);
    }
}

pub proof fn lemma_utf8_len_at_least_len(s: Seq<char>)
    ensures
        s.len() <= utf8_len(s),
    decreases s.len(),
{
    if s.len() > 0 {
        lemma_utf8_len_at_least_len(s.drop_first());
    }
}

/// `fit_count` lies within the string, fits the budget, and cannot be
/// extended by one more character.
pub proof fn lemma_fit_count(s: Seq<char>, max: nat)
    ensures
        fit_count(s, max) <= s.len(),
        utf8_len(s.take(fit_count(s, max) as int)) <= max,
        fit_count(s, max) < s.len() ==> utf8_len(s.take(fit_count(s, max) as int + 1)) > max,
        utf8_len(s) <= max ==> fit_count(s, max) == s.len(),
    decreases s.len(),
{
    if s.len() > 0 && char_len(s[0]) <= max {
        let rest = s.drop_first();
        let m2 = (max - char_len(s[0])) as nat;
        lemma_fit_count(rest, m2);
        let k = fit_count(rest, m2);
        assert(s.take(k as int + 1).drop_first() =~= rest.take(k as int));
        if k < rest.len() {
            assert(s.take(k as int + 2).drop_first() =~= rest.take(k as int + 1));
        }
    } else if s.len() > 0 {
        assert(s.take(1).drop_first() =~= Seq::<char>::empty());
        assert(s.take(0) =~= Seq::<char>::empty());
        lemma_utf8_len_at_least_len(s.drop_first());
    } else {
        assert(s.take(0) =~= Seq::<char>::empty());
    }
}

/// Every character of `s` takes at most `max` bytes.
pub open spec fn chars_fit(s: Seq<char>, max: nat) -> bool {
    forall|i: int| 0 <= i < s.len() ==> char_len(#[trigger] s[i]) <= max
}

/// No character takes more than four bytes.
pub proof fn lemma_chars_fit(s: Seq<char>, max: nat)
    requires
        max >= 4,
    ensures
        chars_fit(s, max),
{
    assert forall|i: int| 0 <= i < s.len() implies char_len(#[trigger] s[i]) <= max by {
        lemma_char_len_bounds(s[i]);
    }
}

pub proof fn lemma_fit_count_bounds(s: Seq<char>, max: nat)
    requires
        s.len() > 0,
        char_len(s[0]) <= max,
    ensures
        1 <= fit_count(s, max) <= s.len(),
{
    lemma_fit_count(s, max);
}

pub proof fn lemma_concat_single(s: Seq<char>)
    ensures
        concat(seq![s]) == s,
{
    assert(seq![s].drop_first() =~= Seq::<Seq<char>>::empty());
    assert(concat(Seq::<Seq<char>>::empty()) == Seq::<char>::empty());
    assert(s + Seq::<char>::empty() =~= s);
}

/// Cutting into chunks loses nothing and keeps every piece within `max`
/// bytes.
pub proof fn lemma_chunks(s: Seq<char>, max: nat)
    requires
        utf8_len(s) <= max || chars_fit(s, max),
    ensures
        concat(chunks(s, max)) == s,
        chunks(s, max).len() >= 1,
        forall|i: int| 0 <= i < chunks(s, max).len() ==> utf8_len(#[trigger] chunks(s, max)[i]) <= max,
    decreases s.len(),
{
    if utf8_len(s) <= max {
        lemma_concat_single(s);
    } else {
        lemma_fit_count_bounds(s, max);
        lemma_fit_count(s, max);
        let k = fit_count(s, max) as int;
        assert(chars_fit(s.skip(k), max)) by {
            assert forall|i: int| 0 <= i < s.skip(k).len() implies char_len(#[trigger] s.skip(k)[i]) <= max by {
                assert(s.skip(k)[i] == s[k + i]);
            }
        }
        lemma_chunks(s.skip(k), max);
        let c = chunks(s, max);
        assert(c == seq![s.take(k)] + chunks(s.skip(k), max));
        assert(c.drop_first() =~= chunks(s.skip(k), max));
        assert(s.take(k) + s.skip(k) =~= s);
        assert forall|i: int| 0 <= i < c.len() implies utf8_len(#[trigger] c[i]) <= max by {
            if i > 0 {
                assert(c[i] == chunks(s.skip(k), max)[i - 1]);
            }
        }
    }
}

/// Number of UTF-8 bytes of `c`.
pub fn char_len_utf8(c: char) -> (n: usize)
    ensures
        n == char_len(c),
{
    let u = c as u32;
    if u <= 0x7f {
        1
    } else if u <= 0x7ff {
        2
    } else if u <= 0xffff {
        3
    } else {
        4
    }
}

/// Whether `v[lo..hi]` takes at most `max` bytes.
pub fn fits_in(v: &Vec<char>, lo: usize, hi: usize, max: usize) -> (r: bool)
    requires
        lo <= hi <= v@.len(),
    ensures
        r == (utf8_len(v@.subrange(lo as int, hi as int)) <= max),
{
    let k = fit_prefix(v, lo, hi, max);
    proof {
        let s = v@.subrange(lo as int, hi as int);
        lemma_fit_count(s, max as nat);
        if k < hi - lo {
            lemma_utf8_len_concat(s.take(k + 1), s.skip(k + 1));
            assert(s.take(k + 1) + s.skip(k + 1) =~= s);
        } else {
            assert(s.take(k as int) =~= s);
        }
    }
    k == hi - lo
}

/// `fit_count` of `v[lo..hi]`.
pub fn fit_prefix(v: &Vec<char>, lo: usize, hi: usize, max: usize) -> (k: usize)
    requires
        lo <= hi <= v@.len(),
    ensures
        k == fit_count(v@.subrange(lo as int, hi as int), max as nat),
        k <= hi - lo,
{
    let mut i = lo;
    let mut budget = max;
    while i < hi && char_len_utf8(v[i]) <= budget
        invariant
            lo <= i <= hi <= v@.len(),
            budget <= max,
            fit_count(v@.subrange(lo as int, hi as int), max as nat) == (i - lo) + fit_count(
                v@.subrange(i as int, hi as int),
                budget as nat,
            ),
        decreases hi - i,
    {
        assert(v@.subrange(i as int, hi as int).drop_first() =~= v@.subrange(i + 1, hi as int));
        budget = budget - char_len_utf8(v[i]);
        i += 1;
    }
    i - lo
}

/// Cuts `v[lo..hi]` into pieces of at most `max` bytes, each ending on a
/// character boundary (the text itself if it fits).
pub fn chunk_range(v: &Vec<char>, lo: usize, hi: usize, max: usize) -> (r: Vec<String>)
    requires
        lo <= hi <= v@.len(),
        utf8_len(v@.subrange(lo as int, hi as int)) <= max || chars_fit(v@.subrange(lo as int, hi as int), max as nat),
    ensures
        r@.map_values(|c: String| c@) == chunks(v@.subrange(lo as int, hi as int), max as nat),
{
    let mut r: Vec<String> = Vec::new();
    let mut start = lo;
    loop
        invariant
            lo <= start <= hi <= v@.len(),
            utf8_len(v@.subrange(start as int, hi as int)) <= max || chars_fit(
                v@.subrange(start as int, hi as int),
                max as nat,
            ),
            chunks(v@.subrange(lo as int, hi as int), max as nat) == r@.map_values(|c: String| c@) + chunks(
                v@.subrange(start as int, hi as int),
                max as nat,
            ),
        decreases hi - start,
    {
        let ghost sub = v@.subrange(start as int, hi as int);
        let ghost old_r = r@;
        if fits_in(v, start, hi, max) {
            r.push(string_of(v, start, hi));
            proof {
                assert(r@.map_values(|c: String| c@) =~= old_r.map_values(|c: String| c@).push(sub));
            }
            return r;
        }
        let k = fit_prefix(v, start, hi, max);
        proof {
            lemma_fit_count_bounds(sub, max as nat);
            let rest = v@.subrange(start + k, hi as int);
            assert forall|i: int| 0 <= i < rest.len() implies char_len(#[trigger] rest[i]) <= max by {
                assert(rest[i] == sub[k + i]);
            }
        }
        r.push(string_of(v, start, start + k));
        proof {
            assert(sub.take(k as int) =~= v@.subrange(start as int, start + k));
            assert(sub.skip(k as int) =~= v@.subrange(start + k, hi as int));
            assert(r@.map_values(|c: String| c@) =~= old_r.map_values(|c: String| c@).push(sub.take(k as int)));
            assert(old_r.map_values(|c: String| c@) + chunks(sub, max as nat) =~= r@.map_values(
                |c: String| c@,
            ) + chunks(sub.skip(k as int), max as nat));
        }
        start = start + k;
    }
}

/// `chunk_str`: cuts `text` into pieces of at most `max` bytes, each ending
/// on a character boundary; a text that fits is kept whole. A text that
/// does not fit must not hold a character wider than `max` bytes (no piece
/// could hold it).
pub fn chunk_str(text: &str, max: usize) -> (r: Vec<String>)
    requires
        utf8_len(text@) <= max || chars_fit(text@, max as nat),
    ensures
        r@.map_values(|c: String| c@) == chunks(text@, max as nat),
{
    let v = chars_of(text);
    assert(v@.subrange(0, v@.len() as int) =~= text@);
    let r = chunk_range(&v, 0, v.len(), max);
    proof {
        assert(v@.subrange(0, v@.len() as int) =~= text@);
    }
    r
}

/// `truncate`: the longest prefix of `v[lo..hi]` of at most `max` bytes,
/// as an end index.
pub fn truncate_end(v: &Vec<char>, lo: usize, hi: usize, max: usize) -> (e: usize)
    requires
        lo <= hi <= v@.len(),
    ensures
        lo <= e <= hi,
        v@.subrange(lo as int, e as int) == truncated(v@.subrange(lo as int, hi as int), max as nat),
{
    let k = fit_prefix(v, lo, hi, max);
    proof {
        assert(v@.subrange(lo as int, lo + k) =~= v@.subrange(lo as int, hi as int).take(k as int));
    }
    lo + k
}

/// `truncate`: the longest prefix of `text` of at most `max` bytes that
/// ends on a character boundary.
pub fn truncate(text: &str, max: usize) -> (r: String)
    ensures
        r@ == truncated(text@, max as nat),
{
    let v = chars_of(text);
    let e = truncate_end(&v, 0, v.len(), max);
    proof {
        assert(v@.subrange(0, v@.len() as int) =~= text@);
    }
    string_of(&v, 0, e)
}


// ───────────────────────── numbers ─────────────────────────

pub open spec fn digit_char(d: nat) -> char {
    seq!['0', '1', '2', '3', '4', '5', '6', '7', '8', '9'][d as int]
}

/// The decimal digits of `n` (as `usize`'s `Display` writes them).
pub open spec fn decimal(n: nat) -> Seq<char>
    decreases n,
{
    if n < 10 {
        seq![digit_char(n)]
    } else {
        decimal(n / 10) + seq![digit_char(n % 10)]
    }
}

/// The decimal digits of `n`.
pub fn decimal_string(n: usize) -> (r: String)
    ensures
        r@ == decimal(n as nat),
    decreases n,
{
    let digits: [char; 10] = ['0', '1', '2', '3', '4', '5', '6', '7', '8', '9'];
    assert(digits@ =~= seq!['0', '1', '2', '3', '4', '5', '6', '7', '8', '9']);
    if n < 10 {
        let mut s = String::new();
        push_char(&mut s, digits[n]);
        assert(s@ =~= decimal(n as nat));
        s
    } else {
        let mut s = decimal_string(n / 10);
        push_char(&mut s, digits[n % 10]);
        assert(s@ =~= decimal(n as nat));
        s
    }
}

// ───────────────────────── Unicode case and classes ─────────────────────────

/// What `str::to_lowercase` gives back for a string.
pub uninterp spec fn lowercase(s: Seq<char>) -> Seq<char>;

/// `str::to_lowercase`; its result is named `lowercase` of the argument.
#[verifier::external_body]
pub(crate) fn to_lowercase(s: &str) -> (r: String)
    ensures
        r@ == lowercase(s@),
{
    s.to_lowercase()
}

/// What `char::is_alphanumeric` says of a character.
pub uninterp spec fn alphanumeric(c: char) -> bool;

/// `char::is_alphanumeric`; its result is named `alphanumeric` of the
/// argument.
#[verifier::external_body]
pub(crate) fn is_alphanumeric(c: char) -> (r: bool)
    ensures
        r == alphanumeric(c),
{
    c.is_alphanumeric()
}

/// `char::is_ascii_digit`.
pub open spec fn is_digit(c: char) -> bool {
    '0' <= c && c <= '9'
}

/// `char::is_ascii_digit`.
pub fn is_ascii_digit(c: char) -> (r: bool)
    ensures
        r == is_digit(c),
{
    '0' <= c && c <= '9'
}


// ───────────────────────── lists of lines ─────────────────────────

/// No lines.
pub fn no_lines() -> (r: Vec<String>)
    ensures
        strs_view(r@) == Seq::<Seq<char>>::empty(),
{
    let r: Vec<String> = Vec::new();
    assert(strs_view(r@) =~= Seq::<Seq<char>>::empty());
    r
}

/// `lines` with `l` added at the end.
pub fn add_line(lines: &mut Vec<String>, l: String)
    ensures
        strs_view(final(lines)@) == strs_view(old(lines)@).push(l@),
{
    lines.push(l);
    assert(strs_view(lines@) =~= strs_view(old(lines)@).push(l@));
}

/// The one line `a`.
pub fn one_line(a: String) -> (r: Vec<String>)
    ensures
        strs_view(r@) == seq![a@],
{
    let mut r = no_lines();
    add_line(&mut r, a);
    assert(strs_view(r@) =~= seq![a@]);
    r
}

/// The lines `a` and `b`.
pub fn two_lines(a: String, b: String) -> (r: Vec<String>)
    ensures
        strs_view(r@) == seq![a@, b@],
{
    let mut r = one_line(a);
    add_line(&mut r, b);
    assert(strs_view(r@) =~= seq![a@, b@]);
    r
}

} // verus!
