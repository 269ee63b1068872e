//! Character-level model shared by every module.
//!
//! The mathematical view of a string is its `Seq<char>`. The spec functions
//! here say, over that view, what the standard string operations the agent
//! relies on compute (`trim`, `lines`, `split`, `split_whitespace`, `find`,
//! `join`), and the executable helpers are proved against them.
use vstd::prelude::*;

verus! {

// ── Character classes ───────────────────────────────────────────────────

/// `c` is an ASCII letter or digit.
pub open spec fn is_alnum(c: char) -> bool {
    ('a' <= c && c <= 'z') || ('A' <= c && c <= 'Z') || ('0' <= c && c <= '9')
}

/// `c` is an ASCII decimal digit.
pub open spec fn is_digit(c: char) -> bool {
    '0' <= c && c <= '9'
}

/// `c` is an ASCII lowercase letter.
pub open spec fn is_lower(c: char) -> bool {
    'a' <= c && c <= 'z'
}

/// `c` is an ASCII hexadecimal digit, either case.
pub open spec fn is_hex(c: char) -> bool {
    is_digit(c) || ('a' <= c && c <= 'f') || ('A' <= c && c <= 'F')
}

/// Unicode `White_Space`, the set `char::is_whitespace` tests.
pub open spec fn is_ws(c: char) -> bool {
    c == '\t' || c == '\n' || c == '\u{b}' || c == '\u{c}' || c == '\r' || c == ' '
        || c == '\u{85}' || c == '\u{a0}' || c == '\u{1680}'
        || ('\u{2000}' <= c && c <= '\u{200a}')
        || c == '\u{2028}' || c == '\u{2029}' || c == '\u{202f}' || c == '\u{205f}'
        || c == '\u{3000}'
}

pub fn alnum(c: char) -> (r: bool)
    ensures r == is_alnum(c),
{
    ('a' <= c && c <= 'z') || ('A' <= c && c <= 'Z') || ('0' <= c && c <= '9')
}

pub fn digit(c: char) -> (r: bool)
    ensures r == is_digit(c),
{
    '0' <= c && c <= '9'
}

pub fn lower(c: char) -> (r: bool)
    ensures r == is_lower(c),
{
    'a' <= c && c <= 'z'
}

pub fn hex(c: char) -> (r: bool)
    ensures r == is_hex(c),
{
    ('0' <= c && c <= '9') || ('a' <= c && c <= 'f') || ('A' <= c && c <= 'F')
}

pub fn ws(c: char) -> (r: bool)
    ensures r == is_ws(c),
{
    c == '\t' || c == '\n' || c == '\u{b}' || c == '\u{c}' || c == '\r' || c == ' '
        || c == '\u{85}' || c == '\u{a0}' || c == '\u{1680}'
        || ('\u{2000}' <= c && c <= '\u{200a}')
        || c == '\u{2028}' || c == '\u{2029}' || c == '\u{202f}' || c == '\u{205f}'
        || c == '\u{3000}'
}

// ── Sequences of strings ────────────────────────────────────────────────

/// The character views of a list of character vectors.
pub open spec fn views(v: Seq<Vec<char>>) -> Seq<Seq<char>> {
    Seq::new(v.len(), |i: int| v[i]@)
}

/// The character views of a list of strings.
pub open spec fn str_views(v: Seq<String>) -> Seq<Seq<char>> {
    Seq::new(v.len(), |i: int| v[i]@)
}

pub proof fn lemma_views_push(v: Seq<Vec<char>>, x: Vec<char>)
    ensures views(v.push(x)) == views(v).push(x@),
{
    assert(views(v.push(x)) =~= views(v).push(x@));
}

// ── trim ────────────────────────────────────────────────────────────────

/// `str::trim_start`: leading whitespace removed.
pub open spec fn trim_start(s: Seq<char>) -> Seq<char>
    decreases s.len(),
{
    if s.len() > 0 && is_ws(s[0]) { trim_start(s.drop_first()) } else { s }
}

/// `str::trim_end`: trailing whitespace removed.
pub open spec fn trim_end(s: Seq<char>) -> Seq<char>
    decreases s.len(),
{
    if s.len() > 0 && is_ws(s.last()) { trim_end(s.drop_last()) } else { s }
}

/// `str::trim`: whitespace removed at both ends.
pub open spec fn trim(s: Seq<char>) -> Seq<char> {
    trim_end(trim_start(s))
}

proof fn lemma_trim_start_at(s: Seq<char>, i: int)
    requires
        0 <= i <= s.len(),
        forall|k: int| 0 <= k < i ==> is_ws(#[trigger] s[k]),
        i == s.len() || !is_ws(s[i]),
    ensures trim_start(s) == s.skip(i),
    decreases i,
{
    if i == 0 {
        assert(s.skip(0) =~= s);
    } else {
        let t = s.drop_first();
        assert forall|k: int| 0 <= k < i - 1 implies is_ws(#[trigger] t[k]) by {
            assert(t[k] == s[k + 1]);
        }
        lemma_trim_start_at(t, i - 1);
        assert(t.skip(i - 1) =~= s.skip(i));
    }
}

proof fn lemma_trim_end_at(s: Seq<char>, j: int)
    requires
        0 <= j <= s.len(),
        forall|k: int| j <= k < s.len() ==> is_ws(#[trigger] s[k]),
        j == 0 || !is_ws(s[j - 1]),
    ensures trim_end(s) == s.take(j),
    decreases s.len() - j,
{
    if j == s.len() {
        assert(s.take(j) =~= s);
    } else {
        let t = s.drop_last();
        assert forall|k: int| j <= k < t.len() implies is_ws(#[trigger] t[k]) by {
            assert(t[k] == s[k]);
        }
        lemma_trim_end_at(t, j);
        assert(t.take(j) =~= s.take(j));
    }
}

/// The characters of `s` from `lo` (inclusive) to `hi` (exclusive).
pub fn slice(s: &Vec<char>, lo: usize, hi: usize) -> (r: Vec<char>)
    requires lo <= hi <= s.len(),
    ensures r@ == s@.subrange(lo as int, hi as int),
{
    let mut r: Vec<char> = Vec::new();
    let mut i = lo;
    while i < hi
        invariant
            lo <= i <= hi <= s.len(),
            r@ == s@.subrange(lo as int, i as int),
        decreases hi - i,
    {
        r.push(s[i]);
        i += 1;
        assert(r@ =~= s@.subrange(lo as int, i as int));
    }
    r
}

pub fn trim_start_v(s: &Vec<char>) -> (r: Vec<char>)
    ensures r@ == trim_start(s@),
{
    let mut i: usize = 0;
    while i < s.len() && ws(s[i])
        invariant
            i <= s.len(),
            forall|k: int| 0 <= k < i ==> is_ws(#[trigger] s@[k]),
        decreases s.len() - i,
    {
        i += 1;
    }
    proof { lemma_trim_start_at(s@, i as int); }
    let r = slice(s, i, s.len());
    assert(r@ =~= s@.skip(i as int));
    r
}

pub fn trim_end_v(s: &Vec<char>) -> (r: Vec<char>)
    ensures r@ == trim_end(s@),
{
    let mut j: usize = s.len();
    while j > 0 && ws(s[j - 1])
        invariant
            j <= s.len(),
            forall|k: int| j <= k < s.len() ==> is_ws(#[trigger] s@[k]),
        decreases j,
    {
        j -= 1;
    }
    proof { lemma_trim_end_at(s@, j as int); }
    let r = slice(s, 0, j);
    assert(r@ =~= s@.take(j as int));
    r
}

pub fn trim_v(s: &Vec<char>) -> (r: Vec<char>)
    ensures r@ == trim(s@),
{
    let t = trim_start_v(s);
    trim_end_v(&t)
}

proof fn lemma_trim_start_shape(s: Seq<char>)
    ensures
        trim_start(s).len() == 0 || !is_ws(trim_start(s)[0]),
        trim_start(s).len() > 0 ==> trim_start(s).last() == s.last(),
    decreases s.len(),
{
    if s.len() > 0 && is_ws(s[0]) {
        lemma_trim_start_shape(s.drop_first());
    }
}

proof fn lemma_trim_end_shape(s: Seq<char>)
    ensures
        trim_end(s).len() == 0 || !is_ws(trim_end(s).last()),
        trim_end(s).len() > 0 ==> trim_end(s)[0] == s[0],
        trim_end(s).len() <= s.len(),
    decreases s.len(),
{
    if s.len() > 0 && is_ws(s.last()) {
        lemma_trim_end_shape(s.drop_last());
    }
}

/// A trimmed string is empty or starts and ends with non-whitespace.
pub proof fn lemma_trim_shape(s: Seq<char>)
    ensures
        trim(s).len() == 0 || (!is_ws(trim(s)[0]) && !is_ws(trim(s).last())),
{
    lemma_trim_start_shape(s);
    lemma_trim_end_shape(trim_start(s));
}

/// A string that starts and ends with non-whitespace is its own trim.
pub proof fn lemma_trim_fixed(s: Seq<char>)
    requires s.len() > 0, !is_ws(s[0]), !is_ws(s.last()),
    ensures trim(s) == s, trim_start(s) == s, trim_end(s) == s,
{
}

/// Leading whitespace does not change a trim.
pub proof fn lemma_trim_ws_prefix(w: char, s: Seq<char>)
    requires is_ws(w),
    ensures trim(seq![w] + s) == trim(s), trim_start(seq![w] + s) == trim_start(s),
{
    assert((seq![w] + s).drop_first() =~= s);
}

// ── find ────────────────────────────────────────────────────────────────

/// `p` occurs in `s` starting at index `i`.
pub open spec fn occurs_at(s: Seq<char>, p: Seq<char>, i: int) -> bool {
    0 <= i && i + p.len() <= s.len() && s.subrange(i, i + p.len()) == p
}

/// The first index at or after `start` where `p` occurs in `s`.
pub open spec fn find_from(s: Seq<char>, p: Seq<char>, start: int) -> Option<int>
    decreases s.len() + 1 - start,
{
    if start < 0 || start + p.len() > s.len() {
        None
    } else if occurs_at(s, p, start) {
        Some(start)
    } else {
        find_from(s, p, start + 1)
    }
}

/// `str::find`: the first index where `p` occurs in `s`.
pub open spec fn find(s: Seq<char>, p: Seq<char>) -> Option<int> {
    find_from(s, p, 0)
}

/// `p` occurs somewhere in `s` (`str::contains`).
pub open spec fn contains(s: Seq<char>, p: Seq<char>) -> bool {
    find(s, p) is Some
}

pub proof fn lemma_find_from(s: Seq<char>, p: Seq<char>, start: int)
    requires 0 <= start,
    ensures
        match find_from(s, p, start) {
            Some(i) => start <= i && occurs_at(s, p, i)
                && forall|j: int| start <= j < i ==> !occurs_at(s, p, j),
            None => forall|j: int| start <= j ==> !occurs_at(s, p, j),
        },
    decreases s.len() + 1 - start,
{
    if start + p.len() > s.len() {
    } else if occurs_at(s, p, start) {
    } else {
        lemma_find_from(s, p, start + 1);
    }
}

fn occurs_at_v(s: &Vec<char>, p: &Vec<char>, i: usize) -> (r: bool)
    ensures r == occurs_at(s@, p@, i as int),
{
    if i > s.len() || p.len() > s.len() - i {
        return false;
    }
    let mut k: usize = 0;
    while k < p.len()
        invariant
            k <= p.len(),
            i + p.len() <= s.len(),
            forall|m: int| 0 <= m < k ==> s@[i + m] == p@[m],
        decreases p.len() - k,
    {
        if s[i + k] != p[k] {
            assert(s@.subrange(i as int, i + p.len())[k as int] != p@[k as int]);
            return false;
        }
        k += 1;
    }
    assert(s@.subrange(i as int, i + p.len()) =~= p@);
    true
}

/// The first index at or after `start` where `p` occurs in `s`.
pub fn find_from_v(s: &Vec<char>, p: &Vec<char>, start: usize) -> (r: Option<usize>)
    ensures
        match r {
            Some(i) => find_from(s@, p@, start as int) == Some(i as int) && i + p.len() <= s.len(),
            None => find_from(s@, p@, start as int) is None,
        },
{
    proof { lemma_find_from(s@, p@, start as int); }
    if start > s.len() {
        return None;
    }
    let mut i = start;
    while i < s.len()
        invariant
            start <= i <= s.len(),
            forall|j: int| start <= j < i ==> !occurs_at(s@, p@, j),
        decreases s.len() - i,
    {
        if occurs_at_v(s, p, i) {
            proof { lemma_find_unique(s@, p@, start as int, i as int); }
            return Some(i);
        }
        i += 1;
    }
    if occurs_at_v(s, p, i) {
        proof { lemma_find_unique(s@, p@, start as int, i as int); }
        return Some(i);
    }
    proof { lemma_find_none(s@, p@, start as int); }
    None
}

proof fn lemma_find_unique(s: Seq<char>, p: Seq<char>, start: int, i: int)
    requires
        0 <= start <= i,
        occurs_at(s, p, i),
        forall|j: int| start <= j < i ==> !occurs_at(s, p, j),
    ensures find_from(s, p, start) == Some(i),
    decreases i - start,
{
    if start < i {
        lemma_find_unique(s, p, start + 1, i);
    }
}

pub proof fn lemma_find_none(s: Seq<char>, p: Seq<char>, start: int)
    requires
        0 <= start,
        forall|j: int| start <= j <= s.len() ==> !occurs_at(s, p, j),
    ensures find_from(s, p, start) is None,
    decreases s.len() + 1 - start,
{
    if start + p.len() <= s.len() {
        lemma_find_none(s, p, start + 1);
    }
}

// ── split ───────────────────────────────────────────────────────────────

/// `str::split` on one character: the pieces between occurrences of `c`,
/// always at least one.
pub open spec fn split_on(s: Seq<char>, c: char) -> Seq<Seq<char>>
    decreases s.len(),
{
    if s.len() == 0 {
        seq![Seq::empty()]
    } else {
        let p = split_on(s.drop_last(), c);
        if s.last() == c {
            p.push(Seq::empty())
        } else {
            p.update(p.len() - 1, p.last().push(s.last()))
        }
    }
}

pub proof fn lemma_split_on_len(s: Seq<char>, c: char)
    ensures split_on(s, c).len() >= 1,
    decreases s.len(),
{
    if s.len() > 0 {
        lemma_split_on_len(s.drop_last(), c);
    }
}

/// The pieces of `s` between occurrences of `c`.
pub fn split_v(s: &Vec<char>, c: char) -> (r: Vec<Vec<char>>)
    ensures views(r@) == split_on(s@, c),
{
    let mut done: Vec<Vec<char>> = Vec::new();
    let mut cur: Vec<char> = Vec::new();
    let mut i: usize = 0;
    while i < s.len()
        invariant
            i <= s.len(),
            views(done@).push(cur@) == split_on(s@.take(i as int), c),
        decreases s.len() - i,
    {
        let ghost prev = views(done@).push(cur@);
        assert(s@.take(i + 1).drop_last() =~= s@.take(i as int));
        let x = s[i];
        if x == c {
            proof { lemma_views_push(done@, cur); }
            done.push(cur);
            cur = Vec::new();
            proof { lemma_views_push(done@, cur); }
            assert(views(done@).push(cur@) =~= prev.push(Seq::empty()));
        } else {
            cur.push(x);
            assert(views(done@).push(cur@) =~= prev.update(prev.len() - 1, prev.last().push(x)));
        }
        i += 1;
    }
    assert(s@.take(s.len() as int) =~= s@);
    proof { lemma_views_push(done@, cur); }
    done.push(cur);
    done
}

/// Splitting at a separator occurrence splits the two sides independently.
pub proof fn lemma_split_on_concat(a: Seq<char>, b: Seq<char>, c: char)
    ensures split_on(a + seq![c] + b, c) == split_on(a, c) + split_on(b, c),
    decreases b.len(),
{
    let s = a + seq![c] + b;
    if b.len() == 0 {
        assert(s.drop_last() =~= a);
        assert(split_on(a, c).push(Seq::empty()) =~= split_on(a, c) + seq![Seq::<char>::empty()]);
    } else {
        let b1 = b.drop_last();
        assert(s.drop_last() =~= a + seq![c] + b1);
        lemma_split_on_concat(a, b1, c);
        lemma_split_on_len(b1, c);
        let x = b.last();
        let pa = split_on(a, c);
        let pb = split_on(b1, c);
        if x == c {
            assert((pa + pb).push(Seq::empty()) =~= pa + pb.push(Seq::empty()));
        } else {
            assert((pa + pb).update((pa + pb).len() - 1, (pa + pb).last().push(x))
                =~= pa + pb.update(pb.len() - 1, pb.last().push(x)));
        }
    }
}

/// Without a separator there is one piece, the whole.
pub proof fn lemma_split_on_none(x: Seq<char>, c: char)
    requires !x.contains(c),
    ensures split_on(x, c) == seq![x],
    decreases x.len(),
{
    if x.len() > 0 {
        let y = x.drop_last();
        assert(!y.contains(c)) by {
            if y.contains(c) {
                let k = choose|k: int| 0 <= k < y.len() && y[k] == c;
                assert(x[k] == c);
            }
        }
        lemma_split_on_none(y, c);
        assert(x[x.len() - 1] != c);
        assert(y.push(x.last()) =~= x);
        assert(seq![y].update(0, y.push(x.last())) =~= seq![x]);
    } else {
        assert(x =~= Seq::<char>::empty());
    }
}

/// Splitting a join at its separator gives back the parts.
pub proof fn lemma_split_join(ls: Seq<Seq<char>>, c: char)
    requires
        ls.len() >= 1,
        forall|i: int| 0 <= i < ls.len() ==> !(#[trigger] ls[i]).contains(c),
    ensures split_on(join(ls, seq![c]), c) == ls,
    decreases ls.len(),
{
    if ls.len() == 1 {
        lemma_split_on_none(ls[0], c);
        assert(seq![ls[0]] =~= ls);
    } else {
        let init = ls.drop_last();
        assert forall|i: int| 0 <= i < init.len() implies !(#[trigger] init[i]).contains(c) by {
            assert(init[i] == ls[i]);
        }
        lemma_split_join(init, c);
        lemma_split_on_concat(join(init, seq![c]), ls.last(), c);
        lemma_split_on_none(ls.last(), c);
        assert(init + seq![ls.last()] =~= ls);
    }
}

/// `lines` of parts joined by newlines gives back the parts, when none holds
/// a newline and none that a newline follows ends in a carriage return.
pub proof fn lemma_lines_join(ls: Seq<Seq<char>>, trailing: bool)
    requires
        ls.len() >= 1,
        forall|i: int| 0 <= i < ls.len() ==> !(#[trigger] ls[i]).contains('\n'),
        forall|i: int| 0 <= i < ls.len() && (i < ls.len() - 1 || trailing) ==>
            (#[trigger] ls[i]).len() == 0 || ls[i].last() != '\r',
        !trailing ==> ls.last().len() > 0,
    ensures lines(join(ls, seq!['\n']) + (if trailing { seq!['\n'] } else { Seq::empty() })) == ls,
{
    let j = join(ls, seq!['\n']);
    lemma_split_join(ls, '\n');
    if trailing {
        let s = j + seq!['\n'];
        assert(s =~= j + seq!['\n'] + Seq::<char>::empty());
        lemma_split_on_concat(j, Seq::empty(), '\n');
        assert(split_on(Seq::<char>::empty(), '\n') == seq![Seq::<char>::empty()]);
        let p = split_on(s, '\n');
        assert(p =~= ls + seq![Seq::<char>::empty()]);
        assert(lines(s) =~= ls);
    } else {
        let s = j + Seq::<char>::empty();
        assert(s =~= j);
        assert(lines(s) =~= ls);
    }
}

// ── lines ───────────────────────────────────────────────────────────────

/// A piece that ended in a newline loses one trailing carriage return.
pub open spec fn strip_cr(s: Seq<char>) -> Seq<char> {
    if s.len() > 0 && s.last() == '\r' { s.drop_last() } else { s }
}

/// `str::lines`: split at `\n`, a `\r` before it dropped, and no empty last
/// line after a final newline.
pub open spec fn lines(s: Seq<char>) -> Seq<Seq<char>> {
    let p = split_on(s, '\n');
    let body = Seq::new((p.len() - 1) as nat, |i: int| strip_cr(p[i]));
    if p.last().len() == 0 { body } else { body.push(p.last()) }
}

pub fn strip_cr_v(s: Vec<char>) -> (r: Vec<char>)
    ensures r@ == strip_cr(s@),
{
    let mut s = s;
    let ghost orig = s@;
    if s.len() > 0 && s[s.len() - 1] == '\r' {
        s.pop();
        assert(s@ =~= orig.drop_last());
    }
    s
}

/// The lines of `s`, as `str::lines` gives them.
pub fn lines_v(s: &Vec<char>) -> (r: Vec<Vec<char>>)
    ensures views(r@) == lines(s@),
{
    let pieces = split_v(s, '\n');
    proof { lemma_split_on_len(s@, '\n'); }
    let n = pieces.len() - 1;
    let mut out: Vec<Vec<char>> = Vec::new();
    let mut i: usize = 0;
    while i < n
        invariant
            n + 1 == pieces.len(),
            i <= n,
            views(pieces@) == split_on(s@, '\n'),
            views(out@) == Seq::new(i as nat, |k: int| strip_cr(views(pieces@)[k])),
        decreases n - i,
    {
        let piece = strip_cr_v(pieces[i].clone());
        proof { lemma_views_push(out@, piece); }
        out.push(piece);
        i += 1;
        assert(views(out@) =~= Seq::new(i as nat, |k: int| strip_cr(views(pieces@)[k])));
    }
    if pieces[n].len() > 0 {
        let last = pieces[n].clone();
        proof { lemma_views_push(out@, last); }
        out.push(last);
    }
    out
}

/// No piece of a split holds the separator.
pub proof fn lemma_split_on_pieces(s: Seq<char>, c: char)
    ensures forall|i: int| 0 <= i < split_on(s, c).len() ==> !(#[trigger] split_on(s, c)[i]).contains(c),
    decreases s.len(),
{
    if s.len() > 0 {
        lemma_split_on_pieces(s.drop_last(), c);
        lemma_split_on_len(s.drop_last(), c);
        let p = split_on(s.drop_last(), c);
        assert forall|i: int| 0 <= i < split_on(s, c).len() implies !(#[trigger] split_on(s, c)[i]).contains(c) by {
            if s.last() == c {
                if i < p.len() {
                    assert(split_on(s, c)[i] == p[i]);
                } else {
                    assert(split_on(s, c)[i] =~= Seq::<char>::empty());
                }
            } else if i < p.len() - 1 {
                assert(split_on(s, c)[i] == p[i]);
            } else {
                let q = p.last().push(s.last());
                assert(split_on(s, c)[i] == q);
                if q.contains(c) {
                    let k = choose|k: int| 0 <= k < q.len() && q[k] == c;
                    if k < p.last().len() {
                        assert(p.last()[k] == c);
                        assert(p[p.len() - 1].contains(c));
                    }
                }
            }
        }
    }
}

/// The last piece of a split is empty exactly when the text is empty or
/// ends with the separator.
pub proof fn lemma_split_on_last(s: Seq<char>, c: char)
    ensures split_on(s, c).last().len() == 0 <==> (s.len() == 0 || s.last() == c),
{
    if s.len() > 0 {
        lemma_split_on_len(s.drop_last(), c);
    }
}

/// No line holds a newline; an empty text has no lines; a text that does
/// not end with a newline has a non-empty last line.
pub proof fn lemma_lines_shape(s: Seq<char>)
    ensures
        forall|i: int| 0 <= i < lines(s).len() ==> !(#[trigger] lines(s)[i]).contains('\n'),
        s.len() == 0 ==> lines(s).len() == 0,
        s.len() > 0 && s.last() != '\n' ==> lines(s).len() > 0 && lines(s).last().len() > 0,
{
    let p = split_on(s, '\n');
    lemma_split_on_pieces(s, '\n');
    lemma_split_on_len(s, '\n');
    lemma_split_on_last(s, '\n');
    assert forall|i: int| 0 <= i < lines(s).len() implies !(#[trigger] lines(s)[i]).contains('\n') by {
        if i < p.len() - 1 {
            let x = p[i];
            assert(!x.contains('\n'));
            if strip_cr(x).contains('\n') {
                let k = choose|k: int| 0 <= k < strip_cr(x).len() && strip_cr(x)[k] == '\n';
                assert(x[k] == '\n');
            }
        } else {
            assert(lines(s)[i] == p.last());
        }
    }
}

/// A character that is not in a text is not in its trim.
pub proof fn lemma_trim_lacks(s: Seq<char>, c: char)
    requires !s.contains(c),
    ensures !trim(s).contains(c), !trim_start(s).contains(c),
{
    lemma_trim_start_lacks(s, c);
    lemma_trim_end_lacks(trim_start(s), c);
}

proof fn lemma_trim_start_lacks(s: Seq<char>, c: char)
    requires !s.contains(c),
    ensures !trim_start(s).contains(c),
    decreases s.len(),
{
    if s.len() > 0 && is_ws(s[0]) {
        assert(!s.drop_first().contains(c)) by {
            if s.drop_first().contains(c) {
                let k = choose|k: int| 0 <= k < s.drop_first().len() && s.drop_first()[k] == c;
                assert(s[k + 1] == c);
            }
        }
        lemma_trim_start_lacks(s.drop_first(), c);
    }
}

proof fn lemma_trim_end_lacks(s: Seq<char>, c: char)
    requires !s.contains(c),
    ensures !trim_end(s).contains(c),
    decreases s.len(),
{
    if s.len() > 0 && is_ws(s.last()) {
        assert(!s.drop_last().contains(c)) by {
            if s.drop_last().contains(c) {
                let k = choose|k: int| 0 <= k < s.drop_last().len() && s.drop_last()[k] == c;
                assert(s[k] == c);
            }
        }
        lemma_trim_end_lacks(s.drop_last(), c);
    }
}

/// The join of parts ends with the last part.
pub proof fn lemma_join_last(ls: Seq<Seq<char>>, sep: Seq<char>)
    requires ls.len() >= 1, ls.last().len() > 0,
    ensures join(ls, sep).len() > 0, join(ls, sep).last() == ls.last().last(),
{
}

// ── split_whitespace ────────────────────────────────────────────────────

/// `str::split_whitespace`: the maximal runs of non-whitespace characters.
pub open spec fn ws_tokens(s: Seq<char>) -> Seq<Seq<char>>
    decreases s.len(),
{
    if s.len() == 0 {
        Seq::empty()
    } else {
        let prev = ws_tokens(s.drop_last());
        let c = s.last();
        if is_ws(c) {
            prev
        } else if s.len() >= 2 && !is_ws(s[s.len() - 2]) {
            prev.update(prev.len() - 1, prev.last().push(c))
        } else {
            prev.push(seq![c])
        }
    }
}

/// The whitespace-separated tokens of `s`.
pub fn ws_tokens_v(s: &Vec<char>) -> (r: Vec<Vec<char>>)
    ensures views(r@) == ws_tokens(s@),
{
    let mut done: Vec<Vec<char>> = Vec::new();
    let mut cur: Vec<char> = Vec::new();
    let mut i: usize = 0;
    while i < s.len()
        invariant
            i <= s.len(),
            cur@.len() > 0 <==> (i > 0 && !is_ws(s@[i - 1])),
            ws_tokens(s@.take(i as int)) == (if cur@.len() > 0 { views(done@).push(cur@) } else { views(done@) }),
        decreases s.len() - i,
    {
        let ghost before = ws_tokens(s@.take(i as int));
        assert(s@.take(i + 1).drop_last() =~= s@.take(i as int));
        let x = s[i];
        if ws(x) {
            if cur.len() > 0 {
                proof { lemma_views_push(done@, cur); }
                done.push(cur);
                cur = Vec::new();
            }
        } else {
            let had = cur.len() > 0;
            cur.push(x);
            if had {
                assert(s@.take(i + 1)[i - 1] == s@[i - 1]);
                assert(views(done@).push(cur@) =~= before.update(before.len() - 1, before.last().push(x)));
            } else {
                assert(i == 0 || s@.take(i + 1)[i - 1] == s@[i - 1]);
                assert(i == 0 || is_ws(s@.take(i + 1)[i - 1]));
                assert(cur@ =~= seq![x]);
                assert(views(done@).push(cur@) =~= before.push(seq![x]));
            }
        }
        i += 1;
    }
    assert(s@.take(s.len() as int) =~= s@);
    if cur.len() > 0 {
        proof { lemma_views_push(done@, cur); }
        done.push(cur);
    }
    done
}

/// The pieces of `s` that a list of index ranges delimits.
pub open spec fn spans_of(s: Seq<char>, b: Seq<(usize, usize)>) -> Seq<Seq<char>> {
    Seq::new(b.len(), |k: int| s.subrange(b[k].0 as int, b[k].1 as int))
}

/// Where the whitespace-separated tokens of `s` begin and end.
#[verifier::spinoff_prover]
pub fn ws_token_spans(s: &Vec<char>) -> (r: Vec<(usize, usize)>)
    ensures
        spans_of(s@, r@) == ws_tokens(s@),
        forall|k: int| 0 <= k < r@.len() ==> #[trigger] r@[k].0 < r@[k].1 && r@[k].1 <= s.len(),
{
    let mut done: Vec<(usize, usize)> = Vec::new();
    let mut start: usize = 0;
    let mut in_tok = false;
    let mut i: usize = 0;
    while i < s.len()
        invariant
            i <= s.len(),
            in_tok <==> (i > 0 && !is_ws(s@[i - 1])),
            in_tok ==> start < i,
            forall|k: int| #![trigger done@[k]] 0 <= k < done@.len() ==> done@[k].0 < done@[k].1 && done@[k].1 <= i,
            ws_tokens(s@.take(i as int)) == (if in_tok {
                spans_of(s@, done@).push(s@.subrange(start as int, i as int))
            } else {
                spans_of(s@, done@)
            }),
        decreases s.len() - i,
    {
        let ghost before = ws_tokens(s@.take(i as int));
        assert(s@.take(i + 1).drop_last() =~= s@.take(i as int));
        let x = s[i];
        if ws(x) {
            if in_tok {
                let ghost old_done = done@;
                done.push((start, i));
                assert(spans_of(s@, done@) =~= spans_of(s@, old_done).push(s@.subrange(start as int, i as int)));
                assert forall|k: int| #![trigger done@[k]] 0 <= k < done@.len() implies done@[k].0 < done@[k].1 && done@[k].1 <= i + 1 by {
                    if k < old_done.len() {
                        assert(done@[k] == old_done[k]);
                    }
                }
                in_tok = false;
            }
        } else {
            if in_tok {
                assert(s@.take(i + 1)[i - 1] == s@[i - 1]);
                assert(s@.subrange(start as int, i + 1) =~= s@.subrange(start as int, i as int).push(x));
                assert(spans_of(s@, done@).push(s@.subrange(start as int, i + 1)) =~= before.update(before.len() - 1, before.last().push(x)));
            } else {
                assert(i == 0 || s@.take(i + 1)[i - 1] == s@[i - 1]);
                start = i;
                in_tok = true;
                assert(s@.subrange(start as int, i + 1) =~= seq![x]);
                assert(spans_of(s@, done@).push(s@.subrange(start as int, i + 1)) =~= before.push(seq![x]));
            }
        }
        i += 1;
    }
    assert(s@.take(s.len() as int) =~= s@);
    if in_tok {
        let ghost old_done = done@;
        done.push((start, s.len()));
        assert(spans_of(s@, done@) =~= spans_of(s@, old_done).push(s@.subrange(start as int, s.len() as int)));
    }
    done
}

pub proof fn lemma_ws_tokens_nonempty(s: Seq<char>)
    requires s.len() > 0, !is_ws(s.last()),
    ensures ws_tokens(s).len() >= 1,
    decreases s.len(),
{
    if s.len() >= 2 && !is_ws(s[s.len() - 2]) {
        assert(s.drop_last().last() == s[s.len() - 2]);
        lemma_ws_tokens_nonempty(s.drop_last());
    }
}

/// A non-empty run of non-whitespace characters is one token.
pub proof fn lemma_ws_tokens_word(x: Seq<char>)
    requires
        x.len() > 0,
        forall|k: int| 0 <= k < x.len() ==> !is_ws(#[trigger] x[k]),
    ensures ws_tokens(x) == seq![x],
    decreases x.len(),
{
    let y = x.drop_last();
    if y.len() == 0 {
        assert(ws_tokens(y) == Seq::<Seq<char>>::empty());
        assert(seq![x.last()] =~= x);
    } else {
        assert forall|k: int| 0 <= k < y.len() implies !is_ws(#[trigger] y[k]) by {
            assert(y[k] == x[k]);
        }
        lemma_ws_tokens_word(y);
        assert(x[x.len() - 2] == y[y.len() - 1]);
        assert(y.push(x.last()) =~= x);
        assert(seq![y].update(0, y.push(x.last())) =~= seq![x]);
    }
}

/// After a whitespace character, tokenizing restarts: the tokens of `z + y`
/// are those of `z` followed by those of `y`.
pub proof fn lemma_ws_tokens_concat(z: Seq<char>, y: Seq<char>)
    requires z.len() == 0 || is_ws(z.last()),
    ensures ws_tokens(z + y) == ws_tokens(z) + ws_tokens(y),
    decreases y.len(),
{
    if y.len() == 0 {
        assert(z + y =~= z);
        assert(ws_tokens(y) == Seq::<Seq<char>>::empty());
        assert(ws_tokens(z) + ws_tokens(y) =~= ws_tokens(z));
    } else {
        let zy = z + y;
        let y1 = y.drop_last();
        assert(zy.drop_last() =~= z + y1);
        lemma_ws_tokens_concat(z, y1);
        let c = y.last();
        assert(zy.last() == c);
        let tz = ws_tokens(z);
        let ty1 = ws_tokens(y1);
        if is_ws(c) {
        } else if zy.len() >= 2 && !is_ws(zy[zy.len() - 2]) {
            if y1.len() == 0 {
                assert(zy[zy.len() - 2] == z.last());
                assert(false);
            }
            assert(zy[zy.len() - 2] == y1.last());
            assert(y[y.len() - 2] == y1.last());
            lemma_ws_tokens_nonempty(y1);
            assert((tz + ty1).update((tz + ty1).len() - 1, (tz + ty1).last().push(c))
                =~= tz + ty1.update(ty1.len() - 1, ty1.last().push(c)));
        } else {
            if y.len() >= 2 {
                assert(zy[zy.len() - 2] == y[y.len() - 2]);
            }
            assert((tz + ty1).push(seq![c]) =~= tz + ty1.push(seq![c]));
        }
    }
}

/// The first occurrence of `m` in `a + m + b` is where `a` ends, when `a`
/// holds no occurrence and the first character of `m` does not recur in it.
pub proof fn lemma_find_after(a: Seq<char>, m: Seq<char>, b: Seq<char>)
    requires
        m.len() > 0,
        find(a, m) is None,
        forall|k: int| 0 < k < m.len() ==> #[trigger] m[k] != m[0],
    ensures find(a + m + b, m) == Some(a.len() as int),
{
    let s = a + m + b;
    lemma_find_from(a, m, 0);
    assert forall|j: int| 0 <= j < a.len() implies !occurs_at(s, m, j) by {
        if occurs_at(s, m, j) {
            if j + m.len() <= a.len() {
                assert(a.subrange(j, j + m.len()) =~= s.subrange(j, j + m.len()));
                assert(occurs_at(a, m, j));
            } else {
                let k = a.len() - j;
                assert(s.subrange(j, j + m.len())[k] == s[a.len() as int]);
                assert(s[a.len() as int] == m[0]);
                assert(m[k] != m[0]);
            }
        }
    }
    assert(s.subrange(a.len() as int, (a.len() + m.len()) as int) =~= m);
    lemma_find_unique(s, m, 0, a.len() as int);
}

/// A search that starts where `pre` ends sees only `b`.
pub proof fn lemma_find_in_tail_none(pre: Seq<char>, b: Seq<char>, m: Seq<char>)
    requires find(b, m) is None,
    ensures find_from(pre + b, m, pre.len() as int) is None,
{
    let s = pre + b;
    lemma_find_from(b, m, 0);
    assert forall|j: int| pre.len() <= j <= s.len() implies !occurs_at(s, m, j) by {
        if occurs_at(s, m, j) {
            assert(b.subrange(j - pre.len(), j - pre.len() + m.len()) =~= s.subrange(j, j + m.len()));
            assert(occurs_at(b, m, j - pre.len()));
        }
    }
    lemma_find_none(s, m, pre.len() as int);
}

// ── join ────────────────────────────────────────────────────────────────

/// `join`: the parts with `sep` between consecutive ones.
pub open spec fn join(parts: Seq<Seq<char>>, sep: Seq<char>) -> Seq<char>
    decreases parts.len(),
{
    if parts.len() == 0 {
        Seq::empty()
    } else if parts.len() == 1 {
        parts[0]
    } else {
        join(parts.drop_last(), sep) + sep + parts.last()
    }
}

/// The parts joined with `sep`.
pub fn join_v(parts: &Vec<Vec<char>>, sep: &Vec<char>) -> (r: Vec<char>)
    ensures r@ == join(views(parts@), sep@),
{
    let mut acc: Vec<char> = Vec::new();
    let mut i: usize = 0;
    while i < parts.len()
        invariant
            i <= parts.len(),
            acc@ == join(views(parts@).take(i as int), sep@),
        decreases parts.len() - i,
    {
        let ghost before = acc@;
        assert(views(parts@).take(i + 1).drop_last() =~= views(parts@).take(i as int));
        if i > 0 {
            append(&mut acc, sep);
        }
        append(&mut acc, &parts[i]);
        i += 1;
        assert(acc@ =~= join(views(parts@).take(i as int), sep@));
    }
    assert(views(parts@).take(parts.len() as int) =~= views(parts@));
    acc
}

/// Appends the characters of `x` to `acc`.
pub fn append(acc: &mut Vec<char>, x: &Vec<char>)
    ensures final(acc)@ == old(acc)@ + x@,
{
    let mut i: usize = 0;
    while i < x.len()
        invariant
            i <= x.len(),
            acc@ == old(acc)@ + x@.take(i as int),
        decreases x.len() - i,
    {
        acc.push(x[i]);
        i += 1;
        assert(acc@ =~= old(acc)@ + x@.take(i as int));
    }
    assert(x@.take(x.len() as int) =~= x@);
}

// ── prefixes, membership ────────────────────────────────────────────────

pub fn starts_with_v(s: &Vec<char>, p: &Vec<char>) -> (r: bool)
    ensures r == p@.is_prefix_of(s@),
{
    if p.len() > s.len() {
        return false;
    }
    let r = occurs_at_v(s, p, 0);
    assert(r == (s@.subrange(0, p@.len() as int) == p@));
    assert(r ==> p@.is_prefix_of(s@)) by {
        if r {
            assert forall|k: int| 0 <= k < p@.len() implies p@[k] == s@[k] by {
                assert(s@.subrange(0, p@.len() as int)[k] == s@[k]);
            }
        }
    }
    assert(p@.is_prefix_of(s@) ==> r) by {
        if p@.is_prefix_of(s@) {
            assert(s@.subrange(0, p@.len() as int) =~= p@);
        }
    }
    r
}

pub fn ends_with_v(s: &Vec<char>, p: &Vec<char>) -> (r: bool)
    ensures r == p@.is_suffix_of(s@),
{
    if p.len() > s.len() {
        return false;
    }
    let start = s.len() - p.len();
    let r = occurs_at_v(s, p, start);
    assert(r ==> p@.is_suffix_of(s@)) by {
        if r {
            assert forall|k: int| 0 <= k < p@.len() implies p@[k] == s@[s@.len() - p@.len() + k] by {
                assert(s@.subrange(start as int, s@.len() as int)[k] == s@[start + k]);
            }
        }
    }
    assert(p@.is_suffix_of(s@) ==> r) by {
        if p@.is_suffix_of(s@) {
            assert(s@.subrange(start as int, start + p@.len()) =~= p@);
        }
    }
    r
}

pub fn has_char(s: &Vec<char>, c: char) -> (r: bool)
    ensures r == s@.contains(c),
{
    let mut i: usize = 0;
    while i < s.len()
        invariant
            i <= s.len(),
            forall|k: int| 0 <= k < i ==> s@[k] != c,
        decreases s.len() - i,
    {
        if s[i] == c {
            return true;
        }
        i += 1;
    }
    false
}

/// Whether two character vectors are equal.
pub fn eq_v(a: &Vec<char>, b: &Vec<char>) -> (r: bool)
    ensures r == (a@ == b@),
{
    if a.len() != b.len() {
        return false;
    }
    let mut i: usize = 0;
    while i < a.len()
        invariant
            i <= a.len() == b.len(),
            forall|k: int| 0 <= k < i ==> a@[k] == b@[k],
        decreases a.len() - i,
    {
        if a[i] != b[i] {
            return false;
        }
        i += 1;
    }
    assert(a@ =~= b@);
    true
}

/// How many times `c` occurs in `s` (`str::matches(c).count()`).
pub open spec fn count_of(s: Seq<char>, c: char) -> nat
    decreases s.len(),
{
    if s.len() == 0 {
        0
    } else {
        count_of(s.drop_last(), c) + if s.last() == c { 1nat } else { 0nat }
    }
}

pub proof fn lemma_count_of_bound(s: Seq<char>, c: char)
    ensures count_of(s, c) <= s.len(),
    decreases s.len(),
{
    if s.len() > 0 {
        lemma_count_of_bound(s.drop_last(), c);
    }
}

pub fn count_of_v(s: &Vec<char>, c: char) -> (r: usize)
    ensures r == count_of(s@, c),
{
    let mut n: usize = 0;
    let mut i: usize = 0;
    while i < s.len()
        invariant
            i <= s.len(),
            n == count_of(s@.take(i as int), c),
        decreases s.len() - i,
    {
        proof {
            assert(s@.take(i + 1).drop_last() =~= s@.take(i as int));
            lemma_count_of_bound(s@.take(i as int), c);
        }
        if s[i] == c {
            n += 1;
        }
        i += 1;
    }
    assert(s@.take(i as int) =~= s@);
    n
}

/// The summed lengths of the pieces.
pub open spec fn total_len(ls: Seq<Seq<char>>) -> nat
    decreases ls.len(),
{
    if ls.len() == 0 { 0 } else { total_len(ls.drop_last()) + ls.last().len() }
}

/// The pieces of a split hold every character but the separators.
proof fn lemma_split_total(s: Seq<char>, c: char)
    ensures total_len(split_on(s, c)) + split_on(s, c).len() == s.len() + 1,
    decreases s.len(),
{
    if s.len() > 0 {
        lemma_split_total(s.drop_last(), c);
        lemma_split_on_len(s.drop_last(), c);
        let p = split_on(s.drop_last(), c);
        assert(total_len(p) == total_len(p.drop_last()) + p.last().len());
        if s.last() == c {
            let q = p.push(Seq::empty());
            assert(q.drop_last() =~= p);
            assert(total_len(q) == total_len(q.drop_last()) + q.last().len());
        } else {
            let q = p.update(p.len() - 1, p.last().push(s.last()));
            assert(q.drop_last() =~= p.drop_last());
            assert(total_len(q) == total_len(q.drop_last()) + q.last().len());
        }
    } else {
        let q = split_on(s, c);
        assert(q.drop_last() =~= Seq::<Seq<char>>::empty());
        assert(total_len(q) == total_len(q.drop_last()) + q.last().len());
    }
}

/// A prefix of the pieces is no longer than all of them.
pub proof fn lemma_total_len_take(ls: Seq<Seq<char>>, k: int)
    requires 0 <= k <= ls.len(),
    ensures total_len(ls.take(k)) <= total_len(ls),
    decreases ls.len(),
{
    if k == ls.len() {
        assert(ls.take(k) =~= ls);
    } else {
        assert(ls.drop_last().take(k) =~= ls.take(k));
        lemma_total_len_take(ls.drop_last(), k);
    }
}

/// The next prefix adds the next piece.
pub proof fn lemma_total_len_step(ls: Seq<Seq<char>>, k: int)
    requires 0 <= k < ls.len(),
    ensures total_len(ls.take(k + 1)) == total_len(ls.take(k)) + ls[k].len(),
{
    assert(ls.take(k + 1).drop_last() =~= ls.take(k));
}

/// Pieces that are each no longer than their counterparts are no longer in
/// sum.
proof fn lemma_total_len_pointwise(a: Seq<Seq<char>>, b: Seq<Seq<char>>)
    requires
        a.len() == b.len(),
        forall|i: int| 0 <= i < a.len() ==> (#[trigger] a[i]).len() <= b[i].len(),
    ensures total_len(a) <= total_len(b),
    decreases a.len(),
{
    if a.len() > 0 {
        lemma_total_len_pointwise(a.drop_last(), b.drop_last());
    }
}

/// The lines of a text hold no more characters than the text.
pub proof fn lemma_lines_total(s: Seq<char>)
    ensures total_len(lines(s)) <= s.len(),
{
    let p = split_on(s, '\n');
    lemma_split_total(s, '\n');
    lemma_split_on_len(s, '\n');
    let body = Seq::new((p.len() - 1) as nat, |i: int| strip_cr(p[i]));
    lemma_total_len_pointwise(body, p.drop_last());
    if p.last().len() != 0 {
        assert(body.push(p.last()).drop_last() =~= body);
    }
}

/// Every character of `s` is an ASCII digit.
pub open spec fn all_digits(s: Seq<char>) -> bool {
    forall|k: int| 0 <= k < s.len() ==> is_digit(#[trigger] s[k])
}

pub fn all_digits_v(s: &Vec<char>) -> (r: bool)
    ensures r == all_digits(s@),
{
    let mut i: usize = 0;
    while i < s.len()
        invariant
            i <= s.len(),
            forall|k: int| 0 <= k < i ==> is_digit(#[trigger] s@[k]),
        decreases s.len() - i,
    {
        if !digit(s[i]) {
            return false;
        }
        i += 1;
    }
    true
}

/// `str::trim_start_matches(c)`: every leading `c` removed.
pub open spec fn strip_leading(s: Seq<char>, c: char) -> Seq<char>
    decreases s.len(),
{
    if s.len() > 0 && s[0] == c { strip_leading(s.drop_first(), c) } else { s }
}

proof fn lemma_strip_leading_at(s: Seq<char>, c: char, i: int)
    requires
        0 <= i <= s.len(),
        forall|k: int| 0 <= k < i ==> #[trigger] s[k] == c,
        i == s.len() || s[i] != c,
    ensures strip_leading(s, c) == s.skip(i),
    decreases i,
{
    if i == 0 {
        assert(s.skip(0) =~= s);
    } else {
        let t = s.drop_first();
        assert forall|k: int| 0 <= k < i - 1 implies #[trigger] t[k] == c by {
            assert(t[k] == s[k + 1]);
        }
        lemma_strip_leading_at(t, c, i - 1);
        assert(t.skip(i - 1) =~= s.skip(i));
    }
}

pub fn strip_leading_v(s: &Vec<char>, c: char) -> (r: Vec<char>)
    ensures r@ == strip_leading(s@, c),
{
    let mut i: usize = 0;
    while i < s.len() && s[i] == c
        invariant
            i <= s.len(),
            forall|k: int| 0 <= k < i ==> #[trigger] s@[k] == c,
        decreases s.len() - i,
    {
        i += 1;
    }
    proof { lemma_strip_leading_at(s@, c, i as int); }
    let r = slice(s, i, s.len());
    assert(r@ =~= s@.skip(i as int));
    r
}

/// `str::trim_end_matches(c)`: every trailing `c` removed.
pub open spec fn strip_trailing(s: Seq<char>, c: char) -> Seq<char>
    decreases s.len(),
{
    if s.len() > 0 && s.last() == c { strip_trailing(s.drop_last(), c) } else { s }
}

proof fn lemma_strip_trailing_at(s: Seq<char>, c: char, j: int)
    requires
        0 <= j <= s.len(),
        forall|k: int| j <= k < s.len() ==> #[trigger] s[k] == c,
        j == 0 || s[j - 1] != c,
    ensures strip_trailing(s, c) == s.take(j),
    decreases s.len() - j,
{
    if j == s.len() {
        assert(s.take(j) =~= s);
    } else {
        let t = s.drop_last();
        assert forall|k: int| j <= k < t.len() implies #[trigger] t[k] == c by {
            assert(t[k] == s[k]);
        }
        lemma_strip_trailing_at(t, c, j);
        assert(t.take(j) =~= s.take(j));
    }
}

pub fn strip_trailing_v(s: &Vec<char>, c: char) -> (r: Vec<char>)
    ensures r@ == strip_trailing(s@, c),
{
    let mut j: usize = s.len();
    while j > 0 && s[j - 1] == c
        invariant
            j <= s.len(),
            forall|k: int| j <= k < s.len() ==> #[trigger] s@[k] == c,
        decreases j,
    {
        j -= 1;
    }
    proof { lemma_strip_trailing_at(s@, c, j as int); }
    let r = slice(s, 0, j);
    assert(r@ =~= s@.take(j as int));
    r
}

/// The number a run of decimal digits denotes.
pub open spec fn digits_value(s: Seq<char>) -> nat
    decreases s.len(),
{
    if s.len() == 0 { 0 } else { digits_value(s.drop_last()) * 10 + (s.last() as nat - '0' as nat) as nat }
}

/// `u32::from_str`: an optional `+`, then one or more ASCII digits whose
/// value fits in 32 bits.
pub open spec fn parse_u32(s: Seq<char>) -> Option<u32> {
    let d = if s.len() > 0 && s[0] == '+' { s.skip(1) } else { s };
    if d.len() > 0 && all_digits(d) && digits_value(d) <= u32::MAX {
        Some(digits_value(d) as u32)
    } else {
        None
    }
}

pub fn parse_u32_v(s: &Vec<char>) -> (r: Option<u32>)
    ensures r == parse_u32(s@),
{
    let d = if s.len() > 0 && s[0] == '+' { slice(s, 1, s.len()) } else { slice(s, 0, s.len()) };
    assert(d@ =~= (if s@.len() > 0 && s@[0] == '+' { s@.skip(1) } else { s@ }));
    if d.len() == 0 {
        return None;
    }
    let mut v: u64 = 0;
    let mut i: usize = 0;
    while i < d.len()
        invariant
            i <= d.len(),
            d@ == (if s@.len() > 0 && s@[0] == '+' { s@.skip(1) } else { s@ }),
            all_digits(d@.take(i as int)),
            v == digits_value(d@.take(i as int)),
            v <= u32::MAX,
        decreases d.len() - i,
    {
        assert(d@.take(i + 1).drop_last() =~= d@.take(i as int));
        let c = d[i];
        if !digit(c) {
            assert(!all_digits(d@)) by {
                assert(!is_digit(d@[i as int]));
            }
            return None;
        }
        let dv = (c as u32 - '0' as u32) as u64;
        let nv = v * 10 + dv;
        assert(nv == digits_value(d@.take(i + 1)));
        if nv > 4294967295u64 {
            proof { lemma_digits_value_grows(d@, i + 1); }
            return None;
        }
        v = nv;
        i += 1;
    }
    assert(d@.take(d.len() as int) =~= d@);
    Some(v as u32)
}

/// `u64::from_str`: an optional `+`, then one or more ASCII digits whose
/// value fits in 64 bits.
pub open spec fn parse_u64(s: Seq<char>) -> Option<u64> {
    let d = if s.len() > 0 && s[0] == '+' { s.skip(1) } else { s };
    if d.len() > 0 && all_digits(d) && digits_value(d) <= u64::MAX {
        Some(digits_value(d) as u64)
    } else {
        None
    }
}

pub fn parse_u64_v(s: &Vec<char>) -> (r: Option<u64>)
    ensures r == parse_u64(s@),
{
    let d = if s.len() > 0 && s[0] == '+' { slice(s, 1, s.len()) } else { slice(s, 0, s.len()) };
    assert(d@ =~= (if s@.len() > 0 && s@[0] == '+' { s@.skip(1) } else { s@ }));
    if d.len() == 0 {
        return None;
    }
    let mut v: u128 = 0;
    let mut i: usize = 0;
    while i < d.len()
        invariant
            i <= d.len(),
            d@ == (if s@.len() > 0 && s@[0] == '+' { s@.skip(1) } else { s@ }),
            all_digits(d@.take(i as int)),
            v == digits_value(d@.take(i as int)),
            v <= u64::MAX,
        decreases d.len() - i,
    {
        assert(d@.take(i + 1).drop_last() =~= d@.take(i as int));
        let c = d[i];
        if !digit(c) {
            assert(!all_digits(d@)) by {
                assert(!is_digit(d@[i as int]));
            }
            return None;
        }
        let dv = (c as u32 - '0' as u32) as u128;
        let nv = v * 10 + dv;
        assert(nv == digits_value(d@.take(i + 1)));
        if nv > 18446744073709551615u128 {
            proof { lemma_digits_value_grows(d@, i + 1); }
            return None;
        }
        v = nv;
        i += 1;
    }
    assert(d@.take(d.len() as int) =~= d@);
    Some(v as u64)
}

/// `str::split` on a non-empty string: the pieces between occurrences,
/// found left to right without overlap.
pub open spec fn split_by(s: Seq<char>, p: Seq<char>) -> Seq<Seq<char>>
    decreases s.len(),
{
    if p.len() == 0 {
        seq![s]
    } else {
        match find(s, p) {
            None => seq![s],
            Some(i) => if 0 <= i && i + p.len() <= s.len() {
                seq![s.take(i)] + split_by(s.skip(i + p.len()), p)
            } else {
                seq![s]
            },
        }
    }
}

pub fn split_by_v(s: &Vec<char>, p: &Vec<char>) -> (r: Vec<Vec<char>>)
    requires p.len() > 0,
    ensures views(r@) == split_by(s@, p@),
{
    let mut out: Vec<Vec<char>> = Vec::new();
    let mut rest = slice(s, 0, s.len());
    assert(rest@ =~= s@);
    loop
        invariant
            p.len() > 0,
            views(out@) + split_by(rest@, p@) == split_by(s@, p@),
        decreases rest.len(),
    {
        proof { lemma_find_from(rest@, p@, 0); }
        match find_from_v(&rest, p, 0) {
            None => {
                let piece = slice(&rest, 0, rest.len());
                assert(piece@ =~= rest@);
                proof { lemma_views_push(out@, piece); }
                out.push(piece);
                assert(views(out@) =~= views(out@).drop_last() + seq![rest@]);
                return out;
            },
            Some(i) => {
                let piece = slice(&rest, 0, i);
                assert(piece@ =~= rest@.take(i as int));
                let next = slice(&rest, i + p.len(), rest.len());
                assert(next@ =~= rest@.skip(i + p@.len()));
                let ghost before = views(out@);
                proof { lemma_views_push(out@, piece); }
                out.push(piece);
                assert(views(out@) + split_by(next@, p@) =~= before + split_by(rest@, p@));
                rest = next;
            },
        }
    }
}

proof fn lemma_digits_value_grows(d: Seq<char>, n: int)
    requires 0 <= n <= d.len(), all_digits(d) || n < d.len() || true,
    ensures all_digits(d) ==> digits_value(d) >= digits_value(d.take(n)),
    decreases d.len() - n,
{
    if n < d.len() && all_digits(d) {
        lemma_digits_value_grows(d, n + 1);
        assert(d.take(n + 1).drop_last() =~= d.take(n));
        assert(is_digit(d[n]));
    }
    if n == d.len() {
        assert(d.take(n) =~= d);
    }
}

// ── replace ─────────────────────────────────────────────────────────────

/// `str::replace` from index `start` on, for a non-empty pattern: every
/// occurrence, left to right and without overlap, replaced by `r`.
pub open spec fn replace_from(s: Seq<char>, p: Seq<char>, r: Seq<char>, start: int) -> Seq<char>
    decreases s.len() + 1 - start,
{
    if start < 0 || start > s.len() || p.len() == 0 {
        Seq::empty()
    } else {
        match find_from(s, p, start) {
            None => s.subrange(start, s.len() as int),
            Some(i) => {
                proof { lemma_find_from(s, p, start); }
                s.subrange(start, i) + r + replace_from(s, p, r, i + p.len())
            },
        }
    }
}

/// `str::replace` for a non-empty pattern.
pub open spec fn replace_all(s: Seq<char>, p: Seq<char>, r: Seq<char>) -> Seq<char> {
    replace_from(s, p, r, 0)
}

/// Every occurrence of `p` in `s` replaced by `r`.
pub fn replace_all_v(s: &Vec<char>, p: &Vec<char>, r: &Vec<char>) -> (out: Vec<char>)
    requires p.len() > 0,
    ensures out@ == replace_all(s@, p@, r@),
{
    let mut out: Vec<char> = Vec::new();
    let mut pos: usize = 0;
    let mut done = false;
    while !done
        invariant
            p.len() > 0,
            pos <= s.len(),
            !done ==> out@ + replace_from(s@, p@, r@, pos as int) == replace_all(s@, p@, r@),
            done ==> out@ == replace_all(s@, p@, r@),
        decreases s.len() + 1 - pos, (if done { 0int } else { 1int }),
    {
        proof { lemma_find_from(s@, p@, pos as int); }
        match find_from_v(s, p, pos) {
            None => {
                let rest = slice(s, pos, s.len());
                let ghost before = out@;
                append(&mut out, &rest);
                assert(out@ =~= before + replace_from(s@, p@, r@, pos as int));
                done = true;
            },
            Some(i) => {
                let ghost before = out@;
                let piece = slice(s, pos, i);
                append(&mut out, &piece);
                append(&mut out, r);
                assert(replace_from(s@, p@, r@, pos as int)
                    == s@.subrange(pos as int, i as int) + r@ + replace_from(s@, p@, r@, (i + p.len()) as int));
                assert(before + replace_from(s@, p@, r@, pos as int) =~= out@ + replace_from(s@, p@, r@, (i + p.len()) as int));
                pos = i + p.len();
            },
        }
    }
    out
}

/// Every `c` in `s` replaced by `r` (`str::replace` with a character).
pub open spec fn replace_char(s: Seq<char>, c: char, r: Seq<char>) -> Seq<char>
    decreases s.len(),
{
    if s.len() == 0 {
        Seq::empty()
    } else {
        replace_char(s.drop_last(), c, r) + if s.last() == c { r } else { seq![s.last()] }
    }
}

pub fn replace_char_v(s: &Vec<char>, c: char, r: &Vec<char>) -> (out: Vec<char>)
    ensures out@ == replace_char(s@, c, r@),
{
    let mut out: Vec<char> = Vec::new();
    let mut i: usize = 0;
    while i < s.len()
        invariant
            i <= s.len(),
            out@ == replace_char(s@.take(i as int), c, r@),
        decreases s.len() - i,
    {
        assert(s@.take(i + 1).drop_last() =~= s@.take(i as int));
        let ghost before = out@;
        if s[i] == c {
            append(&mut out, r);
        } else {
            out.push(s[i]);
            assert(out@ =~= before + seq![s@[i as int]]);
        }
        i += 1;
    }
    assert(s@.take(s.len() as int) =~= s@);
    out
}

/// `str::trim_matches(c)`: every leading and trailing `c` removed.
pub open spec fn trim_char(s: Seq<char>, c: char) -> Seq<char> {
    strip_trailing(strip_leading(s, c), c)
}

pub fn trim_char_v(s: &Vec<char>, c: char) -> (r: Vec<char>)
    ensures r@ == trim_char(s@, c),
{
    strip_trailing_v(&strip_leading_v(s, c), c)
}

/// The last index of `c` in `s` (`str::rfind`).
pub open spec fn rfind_char(s: Seq<char>, c: char) -> Option<int>
    decreases s.len(),
{
    if s.len() == 0 {
        None
    } else if s.last() == c {
        Some(s.len() - 1)
    } else {
        rfind_char(s.drop_last(), c)
    }
}

proof fn lemma_rfind_char(s: Seq<char>, c: char, j: int)
    requires
        0 <= j <= s.len(),
        forall|k: int| j <= k < s.len() ==> #[trigger] s[k] != c,
    ensures rfind_char(s, c) == rfind_char(s.take(j), c),
    decreases s.len() - j,
{
    if j < s.len() {
        assert(s.drop_last().take(j) =~= s.take(j));
        lemma_rfind_char(s.drop_last(), c, j);
    } else {
        assert(s.take(j) =~= s);
    }
}

pub fn rfind_char_v(s: &Vec<char>, c: char) -> (r: Option<usize>)
    ensures
        match r {
            Some(i) => rfind_char(s@, c) == Some(i as int) && i < s.len(),
            None => rfind_char(s@, c) is None,
        },
{
    let mut j: usize = s.len();
    while j > 0
        invariant
            j <= s.len(),
            forall|k: int| j <= k < s.len() ==> #[trigger] s@[k] != c,
        decreases j,
    {
        if s[j - 1] == c {
            proof {
                lemma_rfind_char(s@, c, j as int);
                assert(s@.take(j as int).last() == c);
            }
            return Some(j - 1);
        }
        j -= 1;
    }
    proof {
        lemma_rfind_char(s@, c, 0);
        assert(s@.take(0).len() == 0);
    }
    None
}

// ── conversions ─────────────────────────────────────────────────────────

/// The characters of `s`, in order.
pub fn chars_of(s: &str) -> (v: Vec<char>)
    ensures v@ == s@,
{
    let mut v: Vec<char> = Vec::new();
    for c in it: s.chars()
        invariant
            v@ == it.seq().take(it.index() as int),
            it.seq() == s@,
    {
        v.push(c);
    }
    v
}

/// `String::push`: appends one character.
#[verifier::external_body]
fn push_char(s: &mut String, c: char)
    ensures final(s)@ == old(s)@.push(c),
{
    s.push(c);
}

/// The string whose characters are `v`.
pub fn string_of(v: &Vec<char>) -> (s: String)
    ensures s@ == v@,
{
    let mut s = String::new();
    let mut i: usize = 0;
    while i < v.len()
        invariant
            i <= v.len(),
            s@ == v@.take(i as int),
        decreases v.len() - i,
    {
        push_char(&mut s, v[i]);
        i += 1;
        assert(s@ =~= v@.take(i as int));
    }
    assert(v@.take(v.len() as int) =~= v@);
    s
}

/// Decimal digit `d` as a character.
pub open spec fn digit_char(d: nat) -> char {
    if d == 0 { '0' } else if d == 1 { '1' } else if d == 2 { '2' } else if d == 3 { '3' }
    else if d == 4 { '4' } else if d == 5 { '5' } else if d == 6 { '6' } else if d == 7 { '7' }
    else if d == 8 { '8' } else { '9' }
}

/// The decimal notation of `n`, as `Display` writes it.
pub open spec fn decimal(n: nat) -> Seq<char>
    decreases n,
{
    if n < 10 { seq![digit_char(n)] } else { decimal(n / 10).push(digit_char(n % 10)) }
}

/// A decimal notation is a non-empty run of digits whose value is the number.
pub proof fn lemma_decimal_digits(n: nat)
    ensures
        decimal(n).len() > 0,
        all_digits(decimal(n)),
        digits_value(decimal(n)) == n,
        !decimal(n).contains('\n'),
    decreases n,
{
    if n >= 10 {
        lemma_decimal_digits(n / 10);
        let s = decimal(n);
        assert(s.drop_last() =~= decimal(n / 10));
        assert forall|k: int| 0 <= k < s.len() implies is_digit(#[trigger] s[k]) by {
            if k < s.len() - 1 {
                assert(s[k] == decimal(n / 10)[k]);
            }
        }
        assert(digit_char((n % 10) as nat) as nat - '0' as nat == n % 10);
        assert(s.last() == digit_char((n % 10) as nat));
        assert(digits_value(s) == digits_value(decimal(n / 10)) * 10 + (n % 10));
        assert(n == (n / 10) * 10 + n % 10);
    } else {
        assert(digit_char(n) as nat - '0' as nat == n);
        let s = decimal(n);
        assert(s.drop_last() =~= Seq::<char>::empty());
        assert(digits_value(s.drop_last()) == 0);
    }
    let s = decimal(n);
    assert(!s.contains('\n')) by {
        if s.contains('\n') {
            let k = choose|k: int| 0 <= k < s.len() && s[k] == '\n';
            assert(is_digit(s[k]));
        }
    }
}

/// The decimal notation of a signed integer, with `-` before a negative one.
pub open spec fn signed_decimal(n: int) -> Seq<char> {
    if n < 0 { seq!['-'] + decimal((-n) as nat) } else { decimal(n as nat) }
}

fn digit_of(d: u64) -> (c: char)
    requires d < 10,
    ensures c == digit_char(d as nat),
{
    if d == 0 { '0' } else if d == 1 { '1' } else if d == 2 { '2' } else if d == 3 { '3' }
    else if d == 4 { '4' } else if d == 5 { '5' } else if d == 6 { '6' } else if d == 7 { '7' }
    else if d == 8 { '8' } else { '9' }
}

/// The decimal notation of `n`.
pub fn decimal_v(n: u64) -> (r: Vec<char>)
    ensures r@ == decimal(n as nat),
    decreases n,
{
    if n < 10 {
        let mut r = Vec::new();
        r.push(digit_of(n));
        assert(r@ =~= seq![digit_char(n as nat)]);
        r
    } else {
        let mut r = decimal_v(n / 10);
        r.push(digit_of(n % 10));
        r
    }
}

/// The decimal notation of a signed integer.
pub fn signed_decimal_v(n: i64) -> (r: Vec<char>)
    ensures r@ == signed_decimal(n as int),
{
    if n < 0 {
        let m: u64 = if n == i64::MIN { 9223372036854775808u64 } else { (-n) as u64 };
        let mut r = Vec::new();
        r.push('-');
        let d = decimal_v(m);
        append(&mut r, &d);
        assert(r@ =~= seq!['-'] + decimal((-(n as int)) as nat));
        r
    } else {
        decimal_v(n as u64)
    }
}

/// `char::is_alphanumeric`: Unicode's alphabetic and numeric characters, a
/// property of the character alone.
pub uninterp spec fn unicode_alphanumeric(c: char) -> bool;

/// `char::is_alphanumeric`.
#[verifier::external_body]
pub(crate) fn is_alphanumeric(c: char) -> (r: bool)
    ensures r == unicode_alphanumeric(c),
{
    c.is_alphanumeric()
}

} // verus!
