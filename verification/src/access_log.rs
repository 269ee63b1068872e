//! The traffic figures of a site, read from the tail of its nginx access
//! log in combined format:
//! `IP - - [date] "METHOD /path HTTP/x.x" STATUS SIZE "referrer" "agent"`.
use vstd::prelude::*;
use crate::text::{
    chars_of, eq_v, lines, lines_v, parse_u64, parse_u64_v, slice, split_by, split_by_v, split_on, split_v,
    starts_with_v, views, ws_tokens, ws_tokens_v, lemma_split_on_len,
};

verus! {

// ── one line ────────────────────────────────────────────────────────────

/// The client address: the text before the first space.
pub open spec fn line_ip(l: Seq<char>) -> Seq<char> {
    split_on(l, ' ')[0]
}

/// The fields after the closing quote of the request line.
pub open spec fn after_request(l: Seq<char>) -> Seq<Seq<char>> {
    let p = split_by(l, "\" "@);
    if p.len() >= 2 { ws_tokens(p[1]) } else { Seq::empty() }
}

/// The status code, the first of those fields.
pub open spec fn line_status(l: Seq<char>) -> Option<Seq<char>> {
    let f = after_request(l);
    if f.len() >= 1 { Some(f[0]) } else { None }
}

/// The response size, the second of those fields when it is a number.
pub open spec fn line_bytes(l: Seq<char>) -> nat {
    let f = after_request(l);
    if f.len() >= 2 {
        match parse_u64(f[1]) {
            Some(n) => n as nat,
            None => 0,
        }
    } else {
        0
    }
}

/// The page asked for: the request line's path without its query, unless
/// it is the favicon or under `/api/`.
pub open spec fn line_page(l: Seq<char>) -> Option<Seq<char>> {
    let q = split_on(l, '"');
    if q.len() >= 2 {
        let r = ws_tokens(q[1]);
        if r.len() >= 2 {
            let c = split_on(r[1], '?')[0];
            if c != "/favicon.ico"@ && !"/api/"@.is_prefix_of(c) { Some(c) } else { None }
        } else {
            None
        }
    } else {
        None
    }
}

// ── the whole log ───────────────────────────────────────────────────────

/// The requests: the non-empty lines.
pub open spec fn request_count(ls: Seq<Seq<char>>) -> nat
    decreases ls.len(),
{
    if ls.len() == 0 {
        0
    } else {
        request_count(ls.drop_last()) + if ls.last().len() > 0 { 1nat } else { 0nat }
    }
}

/// The bytes served, summed over the requests.
pub open spec fn byte_total(ls: Seq<Seq<char>>) -> nat
    decreases ls.len(),
{
    if ls.len() == 0 {
        0
    } else {
        byte_total(ls.drop_last()) + if ls.last().len() > 0 { line_bytes(ls.last()) } else { 0nat }
    }
}

/// The client of each request, in order.
pub open spec fn ip_list(ls: Seq<Seq<char>>) -> Seq<Seq<char>>
    decreases ls.len(),
{
    if ls.len() == 0 {
        Seq::empty()
    } else if ls.last().len() > 0 {
        ip_list(ls.drop_last()).push(line_ip(ls.last()))
    } else {
        ip_list(ls.drop_last())
    }
}

/// The status of each request that shows one, in order.
pub open spec fn status_list(ls: Seq<Seq<char>>) -> Seq<Seq<char>>
    decreases ls.len(),
{
    if ls.len() == 0 {
        Seq::empty()
    } else if ls.last().len() > 0 && line_status(ls.last()) is Some {
        status_list(ls.drop_last()).push(line_status(ls.last())->0)
    } else {
        status_list(ls.drop_last())
    }
}

/// The counted page of each request that names one, in order.
pub open spec fn page_list(ls: Seq<Seq<char>>) -> Seq<Seq<char>>
    decreases ls.len(),
{
    if ls.len() == 0 {
        Seq::empty()
    } else if ls.last().len() > 0 && line_page(ls.last()) is Some {
        page_list(ls.drop_last()).push(line_page(ls.last())->0)
    } else {
        page_list(ls.drop_last())
    }
}

/// How often `key` occurs in `s`.
pub open spec fn occurrences(s: Seq<Seq<char>>, key: Seq<char>) -> nat
    decreases s.len(),
{
    if s.len() == 0 {
        0
    } else {
        occurrences(s.drop_last(), key) + if s.last() == key { 1nat } else { 0nat }
    }
}

/// A counted entry by its view.
pub open spec fn entry(x: (String, u32)) -> (Seq<char>, u32) {
    (x.0@, x.1)
}

pub open spec fn keys_of(t: Seq<(String, u32)>) -> Seq<Seq<char>> {
    Seq::new(t.len(), |k: int| t[k].0@)
}

/// A count per distinct item: each key once, with the number of times it
/// occurs, and every item among the keys.
pub open spec fn is_tally(t: Seq<(String, u32)>, items: Seq<Seq<char>>) -> bool {
    &&& keys_of(t).no_duplicates()
    &&& forall|k: int| 0 <= k < t.len() ==> (#[trigger] t[k]).1 == occurrences(items, t[k].0@) && t[k].1 >= 1
    &&& forall|j: int| 0 <= j < items.len() ==> keys_of(t).contains(#[trigger] items[j])
}

/// The `n` most frequent items, each with its count, most frequent first:
/// as many as there are distinct items up to `n`, and no item left out
/// occurs more often than one taken.
pub open spec fn is_top_of(r: Seq<(String, u32)>, items: Seq<Seq<char>>, n: nat) -> bool {
    &&& r.len() == (if items.to_set().len() < n { items.to_set().len() } else { n })
    &&& keys_of(r).no_duplicates()
    &&& forall|j: int| 0 <= j < r.len() ==> items.contains(#[trigger] r[j].0@) && r[j].1 == occurrences(items, r[j].0@)
    &&& forall|a: int, b: int| 0 <= a < b < r.len() ==> (#[trigger] r[a]).1 >= (#[trigger] r[b]).1
    &&& forall|x: Seq<char>| #[trigger] items.contains(x) && !keys_of(r).contains(x) ==>
            forall|j: int| 0 <= j < r.len() ==> occurrences(items, x) <= (#[trigger] r[j]).1
}

/// The busiest entries of a tally, at most `n` of them, busiest first: no
/// entry left out is busier than one taken, and fewer than `n` are taken
/// only when the tally has no more.
pub open spec fn is_top(r: Seq<(String, u32)>, t: Seq<(String, u32)>, n: nat) -> bool {
    &&& r.len() == (if t.len() < n { t.len() } else { n })
    &&& keys_of(r).no_duplicates()
    &&& forall|j: int| 0 <= j < r.len() ==> keys_of(t).contains(#[trigger] r[j].0@)
    &&& forall|j: int, k: int| 0 <= j < r.len() && 0 <= k < t.len() && (#[trigger] t[k]).0@ == (#[trigger] r[j]).0@ ==> t[k].1 == r[j].1
    &&& forall|a: int, b: int| 0 <= a < b < r.len() ==> (#[trigger] r[a]).1 >= (#[trigger] r[b]).1
    &&& forall|k: int| 0 <= k < t.len() && !keys_of(r).contains(#[trigger] t[k].0@) ==>
            forall|j: int| 0 <= j < r.len() ==> t[k].1 <= (#[trigger] r[j]).1
}

/// What the panel shows of a site's traffic. The megabytes figure is the
/// byte count scaled, and is left to the caller.
pub struct SiteStats {
    pub requests: u32,
    pub bandwidth: u64,
    pub unique_ips: usize,
    pub top_pages: Vec<(String, u32)>,
    pub status_codes: Vec<(String, u32)>,
}

// ── lemmas ──────────────────────────────────────────────────────────────

proof fn lemma_request_count_bound(ls: Seq<Seq<char>>)
    ensures request_count(ls) <= ls.len(),
    decreases ls.len(),
{
    if ls.len() > 0 {
        lemma_request_count_bound(ls.drop_last());
    }
}

proof fn lemma_byte_total_prefix(ls: Seq<Seq<char>>, i: int)
    requires 0 <= i <= ls.len(),
    ensures byte_total(ls.take(i)) <= byte_total(ls),
    decreases ls.len() - i,
{
    if i < ls.len() {
        lemma_byte_total_prefix(ls, i + 1);
        assert(ls.take(i + 1).drop_last() =~= ls.take(i));
    } else {
        assert(ls.take(i) =~= ls);
    }
}

proof fn lemma_occurrences_bound(s: Seq<Seq<char>>, key: Seq<char>)
    ensures occurrences(s, key) <= s.len(),
    decreases s.len(),
{
    if s.len() > 0 {
        lemma_occurrences_bound(s.drop_last(), key);
    }
}

// ── per line, executable ────────────────────────────────────────────────

fn after_request_v(l: &Vec<char>) -> (r: Vec<Vec<char>>)
    ensures views(r@) == after_request(l@),
{
    proof { reveal_strlit("\" "); }
    let p = split_by_v(l, &chars_of("\" "));
    if p.len() >= 2 {
        ws_tokens_v(&p[1])
    } else {
        let none: Vec<Vec<char>> = Vec::new();
        assert(views(none@) =~= Seq::<Seq<char>>::empty());
        none
    }
}

fn copy(v: &Vec<char>) -> (r: Vec<char>)
    ensures r@ == v@,
{
    let r = slice(v, 0, v.len());
    assert(r@ =~= v@);
    r
}

fn line_page_v(l: &Vec<char>) -> (r: Option<Vec<char>>)
    ensures
        match line_page(l@) {
            Some(p) => r matches Some(x) && x@ == p,
            None => r is None,
        },
{
    let q = split_v(l, '"');
    if q.len() < 2 {
        return None;
    }
    let rq = ws_tokens_v(&q[1]);
    if rq.len() < 2 {
        return None;
    }
    let parts = split_v(&rq[1], '?');
    proof { lemma_split_on_len(views(rq@)[1], '?'); }
    let c = copy(&parts[0]);
    if !eq_v(&c, &chars_of("/favicon.ico")) && !starts_with_v(&c, &chars_of("/api/")) {
        Some(c)
    } else {
        None
    }
}

// ── counting ────────────────────────────────────────────────────────────

fn string_of_chars(v: &Vec<char>) -> (r: String)
    ensures r@ == v@,
{
    crate::text::string_of(v)
}

fn find_key(t: &Vec<(String, u32)>, key: &Vec<char>) -> (r: Option<usize>)
    ensures
        match r {
            Some(k) => k < t.len() && t@[k as int].0@ == key@,
            None => forall|m: int| 0 <= m < t@.len() ==> (#[trigger] t@[m]).0@ != key@,
        },
{
    let mut k: usize = 0;
    while k < t.len()
        invariant
            k <= t.len(),
            forall|m: int| 0 <= m < k ==> (#[trigger] t@[m]).0@ != key@,
        decreases t.len() - k,
    {
        if eq_v(&chars_of(t[k].0.as_str()), key) {
            return Some(k);
        }
        k += 1;
    }
    None
}

/// Counts each distinct item, in the order items first appear.
pub fn tally(items: &Vec<Vec<char>>) -> (t: Vec<(String, u32)>)
    requires items.len() <= u32::MAX,
    ensures is_tally(t@, views(items@)),
{
    let mut t: Vec<(String, u32)> = Vec::new();
    let mut i: usize = 0;
    while i < items.len()
        invariant
            i <= items.len(),
            items.len() <= u32::MAX,
            is_tally(t@, views(items@).take(i as int)),
        decreases items.len() - i,
    {
        let ghost pre = views(items@).take(i as int);
        let ghost post = views(items@).take(i + 1);
        assert(post.drop_last() =~= pre);
        let ghost key = items@[i as int]@;
        assert(post.last() == key);
        let at = find_key(&t, &items[i]);
        let ghost t0 = t@;
        if let Some(k) = at {
            proof {
                lemma_occurrences_bound(pre, key);
            }
            let c = t[k].1;
            let name = string_of_chars(&chars_of(t[k].0.as_str()));
            t.set(k, (name, c + 1));
            assert(keys_of(t@) =~= keys_of(t0));
            assert forall|m: int| 0 <= m < t@.len() implies (#[trigger] t@[m]).1 == occurrences(post, t@[m].0@) by {
                assert(occurrences(post, t@[m].0@) == occurrences(pre, t@[m].0@)
                    + if post.last() == t@[m].0@ { 1nat } else { 0nat });
                if m != k {
                    assert(t@[m] == t0[m]);
                    assert(keys_of(t0)[m] != keys_of(t0)[k as int]);
                } else {
                    assert(t0[m].1 == occurrences(pre, key));
                }
            }
            assert forall|j: int| 0 <= j < post.len() implies keys_of(t@).contains(#[trigger] post[j]) by {
                if j < i {
                    assert(post[j] == pre[j]);
                } else {
                    assert(keys_of(t@)[k as int] == key);
                }
            }
        } else {
            let name = string_of_chars(&items[i]);
            t.push((name, 1));
            assert(keys_of(t@) =~= keys_of(t0).push(key));
            assert(!keys_of(t0).contains(key)) by {
                if keys_of(t0).contains(key) {
                    let m = choose|m: int| 0 <= m < keys_of(t0).len() && keys_of(t0)[m] == key;
                    assert(t0[m].0@ == key);
                }
            }
            assert(occurrences(pre, key) == 0) by {
                if occurrences(pre, key) > 0 {
                    lemma_occurs_in(pre, key);
                }
            }
            assert forall|m: int| 0 <= m < t@.len() implies (#[trigger] t@[m]).1 == occurrences(post, t@[m].0@) by {
                assert(occurrences(post, t@[m].0@) == occurrences(pre, t@[m].0@)
                    + if post.last() == t@[m].0@ { 1nat } else { 0nat });
                if m < t0.len() {
                    assert(t@[m] == t0[m]);
                    assert(t0[m].0@ != key);
                } else {
                    assert(t@[m] == (name, 1u32));
                    assert(name@ == key);
                }
            }
            assert forall|j: int| 0 <= j < post.len() implies keys_of(t@).contains(#[trigger] post[j]) by {
                if j < i {
                    assert(post[j] == pre[j]);
                    assert(keys_of(t0).contains(pre[j]));
                    let m = choose|m: int| 0 <= m < keys_of(t0).len() && keys_of(t0)[m] == pre[j];
                    assert(keys_of(t@)[m] == pre[j]);
                } else {
                    assert(keys_of(t@)[t0.len() as int] == key);
                }
            }
        }
        i += 1;
    }
    assert(views(items@).take(items.len() as int) =~= views(items@));
    t
}

/// Where the entry `k` of a tally goes among entries already ordered
/// busiest first: after every one at least as busy.
fn slot_for(t: &Vec<(String, u32)>, idx: &Vec<usize>, k: usize) -> (p: usize)
    requires
        k < t.len(),
        forall|j: int| 0 <= j < idx@.len() ==> (#[trigger] idx@[j]) < t.len(),
        forall|a: int, b: int| 0 <= a < b < idx@.len() ==> t@[idx@[a] as int].1 >= t@[idx@[b] as int].1,
    ensures
        p <= idx.len(),
        forall|j: int| 0 <= j < p ==> t@[(#[trigger] idx@[j]) as int].1 >= t@[k as int].1,
        forall|j: int| p <= j < idx@.len() ==> t@[(#[trigger] idx@[j]) as int].1 < t@[k as int].1,
{
    let mut p: usize = 0;
    while p < idx.len() && t[idx[p]].1 >= t[k].1
        invariant
            p <= idx.len(),
            k < t.len(),
            forall|j: int| 0 <= j < idx@.len() ==> (#[trigger] idx@[j]) < t.len(),
            forall|j: int| 0 <= j < p ==> t@[(#[trigger] idx@[j]) as int].1 >= t@[k as int].1,
        decreases idx.len() - p,
    {
        p += 1;
    }
    assert forall|j: int| p <= j < idx@.len() implies t@[(#[trigger] idx@[j]) as int].1 < t@[k as int].1 by {
        if j > p {
            assert(t@[idx@[p as int] as int].1 >= t@[idx@[j] as int].1);
        }
    }
    p
}

/// The `n` busiest entries of a tally, busiest first; among equally busy
/// ones, the one counted first comes first.
pub fn top_entries(t: &Vec<(String, u32)>, n: usize) -> (r: Vec<(String, u32)>)
    requires keys_of(t@).no_duplicates(),
    ensures is_top(r@, t@, n as nat),
{
    let mut idx: Vec<usize> = Vec::new();
    let mut k: usize = 0;
    while k < t.len()
        invariant
            k <= t.len(),
            idx@.len() == k,
            idx@.no_duplicates(),
            forall|j: int| 0 <= j < idx@.len() ==> (#[trigger] idx@[j]) < k,
            forall|m: usize| m < k ==> #[trigger] idx@.contains(m),
            forall|a: int, b: int| 0 <= a < b < idx@.len() ==> t@[idx@[a] as int].1 >= t@[idx@[b] as int].1,
        decreases t.len() - k,
    {
        let p = slot_for(t, &idx, k);
        let ghost before = idx@;
        idx.insert(p, k);
        assert(idx@ == before.insert(p as int, k));
        assert forall|j: int| 0 <= j < idx@.len() implies (#[trigger] idx@[j]) < k + 1 by {
            if j < p { assert(idx@[j] == before[j]); } else if j > p { assert(idx@[j] == before[j - 1]); }
        }
        assert forall|m: usize| m < k + 1 implies #[trigger] idx@.contains(m) by {
            if m == k {
                assert(idx@[p as int] == k);
            } else {
                assert(before.contains(m));
                let q = choose|q: int| 0 <= q < before.len() && before[q] == m;
                if q < p { assert(idx@[q] == m); } else { assert(idx@[q + 1] == m); }
            }
        }
        assert forall|a: int, b: int| 0 <= a < b < idx@.len() implies t@[idx@[a] as int].1 >= t@[idx@[b] as int].1 by {
            if b < p {
                assert(idx@[a] == before[a] && idx@[b] == before[b]);
            } else if b == p {
                assert(idx@[a] == before[a]);
            } else if a < p {
                assert(idx@[a] == before[a] && idx@[b] == before[b - 1]);
            } else if a == p {
                assert(idx@[b] == before[b - 1]);
            } else {
                assert(idx@[a] == before[a - 1] && idx@[b] == before[b - 1]);
            }
        }
        assert(idx@.no_duplicates()) by {
            assert forall|a: int, b: int| 0 <= a < b < idx@.len() implies idx@[a] != idx@[b] by {
                if b < p {
                    assert(idx@[a] == before[a] && idx@[b] == before[b]);
                } else if b == p {
                    assert(idx@[a] == before[a]);
                } else if a < p {
                    assert(idx@[a] == before[a] && idx@[b] == before[b - 1]);
                } else if a == p {
                    assert(idx@[b] == before[b - 1]);
                } else {
                    assert(idx@[a] == before[a - 1] && idx@[b] == before[b - 1]);
                }
            }
        }
        k += 1;
    }
    let m = if t.len() < n { t.len() } else { n };
    let mut r: Vec<(String, u32)> = Vec::new();
    let mut j: usize = 0;
    while j < m
        invariant
            j <= m,
            m <= t.len(),
            m == (if t.len() < n { t.len() } else { n }),
            idx@.len() == t.len(),
            idx@.no_duplicates(),
            forall|q: int| 0 <= q < idx@.len() ==> (#[trigger] idx@[q]) < t.len(),
            forall|q: usize| q < t.len() ==> #[trigger] idx@.contains(q),
            forall|a: int, b: int| 0 <= a < b < idx@.len() ==> t@[idx@[a] as int].1 >= t@[idx@[b] as int].1,
            keys_of(t@).no_duplicates(),
            r@.len() == j,
            forall|q: int| 0 <= q < j ==> entry(#[trigger] r@[q]) == entry(t@[idx@[q] as int]),
        decreases m - j,
    {
        let e = &t[idx[j]];
        let name = string_of_chars(&chars_of(e.0.as_str()));
        r.push((name, e.1));
        proof {
            assert(entry(r@[j as int]) == entry(t@[idx@[j as int] as int]));
        }
        j += 1;
    }
    proof { lemma_top(r@, t@, idx@, n as nat); }
    r
}

proof fn lemma_top(r: Seq<(String, u32)>, t: Seq<(String, u32)>, idx: Seq<usize>, n: nat)
    requires
        keys_of(t).no_duplicates(),
        t.len() <= usize::MAX,
        idx.len() == t.len(),
        idx.no_duplicates(),
        forall|q: int| 0 <= q < idx.len() ==> (#[trigger] idx[q]) < t.len(),
        forall|m: usize| m < t.len() ==> #[trigger] idx.contains(m),
        forall|a: int, b: int| 0 <= a < b < idx.len() ==> t[idx[a] as int].1 >= t[idx[b] as int].1,
        r.len() == (if t.len() < n { t.len() } else { n }),
        forall|q: int| 0 <= q < r.len() ==> entry(#[trigger] r[q]) == entry(t[idx[q] as int]),
    ensures
        is_top(r, t, n),
{
    assert forall|a: int, b: int| 0 <= a < keys_of(r).len() && 0 <= b < keys_of(r).len() && a != b
        implies keys_of(r)[a] != keys_of(r)[b] by {
        assert(entry(r[a]) == entry(t[idx[a] as int]) && entry(r[b]) == entry(t[idx[b] as int]));
        assert(idx[a] != idx[b]);
        assert(keys_of(t)[idx[a] as int] != keys_of(t)[idx[b] as int]);
    }
    assert forall|j: int| 0 <= j < r.len() implies keys_of(t).contains(#[trigger] r[j].0@) by {
        let k = idx[j] as int;
        assert(entry(r[j]) == entry(t[k]));
        assert(keys_of(t)[k] == r[j].0@);
    }
    assert forall|j: int, k: int| 0 <= j < r.len() && 0 <= k < t.len() && (#[trigger] t[k]).0@ == (#[trigger] r[j]).0@
        implies t[k].1 == r[j].1 by {
        let m = idx[j] as int;
        assert(entry(r[j]) == entry(t[m]));
        if m != k {
            assert(keys_of(t)[m] != keys_of(t)[k]);
        }
    }
    assert forall|a: int, b: int| 0 <= a < b < r.len() implies (#[trigger] r[a]).1 >= (#[trigger] r[b]).1 by {
        assert(entry(r[a]) == entry(t[idx[a] as int]) && entry(r[b]) == entry(t[idx[b] as int]));
    }
    assert forall|k: int| 0 <= k < t.len() && !keys_of(r).contains(#[trigger] t[k].0@) implies
        forall|j: int| 0 <= j < r.len() ==> t[k].1 <= (#[trigger] r[j]).1 by {
        let kk = k as usize;
        assert(kk as int == k);
        assert(idx.contains(kk));
        let q = choose|q: int| 0 <= q < idx.len() && idx[q] == kk;
        assert(idx[q] as int == k);
        if q < r.len() {
            assert(entry(r[q]) == entry(t[k]));
            assert(keys_of(r)[q] == t[k].0@);
        }
        assert forall|j: int| 0 <= j < r.len() implies t[k].1 <= (#[trigger] r[j]).1 by {
            assert(entry(r[j]) == entry(t[idx[j] as int]));
            assert(j < q);
        }
    }

}

proof fn lemma_tally_size(t: Seq<(String, u32)>, items: Seq<Seq<char>>)
    requires is_tally(t, items),
    ensures
        keys_of(t).to_set() == items.to_set(),
        t.len() == items.to_set().len(),
{
    assert forall|x: Seq<char>| keys_of(t).to_set().contains(x) <==> items.to_set().contains(x) by {
        if keys_of(t).contains(x) {
            let k = choose|k: int| 0 <= k < keys_of(t).len() && keys_of(t)[k] == x;
            assert(t[k].1 >= 1);
            lemma_occurs_in(items, x);
        }
        if items.contains(x) {
            let j = choose|j: int| 0 <= j < items.len() && items[j] == x;
            assert(keys_of(t).contains(items[j]));
        }
    }
    assert(keys_of(t).to_set() =~= items.to_set());
    keys_of(t).unique_seq_to_set();
}

proof fn lemma_top_of(r: Seq<(String, u32)>, t: Seq<(String, u32)>, items: Seq<Seq<char>>, n: nat)
    requires
        is_tally(t, items),
        is_top(r, t, n),
    ensures
        is_top_of(r, items, n),
{
    lemma_tally_size(t, items);
    assert forall|j: int| 0 <= j < r.len() implies items.contains(#[trigger] r[j].0@) && r[j].1 == occurrences(items, r[j].0@) by {
        assert(keys_of(t).contains(r[j].0@));
        let k = choose|k: int| 0 <= k < keys_of(t).len() && keys_of(t)[k] == r[j].0@;
        assert(t[k].0@ == r[j].0@);
        assert(t[k].1 == r[j].1);
        assert(keys_of(t).to_set().contains(r[j].0@));
    }
    assert forall|x: Seq<char>| #[trigger] items.contains(x) && !keys_of(r).contains(x) implies
        forall|j: int| 0 <= j < r.len() ==> occurrences(items, x) <= (#[trigger] r[j]).1 by {
        assert(items.to_set().contains(x));
        assert(keys_of(t).to_set().contains(x));
        let k = choose|k: int| 0 <= k < keys_of(t).len() && keys_of(t)[k] == x;
        assert(t[k].0@ == x);
        assert(!keys_of(r).contains(t[k].0@));
    }
}

proof fn lemma_occurs_in(s: Seq<Seq<char>>, key: Seq<char>)
    requires occurrences(s, key) > 0,
    ensures s.contains(key),
    decreases s.len(),
{
    if s.last() == key {
        assert(s[s.len() - 1] == key);
    } else {
        lemma_occurs_in(s.drop_last(), key);
        let j = choose|j: int| 0 <= j < s.drop_last().len() && s.drop_last()[j] == key;
        assert(s[j] == key);
    }
}

proof fn lemma_lists_bound(ls: Seq<Seq<char>>)
    ensures
        ip_list(ls).len() <= ls.len(),
        status_list(ls).len() <= ls.len(),
        page_list(ls).len() <= ls.len(),
        request_count(ls) <= ls.len(),
    decreases ls.len(),
{
    if ls.len() > 0 {
        lemma_lists_bound(ls.drop_last());
    }
}

fn push_view(v: &mut Vec<Vec<char>>, x: Vec<char>)
    ensures views(final(v)@) == views(old(v)@).push(x@),
{
    let ghost before = v@;
    v.push(x);
    assert(views(v@) =~= views(before).push(x@));
}

/// Whether the figures of a log fit their counters: at most `u32::MAX`
/// lines, and at most `u64::MAX` bytes served in all.
pub fn access_log_fits(content: &str) -> (r: bool)
    ensures r == (lines(content@).len() <= u32::MAX && byte_total(lines(content@)) <= u64::MAX),
{
    let ls = lines_v(&chars_of(content));
    if ls.len() > 0xffff_ffff {
        return false;
    }
    let ghost all = lines(content@);
    let mut total: u64 = 0;
    let mut i: usize = 0;
    while i < ls.len()
        invariant
            i <= ls.len(),
            views(ls@) == all,
            all == lines(content@),
            total == byte_total(all.take(i as int)),
        decreases ls.len() - i,
    {
        assert(all.take(i + 1).drop_last() =~= all.take(i as int));
        assert(all.take(i + 1).last() == ls@[i as int]@);
        let l = &ls[i];
        let mut b: u64 = 0;
        if l.len() > 0 {
            let f = after_request_v(l);
            if f.len() >= 2 {
                match parse_u64_v(&f[1]) {
                    Some(n) => { b = n; },
                    None => {},
                }
            }
        }
        match total.checked_add(b) {
            Some(t) => { total = t; },
            None => {
                proof { lemma_byte_total_prefix(all, i + 1); }
                return false;
            },
        }
        i += 1;
    }
    assert(all.take(ls.len() as int) =~= all);
    true
}

/// The traffic figures of an access log's lines: requests, bytes served,
/// distinct clients, the count of each status, and the ten most asked-for
/// pages.
pub fn access_log_stats(content: &str) -> (r: SiteStats)
    requires
        lines(content@).len() <= u32::MAX,
        byte_total(lines(content@)) <= u64::MAX,
    ensures
        r.requests == request_count(lines(content@)),
        r.bandwidth == byte_total(lines(content@)),
        r.unique_ips == ip_list(lines(content@)).to_set().len(),
        is_tally(r.status_codes@, status_list(lines(content@))),
        is_top_of(r.top_pages@, page_list(lines(content@)), 10),
{
    let ls = lines_v(&chars_of(content));
    let ghost all = lines(content@);
    let mut requests: u32 = 0;
    let mut bandwidth: u64 = 0;
    let mut ips: Vec<Vec<char>> = Vec::new();
    let mut statuses: Vec<Vec<char>> = Vec::new();
    let mut pages: Vec<Vec<char>> = Vec::new();
    let mut i: usize = 0;
    assert(views(ips@) =~= Seq::<Seq<char>>::empty());
    assert(views(statuses@) =~= Seq::<Seq<char>>::empty());
    assert(views(pages@) =~= Seq::<Seq<char>>::empty());
    while i < ls.len()
        invariant
            i <= ls.len(),
            views(ls@) == all,
            all == lines(content@),
            all.len() <= u32::MAX,
            byte_total(all) <= u64::MAX,
            requests == request_count(all.take(i as int)),
            bandwidth == byte_total(all.take(i as int)),
            views(ips@) == ip_list(all.take(i as int)),
            views(statuses@) == status_list(all.take(i as int)),
            views(pages@) == page_list(all.take(i as int)),
        decreases ls.len() - i,
    {
        let ghost pre = all.take(i as int);
        let ghost post = all.take(i + 1);
        assert(post.drop_last() =~= pre);
        assert(post.last() == ls@[i as int]@);
        proof {
            lemma_lists_bound(post);
            lemma_byte_total_prefix(all, i + 1);
        }
        let l = &ls[i];
        if l.len() > 0 {
            requests = requests + 1;
            let parts = split_v(l, ' ');
            proof { lemma_split_on_len(l@, ' '); }
            push_view(&mut ips, copy(&parts[0]));
            let f = after_request_v(l);
            if f.len() >= 1 {
                push_view(&mut statuses, copy(&f[0]));
            }
            let mut b: u64 = 0;
            if f.len() >= 2 {
                match parse_u64_v(&f[1]) {
                    Some(n) => { b = n; },
                    None => {},
                }
            }
            assert(b == line_bytes(l@));
            bandwidth = bandwidth + b;
            match line_page_v(l) {
                Some(p) => push_view(&mut pages, p),
                None => {},
            }
        }
        i += 1;
    }
    assert(all.take(ls.len() as int) =~= all);
    proof { lemma_lists_bound(all); }
    let ip_tally = tally(&ips);
    proof { lemma_tally_size(ip_tally@, views(ips@)); }
    let status_codes = tally(&statuses);
    let page_tally = tally(&pages);
    let top_pages = top_entries(&page_tally, 10);
    proof { lemma_top_of(top_pages@, page_tally@, views(pages@), 10); }
    SiteStats { requests, bandwidth, unique_ips: ip_tally.len(), top_pages, status_codes }
}

/// The favicon and the API never count as pages of a site.
pub proof fn law_pages_skip_favicon_and_api(ls: Seq<Seq<char>>)
    ensures
        forall|x: Seq<char>| #[trigger] page_list(ls).contains(x) ==> x != "/favicon.ico"@ && !"/api/"@.is_prefix_of(x),
    decreases ls.len(),
{
    if ls.len() > 0 {
        law_pages_skip_favicon_and_api(ls.drop_last());
        assert forall|x: Seq<char>| #[trigger] page_list(ls).contains(x) implies x != "/favicon.ico"@ && !"/api/"@.is_prefix_of(x) by {
            let p = page_list(ls.drop_last());
            let j = choose|j: int| 0 <= j < page_list(ls).len() && page_list(ls)[j] == x;
            if ls.last().len() > 0 && line_page(ls.last()) is Some {
                if j < p.len() {
                    assert(p[j] == x);
                    assert(p.contains(x));
                } else {
                    assert(x == line_page(ls.last())->0);
                }
            } else {
                assert(p[j] == x);
                assert(p.contains(x));
            }
        }
    }
}

} // verus!
