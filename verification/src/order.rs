//! The order `String`s compare in (by character, which for UTF-8 text is
//! the order of its bytes), and the two sorts the agent makes with it.
use vstd::prelude::*;
use vstd::relations::sorted_by;
use vstd::seq_lib::to_multiset_insert;
use crate::text::{chars_of, str_views};

verus! {

/// `a` sorts strictly before `b`.
pub open spec fn lex_lt(a: Seq<char>, b: Seq<char>) -> bool
    decreases a.len(),
{
    if a.len() == 0 {
        b.len() > 0
    } else if b.len() == 0 {
        false
    } else if a[0] != b[0] {
        a[0] < b[0]
    } else {
        lex_lt(a.skip(1), b.skip(1))
    }
}

/// `a` sorts no later than `b`.
pub open spec fn lex_le(a: Seq<char>, b: Seq<char>) -> bool {
    a == b || lex_lt(a, b)
}

pub proof fn lemma_lex_irreflexive(a: Seq<char>)
    ensures !lex_lt(a, a),
    decreases a.len(),
{
    if a.len() > 0 {
        lemma_lex_irreflexive(a.skip(1));
    }
}

pub proof fn lemma_lex_transitive(a: Seq<char>, b: Seq<char>, c: Seq<char>)
    requires lex_lt(a, b), lex_lt(b, c),
    ensures lex_lt(a, c),
    decreases a.len(),
{
    if a.len() > 0 && b.len() > 0 && c.len() > 0 && a[0] == b[0] && b[0] == c[0] {
        lemma_lex_transitive(a.skip(1), b.skip(1), c.skip(1));
    }
}

pub proof fn lemma_lex_total(a: Seq<char>, b: Seq<char>)
    requires a != b,
    ensures lex_lt(a, b) || lex_lt(b, a),
    decreases a.len(),
{
    if a.len() > 0 && b.len() > 0 {
        if a[0] == b[0] {
            if a.skip(1) == b.skip(1) {
                assert(a =~= seq![a[0]] + a.skip(1));
                assert(b =~= seq![b[0]] + b.skip(1));
            }
            lemma_lex_total(a.skip(1), b.skip(1));
        }
    } else if a.len() == 0 && b.len() == 0 {
        assert(a =~= b);
    }
}

/// Whether `a` sorts strictly before `b`.
pub fn lex_lt_v(a: &Vec<char>, b: &Vec<char>) -> (r: bool)
    ensures r == lex_lt(a@, b@),
{
    let mut i: usize = 0;
    assert(a@.skip(0) =~= a@);
    assert(b@.skip(0) =~= b@);
    while i < a.len() && i < b.len()
        invariant
            i <= a.len(),
            i <= b.len(),
            lex_lt(a@, b@) == lex_lt(a@.skip(i as int), b@.skip(i as int)),
        decreases a.len() - i,
    {
        if a[i] != b[i] {
            return a[i] < b[i];
        }
        assert(a@.skip(i as int).skip(1) =~= a@.skip(i + 1));
        assert(b@.skip(i as int).skip(1) =~= b@.skip(i + 1));
        i += 1;
    }
    i < b.len()
}

fn str_lt(a: &String, b: &String) -> (r: bool)
    ensures r == lex_lt(a@, b@),
{
    lex_lt_v(&chars_of(a.as_str()), &chars_of(b.as_str()))
}

fn str_eq(a: &String, b: &String) -> (r: bool)
    ensures r == (a@ == b@),
{
    let x = chars_of(a.as_str());
    let y = chars_of(b.as_str());
    crate::text::eq_v(&x, &y)
}

/// Strictly ascending: sorted, with nothing twice.
pub open spec fn ascending(s: Seq<Seq<char>>) -> bool {
    forall|i: int, j: int| 0 <= i < j < s.len() ==> lex_lt(#[trigger] s[i], #[trigger] s[j])
}

/// Not increasing: each sorts no earlier than the next.
pub open spec fn descending(s: Seq<Seq<char>>) -> bool {
    forall|i: int, j: int| 0 <= i < j < s.len() ==> lex_le(#[trigger] s[j], #[trigger] s[i])
}

proof fn lemma_str_views_insert(v: Seq<String>, j: int, x: String)
    requires 0 <= j <= v.len(),
    ensures str_views(v.insert(j, x)) == str_views(v).insert(j, x@),
{
    assert(str_views(v.insert(j, x)) =~= str_views(v).insert(j, x@));
}

/// Inserting `x` where everything before sorts before it and everything
/// after sorts after it keeps a strictly ascending list so.
proof fn lemma_insert_ascending(s: Seq<Seq<char>>, j: int, x: Seq<char>)
    requires
        0 <= j <= s.len(),
        ascending(s),
        forall|i: int| 0 <= i < j ==> lex_lt(#[trigger] s[i], x),
        forall|i: int| j <= i < s.len() ==> lex_lt(x, #[trigger] s[i]),
    ensures ascending(s.insert(j, x)),
{
    let t = s.insert(j, x);
    assert forall|a: int, b: int| 0 <= a < b < t.len() implies lex_lt(#[trigger] t[a], #[trigger] t[b]) by {
        if a < j && b == j {
        } else if a == j {
            assert(t[b] == s[b - 1]);
        } else if b == j {
        } else {
            let sa = if a < j { a } else { a - 1 };
            let sb = if b < j { b } else { b - 1 };
            assert(t[a] == s[sa]);
            assert(t[b] == s[sb]);
        }
    }
}

proof fn lemma_insert_contains<A>(s: Seq<A>, j: int, x: A)
    requires 0 <= j <= s.len(),
    ensures forall|y: A| s.insert(j, x).contains(y) <==> (s.contains(y) || y == x),
{
    let t = s.insert(j, x);
    assert forall|y: A| t.contains(y) implies (s.contains(y) || y == x) by {
        let i = choose|i: int| 0 <= i < t.len() && t[i] == y;
        if i < j {
            assert(s[i] == y);
        } else if i > j {
            assert(s[i - 1] == y);
        }
    }
    assert forall|y: A| (s.contains(y) || y == x) implies t.contains(y) by {
        if y == x {
            assert(t[j] == x);
        } else {
            let i = choose|i: int| 0 <= i < s.len() && s[i] == y;
            if i < j {
                assert(t[i] == y);
            } else {
                assert(t[i + 1] == y);
            }
        }
    }
}

/// The strings, sorted, each once (`sort` then `dedup`).
#[verifier::spinoff_prover]
pub fn sorted_unique(items: Vec<String>) -> (r: Vec<String>)
    ensures
        ascending(str_views(r@)),
        forall|x: Seq<char>| str_views(r@).contains(x) <==> str_views(items@).contains(x),
{
    let mut out: Vec<String> = Vec::new();
    let mut k: usize = 0;
    while k < items.len()
        invariant
            k <= items.len(),
            ascending(str_views(out@)),
            forall|x: Seq<char>| str_views(out@).contains(x) <==> str_views(items@.take(k as int)).contains(x),
        decreases items.len() - k,
    {
        let x = items[k].clone();
        let ghost before = str_views(out@);
        let ghost prev = str_views(items@.take(k as int));
        let ghost next = str_views(items@.take(k + 1));
        assert(next =~= prev.push(x@));
        assert(prev.insert(k as int, x@) =~= prev.push(x@));
        proof { lemma_insert_contains(prev, k as int, x@); }
        assert(forall|y: Seq<char>| next.contains(y) <==> (prev.contains(y) || y == x@));
        let mut j: usize = 0;
        while j < out.len() && str_lt(&out[j], &x)
            invariant
                j <= out.len(),
                before == str_views(out@),
                ascending(before),
                forall|i: int| 0 <= i < j ==> lex_lt(#[trigger] before[i], x@),
                forall|y: Seq<char>| before.contains(y) <==> prev.contains(y),
                forall|y: Seq<char>| next.contains(y) <==> (prev.contains(y) || y == x@),
            decreases out.len() - j,
        {
            j += 1;
        }
        if j < out.len() && str_eq(&out[j], &x) {
            assert(before[j as int] == x@);
            assert(before.contains(x@));
            assert forall|y: Seq<char>| str_views(out@).contains(y) <==> next.contains(y) by {
                assert(before.contains(y) <==> prev.contains(y));
                assert(next.contains(y) <==> (prev.contains(y) || y == x@));
                assert(prev.contains(x@));
            }
        } else {
            proof {
                if j < out.len() {
                    lemma_lex_total(x@, before[j as int]);
                }
                assert forall|i: int| j <= i < before.len() implies lex_lt(x@, #[trigger] before[i]) by {
                    if i > j {
                        lemma_lex_transitive(x@, before[j as int], before[i]);
                    }
                }
                lemma_insert_ascending(before, j as int, x@);
                lemma_insert_contains(before, j as int, x@);
            }
            let ghost out_before = out@;
            let ghost xs = x;
            out.insert(j, x);
            proof {
                lemma_str_views_insert(out_before, j as int, xs);
                assert(str_views(out@) == before.insert(j as int, xs@));
                assert forall|y: Seq<char>| str_views(out@).contains(y) <==> next.contains(y) by {
                    assert(before.insert(j as int, xs@).contains(y) <==> (before.contains(y) || y == xs@));
                    assert(before.contains(y) <==> prev.contains(y));
                    assert(next.contains(y) <==> (prev.contains(y) || y == xs@));
                }
            }
        }
        k += 1;
    }
    assert(items@.take(items.len() as int) =~= items@);
    out
}

/// Inserting `x` after everything no smaller and before everything smaller
/// keeps a non-increasing list so.
proof fn lemma_insert_descending(s: Seq<Seq<char>>, j: int, x: Seq<char>)
    requires
        0 <= j <= s.len(),
        descending(s),
        forall|i: int| 0 <= i < j ==> lex_le(x, #[trigger] s[i]),
        forall|i: int| j <= i < s.len() ==> lex_lt(#[trigger] s[i], x),
    ensures descending(s.insert(j, x)),
{
    let t = s.insert(j, x);
    assert forall|a: int, b: int| 0 <= a < b < t.len() implies lex_le(#[trigger] t[b], #[trigger] t[a]) by {
        if a < j && b == j {
        } else if a == j {
            assert(t[b] == s[b - 1]);
        } else if b == j {
        } else {
            let sa = if a < j { a } else { a - 1 };
            let sb = if b < j { b } else { b - 1 };
            assert(t[a] == s[sa]);
            assert(t[b] == s[sb]);
        }
    }
}

/// The strings from last to first in sort order (`sort_by(|a, b| b.cmp(a))`).
pub fn sorted_descending(items: Vec<String>) -> (r: Vec<String>)
    ensures
        descending(str_views(r@)),
        str_views(r@).to_multiset() == str_views(items@).to_multiset(),
{
    broadcast use vstd::seq_lib::group_to_multiset_ensures;
    let mut out: Vec<String> = Vec::new();
    let mut k: usize = 0;
    assert(str_views(out@).to_multiset() =~= str_views(items@.take(0)).to_multiset()) by {
        assert(str_views(out@) =~= str_views(items@.take(0)));
    }
    while k < items.len()
        invariant
            k <= items.len(),
            descending(str_views(out@)),
            str_views(out@).to_multiset() == str_views(items@.take(k as int)).to_multiset(),
        decreases items.len() - k,
    {
        let x = items[k].clone();
        let ghost before = str_views(out@);
        let ghost prev = str_views(items@.take(k as int));
        let ghost next = str_views(items@.take(k + 1));
        assert(next =~= prev.push(x@));
        proof { vstd::seq_lib::to_multiset_build(prev, x@); }
        let mut j: usize = 0;
        while j < out.len() && !str_lt(&out[j], &x)
            invariant
                j <= out.len(),
                before == str_views(out@),
                descending(before),
                before.to_multiset() == prev.to_multiset(),
                next.to_multiset() == prev.to_multiset().insert(x@),
                forall|i: int| 0 <= i < j ==> !lex_lt(#[trigger] before[i], x@),
            decreases out.len() - j,
        {
            j += 1;
        }
        proof {
            assert forall|i: int| 0 <= i < j implies lex_le(x@, #[trigger] before[i]) by {
                if x@ != before[i] {
                    lemma_lex_total(x@, before[i]);
                }
            }
            assert forall|i: int| j <= i < before.len() implies lex_lt(#[trigger] before[i], x@) by {
                if i > j {
                    if before[i] != before[j as int] {
                        lemma_lex_transitive(before[i], before[j as int], x@);
                    }
                }
            }
            lemma_insert_descending(before, j as int, x@);
            to_multiset_insert(before, j as int, x@);
        }
        let ghost out_before = out@;
        let ghost xs = x;
        out.insert(j, x);
        proof { lemma_str_views_insert(out_before, j as int, xs); }
        k += 1;
    }
    assert(items@.take(items.len() as int) =~= items@);
    out
}

} // verus!
