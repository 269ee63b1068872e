//! What the mail log says of recent traffic: how many messages were sent,
//! received, bounced and rejected, and the latest lines worth showing.
use vstd::prelude::*;
use crate::server_utils::{boundary_v, capped_len_v, cut_at_boundary, fits_in, fits_in_v, utf8_len};
use crate::text::{chars_of, contains, find_from_v, lemma_find_from, lines, lines_v, slice, string_of, views};

verus! {

fn holds(s: &Vec<char>, p: &str) -> (r: bool)
    ensures r == contains(s@, p@),
{
    proof { lemma_find_from(s@, p@, 0); }
    find_from_v(s, &chars_of(p), 0).is_some()
}

pub open spec fn is_sent(l: Seq<char>) -> bool {
    contains(l, "status=sent"@)
}

pub open spec fn is_bounced(l: Seq<char>) -> bool {
    contains(l, "status=bounced"@)
}

pub open spec fn is_rejected(l: Seq<char>) -> bool {
    contains(l, "NOQUEUE: reject"@) || contains(l, "status=rejected"@)
}

pub open spec fn is_received(l: Seq<char>) -> bool {
    contains(l, "delivered to maildir"@) || contains(l, "lmtp("@)
}

/// A line the recent list shows.
pub open spec fn is_notable(l: Seq<char>) -> bool {
    contains(l, "status="@) || contains(l, "NOQUEUE"@) || contains(l, "delivered"@)
}

pub open spec fn is_error_line(l: Seq<char>) -> bool {
    contains(l, "bounced"@) || contains(l, "reject"@) || contains(l, "error"@)
}

/// How many lines match `which`: 0 sent, 1 received, 2 bounced, 3 rejected.
pub open spec fn tally(ls: Seq<Seq<char>>, which: int) -> nat
    decreases ls.len(),
{
    if ls.len() == 0 {
        0
    } else {
        let l = ls.last();
        let hit = if which == 0 {
            is_sent(l)
        } else if which == 1 {
            is_received(l)
        } else if which == 2 {
            is_bounced(l)
        } else {
            is_rejected(l)
        };
        tally(ls.drop_last(), which) + if hit { 1nat } else { 0nat }
    }
}

/// The notable lines, newest first.
pub open spec fn notable_newest_first(ls: Seq<Seq<char>>) -> Seq<Seq<char>>
    decreases ls.len(),
{
    if ls.len() == 0 {
        Seq::empty()
    } else {
        let rest = notable_newest_first(ls.drop_last());
        if is_notable(ls.last()) { seq![ls.last()] + rest } else { rest }
    }
}

/// The lines the recent list shows: the 50 newest notable ones.
pub open spec fn shown_lines(ls: Seq<Seq<char>>) -> Seq<Seq<char>> {
    let n = notable_newest_first(ls);
    if n.len() <= 50 { n } else { n.take(50) }
}

pub open spec fn min200(n: nat) -> int {
    if n < 200 { n as int } else { 200 }
}

/// The bytes from `a` to `b` of `s`, when both fall between characters.
pub open spec fn byte_slice(s: Seq<char>, a: int, b: int) -> Seq<char> {
    fits_in(s, b).skip(fits_in(s, a).len() as int)
}

/// The line can be shown: its first 15 bytes, and bytes 16 up to 200, are
/// cut between characters.
pub open spec fn showable(l: Seq<char>) -> bool {
    &&& utf8_len(l) >= 15 ==> cut_at_boundary(l, 15)
    &&& utf8_len(l) > 16 ==> cut_at_boundary(l, 16) && cut_at_boundary(l, min200(utf8_len(l)))
}

/// A shown line: its first 15 bytes (the time), bytes 16 to 200 (the
/// message, the whole line when it is short), and whether it names a
/// failure.
pub open spec fn entry_of(l: Seq<char>) -> (Seq<char>, Seq<char>, bool) {
    (
        if utf8_len(l) >= 15 { fits_in(l, 15) } else { Seq::empty() },
        if utf8_len(l) > 16 { byte_slice(l, 16, min200(utf8_len(l))) } else { l },
        is_error_line(l),
    )
}

pub struct MailLogEntry {
    pub time: String,
    pub message: String,
    pub error: bool,
}

pub struct MailLogSummary {
    pub sent: u32,
    pub received: u32,
    pub bounced: u32,
    pub rejected: u32,
    pub recent: Vec<MailLogEntry>,
}

pub open spec fn entry_view(e: MailLogEntry) -> (Seq<char>, Seq<char>, bool) {
    (e.time@, e.message@, e.error)
}

proof fn lemma_tally_bound(ls: Seq<Seq<char>>, which: int)
    ensures tally(ls, which) <= ls.len(),
    decreases ls.len(),
{
    if ls.len() > 0 {
        lemma_tally_bound(ls.drop_last(), which);
    }
}

proof fn lemma_shown_suffix(ls: Seq<Seq<char>>, i: int)
    requires 0 <= i <= ls.len(),
    ensures
        notable_newest_first(ls) == notable_newest_first(ls.skip(i)) + notable_newest_first(ls.take(i)),
    decreases ls.len() - i,
{
    if i < ls.len() {
        lemma_shown_suffix(ls, i + 1);
        let a = ls.skip(i);
        assert(a.drop_last() =~= ls.skip(i).take(ls.len() - i - 1));
        assert(ls.take(i + 1) =~= ls.take(i).push(ls[i]));
        lemma_split_point(ls, i);
    } else {
        assert(ls.take(i) =~= ls);
        assert(ls.skip(i) =~= Seq::<Seq<char>>::empty());
        assert(notable_newest_first(ls.skip(i)) =~= Seq::<Seq<char>>::empty());
    }
}

proof fn lemma_split_point(ls: Seq<Seq<char>>, i: int)
    requires
        0 <= i < ls.len(),
        notable_newest_first(ls) == notable_newest_first(ls.skip(i + 1)) + notable_newest_first(ls.take(i + 1)),
    ensures
        notable_newest_first(ls) == notable_newest_first(ls.skip(i)) + notable_newest_first(ls.take(i)),
{
    lemma_prepend(ls.skip(i));
    assert(ls.skip(i).skip(1) =~= ls.skip(i + 1));
    assert(ls.take(i + 1).drop_last() =~= ls.take(i));
    assert(ls.skip(i)[0] == ls[i]);
    assert(ls.take(i + 1).last() == ls[i]);
    let hi = notable_newest_first(ls.skip(i + 1));
    let lo = notable_newest_first(ls.take(i));
    if is_notable(ls[i]) {
        assert(notable_newest_first(ls.take(i + 1)) == seq![ls[i]] + lo);
        assert(notable_newest_first(ls.skip(i)) == hi + seq![ls[i]]);
        assert(hi + (seq![ls[i]] + lo) =~= (hi + seq![ls[i]]) + lo);
    } else {
        assert(notable_newest_first(ls.take(i + 1)) == lo);
        assert(notable_newest_first(ls.skip(i)) == hi);
    }
}

/// Reading a list from its first element: the newest-first list of `s` is
/// that of its tail followed by its head when notable.
proof fn lemma_prepend(s: Seq<Seq<char>>)
    requires s.len() > 0,
    ensures
        notable_newest_first(s) == notable_newest_first(s.skip(1))
            + if is_notable(s[0]) { seq![s[0]] } else { Seq::<Seq<char>>::empty() },
    decreases s.len(),
{
    if s.len() == 1 {
        assert(s.skip(1) =~= Seq::<Seq<char>>::empty());
        assert(s.drop_last() =~= Seq::<Seq<char>>::empty());
        assert(notable_newest_first(s.skip(1)) =~= Seq::<Seq<char>>::empty());
        assert(notable_newest_first(s.drop_last()) =~= Seq::<Seq<char>>::empty());
        if is_notable(s[0]) {
            assert(notable_newest_first(s) =~= seq![s[0]]);
        }
        assert(Seq::<Seq<char>>::empty() + (if is_notable(s[0]) { seq![s[0]] } else { Seq::<Seq<char>>::empty() })
            =~= (if is_notable(s[0]) { seq![s[0]] } else { Seq::<Seq<char>>::empty() }));
    } else {
        lemma_prepend(s.drop_last());
        assert(s.drop_last().skip(1) =~= s.skip(1).drop_last());
        assert(s.skip(1).last() == s.last());
        assert(s.drop_last()[0] == s[0]);
        let h = if is_notable(s[0]) { seq![s[0]] } else { Seq::<Seq<char>>::empty() };
        let t = notable_newest_first(s.skip(1).drop_last());
        if is_notable(s.last()) {
            assert(seq![s.last()] + (t + h) =~= (seq![s.last()] + t) + h);
        } else {
        }
    }
}

/// Whether every line the recent list would show can be cut where it is
/// shown.
pub open spec fn log_showable(content: Seq<char>) -> bool {
    forall|k: int| 0 <= k < shown_lines(lines(content)).len() ==> showable(#[trigger] shown_lines(lines(content))[k])
}

proof fn lemma_fits_in_grows(s: Seq<char>, a: int, b: int)
    requires a <= b,
    ensures fits_in(s, a).len() <= fits_in(s, b).len(),
    decreases s.len(),
{
    if s.len() > 0 && crate::server_utils::utf8_width(s[0]) <= a {
        lemma_fits_in_grows(s.skip(1), a - crate::server_utils::utf8_width(s[0]), b - crate::server_utils::utf8_width(s[0]));
    }
}

fn showable_v(l: &Vec<char>) -> (r: bool)
    ensures r == showable(l@),
{
    let n = capped_len_v(l, 201);
    let a = n < 15 || boundary_v(l, 15);
    let b = n <= 16 || (boundary_v(l, 16) && boundary_v(l, if n < 200 { n } else { 200 }));
    a && b
}

fn entry_v(l: &Vec<char>) -> (r: MailLogEntry)
    ensures entry_view(r) == entry_of(l@),
{
    let n = capped_len_v(l, 201);
    let time = if n >= 15 { string_of(&fits_in_v(l, 15)) } else { String::new() };
    let message = if n > 16 {
        let hi = fits_in_v(l, if n < 200 { n } else { 200 });
        let lo = fits_in_v(l, 16);
        proof { lemma_fits_in_grows(l@, 16, min200(utf8_len(l@))); }
        let m = slice(&hi, lo.len(), hi.len());
        assert(m@ =~= byte_slice(l@, 16, min200(utf8_len(l@))));
        string_of(&m)
    } else {
        string_of(l)
    };
    let error = holds(l, "bounced") || holds(l, "reject") || holds(l, "error");
    MailLogEntry { time, message, error }
}

/// Whether the lines the recent list would show can all be cut where they
/// are shown.
pub fn mail_log_showable(content: &str) -> (r: bool)
    ensures r == log_showable(content@),
{
    let ls = lines_v(&chars_of(content));
    let ghost all = lines(content@);
    let mut shown: usize = 0;
    let mut i: usize = ls.len();
    proof { lemma_shown_suffix(all, all.len() as int); }
    assert(all.take(all.len() as int) =~= all);
    while i > 0 && shown < 50
        invariant
            i <= ls.len(),
            views(ls@) == all,
            all == lines(content@),
            shown <= 50,
            notable_newest_first(all.skip(i as int)).len() == shown,
            forall|k: int| 0 <= k < shown ==> showable(#[trigger] notable_newest_first(all.skip(i as int))[k]),
        decreases i,
    {
        let l = &ls[i - 1];
        assert(l@ == all[i - 1]);
        proof { lemma_prepend(all.skip(i - 1)); }
        assert(all.skip(i - 1).skip(1) =~= all.skip(i as int));
        assert(all.skip(i - 1)[0] == all[i - 1]);
        if holds(l, "status=") || holds(l, "NOQUEUE") || holds(l, "delivered") {
            if !showable_v(l) {
                proof {
                    lemma_shown_suffix(all, i - 1);
                    let n = notable_newest_first(all);
                    let head = notable_newest_first(all.skip(i - 1));
                    assert(head[shown as int] == all[i - 1]);
                    assert(n[shown as int] == head[shown as int]);
                    assert(shown_lines(all)[shown as int] == n[shown as int]);
                }
                return false;
            }
            shown += 1;
        }
        i -= 1;
    }
    proof {
        lemma_shown_suffix(all, i as int);
        let n = notable_newest_first(all);
        let head = notable_newest_first(all.skip(i as int));
        if i == 0 {
            assert(all.take(0) =~= Seq::<Seq<char>>::empty());
            assert(notable_newest_first(all.take(0)) =~= Seq::<Seq<char>>::empty());
            assert(n =~= head);
        }
        assert forall|k: int| 0 <= k < shown_lines(all).len() implies showable(#[trigger] shown_lines(all)[k]) by {
            assert(shown_lines(all)[k] == n[k]);
            assert(n[k] == head[k]);
        }
    }
    true
}

/// The counts over every line of the log, and the recent list.
pub fn mail_log_summary(content: &str) -> (r: MailLogSummary)
    requires
        lines(content@).len() <= u32::MAX,
        log_showable(content@),
    ensures
        r.sent == tally(lines(content@), 0),
        r.received == tally(lines(content@), 1),
        r.bounced == tally(lines(content@), 2),
        r.rejected == tally(lines(content@), 3),
        r.recent@.len() == shown_lines(lines(content@)).len(),
        forall|k: int| 0 <= k < r.recent@.len() ==> entry_view(#[trigger] r.recent@[k]) == entry_of(shown_lines(lines(content@))[k]),
{
    let ls = lines_v(&chars_of(content));
    let ghost all = lines(content@);
    let mut sent: u32 = 0;
    let mut received: u32 = 0;
    let mut bounced: u32 = 0;
    let mut rejected: u32 = 0;
    let mut j: usize = 0;
    while j < ls.len()
        invariant
            j <= ls.len(),
            views(ls@) == all,
            all.len() <= u32::MAX,
            sent == tally(all.take(j as int), 0),
            received == tally(all.take(j as int), 1),
            bounced == tally(all.take(j as int), 2),
            rejected == tally(all.take(j as int), 3),
        decreases ls.len() - j,
    {
        let ghost pre = all.take(j as int);
        assert(all.take(j + 1).drop_last() =~= pre);
        assert(all.take(j + 1).last() == ls@[j as int]@);
        proof {
            lemma_tally_bound(pre, 0);
            lemma_tally_bound(pre, 1);
            lemma_tally_bound(pre, 2);
            lemma_tally_bound(pre, 3);
        }
        let l = &ls[j];
        if holds(l, "status=sent") {
            sent += 1;
        }
        if holds(l, "delivered to maildir") || holds(l, "lmtp(") {
            received += 1;
        }
        if holds(l, "status=bounced") {
            bounced += 1;
        }
        if holds(l, "NOQUEUE: reject") || holds(l, "status=rejected") {
            rejected += 1;
        }
        j += 1;
    }
    assert(all.take(ls.len() as int) =~= all);
    let mut recent: Vec<MailLogEntry> = Vec::new();
    let mut i: usize = ls.len();
    proof { lemma_shown_suffix(all, all.len() as int); }
    while i > 0 && recent.len() < 50
        invariant
            i <= ls.len(),
            views(ls@) == all,
            all == lines(content@),
            log_showable(content@),
            recent@.len() <= 50,
            notable_newest_first(all.skip(i as int)).len() == recent@.len(),
            forall|k: int| 0 <= k < recent@.len() ==>
                entry_view(#[trigger] recent@[k]) == entry_of(notable_newest_first(all.skip(i as int))[k]),
        decreases i,
    {
        let l = &ls[i - 1];
        assert(l@ == all[i - 1]);
        proof { lemma_prepend(all.skip(i - 1)); }
        assert(all.skip(i - 1).skip(1) =~= all.skip(i as int));
        assert(all.skip(i - 1)[0] == all[i - 1]);
        if holds(l, "status=") || holds(l, "NOQUEUE") || holds(l, "delivered") {
            let e = entry_v(l);
            recent.push(e);
        }
        i -= 1;
    }
    proof {
        lemma_shown_suffix(all, i as int);
        let n = notable_newest_first(all);
        let head = notable_newest_first(all.skip(i as int));
        if i == 0 {
            assert(all.take(0) =~= Seq::<Seq<char>>::empty());
            assert(notable_newest_first(all.take(0)) =~= Seq::<Seq<char>>::empty());
            assert(n =~= head);
        }
        assert(recent@.len() == shown_lines(all).len());
        assert forall|k: int| 0 <= k < recent@.len() implies
            entry_view(#[trigger] recent@[k]) == entry_of(shown_lines(all)[k]) by {
            assert(shown_lines(all)[k] == n[k]);
            assert(n[k] == head[k]);
        }
    }
    MailLogSummary { sent, received, bounced, rejected, recent }
}

} // verus!
