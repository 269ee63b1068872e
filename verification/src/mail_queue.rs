//! Reading the Postfix queue as `mailq` prints it.
//!
//! An entry opens with its id line (`A1B2C3D4E5*  1234 Mon Mar 15 10:00:00
//! sender@example.com`), lists its recipients one per line, and closes at a
//! blank line or a `-` line. The reader keeps what it has seen so far as a
//! cursor and folds the lines into it one by one.
use vstd::prelude::*;
use crate::server_utils::{capped_len_v, utf8_len};
use crate::text::{
    append, chars_of, contains, find_from_v, has_char, is_alphanumeric, is_ws, join, join_v, lemma_find_from, lines,
    lines_v, slice, string_of, strip_trailing, strip_trailing_v, trim, trim_v, unicode_alphanumeric, views, ws,
    ws_tokens, ws_tokens_v,
};

verus! {

/// An entry of the queue: id, sender, size, arrival time, the recipients
/// joined by `, `, and its state (`active`, `hold` or `deferred`).
pub struct QueueItem {
    pub id: String,
    pub sender: String,
    pub size: String,
    pub arrival_time: String,
    pub recipients: String,
    pub status: String,
}

pub open spec fn item_view(i: QueueItem) -> (Seq<char>, Seq<char>, Seq<char>, Seq<char>, Seq<char>, Seq<char>) {
    (i.id@, i.sender@, i.size@, i.arrival_time@, i.recipients@, i.status@)
}

pub open spec fn items_view(v: Seq<QueueItem>) -> Seq<(Seq<char>, Seq<char>, Seq<char>, Seq<char>, Seq<char>, Seq<char>)> {
    Seq::new(v.len(), |k: int| item_view(v[k]))
}

/// What the reader holds between lines: the fields of the entry it is in,
/// and the entries it has closed.
pub struct QueueScan {
    pub id: Seq<char>,
    pub sender: Seq<char>,
    pub size: Seq<char>,
    pub time: Seq<char>,
    pub recipients: Seq<Seq<char>>,
    pub status: Seq<char>,
    pub items: Seq<(Seq<char>, Seq<char>, Seq<char>, Seq<char>, Seq<char>, Seq<char>)>,
}

pub open spec fn empty_scan() -> QueueScan {
    QueueScan {
        id: Seq::empty(),
        sender: Seq::empty(),
        size: Seq::empty(),
        time: Seq::empty(),
        recipients: Seq::empty(),
        status: Seq::empty(),
        items: Seq::empty(),
    }
}

/// Closing the open entry, if there is one: it joins the list, and its id,
/// recipients and state are cleared (sender, size and time stay).
pub open spec fn closed(st: QueueScan) -> QueueScan {
    if st.id.len() > 0 {
        QueueScan {
            id: Seq::empty(),
            sender: st.sender,
            size: st.size,
            time: st.time,
            recipients: Seq::empty(),
            status: Seq::empty(),
            items: st.items.push((st.id, st.sender, st.size, st.time, join(st.recipients, ", "@), st.status)),
        }
    } else {
        st
    }
}

/// Where the first whitespace character of `s` stands, from `i` on.
pub open spec fn ws_from(s: Seq<char>, i: int) -> Option<int>
    decreases s.len() - i,
{
    if i < 0 || i >= s.len() {
        None
    } else if is_ws(s[i]) {
        Some(i)
    } else {
        ws_from(s, i + 1)
    }
}

pub open spec fn queue_state(head: Seq<char>) -> Seq<char> {
    if head.contains('*') {
        "active"@
    } else if head.contains('!') {
        "hold"@
    } else {
        "deferred"@
    }
}

/// An id line: the id is its first word without trailing `*` then `!`; the
/// rest, trimmed, gives the size (its first word), the sender (its last
/// word) and the arrival time (the words between).
pub open spec fn id_line(st: QueueScan, t: Seq<char>, k: int) -> QueueScan {
    let head = t.take(k);
    let rest = trim(t.skip(k + 1));
    let words = ws_tokens(rest);
    let id = strip_trailing(strip_trailing(head, '*'), '!');
    match ws_from(rest, 0) {
        None => QueueScan {
            id: id,
            sender: st.sender,
            size: st.size,
            time: st.time,
            recipients: st.recipients,
            status: queue_state(head),
            items: st.items,
        },
        Some(j) => QueueScan {
            id: id,
            sender: if words.len() > 0 { words.last() } else { st.sender },
            size: rest.take(j),
            time: if words.len() >= 2 { join(words.subrange(1, words.len() - 1), " "@) } else { Seq::empty() },
            recipients: st.recipients,
            status: queue_state(head),
            items: st.items,
        },
    }
}

/// One line of `mailq` read into the cursor.
pub open spec fn queue_line(st: QueueScan, line: Seq<char>) -> QueueScan {
    let t = trim(line);
    if t.len() == 0 || t[0] == '-' {
        closed(st)
    } else if utf8_len(t) > 10 && unicode_alphanumeric(t[0]) {
        match ws_from(t, 0) {
            Some(k) => id_line(st, t, k),
            None => st,
        }
    } else if t.contains('@') && !t.contains(' ') {
        QueueScan {
            id: st.id,
            sender: st.sender,
            size: st.size,
            time: st.time,
            recipients: st.recipients.push(t),
            status: st.status,
            items: st.items,
        }
    } else {
        st
    }
}

pub open spec fn queue_scan(ls: Seq<Seq<char>>) -> QueueScan
    decreases ls.len(),
{
    if ls.len() == 0 { empty_scan() } else { queue_line(queue_scan(ls.drop_last()), ls.last()) }
}

/// The entries of the queue `mailq` printed: none when it says the queue
/// is empty or prints nothing, else every entry its lines close, the last
/// one closed at the end.
pub open spec fn mail_queue(out: Seq<char>) -> Seq<(Seq<char>, Seq<char>, Seq<char>, Seq<char>, Seq<char>, Seq<char>)> {
    if contains(out, "Mail queue is empty"@) || trim(out).len() == 0 {
        Seq::empty()
    } else {
        closed(queue_scan(lines(out))).items
    }
}

/// The cursor in executable form.
struct Cursor {
    id: Vec<char>,
    sender: Vec<char>,
    size: Vec<char>,
    time: Vec<char>,
    recipients: Vec<Vec<char>>,
    status: Vec<char>,
    items: Vec<QueueItem>,
}

spec fn cursor_view(c: Cursor) -> QueueScan {
    QueueScan {
        id: c.id@,
        sender: c.sender@,
        size: c.size@,
        time: c.time@,
        recipients: views(c.recipients@),
        status: c.status@,
        items: items_view(c.items@),
    }
}

fn ws_from_v(s: &Vec<char>, start: usize) -> (r: Option<usize>)
    ensures
        match ws_from(s@, start as int) {
            Some(k) => r == Some(k as usize),
            None => r is None,
        },
    decreases s.len() - start,
{
    if start >= s.len() {
        None
    } else if ws(s[start]) {
        Some(start)
    } else {
        ws_from_v(s, start + 1)
    }
}

proof fn lemma_ws_from_bounds(s: Seq<char>, i: int)
    ensures
        ws_from(s, i) matches Some(k) ==> i <= k < s.len() && is_ws(s[k]),
    decreases s.len() - i,
{
    if 0 <= i < s.len() && !is_ws(s[i]) {
        lemma_ws_from_bounds(s, i + 1);
    }
}

fn text_of(v: &Vec<char>) -> (r: String)
    ensures r@ == v@,
{
    string_of(v)
}

fn close(c: &mut Cursor)
    ensures cursor_view(*final(c)) == closed(cursor_view(*old(c))),
{
    if c.id.len() > 0 {
        let recipients = join_v(&c.recipients, &chars_of(", "));
        let item = QueueItem {
            id: text_of(&c.id),
            sender: text_of(&c.sender),
            size: text_of(&c.size),
            arrival_time: text_of(&c.time),
            recipients: string_of(&recipients),
            status: text_of(&c.status),
        };
        let ghost before = c.items@;
        c.items.push(item);
        assert(items_view(c.items@) =~= items_view(before).push(item_view(item)));
        c.id = Vec::new();
        c.recipients = Vec::new();
        c.status = Vec::new();
        assert(views(c.recipients@) =~= Seq::<Seq<char>>::empty());
        assert(cursor_view(*c) =~~= closed(cursor_view(*old(c))));
    }
}

fn state_word(head: &Vec<char>) -> (r: Vec<char>)
    ensures r@ == queue_state(head@),
{
    if has_char(head, '*') {
        chars_of("active")
    } else if has_char(head, '!') {
        chars_of("hold")
    } else {
        chars_of("deferred")
    }
}

fn read_id_line(c: &mut Cursor, t: &Vec<char>, k: usize)
    requires
        k < t.len(),
    ensures
        cursor_view(*final(c)) == id_line(cursor_view(*old(c)), t@, k as int),
{
    let head = slice(t, 0, k);
    let rest = trim_v(&slice(t, k + 1, t.len()));
    assert(head@ =~= t@.take(k as int));
    let words = ws_tokens_v(&rest);
    c.id = strip_trailing_v(&strip_trailing_v(&head, '*'), '!');
    c.status = state_word(&head);
    proof { lemma_ws_from_bounds(rest@, 0); }
    match ws_from_v(&rest, 0) {
        None => {},
        Some(j) => {
            if words.len() > 0 {
                c.sender = slice(&words[words.len() - 1], 0, words[words.len() - 1].len());
                assert(c.sender@ =~= views(words@).last());
            }
            c.size = slice(&rest, 0, j);
            if words.len() >= 2 {
                let mut mid: Vec<Vec<char>> = Vec::new();
                let mut i: usize = 1;
                while i < words.len() - 1
                    invariant
                        1 <= i <= words.len() - 1,
                        views(mid@) == views(words@).subrange(1, i as int),
                    decreases words.len() - 1 - i,
                {
                    let w = slice(&words[i], 0, words[i].len());
                    assert(w@ =~= views(words@)[i as int]);
                    let ghost before = mid@;
                    mid.push(w);
                    assert(views(mid@) =~= views(before).push(w@));
                    assert(views(words@).subrange(1, i + 1) =~= views(words@).subrange(1, i as int).push(w@));
                    i += 1;
                }
                c.time = join_v(&mid, &chars_of(" "));
            } else {
                c.time = Vec::new();
            }
        },
    }
    assert(cursor_view(*c) =~~= id_line(cursor_view(*old(c)), t@, k as int));
}

fn read_line(c: &mut Cursor, line: &Vec<char>)
    ensures cursor_view(*final(c)) == queue_line(cursor_view(*old(c)), line@),
{
    let t = trim_v(line);
    if t.len() == 0 || t[0] == '-' {
        close(c);
    } else if capped_len_v(&t, 11) > 10 && is_alphanumeric(t[0]) {
        proof { lemma_ws_from_bounds(t@, 0); }
        match ws_from_v(&t, 0) {
            Some(k) => read_id_line(c, &t, k),
            None => {},
        }
    } else if has_char(&t, '@') && !has_char(&t, ' ') {
        let ghost before = c.recipients@;
        c.recipients.push(t);
        proof { crate::text::lemma_views_push(before, t); }
        assert(cursor_view(*c) =~~= queue_line(cursor_view(*old(c)), line@));
    }
}

/// The entries of the Postfix queue, read from what `mailq` printed.
pub fn parse_mail_queue(out: &str) -> (r: Vec<QueueItem>)
    ensures items_view(r@) == mail_queue(out@),
{
    let v = chars_of(out);
    proof { lemma_find_from(v@, "Mail queue is empty"@, 0); }
    if find_from_v(&v, &chars_of("Mail queue is empty"), 0).is_some() || trim_v(&v).len() == 0 {
        let none: Vec<QueueItem> = Vec::new();
        assert(items_view(none@) =~= Seq::empty());
        return none;
    }
    let ls = lines_v(&v);
    let mut c = Cursor {
        id: Vec::new(),
        sender: Vec::new(),
        size: Vec::new(),
        time: Vec::new(),
        recipients: Vec::new(),
        status: Vec::new(),
        items: Vec::new(),
    };
    assert(views(c.recipients@) =~= Seq::<Seq<char>>::empty());
    assert(items_view(c.items@) =~= Seq::empty());
    assert(cursor_view(c) =~~= empty_scan());
    let mut i: usize = 0;
    while i < ls.len()
        invariant
            i <= ls.len(),
            views(ls@) == lines(out@),
            cursor_view(c) == queue_scan(views(ls@).take(i as int)),
        decreases ls.len() - i,
    {
        assert(views(ls@).take(i + 1).drop_last() =~= views(ls@).take(i as int));
        read_line(&mut c, &ls[i]);
        i += 1;
    }
    assert(views(ls@).take(ls.len() as int) =~= views(ls@));
    close(&mut c);
    c.items
}

/// An entry's state as the reader names it.
pub open spec fn known_state(s: Seq<char>) -> bool {
    s == "active"@ || s == "hold"@ || s == "deferred"@
}

pub open spec fn scan_well_formed(st: QueueScan) -> bool {
    &&& st.id.len() > 0 ==> known_state(st.status)
    &&& forall|k: int| 0 <= k < st.items.len() ==> (#[trigger] st.items[k]).0.len() > 0 && known_state(st.items[k].5)
}

proof fn lemma_scan_well_formed(ls: Seq<Seq<char>>)
    ensures scan_well_formed(queue_scan(ls)),
    decreases ls.len(),
{
    if ls.len() > 0 {
        lemma_scan_well_formed(ls.drop_last());
        let st = queue_scan(ls.drop_last());
        let t = trim(ls.last());
        if t.len() == 0 || t[0] == '-' {
            assert(scan_well_formed(closed(st)));
        } else if utf8_len(t) > 10 && unicode_alphanumeric(t[0]) {
            if let Some(k) = ws_from(t, 0) {
                assert(known_state(queue_state(t.take(k))));
                assert(scan_well_formed(id_line(st, t, k)));
            }
        }
    }
}

/// Every entry read from the queue has an id, and its state is `active`,
/// `hold` or `deferred`.
pub proof fn law_queue_entries_named(out: Seq<char>)
    ensures
        forall|k: int| 0 <= k < mail_queue(out).len() ==>
            (#[trigger] mail_queue(out)[k]).0.len() > 0 && known_state(mail_queue(out)[k].5),
{
    if !(contains(out, "Mail queue is empty"@) || trim(out).len() == 0) {
        lemma_scan_well_formed(lines(out));
        assert(scan_well_formed(closed(queue_scan(lines(out)))));
    }
}

} // verus!
