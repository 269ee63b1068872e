//! The agent's share of root's crontab.
//!
//! Every line the agent writes ends in `# dockpanel:{id} {label}`. A sync is
//! authoritative only for the ids it was sent: lines of other sites, and
//! operator lines without a marker, survive it untouched.
use vstd::prelude::*;
use vstd::string::StrSliceExecFns;
use crate::text::{
    append, chars_of, contains, eq_v, find, find_from, find_from_v, is_digit, is_ws, join, join_v,
    lemma_find_after, lemma_find_from, lemma_find_in_tail_none, lemma_views_push, lemma_ws_tokens_concat,
    lemma_ws_tokens_word, lines, lines_v, slice, spans_of, str_views, string_of, trim, trim_v, views,
    ws_token_spans, ws_tokens, ws_tokens_v, digit, occurs_at,
};

verus! {

/// One cron as the panel sends it.
pub struct CronRequest {
    pub id: String,
    pub command: String,
    pub schedule: String,
    pub label: Option<String>,
    /// Whether this cron should be in the crontab; absent means `true`.
    pub enabled: bool,
}

/// What running a cron command immediately gave.
pub struct CronResult {
    pub success: bool,
    pub output: Option<String>,
    pub exit_code: Option<i32>,
}

/// The value of `enabled` when the panel leaves it out.
pub fn default_true() -> (r: bool)
    ensures r,
{
    true
}

/// The marker that opens the agent's trailer on a crontab line.
pub const CRONTAB_MARKER: &'static str = "# dockpanel:";

pub open spec fn marker() -> Seq<char> {
    CRONTAB_MARKER@
}

/// The second piece of `s` split at `p` (`s.split(p).nth(1)`), for a
/// non-empty `p`.
pub open spec fn split_second(s: Seq<char>, p: Seq<char>) -> Option<Seq<char>> {
    match find(s, p) {
        None => None,
        Some(i) => {
            let st = i + p.len();
            match find_from(s, p, st) {
                None => Some(s.subrange(st, s.len() as int)),
                Some(j) => Some(s.subrange(st, j)),
            }
        },
    }
}

/// The cron id a crontab line carries: the first whitespace-separated token
/// after the marker.
pub open spec fn marker_id_of(line: Seq<char>) -> Option<Seq<char>> {
    match split_second(line, marker()) {
        None => None,
        Some(rest) => {
            let t = ws_tokens(rest);
            if t.len() > 0 && t[0].len() > 0 { Some(t[0]) } else { None }
        },
    }
}

pub open spec fn opt_str_view(o: Option<&str>) -> Option<Seq<char>> {
    match o {
        Some(x) => Some(x@),
        None => None,
    }
}

/// The dockpanel cron id a crontab line carries, if any.
///
/// The id is the token right after the marker, so a line of one cron cannot
/// be attributed to another whose id merely extends it.
pub fn marker_id(line: &str) -> (r: Option<&str>)
    ensures opt_str_view(r) == marker_id_of(line@),
{
    let v = chars_of(line);
    let m = chars_of(CRONTAB_MARKER);
    proof { reveal_strlit("# dockpanel:"); }
    match find_from_v(&v, &m, 0) {
        None => None,
        Some(i) => {
            let st = i + m.len();
            let en = match find_from_v(&v, &m, st) {
                None => v.len(),
                Some(j) => j,
            };
            proof { lemma_find_from(v@, m@, st as int); }
            let rest = slice(&v, st, en);
            let spans = ws_token_spans(&rest);
            if spans.len() == 0 {
                None
            } else {
                let (a, b) = spans[0];
                assert(spans_of(rest@, spans@)[0] == rest@.subrange(a as int, b as int));
                assert(rest@.subrange(a as int, b as int) =~= v@.subrange(st + a, st + b));
                Some(line.substring_char(st + a, st + b))
            }
        },
    }
}

/// A character a crontab time field may hold.
pub open spec fn is_field_char(c: char) -> bool {
    is_digit(c) || c == '*' || c == '/' || c == '-' || c == ','
}

/// Five whitespace-separated fields of digits, `*`, `/`, `-` and `,`.
pub open spec fn schedule_ok(s: Seq<char>) -> bool {
    let t = ws_tokens(s);
    t.len() == 5 && forall|k: int, j: int| 0 <= k < 5 && 0 <= j < t[k].len() ==> is_field_char(#[trigger] t[k][j])
}

/// Basic cron schedule validation (5 fields).
pub fn is_valid_schedule(schedule: &str) -> (r: bool)
    ensures r == schedule_ok(schedule@),
{
    let v = chars_of(schedule);
    let t = ws_tokens_v(&v);
    if t.len() != 5 {
        return false;
    }
    let mut k: usize = 0;
    while k < 5
        invariant
            t.len() == 5,
            k <= 5,
            v@ == schedule@,
            views(t@) == ws_tokens(v@),
            forall|a: int, j: int| 0 <= a < k && 0 <= j < views(t@)[a].len() ==> is_field_char(#[trigger] views(t@)[a][j]),
        decreases 5 - k,
    {
        let f = &t[k];
        let mut j: usize = 0;
        while j < f.len()
            invariant
                j <= f.len(),
                k < 5,
                t.len() == 5,
                v@ == schedule@,
                views(t@) == ws_tokens(v@),
                f@ == views(t@)[k as int],
                forall|b: int| 0 <= b < j ==> is_field_char(#[trigger] f@[b]),
            decreases f.len() - j,
        {
            let c = f[j];
            if !(digit(c) || c == '*' || c == '/' || c == '-' || c == ',') {
                assert(!is_field_char(views(t@)[k as int][j as int]));
                return false;
            }
            j += 1;
        }
        k += 1;
    }
    true
}

// ── sync ────────────────────────────────────────────────────────────────

/// `{schedule} {command} ` — the text before the marker on a written line.
pub open spec fn cron_head(c: CronRequest) -> Seq<char> {
    c.schedule@ + seq![' '] + c.command@ + seq![' ']
}

pub open spec fn label_of(c: CronRequest) -> Seq<char> {
    match c.label {
        Some(l) => l@,
        None => Seq::empty(),
    }
}

/// `{id} {label}` — the text after the marker on a written line.
pub open spec fn cron_tail(c: CronRequest) -> Seq<char> {
    c.id@ + seq![' '] + label_of(c)
}

/// The crontab line written for a cron.
pub open spec fn cron_line(c: CronRequest) -> Seq<char> {
    cron_head(c) + marker() + cron_tail(c)
}

/// Whether a sync schedules this cron: enabled, a valid schedule, a
/// non-empty command, and the command filter's approval.
pub open spec fn accepted(c: CronRequest, safe: bool) -> bool {
    c.enabled && schedule_ok(c.schedule@) && c.command@.len() > 0 && safe
}

pub open spec fn cron_ids(cs: Seq<CronRequest>) -> Seq<Seq<char>> {
    Seq::new(cs.len(), |i: int| cs[i].id@)
}

/// An existing line survives a sync unless its id is one the sync was sent.
pub open spec fn keeps(line: Seq<char>, owned: Seq<Seq<char>>) -> bool {
    match marker_id_of(line) {
        Some(id) => !owned.contains(id),
        None => true,
    }
}

/// The first `n` lines, without those a sync owns.
pub open spec fn kept_lines(ls: Seq<Seq<char>>, owned: Seq<Seq<char>>, n: nat) -> Seq<Seq<char>>
    decreases n,
{
    if n == 0 {
        Seq::empty()
    } else {
        let p = kept_lines(ls, owned, (n - 1) as nat);
        if keeps(ls[n - 1], owned) { p.push(ls[n - 1]) } else { p }
    }
}

/// The lines written for the first `n` crons.
pub open spec fn added_lines(cs: Seq<CronRequest>, safe: Seq<bool>, n: nat) -> Seq<Seq<char>>
    decreases n,
{
    if n == 0 {
        Seq::empty()
    } else {
        let p = added_lines(cs, safe, (n - 1) as nat);
        if accepted(cs[n - 1], safe[n - 1]) { p.push(cron_line(cs[n - 1])) } else { p }
    }
}

/// The ids of the first `n` crons that were enabled but refused.
pub open spec fn skipped_ids(cs: Seq<CronRequest>, safe: Seq<bool>, n: nat) -> Seq<Seq<char>>
    decreases n,
{
    if n == 0 {
        Seq::empty()
    } else {
        let p = skipped_ids(cs, safe, (n - 1) as nat);
        if cs[n - 1].enabled && !accepted(cs[n - 1], safe[n - 1]) { p.push(cs[n - 1].id@) } else { p }
    }
}

/// How many of the first `n` crons are disabled.
pub open spec fn disabled_count(cs: Seq<CronRequest>, n: nat) -> nat
    decreases n,
{
    if n == 0 {
        0
    } else {
        disabled_count(cs, (n - 1) as nat) + if cs[n - 1].enabled { 0nat } else { 1nat }
    }
}

/// The lines of the crontab after a sync, in order.
pub open spec fn synced_lines(existing: Seq<char>, cs: Seq<CronRequest>, safe: Seq<bool>) -> Seq<Seq<char>> {
    let ls = lines(existing);
    kept_lines(ls, cron_ids(cs), ls.len()) + added_lines(cs, safe, cs.len())
}

/// What a sync writes and reports.
pub struct SyncPlan {
    /// The new crontab text.
    pub crontab: String,
    /// How many crons were scheduled.
    pub synced: usize,
    /// The ids of enabled crons that were refused, in payload order.
    pub skipped: Vec<String>,
}

proof fn lemma_counts(cs: Seq<CronRequest>, safe: Seq<bool>, n: nat)
    requires n <= cs.len(), safe.len() == cs.len(),
    ensures
        added_lines(cs, safe, n).len() + skipped_ids(cs, safe, n).len() + disabled_count(cs, n) == n,
    decreases n,
{
    if n > 0 {
        lemma_counts(cs, safe, (n - 1) as nat);
    }
}

fn contains_id(ids: &Vec<Vec<char>>, id: &Vec<char>) -> (r: bool)
    ensures r == views(ids@).contains(id@),
{
    let mut i: usize = 0;
    while i < ids.len()
        invariant
            i <= ids.len(),
            forall|k: int| 0 <= k < i ==> views(ids@)[k] != id@,
        decreases ids.len() - i,
    {
        if eq_v(&ids[i], id) {
            assert(views(ids@)[i as int] == id@);
            return true;
        }
        i += 1;
    }
    false
}

fn marker_id_chars(line: &Vec<char>) -> (r: Option<Vec<char>>)
    ensures
        match r {
            Some(x) => marker_id_of(line@) == Some(x@),
            None => marker_id_of(line@) is None,
        },
{
    let s = string_of(line);
    match marker_id(s.as_str()) {
        Some(x) => Some(chars_of(x)),
        None => None,
    }
}

/// Writes this site's crons into the crontab text `existing`.
///
/// `command_safe[i]` is the command filter's verdict on `crons[i].command`.
/// Every existing line is kept except those whose marker id is among the ids
/// sent (enabled or not); then each accepted cron gets its line, in order.
pub fn plan_sync(existing: &str, crons: &Vec<CronRequest>, command_safe: &Vec<bool>) -> (r: SyncPlan)
    requires command_safe.len() == crons.len(),
    ensures
        r.crontab@ == join(synced_lines(existing@, crons@, command_safe@), seq!['\n']),
        str_views(r.skipped@) == skipped_ids(crons@, command_safe@, crons.len() as nat),
        r.synced == crons.len() - skipped_ids(crons@, command_safe@, crons.len() as nat).len()
            - disabled_count(crons@, crons.len() as nat),
{
    let ev = chars_of(existing);
    let ls = lines_v(&ev);
    let mut owned: Vec<Vec<char>> = Vec::new();
    let mut i: usize = 0;
    while i < crons.len()
        invariant
            i <= crons.len(),
            views(owned@) == cron_ids(crons@).take(i as int),
        decreases crons.len() - i,
    {
        let id = chars_of(crons[i].id.as_str());
        proof { lemma_views_push(owned@, id); }
        owned.push(id);
        i += 1;
        assert(views(owned@) =~= cron_ids(crons@).take(i as int));
    }
    assert(cron_ids(crons@).take(crons.len() as int) =~= cron_ids(crons@));

    let mut out: Vec<Vec<char>> = Vec::new();
    let mut k: usize = 0;
    while k < ls.len()
        invariant
            k <= ls.len(),
            views(ls@) == lines(ev@),
            views(owned@) == cron_ids(crons@),
            views(out@) == kept_lines(lines(ev@), cron_ids(crons@), k as nat),
        decreases ls.len() - k,
    {
        let line = &ls[k];
        let keep = match marker_id_chars(line) {
            Some(id) => !contains_id(&owned, &id),
            None => true,
        };
        if keep {
            let l = line.clone();
            proof { lemma_views_push(out@, l); }
            out.push(l);
        }
        k += 1;
    }

    let ghost n_kept = out@.len();
    let mut skipped: Vec<String> = Vec::new();
    let mut disabled: usize = 0;
    let mut j: usize = 0;
    let marker_v = chars_of(CRONTAB_MARKER);
    while j < crons.len()
        invariant
            j <= crons.len(),
            command_safe.len() == crons.len(),
            marker_v@ == marker(),
            n_kept <= out@.len(),
            views(out@) == kept_lines(lines(ev@), cron_ids(crons@), lines(ev@).len())
                + added_lines(crons@, command_safe@, j as nat),
            str_views(skipped@) == skipped_ids(crons@, command_safe@, j as nat),
            disabled == disabled_count(crons@, j as nat),
            disabled <= j,
        decreases crons.len() - j,
    {
        proof { lemma_counts(crons@, command_safe@, j as nat); }
        let c = &crons[j];
        if !c.enabled {
            disabled += 1;
        } else {
            let ok = is_valid_schedule(c.schedule.as_str()) && !c.command.as_str().is_empty() && command_safe[j];
            if ok {
                let mut line = chars_of(c.schedule.as_str());
                line.push(' ');
                let cmd = chars_of(c.command.as_str());
                append(&mut line, &cmd);
                line.push(' ');
                append(&mut line, &marker_v);
                let idv = chars_of(c.id.as_str());
                append(&mut line, &idv);
                line.push(' ');
                let lab = match &c.label {
                    Some(l) => chars_of(l.as_str()),
                    None => Vec::new(),
                };
                append(&mut line, &lab);
                assert(line@ =~= cron_line(*c));
                proof { lemma_views_push(out@, line); }
                out.push(line);
            } else {
                let id = c.id.clone();
                let ghost old_sk = skipped@;
                skipped.push(id);
                assert(str_views(skipped@) =~= str_views(old_sk).push(c.id@));
            }
        }
        j += 1;
    }
    proof { lemma_counts(crons@, command_safe@, crons.len() as nat); }
    let nl = vec!['\n'];
    assert(nl@ =~= seq!['\n']);
    let joined = join_v(&out, &nl);
    let crontab = string_of(&joined);
    let synced = crons.len() - skipped.len() - disabled;
    SyncPlan { crontab, synced, skipped }
}

// ── remove ──────────────────────────────────────────────────────────────

/// The lines that are not the cron `id`'s.
pub open spec fn without_id(ls: Seq<Seq<char>>, id: Seq<char>, n: nat) -> Seq<Seq<char>>
    decreases n,
{
    if n == 0 {
        Seq::empty()
    } else {
        let p = without_id(ls, id, (n - 1) as nat);
        if marker_id_of(ls[n - 1]) != Some(id) { p.push(ls[n - 1]) } else { p }
    }
}

/// The crontab text `existing` with the lines of cron `id` removed.
pub fn plan_remove(existing: &str, id: &str) -> (r: String)
    ensures r@ == join(without_id(lines(existing@), id@, lines(existing@).len()), seq!['\n']),
{
    let ev = chars_of(existing);
    let idv = chars_of(id);
    let ls = lines_v(&ev);
    let mut out: Vec<Vec<char>> = Vec::new();
    let mut k: usize = 0;
    while k < ls.len()
        invariant
            k <= ls.len(),
            views(ls@) == lines(ev@),
            idv@ == id@,
            views(out@) == without_id(lines(ev@), id@, k as nat),
        decreases ls.len() - k,
    {
        let line = &ls[k];
        let keep = match marker_id_chars(line) {
            Some(x) => !eq_v(&x, &idv),
            None => true,
        };
        if keep {
            let l = line.clone();
            proof { lemma_views_push(out@, l); }
            out.push(l);
        }
        k += 1;
    }
    let nl = vec!['\n'];
    assert(nl@ =~= seq!['\n']);
    let joined = join_v(&out, &nl);
    string_of(&joined)
}

// ── list ────────────────────────────────────────────────────────────────

/// One agent line of the crontab, as the listing reports it.
pub struct CronListing {
    pub id: String,
    /// The schedule and command, trimmed.
    pub entry: String,
    pub label: String,
}

/// The listing of one line that carries the marker: the entry is the text
/// before the marker, the id what follows it up to the first space, the
/// label the rest.
pub open spec fn listing_of(line: Seq<char>) -> (Seq<char>, Seq<char>, Seq<char>) {
    let p = find(line, marker()).unwrap();
    let after = line.skip(p + marker().len());
    let entry = trim(line.take(p));
    match find(after, seq![' ']) {
        Some(q) => (after.take(q), entry, trim(after.skip(q + 1))),
        None => (trim(after), entry, Seq::empty()),
    }
}

/// Listings of the first `n` lines that carry the marker.
pub open spec fn listings(ls: Seq<Seq<char>>, n: nat) -> Seq<(Seq<char>, Seq<char>, Seq<char>)>
    decreases n,
{
    if n == 0 {
        Seq::empty()
    } else {
        let p = listings(ls, (n - 1) as nat);
        if contains(ls[n - 1], marker()) { p.push(listing_of(ls[n - 1])) } else { p }
    }
}

pub open spec fn listing_view(l: CronListing) -> (Seq<char>, Seq<char>, Seq<char>) {
    (l.id@, l.entry@, l.label@)
}

/// The agent's crons in the crontab text, as `(id, entry, label)`.
pub fn list_entries(crontab: &str) -> (r: Vec<CronListing>)
    ensures
        r@.len() == listings(lines(crontab@), lines(crontab@).len()).len(),
        forall|i: int| 0 <= i < r@.len() ==>
            listing_view(#[trigger] r@[i]) == listings(lines(crontab@), lines(crontab@).len())[i],
{
    let cv = chars_of(crontab);
    let ls = lines_v(&cv);
    let m = chars_of(CRONTAB_MARKER);
    let sp = vec![' '];
    let mut out: Vec<CronListing> = Vec::new();
    let mut k: usize = 0;
    while k < ls.len()
        invariant
            k <= ls.len(),
            views(ls@) == lines(cv@),
            m@ == marker(),
            sp@ == seq![' '],
            out@.len() == listings(lines(cv@), k as nat).len(),
            forall|i: int| 0 <= i < out@.len() ==>
                listing_view(#[trigger] out@[i]) == listings(lines(cv@), k as nat)[i],
        decreases ls.len() - k,
    {
        let line = &ls[k];
        proof { lemma_find_from(line@, m@, 0); }
        match find_from_v(line, &m, 0) {
            None => {},
            Some(p) => {
                let before = slice(line, 0, p);
                let entry = trim_v(&before);
                let after = slice(line, p + m.len(), line.len());
                let (id, label) = match find_from_v(&after, &sp, 0) {
                    Some(q) => {
                        let id = slice(&after, 0, q);
                        let rest = slice(&after, q + 1, after.len());
                        (id, trim_v(&rest))
                    },
                    None => (trim_v(&after), Vec::new()),
                };
                let item = CronListing { id: string_of(&id), entry: string_of(&entry), label: string_of(&label) };
                assert(before@ =~= line@.take(p as int));
                assert(after@ =~= line@.skip(p + m@.len()));
                proof {
                    match find(after@, seq![' ']) {
                        Some(q) => {
                            assert(after@.take(q) =~= after@.subrange(0, q));
                            assert(after@.skip(q + 1) =~= after@.subrange(q + 1, after@.len() as int));
                        },
                        None => {},
                    }
                }
                assert(listing_view(item) == listing_of(line@));
                out.push(item);
            },
        }
        k += 1;
    }
    out
}

// ── laws ────────────────────────────────────────────────────────────────

/// A line whose id the sync was not sent, or that carries no marker at all,
/// is in the crontab after the sync.
pub proof fn law_unowned_line_survives_sync(existing: Seq<char>, cs: Seq<CronRequest>, safe: Seq<bool>, i: int)
    requires
        0 <= i < lines(existing).len(),
        keeps(lines(existing)[i], cron_ids(cs)),
    ensures synced_lines(existing, cs, safe).contains(lines(existing)[i]),
{
    let ls = lines(existing);
    lemma_kept_contains(ls, cron_ids(cs), ls.len(), i);
    let k = kept_lines(ls, cron_ids(cs), ls.len());
    let w = choose|w: int| 0 <= w < k.len() && k[w] == ls[i];
    assert((k + added_lines(cs, safe, cs.len()))[w] == ls[i]);
}

proof fn lemma_kept_contains(ls: Seq<Seq<char>>, owned: Seq<Seq<char>>, n: nat, i: int)
    requires 0 <= i < n <= ls.len(), keeps(ls[i], owned),
    ensures exists|w: int| 0 <= w < kept_lines(ls, owned, n).len() && kept_lines(ls, owned, n)[w] == ls[i],
    decreases n,
{
    if i < n - 1 {
        lemma_kept_contains(ls, owned, (n - 1) as nat, i);
        let p = kept_lines(ls, owned, (n - 1) as nat);
        let w = choose|w: int| 0 <= w < p.len() && p[w] == ls[i];
        assert(kept_lines(ls, owned, n)[w] == ls[i]);
    } else {
        let p = kept_lines(ls, owned, (n - 1) as nat);
        assert(kept_lines(ls, owned, n)[p.len() as int] == ls[i]);
    }
}

proof fn lemma_kept_owned_gone(ls: Seq<Seq<char>>, owned: Seq<Seq<char>>, n: nat)
    requires n <= ls.len(),
    ensures forall|w: int| 0 <= w < kept_lines(ls, owned, n).len() ==> keeps(#[trigger] kept_lines(ls, owned, n)[w], owned),
    decreases n,
{
    if n > 0 {
        lemma_kept_owned_gone(ls, owned, (n - 1) as nat);
        let p = kept_lines(ls, owned, (n - 1) as nat);
        assert forall|w: int| 0 <= w < kept_lines(ls, owned, n).len() implies keeps(#[trigger] kept_lines(ls, owned, n)[w], owned) by {
            if w < p.len() {
                assert(kept_lines(ls, owned, n)[w] == p[w]);
            }
        }
    }
}

/// No line the sync kept from before belongs to a cron it was sent: those
/// crons appear only through the lines the sync itself writes.
pub proof fn law_owned_lines_replaced(existing: Seq<char>, cs: Seq<CronRequest>, safe: Seq<bool>, w: int)
    requires
        0 <= w < kept_lines(lines(existing), cron_ids(cs), lines(existing).len()).len(),
    ensures
        keeps(kept_lines(lines(existing), cron_ids(cs), lines(existing).len())[w], cron_ids(cs)),
{
    lemma_kept_owned_gone(lines(existing), cron_ids(cs), lines(existing).len());
}

proof fn lemma_added_origin(cs: Seq<CronRequest>, safe: Seq<bool>, n: nat)
    requires n <= cs.len(), safe.len() == cs.len(),
    ensures
        forall|v: int| 0 <= v < added_lines(cs, safe, n).len() ==> exists|k: int|
            0 <= k < n && accepted(cs[k], safe[k]) && #[trigger] added_lines(cs, safe, n)[v] == cron_line(cs[k]),
    decreases n,
{
    if n > 0 {
        lemma_added_origin(cs, safe, (n - 1) as nat);
        let p = added_lines(cs, safe, (n - 1) as nat);
        assert forall|v: int| 0 <= v < added_lines(cs, safe, n).len() implies exists|k: int|
            0 <= k < n && accepted(cs[k], safe[k]) && #[trigger] added_lines(cs, safe, n)[v] == cron_line(cs[k]) by {
            if v < p.len() {
                assert(added_lines(cs, safe, n)[v] == p[v]);
                let k = choose|k: int| 0 <= k < n - 1 && accepted(cs[k], safe[k]) && p[v] == cron_line(cs[k]);
                assert(0 <= k < n && accepted(cs[k], safe[k]) && added_lines(cs, safe, n)[v] == cron_line(cs[k]));
            } else {
                let k = n - 1;
                assert(0 <= k < n && accepted(cs[k], safe[k]) && added_lines(cs, safe, n)[v] == cron_line(cs[k]));
            }
        }
    }
}

/// After a sync, a line that carries the id of any cron the sync was sent —
/// enabled or disabled, accepted or refused — is a line the sync itself
/// wrote for an accepted cron: every line that was there before under that
/// id is gone, so a disabled or refused cron is no longer scheduled.
pub proof fn law_sent_crons_appear_only_as_written(existing: Seq<char>, cs: Seq<CronRequest>, safe: Seq<bool>)
    requires safe.len() == cs.len(),
    ensures
        forall|w: int, j: int| 0 <= w < synced_lines(existing, cs, safe).len() && 0 <= j < cs.len()
            && marker_id_of(#[trigger] synced_lines(existing, cs, safe)[w]) == Some(#[trigger] cs[j].id@) ==>
            exists|k: int| 0 <= k < cs.len() && accepted(cs[k], safe[k])
                && synced_lines(existing, cs, safe)[w] == cron_line(cs[k]),
{
    let ls = lines(existing);
    let kl = kept_lines(ls, cron_ids(cs), ls.len());
    let al = added_lines(cs, safe, cs.len());
    let s = synced_lines(existing, cs, safe);
    lemma_kept_owned_gone(ls, cron_ids(cs), ls.len());
    lemma_added_origin(cs, safe, cs.len());
    assert forall|w: int, j: int| 0 <= w < s.len() && 0 <= j < cs.len()
        && marker_id_of(#[trigger] s[w]) == Some(#[trigger] cs[j].id@) implies
        exists|k: int| 0 <= k < cs.len() && accepted(cs[k], safe[k]) && s[w] == cron_line(cs[k]) by {
        if w < kl.len() {
            assert(s[w] == kl[w]);
            assert(keeps(kl[w], cron_ids(cs)));
            assert(cron_ids(cs)[j] == cs[j].id@);
            assert(cron_ids(cs).contains(cs[j].id@));
        } else {
            assert(s[w] == al[w - kl.len()]);
            let k = choose|k: int| 0 <= k < cs.len() && accepted(cs[k], safe[k]) && #[trigger] al[w - kl.len()] == cron_line(cs[k]);
        }
    }
}

proof fn lemma_without_id(ls: Seq<Seq<char>>, id: Seq<char>, n: nat)
    requires n <= ls.len(),
    ensures
        forall|w: int| 0 <= w < without_id(ls, id, n).len() ==> marker_id_of(#[trigger] without_id(ls, id, n)[w]) != Some(id),
        forall|i: int| 0 <= i < n && marker_id_of(ls[i]) != Some(id) ==>
            exists|w: int| 0 <= w < without_id(ls, id, n).len() && #[trigger] without_id(ls, id, n)[w] == ls[i],
    decreases n,
{
    if n > 0 {
        lemma_without_id(ls, id, (n - 1) as nat);
        let p = without_id(ls, id, (n - 1) as nat);
        assert forall|i: int| 0 <= i < n && marker_id_of(ls[i]) != Some(id) implies
            exists|w: int| 0 <= w < without_id(ls, id, n).len() && #[trigger] without_id(ls, id, n)[w] == ls[i] by {
            if i < n - 1 {
                let w = choose|w: int| 0 <= w < p.len() && p[w] == ls[i];
                assert(without_id(ls, id, n)[w] == ls[i]);
            } else {
                assert(without_id(ls, id, n)[p.len() as int] == ls[i]);
            }
        }
    }
}

/// Removing a cron takes out exactly its lines: none of the remaining lines
/// carries its id, and every line of another cron or of the operator stays.
pub proof fn law_remove_takes_exactly_its_lines(existing: Seq<char>, id: Seq<char>)
    ensures
        forall|w: int| 0 <= w < without_id(lines(existing), id, lines(existing).len()).len() ==>
            marker_id_of(#[trigger] without_id(lines(existing), id, lines(existing).len())[w]) != Some(id),
        forall|i: int| 0 <= i < lines(existing).len() && marker_id_of(lines(existing)[i]) != Some(id) ==>
            without_id(lines(existing), id, lines(existing).len()).contains(#[trigger] lines(existing)[i]),
{
    lemma_without_id(lines(existing), id, lines(existing).len());
}

/// The line a sync writes for a cron is attributed, by the marker parser, to
/// exactly that cron, whatever its label says — when the id is a non-empty
/// run of non-whitespace that does not end in `#`, and the marker does not
/// occur in the schedule and command. (An id ending in `#` before a label
/// starting `dockpanel:` would spell a second marker across the separator,
/// and the id would read back without its `#`.)
pub proof fn law_written_line_carries_its_id(c: CronRequest)
    requires
        c.id@.len() > 0,
        forall|k: int| 0 <= k < c.id@.len() ==> !is_ws(#[trigger] c.id@[k]),
        c.id@.last() != '#',
        find(cron_head(c), marker()) is None,
    ensures marker_id_of(cron_line(c)) == Some(c.id@),
{
    reveal_strlit("# dockpanel:");
    let m = marker();
    let id = c.id@;
    assert(m.len() == 12);
    assert(m[0] == '#' && m[1] == ' ');
    assert forall|k: int| 0 < k < m.len() implies #[trigger] m[k] != m[0] by {}
    lemma_find_after(cron_head(c), m, cron_tail(c));
    let line = cron_line(c);
    let pre = cron_head(c) + m;
    let st = pre.len() as int;
    let z = id + seq![' '];
    assert(line =~= pre + cron_tail(c));
    assert(cron_tail(c) =~= z + label_of(c));
    assert forall|j: int| st <= j < st + z.len() implies !occurs_at(line, m, j) by {
        if occurs_at(line, m, j) {
            assert(line.subrange(j, j + m.len())[0] == line[j]);
            assert(line.subrange(j, j + m.len())[1] == line[j + 1]);
            assert(line[j] == '#');
            assert(line[j + 1] == ' ');
            if j + 1 < st + id.len() {
                assert(line[j + 1] == id[j + 1 - st]);
            } else if j + 1 == st + id.len() {
                assert(line[j] == id[id.len() - 1]);
            } else {
                assert(line[j] == z[id.len() as int]);
            }
        }
    }
    lemma_find_from(line, m, st);
    let x = match find_from(line, m, st) {
        None => label_of(c),
        Some(i) => label_of(c).subrange(0, i - st - z.len()),
    };
    match find_from(line, m, st) {
        None => {
            assert(line.subrange(st, line.len() as int) =~= z + x);
        },
        Some(i) => {
            assert(i >= st + z.len());
            assert(line.subrange(st, i) =~= z + x);
        },
    }
    assert(split_second(line, m) == Some(z + x));
    lemma_ws_tokens_concat(z, x);
    assert(z.drop_last() =~= id);
    lemma_ws_tokens_word(id);
    assert(ws_tokens(z) == ws_tokens(id));
}

} // verus!
