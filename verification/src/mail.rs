//! Mail server configuration: the Postfix and Dovecot tables a sync writes,
//! the sender-login allow-list, milter wiring, and the checks on what the
//! panel sends.
use vstd::prelude::*;
use crate::text::{
    append, chars_of, eq_v, ends_with_v, has_char, is_alnum, is_ws, join, join_v, lemma_lines_join,
    lemma_split_on_concat, lemma_split_on_len, lemma_split_on_none, lemma_trim_fixed, lemma_trim_shape,
    lemma_trim_ws_prefix, lemma_views_push, lines, lines_v, slice, split_on, split_v, starts_with_v,
    string_of, trim, trim_start, trim_start_v, trim_v, views,
};

verus! {

// ── requests ────────────────────────────────────────────────────────────

pub struct DkimRequest {
    pub domain: String,
    pub selector: String,
}

pub struct DomainRequest {
    pub domain: String,
}

pub struct QueueDeleteRequest {
    pub id: String,
}

/// OpenDKIM's milter endpoint, as Postfix addresses it.
pub const OPENDKIM_MILTER: &'static str = "inet:127.0.0.1:8891";

/// Rspamd's milter endpoint, as Postfix addresses it.
pub const RSPAMD_MILTER: &'static str = "inet:127.0.0.1:11332";

// ── milters ─────────────────────────────────────────────────────────────

pub open spec fn smtpd_key() -> Seq<char> {
    "smtpd_milters"@
}

pub open spec fn non_smtpd_key() -> Seq<char> {
    "non_smtpd_milters"@
}

/// The value of `key = value` on a line that starts with `key`.
pub open spec fn milter_value(line: Seq<char>, key: Seq<char>) -> Option<Seq<char>> {
    if key.is_prefix_of(line) {
        let rest = trim_start(line.skip(key.len() as int));
        if rest.len() > 0 && rest[0] == '=' { Some(trim(rest.skip(1))) } else { None }
    } else {
        None
    }
}

/// The milter list a line sets, with its key: `smtpd_milters` is tried first.
pub open spec fn milter_setting(line: Seq<char>) -> Option<(Seq<char>, Seq<char>)> {
    match milter_value(line, smtpd_key()) {
        Some(v) => Some((smtpd_key(), v)),
        None => match milter_value(line, non_smtpd_key()) {
            Some(v) => Some((non_smtpd_key(), v)),
            None => None,
        },
    }
}

/// `milter` is one of the comma-separated entries of `value`.
pub open spec fn lists_milter(value: Seq<char>, milter: Seq<char>) -> bool {
    exists|k: int| 0 <= k < split_on(value, ',').len() && trim(#[trigger] split_on(value, ',')[k]) == milter
}

/// A line after `milter` was added to the list it sets, if it sets one.
pub open spec fn milter_line(line: Seq<char>, milter: Seq<char>) -> Seq<char> {
    match milter_setting(line) {
        None => line,
        Some((key, value)) => if lists_milter(value, milter) {
            line
        } else if value.len() == 0 {
            key + " = "@ + milter
        } else {
            key + " = "@ + value + ", "@ + milter
        },
    }
}

pub open spec fn ends_with_newline(s: Seq<char>) -> bool {
    s.len() > 0 && s.last() == '\n'
}

/// `main.cf` with `milter` appended to both milter lists; `None` when it
/// sets neither.
pub open spec fn with_milter(cf: Seq<char>, milter: Seq<char>) -> Option<Seq<char>> {
    let ls = lines(cf);
    if exists|i: int| 0 <= i < ls.len() && (#[trigger] milter_setting(ls[i])) is Some {
        Some(join(Seq::new(ls.len(), |i: int| milter_line(ls[i], milter)), seq!['\n'])
            + (if ends_with_newline(cf) { seq!['\n'] } else { Seq::<char>::empty() }))
    } else {
        None
    }
}

fn milter_value_v(line: &Vec<char>, key: &Vec<char>) -> (r: Option<Vec<char>>)
    ensures
        match r {
            Some(v) => milter_value(line@, key@) == Some(v@),
            None => milter_value(line@, key@) is None,
        },
{
    if !starts_with_v(line, key) {
        return None;
    }
    let after = slice(line, key.len(), line.len());
    assert(after@ =~= line@.skip(key@.len() as int));
    let rest = trim_start_v(&after);
    if rest.len() > 0 && rest[0] == '=' {
        let v = slice(&rest, 1, rest.len());
        assert(v@ =~= rest@.skip(1));
        Some(trim_v(&v))
    } else {
        None
    }
}

fn lists_milter_v(value: &Vec<char>, milter: &Vec<char>) -> (r: bool)
    ensures r == lists_milter(value@, milter@),
{
    let parts = split_v(value, ',');
    let mut k: usize = 0;
    while k < parts.len()
        invariant
            k <= parts.len(),
            views(parts@) == split_on(value@, ','),
            forall|j: int| 0 <= j < k ==> trim(#[trigger] split_on(value@, ',')[j]) != milter@,
        decreases parts.len() - k,
    {
        assert(views(parts@)[k as int] == parts@[k as int]@);
        let t = trim_v(&parts[k]);
        if eq_v(&t, milter) {
            return true;
        }
        k += 1;
    }
    false
}

/// Append `milter` to Postfix's `smtpd_milters` / `non_smtpd_milters`
/// lists, keeping whatever is already configured.
///
/// `None` when neither key is present: Postfix then has no mail
/// configuration to extend. A milter already in a list is left there once.
pub fn add_milter(main_cf: &str, milter: &str) -> (r: Option<String>)
    ensures
        match r {
            Some(s) => with_milter(main_cf@, milter@) == Some(s@),
            None => with_milter(main_cf@, milter@) is None,
        },
{
    let cf = chars_of(main_cf);
    let m = chars_of(milter);
    let k1 = chars_of("smtpd_milters");
    let k2 = chars_of("non_smtpd_milters");
    let ls = lines_v(&cf);
    let mut found = false;
    let mut out: Vec<Vec<char>> = Vec::new();
    let mut i: usize = 0;
    while i < ls.len()
        invariant
            i <= ls.len(),
            views(ls@) == lines(cf@),
            cf@ == main_cf@,
            m@ == milter@,
            k1@ == smtpd_key(),
            k2@ == non_smtpd_key(),
            views(out@) == Seq::new(i as nat, |j: int| milter_line(lines(cf@)[j], milter@)),
            found <==> exists|j: int| 0 <= j < i && (#[trigger] milter_setting(lines(cf@)[j])) is Some,
        decreases ls.len() - i,
    {
        let line = &ls[i];
        assert(line@ == lines(cf@)[i as int]);
        let setting = match milter_value_v(line, &k1) {
            Some(v) => Some((k1.clone(), v)),
            None => match milter_value_v(line, &k2) {
                Some(v) => Some((k2.clone(), v)),
                None => None,
            },
        };
        let new_line = match setting {
            None => line.clone(),
            Some((key, value)) => {
                found = true;
                if lists_milter_v(&value, &m) {
                    line.clone()
                } else if value.len() == 0 {
                    let mut l = key;
                    let eq = chars_of(" = ");
                    append(&mut l, &eq);
                    append(&mut l, &m);
                    l
                } else {
                    let mut l = key;
                    let eq = chars_of(" = ");
                    append(&mut l, &eq);
                    append(&mut l, &value);
                    let comma = chars_of(", ");
                    append(&mut l, &comma);
                    append(&mut l, &m);
                    l
                }
            },
        };
        assert(new_line@ == milter_line(lines(cf@)[i as int], milter@));
        proof { lemma_views_push(out@, new_line); }
        out.push(new_line);
        i += 1;
        assert(views(out@) =~= Seq::new(i as nat, |j: int| milter_line(lines(cf@)[j], milter@)));
    }
    if !found {
        return None;
    }
    let nl = vec!['\n'];
    assert(nl@ =~= seq!['\n']);
    let mut res = join_v(&out, &nl);
    if cf.len() > 0 && cf[cf.len() - 1] == '\n' {
        res.push('\n');
    }
    assert(res@ =~= join(Seq::new(lines(cf@).len(), |j: int| milter_line(lines(cf@)[j], milter@)), seq!['\n'])
        + (if ends_with_newline(cf@) { seq!['\n'] } else { Seq::<char>::empty() }));
    Some(string_of(&res))
}

proof fn lemma_concat_lacks(a: Seq<char>, b: Seq<char>, c: char)
    requires !a.contains(c), !b.contains(c),
    ensures !(a + b).contains(c),
{
    if (a + b).contains(c) {
        let k = choose|k: int| 0 <= k < (a + b).len() && (a + b)[k] == c;
        if k < a.len() {
            assert(a[k] == c);
        } else {
            assert(b[k - a.len()] == c);
        }
    }
}

proof fn lemma_skip_lacks(a: Seq<char>, j: int, c: char)
    requires !a.contains(c), 0 <= j <= a.len(),
    ensures !a.skip(j).contains(c),
{
    if a.skip(j).contains(c) {
        let k = choose|k: int| 0 <= k < a.skip(j).len() && a.skip(j)[k] == c;
        assert(a[k + j] == c);
    }
}

/// A usable milter name: non-empty, trimmed, and free of commas and
/// newlines.
pub open spec fn plain_milter(milter: Seq<char>) -> bool {
    milter.len() > 0 && trim(milter) == milter && !milter.contains(',') && !milter.contains('\n')
}

/// What `milter_line` writes for a line that sets a list: it sets a list
/// again, it is left alone by a second pass, it holds no newline when the
/// line held none, and a changed line ends in non-whitespace.
proof fn lemma_rewritten_line(line: Seq<char>, milter: Seq<char>)
    requires
        plain_milter(milter),
        milter_setting(line) is Some,
    ensures
        milter_setting(milter_line(line, milter)) is Some,
        milter_line(milter_line(line, milter), milter) == milter_line(line, milter),
        !line.contains('\n') ==> !milter_line(line, milter).contains('\n'),
        milter_line(line, milter) != line ==>
            milter_line(line, milter).len() > 0 && !is_ws(milter_line(line, milter).last()),
{
    reveal_strlit("smtpd_milters");
    reveal_strlit("non_smtpd_milters");
    reveal_strlit(" = ");
    reveal_strlit("= ");
    reveal_strlit(", ");
    let (key, value) = milter_setting(line)->0;
    if lists_milter(value, milter) {
        return;
    }
    lemma_trim_shape(milter);
    let x = if value.len() == 0 { milter } else { value + ", "@ + milter };
    let new = key + " = "@ + x;
    assert(milter_line(line, milter) == new);
    // the value written is its own trim
    let k = key.len() as int;
    let rest0 = trim_start(line.skip(k));
    assert(value == trim(rest0.skip(1)));
    lemma_trim_shape(rest0.skip(1));
    assert(x.len() > 0 && !is_ws(x[0]) && !is_ws(x.last()));
    lemma_trim_fixed(x);
    // parsing the new line gives back `key` and `x`
    let tail = " = "@ + x;
    assert(new.skip(k) =~= tail);
    assert(tail =~= seq![' '] + ("= "@ + x));
    lemma_trim_ws_prefix(' ', "= "@ + x);
    assert(trim_start("= "@ + x) == "= "@ + x);
    assert(("= "@ + x).skip(1) =~= seq![' '] + x);
    lemma_trim_ws_prefix(' ', x);
    assert(key.is_prefix_of(new));
    if key == non_smtpd_key() {
        assert(new[0] == 'n');
        assert(!smtpd_key().is_prefix_of(new));
    }
    assert(milter_setting(new) == Some((key, x)));
    // the new list names the milter
    if value.len() == 0 {
        lemma_split_on_none(milter, ',');
        assert(trim(split_on(x, ',')[0]) == milter);
    } else {
        let b = seq![' '] + milter;
        assert(x =~= value + seq![','] + b);
        lemma_concat_lacks(seq![' '], milter, ',');
        lemma_split_on_concat(value, b, ',');
        lemma_split_on_none(b, ',');
        lemma_trim_ws_prefix(' ', milter);
        let w = split_on(value, ',').len() as int;
        assert(split_on(x, ',')[w] == b);
        assert(trim(split_on(x, ',')[w]) == milter);
    }
    assert(lists_milter(x, milter));
    // no newline appears
    if !line.contains('\n') {
        lemma_skip_lacks(line, k, '\n');
        crate::text::lemma_trim_lacks(line.skip(k), '\n');
        lemma_skip_lacks(rest0, 1, '\n');
        crate::text::lemma_trim_lacks(rest0.skip(1), '\n');
        lemma_concat_lacks(", "@, milter, '\n');
        lemma_concat_lacks(value, ", "@ + milter, '\n');
        assert(value + ", "@ + milter =~= value + (", "@ + milter));
        lemma_concat_lacks(key, " = "@, '\n');
        lemma_concat_lacks(key + " = "@, x, '\n');
    }
}

/// Adding a milter twice is adding it once: a second pass over the result
/// changes nothing. This holds for a plain milter name, unless a line the
/// pass leaves as it is, and that a newline follows, still ends in a carriage
/// return once its line ending is read (it came as `\r\r\n`): the first
/// pass writes it back as `\r\n`, and the second reads that as a line end.
pub proof fn law_add_milter_idempotent(cf: Seq<char>, milter: Seq<char>)
    requires
        plain_milter(milter),
        with_milter(cf, milter) is Some,
        forall|i: int| 0 <= i < lines(cf).len() && (i < lines(cf).len() - 1 || ends_with_newline(cf))
            && milter_line(lines(cf)[i], milter) == lines(cf)[i] ==>
            (#[trigger] lines(cf)[i]).len() == 0 || lines(cf)[i].last() != '\r',
    ensures with_milter(with_milter(cf, milter)->0, milter) == with_milter(cf, milter),
{
    let ls = lines(cf);
    let n = ls.len();
    let rw = Seq::new(n, |i: int| milter_line(ls[i], milter));
    let e = ends_with_newline(cf);
    let tl = if e { seq!['\n'] } else { Seq::<char>::empty() };
    let out = join(rw, seq!['\n']) + tl;
    assert(with_milter(cf, milter) == Some(out));
    let w = choose|i: int| 0 <= i < ls.len() && (#[trigger] milter_setting(ls[i])) is Some;
    crate::text::lemma_lines_shape(cf);
    assert forall|i: int| 0 <= i < n implies
        !(#[trigger] rw[i]).contains('\n')
        && milter_line(rw[i], milter) == rw[i]
        && (milter_setting(ls[i]) is Some ==> milter_setting(rw[i]) is Some)
        && (rw[i] != ls[i] ==> rw[i].len() > 0 && !is_ws(rw[i].last())) by {
        assert(!ls[i].contains('\n'));
        if milter_setting(ls[i]) is Some {
            lemma_rewritten_line(ls[i], milter);
        }
    }
    assert forall|i: int| 0 <= i < n && (i < n - 1 || e) implies
        (#[trigger] rw[i]).len() == 0 || rw[i].last() != '\r' by {
        if rw[i] == ls[i] {
        } else {
            assert(!is_ws(rw[i].last()));
        }
    }
    assert(n >= 1);
    if !e {
        assert(cf.len() > 0);
        assert(rw.last().len() > 0);
    }
    lemma_lines_join(rw, e);
    assert(lines(out) == rw);
    if !e {
        crate::text::lemma_join_last(rw, seq!['\n']);
        assert(out =~= join(rw, seq!['\n']));
        assert(!rw.last().contains('\n'));
        assert(rw.last()[rw.last().len() - 1] != '\n');
    }
    assert(ends_with_newline(out) == e);
    assert(milter_setting(lines(out)[w]) is Some);
    assert(Seq::new(n, |i: int| milter_line(lines(out)[i], milter)) =~= rw);
}

// ── the sync payload ────────────────────────────────────────────────────

pub struct SyncDomain {
    pub domain: String,
    pub enabled: bool,
    pub catch_all: Option<String>,
}

pub struct SyncAccount {
    pub email: String,
    pub password_hash: String,
    pub quota_mb: i32,
    pub enabled: bool,
    pub forward_to: Option<String>,
}

pub struct SyncAlias {
    pub source: String,
    pub destination: String,
}

/// Every domain, account and alias of the box.
pub struct SyncRequest {
    pub domains: Vec<SyncDomain>,
    pub accounts: Vec<SyncAccount>,
    pub aliases: Vec<SyncAlias>,
}

// ── checks on the sync payload ──────────────────────────────────────────

/// A character Postfix maps take in an address.
pub open spec fn is_addr_char(c: char) -> bool {
    is_alnum(c) || c == '@' || c == '.' || c == '_' || c == '-' || c == '+'
}

pub open spec fn all_addr(s: Seq<char>) -> bool {
    forall|k: int| 0 <= k < s.len() ==> is_addr_char(#[trigger] s[k])
}

/// Address characters, plus the extra character `x`.
pub open spec fn all_addr_or(s: Seq<char>, x: char) -> bool {
    forall|k: int| 0 <= k < s.len() ==> is_addr_char(#[trigger] s[k]) || s[k] == x
}

/// How many times `c` occurs in `s`.
pub open spec fn count_char(s: Seq<char>, c: char) -> nat
    decreases s.len(),
{
    if s.len() == 0 { 0 } else { count_char(s.drop_last(), c) + if s.last() == c { 1nat } else { 0nat } }
}

/// Split at the first `@`: a non-empty local part that is not only dots,
/// and a non-empty domain.
pub open spec fn local_part_ok(addr: Seq<char>) -> bool {
    match crate::text::find(addr, seq!['@']) {
        Some(i) => i > 0 && i + 1 < addr.len() && exists|k: int| 0 <= k < i && #[trigger] addr[k] != '.',
        None => false,
    }
}

pub open spec fn hash_ok(h: Seq<char>) -> bool {
    !h.contains(':') && !h.contains('\n') && !h.contains('\r') && !h.contains('\0') && !h.contains('\t')
}

/// The first check an account fails, as the message the request answers.
pub open spec fn account_error(a: SyncAccount) -> Option<Seq<char>> {
    if !all_addr(a.email@) {
        Some("Invalid characters in email address"@)
    } else if count_char(a.email@, '@') != 1 {
        Some("Invalid email format"@)
    } else if !local_part_ok(a.email@) {
        Some("Invalid email local part"@)
    } else if !hash_ok(a.password_hash@) {
        Some("Invalid characters in password hash"@)
    } else if a.forward_to matches Some(f) && f@.len() > 0 && !all_addr(f@) {
        Some("Invalid characters in forward_to address"@)
    } else {
        None
    }
}

pub open spec fn alias_error(a: SyncAlias) -> Option<Seq<char>> {
    if !all_addr(a.source@) || !all_addr_or(a.destination@, ',') {
        Some("Invalid characters in alias data"@)
    } else if !local_part_ok(a.source@) {
        Some("Invalid alias source local part"@)
    } else {
        None
    }
}

pub open spec fn catch_all_error(d: SyncDomain) -> Option<Seq<char>> {
    if d.catch_all matches Some(c) && c@.len() > 0 && !all_addr_or(c@, '/') {
        Some("Invalid characters in catch-all address"@)
    } else {
        None
    }
}

/// The first error in a list of check results.
pub open spec fn first_error(s: Seq<Option<Seq<char>>>) -> Option<Seq<char>>
    decreases s.len(),
{
    if s.len() == 0 { None } else if s[0] is Some { s[0] } else { first_error(s.drop_first()) }
}

/// What a sync refuses, if anything: accounts are checked first, then
/// aliases, then catch-all addresses.
pub open spec fn sync_error(body: SyncRequest) -> Option<Seq<char>> {
    first_error(
        Seq::new(body.accounts@.len(), |i: int| account_error(body.accounts@[i]))
        + Seq::new(body.aliases@.len(), |i: int| alias_error(body.aliases@[i]))
        + Seq::new(body.domains@.len(), |i: int| catch_all_error(body.domains@[i])))
}

proof fn lemma_first_error_at(s: Seq<Option<Seq<char>>>, i: int)
    requires 0 <= i < s.len(), s[i] is Some, forall|j: int| 0 <= j < i ==> (#[trigger] s[j]) is None,
    ensures first_error(s) == s[i],
    decreases i,
{
    if i > 0 {
        assert forall|j: int| 0 <= j < i - 1 implies (#[trigger] s.drop_first()[j]) is None by {
            assert(s.drop_first()[j] == s[j + 1]);
        }
        lemma_first_error_at(s.drop_first(), i - 1);
    }
}

proof fn lemma_first_error_none(s: Seq<Option<Seq<char>>>)
    requires forall|j: int| 0 <= j < s.len() ==> (#[trigger] s[j]) is None,
    ensures first_error(s) is None,
    decreases s.len(),
{
    if s.len() > 0 {
        assert forall|j: int| 0 <= j < s.len() - 1 implies (#[trigger] s.drop_first()[j]) is None by {
            assert(s.drop_first()[j] == s[j + 1]);
        }
        lemma_first_error_none(s.drop_first());
    }
}

fn all_addr_v(s: &Vec<char>, extra: Option<char>) -> (r: bool)
    ensures r == (match extra { Some(x) => all_addr_or(s@, x), None => all_addr(s@) }),
{
    let mut i: usize = 0;
    while i < s.len()
        invariant
            i <= s.len(),
            forall|k: int| 0 <= k < i ==> (match extra { Some(x) => is_addr_char(#[trigger] s@[k]) || s@[k] == x, None => is_addr_char(s@[k]) }),
        decreases s.len() - i,
    {
        let c = s[i];
        let ok = crate::text::alnum(c) || c == '@' || c == '.' || c == '_' || c == '-' || c == '+'
            || match extra { Some(x) => c == x, None => false };
        if !ok {
            return false;
        }
        i += 1;
    }
    true
}

fn count_char_v(s: &Vec<char>, c: char) -> (r: usize)
    ensures r == count_char(s@, c),
{
    let mut n: usize = 0;
    let mut i: usize = 0;
    while i < s.len()
        invariant
            i <= s.len(),
            n == count_char(s@.take(i as int), c),
            n <= i,
        decreases s.len() - i,
    {
        assert(s@.take(i + 1).drop_last() =~= s@.take(i as int));
        if s[i] == c {
            n += 1;
        }
        i += 1;
    }
    assert(s@.take(s.len() as int) =~= s@);
    n
}

fn local_part_ok_v(s: &Vec<char>) -> (r: bool)
    ensures r == local_part_ok(s@),
{
    let at = vec!['@'];
    assert(at@ =~= seq!['@']);
    match crate::text::find_from_v(s, &at, 0) {
        None => false,
        Some(i) => {
            if i == 0 || i + 1 >= s.len() {
                return false;
            }
            let mut k: usize = 0;
            while k < i
                invariant
                    k <= i,
                    0 < i,
                    i + 1 < s.len(),
                    crate::text::find(s@, seq!['@']) == Some(i as int),
                    forall|j: int| 0 <= j < k ==> s@[j] == '.',
                decreases i - k,
            {
                if s[k] != '.' {
                    assert(s@[k as int] != '.');
                    return true;
                }
                k += 1;
            }
            false
        },
    }
}

/// True if the local part of `addr` is safe as a path component and a map
/// key: there is an `@`, the parts before and after the first one are
/// non-empty, and the local part is not only dots.
pub fn local_part_is_safe(addr: &str) -> (r: bool)
    ensures r == local_part_ok(addr@),
{
    let v = chars_of(addr);
    local_part_ok_v(&v)
}

fn account_error_v(a: &SyncAccount) -> (r: Option<&'static str>)
    ensures
        match r {
            Some(m) => account_error(*a) == Some(m@),
            None => account_error(*a) is None,
        },
{
    let e = chars_of(a.email.as_str());
    if !all_addr_v(&e, None) {
        return Some("Invalid characters in email address");
    }
    if count_char_v(&e, '@') != 1 {
        return Some("Invalid email format");
    }
    if !local_part_ok_v(&e) {
        return Some("Invalid email local part");
    }
    let h = chars_of(a.password_hash.as_str());
    if has_char(&h, ':') || has_char(&h, '\n') || has_char(&h, '\r') || has_char(&h, '\0') || has_char(&h, '\t') {
        return Some("Invalid characters in password hash");
    }
    match &a.forward_to {
        Some(f) => {
            let fv = chars_of(f.as_str());
            if fv.len() > 0 && !all_addr_v(&fv, None) {
                return Some("Invalid characters in forward_to address");
            }
        },
        None => {},
    }
    None
}

fn alias_error_v(a: &SyncAlias) -> (r: Option<&'static str>)
    ensures
        match r {
            Some(m) => alias_error(*a) == Some(m@),
            None => alias_error(*a) is None,
        },
{
    let s = chars_of(a.source.as_str());
    let d = chars_of(a.destination.as_str());
    if !all_addr_v(&s, None) || !all_addr_v(&d, Some(',')) {
        return Some("Invalid characters in alias data");
    }
    if !local_part_ok_v(&s) {
        return Some("Invalid alias source local part");
    }
    None
}

fn catch_all_error_v(d: &SyncDomain) -> (r: Option<&'static str>)
    ensures
        match r {
            Some(m) => catch_all_error(*d) == Some(m@),
            None => catch_all_error(*d) is None,
        },
{
    match &d.catch_all {
        Some(c) => {
            let cv = chars_of(c.as_str());
            if cv.len() > 0 && !all_addr_v(&cv, Some('/')) {
                return Some("Invalid characters in catch-all address");
            }
        },
        None => {},
    }
    None
}

/// The checks a sync runs on what the panel sends, before it writes
/// anything: `Err` with the message of the first failing check.
pub fn check_sync(body: &SyncRequest) -> (r: Result<(), String>)
    ensures
        match r {
            Ok(()) => sync_error(*body) is None,
            Err(m) => sync_error(*body) == Some(m@),
        },
{
    let ghost s = Seq::new(body.accounts@.len(), |i: int| account_error(body.accounts@[i]))
        + Seq::new(body.aliases@.len(), |i: int| alias_error(body.aliases@[i]))
        + Seq::new(body.domains@.len(), |i: int| catch_all_error(body.domains@[i]));
    let na = body.accounts.len();
    let nl = body.aliases.len();
    let mut i: usize = 0;
    while i < na
        invariant
            i <= na == body.accounts@.len(),
            s.len() == body.accounts@.len() + body.aliases@.len() + body.domains@.len(),
            sync_error(*body) == first_error(s),
            forall|j: int| 0 <= j < i ==> (#[trigger] s[j]) is None,
            forall|j: int| 0 <= j < na ==> #[trigger] s[j] == account_error(body.accounts@[j]),
        decreases na - i,
    {
        match account_error_v(&body.accounts[i]) {
            Some(m) => {
                assert(s[i as int] == account_error(body.accounts@[i as int]));
                proof { lemma_first_error_at(s, i as int); }
                assert(sync_error(*body) == Some(m@));
                let e = string_of(&chars_of(m));
                return Err(e);
            },
            None => {},
        }
        i += 1;
    }
    let mut j: usize = 0;
    while j < nl
        invariant
            j <= nl == body.aliases@.len(),
            na == body.accounts@.len(),
            s.len() == body.accounts@.len() + body.aliases@.len() + body.domains@.len(),
            sync_error(*body) == first_error(s),
            forall|x: int| 0 <= x < na + j ==> (#[trigger] s[x]) is None,
            forall|x: int| 0 <= x < nl ==> #[trigger] s[na + x] == alias_error(body.aliases@[x]),
        decreases nl - j,
    {
        match alias_error_v(&body.aliases[j]) {
            Some(m) => {
                assert(s[na + j] == alias_error(body.aliases@[j as int]));
                proof { lemma_first_error_at(s, (na + j) as int); }
                return Err(string_of(&chars_of(m)));
            },
            None => {
                assert(s[na + j] == alias_error(body.aliases@[j as int]));
            },
        }
        j += 1;
    }
    let mut k: usize = 0;
    while k < body.domains.len()
        invariant
            k <= body.domains@.len(),
            na == body.accounts@.len(),
            nl == body.aliases@.len(),
            s.len() == body.accounts@.len() + body.aliases@.len() + body.domains@.len(),
            sync_error(*body) == first_error(s),
            forall|x: int| 0 <= x < na + nl + k ==> (#[trigger] s[x]) is None,
            forall|x: int| 0 <= x < body.domains@.len() ==> #[trigger] s[na + nl + x] == catch_all_error(body.domains@[x]),
        decreases body.domains@.len() - k,
    {
        match catch_all_error_v(&body.domains[k]) {
            Some(m) => {
                assert(s[na + nl + k] == catch_all_error(body.domains@[k as int]));
                proof { lemma_first_error_at(s, (na + nl + k) as int); }
                return Err(string_of(&chars_of(m)));
            },
            None => {
                assert(s[na + nl + k] == catch_all_error(body.domains@[k as int]));
            },
        }
        k += 1;
    }
    proof { lemma_first_error_none(s); }
    Ok(())
}

// ── the tables a sync writes ────────────────────────────────────────────

/// An address split at its first `@` into local part and domain.
pub open spec fn at_split(e: Seq<char>) -> Option<(Seq<char>, Seq<char>)> {
    match crate::text::find(e, seq!['@']) {
        Some(i) => Some((e.take(i), e.skip(i + 1))),
        None => None,
    }
}

fn at_split_v(e: &Vec<char>) -> (r: Option<(Vec<char>, Vec<char>)>)
    ensures
        match r {
            Some((u, d)) => at_split(e@) == Some((u@, d@)),
            None => at_split(e@) is None,
        },
{
    let at = vec!['@'];
    assert(at@ =~= seq!['@']);
    match crate::text::find_from_v(e, &at, 0) {
        None => None,
        Some(i) => {
            let u = slice(e, 0, i);
            let d = slice(e, i + 1, e.len());
            assert(u@ =~= e@.take(i as int));
            assert(d@ =~= e@.skip(i + 1));
            Some((u, d))
        },
    }
}

/// `virtual_domains`: one enabled domain per line.
pub open spec fn domain_lines(doms: Seq<SyncDomain>, n: nat) -> Seq<Seq<char>>
    decreases n,
{
    if n == 0 { Seq::empty() } else {
        let p = domain_lines(doms, (n - 1) as nat);
        if doms[n - 1].enabled { p.push(doms[n - 1].domain@) } else { p }
    }
}

/// `virtual_mailbox_maps` rows of the accounts: `address<TAB>domain/local/`.
pub open spec fn mailbox_lines(accs: Seq<SyncAccount>, n: nat) -> Seq<Seq<char>>
    decreases n,
{
    if n == 0 { Seq::empty() } else {
        let p = mailbox_lines(accs, (n - 1) as nat);
        let a = accs[n - 1];
        if a.enabled && at_split(a.email@) is Some {
            let (u, d) = at_split(a.email@)->0;
            p.push(a.email@ + seq!['\t'] + d + seq!['/'] + u + seq!['/'])
        } else { p }
    }
}

/// `virtual_mailbox_maps` rows of the catch-alls: `@domain<TAB>target`.
pub open spec fn catch_all_lines(doms: Seq<SyncDomain>, n: nat) -> Seq<Seq<char>>
    decreases n,
{
    if n == 0 { Seq::empty() } else {
        let p = catch_all_lines(doms, (n - 1) as nat);
        let d = doms[n - 1];
        if d.catch_all matches Some(c) && c@.len() > 0 && d.enabled {
            p.push(seq!['@'] + d.domain@ + seq!['\t'] + d.catch_all->0@)
        } else { p }
    }
}

/// `virtual_alias_maps` rows of the aliases: `source<TAB>destination`.
pub open spec fn alias_lines(als: Seq<SyncAlias>, n: nat) -> Seq<Seq<char>>
    decreases n,
{
    if n == 0 { Seq::empty() } else {
        alias_lines(als, (n - 1) as nat).push(als[n - 1].source@ + seq!['\t'] + als[n - 1].destination@)
    }
}

/// `virtual_alias_maps` rows of forwarding mailboxes: `address<TAB>target`.
pub open spec fn forward_lines(accs: Seq<SyncAccount>, n: nat) -> Seq<Seq<char>>
    decreases n,
{
    if n == 0 { Seq::empty() } else {
        let p = forward_lines(accs, (n - 1) as nat);
        let a = accs[n - 1];
        if a.forward_to matches Some(f) && f@.len() > 0 && a.enabled {
            p.push(a.email@ + seq!['\t'] + a.forward_to->0@)
        } else { p }
    }
}

/// A forward that a sync honours: an enabled account with a non-empty target.
pub open spec fn forwards(a: SyncAccount) -> bool {
    a.enabled && (a.forward_to matches Some(f) && f@.len() > 0)
}

proof fn lemma_alias_lines(als: Seq<SyncAlias>, n: nat)
    requires n <= als.len(),
    ensures
        alias_lines(als, n).len() == n,
        forall|i: int| 0 <= i < n ==> #[trigger] alias_lines(als, n)[i] == als[i].source@ + seq!['\t'] + als[i].destination@,
    decreases n,
{
    if n > 0 {
        lemma_alias_lines(als, (n - 1) as nat);
    }
}

proof fn lemma_forward_lines(accs: Seq<SyncAccount>, n: nat)
    requires n <= accs.len(),
    ensures
        forall|v: int| 0 <= v < forward_lines(accs, n).len() ==> exists|k: int| 0 <= k < n && forwards(accs[k])
            && #[trigger] forward_lines(accs, n)[v] == accs[k].email@ + seq!['\t'] + accs[k].forward_to->0@,
        forall|k: int| 0 <= k < n && forwards(#[trigger] accs[k]) ==>
            forward_lines(accs, n).contains(accs[k].email@ + seq!['\t'] + accs[k].forward_to->0@),
    decreases n,
{
    if n > 0 {
        lemma_forward_lines(accs, (n - 1) as nat);
        let p = forward_lines(accs, (n - 1) as nat);
        let q = forward_lines(accs, n);
        assert forall|v: int| 0 <= v < q.len() implies exists|k: int| 0 <= k < n && forwards(accs[k])
            && #[trigger] q[v] == accs[k].email@ + seq!['\t'] + accs[k].forward_to->0@ by {
            if v < p.len() {
                assert(q[v] == p[v]);
                let k = choose|k: int| 0 <= k < n - 1 && forwards(accs[k])
                    && p[v] == accs[k].email@ + seq!['\t'] + accs[k].forward_to->0@;
                assert(0 <= k < n && forwards(accs[k]) && q[v] == accs[k].email@ + seq!['\t'] + accs[k].forward_to->0@);
            } else {
                let k = n - 1;
                assert(0 <= k < n && forwards(accs[k]) && q[v] == accs[k].email@ + seq!['\t'] + accs[k].forward_to->0@);
            }
        }
        assert forall|k: int| 0 <= k < n && forwards(#[trigger] accs[k]) implies
            q.contains(accs[k].email@ + seq!['\t'] + accs[k].forward_to->0@) by {
            let row = accs[k].email@ + seq!['\t'] + accs[k].forward_to->0@;
            if k < n - 1 {
                let v = choose|v: int| 0 <= v < p.len() && p[v] == row;
                assert(q[v] == row);
            } else {
                assert(q[p.len() as int] == row);
            }
        }
    }
}

/// `row` forwards mail of an enabled account with a non-empty target.
pub open spec fn honoured_forward(accs: Seq<SyncAccount>, row: Seq<char>) -> bool {
    exists|k: int| 0 <= k < accs.len() && #[trigger] forwards(accs[k])
        && row == accs[k].email@ + seq!['\t'] + accs[k].forward_to->0@
}

/// The rows of `virtual_alias_maps`, which `mail_tables` joins with newlines.
pub open spec fn alias_map_rows(body: SyncRequest) -> Seq<Seq<char>> {
    alias_lines(body.aliases@, body.aliases@.len()) + forward_lines(body.accounts@, body.accounts@.len())
}

/// The rows of `virtual_alias_maps`: first one `source<TAB>destination` row
/// per alias, in order; after them only forwards of enabled accounts with a
/// non-empty target — a disabled mailbox forwards nothing — and every such
/// forward.
pub proof fn law_only_enabled_mailboxes_forward(body: SyncRequest)
    ensures
        alias_map_rows(body).len() >= body.aliases@.len(),
        forall|i: int| 0 <= i < body.aliases@.len() ==> #[trigger] alias_map_rows(body)[i]
            == body.aliases@[i].source@ + seq!['\t'] + body.aliases@[i].destination@,
        forall|i: int| body.aliases@.len() <= i < alias_map_rows(body).len() ==>
            honoured_forward(body.accounts@, #[trigger] alias_map_rows(body)[i]),
        forall|k: int| 0 <= k < body.accounts@.len() && forwards(#[trigger] body.accounts@[k]) ==>
            alias_map_rows(body).contains(body.accounts@[k].email@ + seq!['\t'] + body.accounts@[k].forward_to->0@),
{
    let als = body.aliases@;
    let accs = body.accounts@;
    let al = alias_lines(als, als.len());
    let fl = forward_lines(accs, accs.len());
    lemma_alias_lines(als, als.len());
    lemma_forward_lines(accs, accs.len());
    assert forall|i: int| 0 <= i < als.len() implies #[trigger] alias_map_rows(body)[i]
        == als[i].source@ + seq!['\t'] + als[i].destination@ by {
        assert(alias_map_rows(body)[i] == al[i]);
    }
    assert forall|i: int| als.len() <= i < alias_map_rows(body).len() implies
        honoured_forward(accs, #[trigger] alias_map_rows(body)[i]) by {
        assert(alias_map_rows(body)[i] == fl[i - als.len()]);
        let k = choose|k: int| 0 <= k < accs.len() && forwards(accs[k])
            && #[trigger] fl[i - als.len()] == accs[k].email@ + seq!['\t'] + accs[k].forward_to->0@;
        assert(forwards(accs[k]));
        assert(alias_map_rows(body)[i] =~= accs[k].email@ + seq!['\t'] + accs[k].forward_to->0@);
    }
    assert forall|k: int| 0 <= k < accs.len() && forwards(#[trigger] accs[k]) implies
        alias_map_rows(body).contains(accs[k].email@ + seq!['\t'] + accs[k].forward_to->0@) by {
        let row = accs[k].email@ + seq!['\t'] + accs[k].forward_to->0@;
        let v = choose|v: int| 0 <= v < fl.len() && fl[v] == row;
        assert(alias_map_rows(body)[al.len() + v] == row);
    }
}

/// The maildir of an address: `/var/vmail/domain/local`, or
/// `/var/vmail/address` for one without `@`.
pub open spec fn maildir_of(e: Seq<char>) -> Seq<char> {
    match at_split(e) {
        Some((u, d)) => "/var/vmail/"@ + d + seq!['/'] + u,
        None => "/var/vmail/"@ + e,
    }
}

/// Dovecot passwd-file rows: `address:hash::::maildir::userdb_quota_rule=*:storage=NM`.
pub open spec fn dovecot_lines(accs: Seq<SyncAccount>, n: nat) -> Seq<Seq<char>>
    decreases n,
{
    if n == 0 { Seq::empty() } else {
        let p = dovecot_lines(accs, (n - 1) as nat);
        let a = accs[n - 1];
        if a.enabled {
            p.push(a.email@ + seq![':'] + a.password_hash@ + "::::"@ + maildir_of(a.email@)
                + "::userdb_quota_rule=*:storage="@ + crate::text::signed_decimal(a.quota_mb as int) + seq!['M'])
        } else { p }
    }
}

/// The maildirs created for the enabled accounts that have an `@`.
pub open spec fn maildir_list(accs: Seq<SyncAccount>, n: nat) -> Seq<Seq<char>>
    decreases n,
{
    if n == 0 { Seq::empty() } else {
        let p = maildir_list(accs, (n - 1) as nat);
        let a = accs[n - 1];
        if a.enabled && at_split(a.email@) is Some { p.push(maildir_of(a.email@)) } else { p }
    }
}

/// The Dovecot users row of an account.
pub open spec fn dovecot_row(a: SyncAccount) -> Seq<char> {
    a.email@ + seq![':'] + a.password_hash@ + "::::"@ + maildir_of(a.email@)
        + "::userdb_quota_rule=*:storage="@ + crate::text::signed_decimal(a.quota_mb as int) + seq!['M']
}

/// `row` is the domain of an enabled domain.
pub open spec fn enabled_domain_row(doms: Seq<SyncDomain>, row: Seq<char>) -> bool {
    exists|k: int| 0 <= k < doms.len() && #[trigger] doms[k].enabled && row == doms[k].domain@
}

/// `row` is the users-file row of an enabled account.
pub open spec fn enabled_user_row(accs: Seq<SyncAccount>, row: Seq<char>) -> bool {
    exists|k: int| 0 <= k < accs.len() && #[trigger] accs[k].enabled && row == dovecot_row(accs[k])
}

/// `row` is the mailbox-map row of an enabled account: its address, a tab,
/// and `domain/local/`.
pub open spec fn enabled_mailbox_row(accs: Seq<SyncAccount>, row: Seq<char>) -> bool {
    exists|k: int| 0 <= k < accs.len() && #[trigger] accs[k].enabled && (at_split(accs[k].email@) matches Some((u, d))
        && row == accs[k].email@ + seq!['\t'] + d + seq!['/'] + u + seq!['/'])
}

/// `row` is the catch-all of an enabled domain with a non-empty target.
pub open spec fn enabled_catch_all_row(doms: Seq<SyncDomain>, row: Seq<char>) -> bool {
    exists|k: int| 0 <= k < doms.len() && #[trigger] doms[k].enabled && (doms[k].catch_all matches Some(c)
        && c@.len() > 0 && row == seq!['@'] + doms[k].domain@ + seq!['\t'] + c@)
}

proof fn lemma_catch_all_rows(doms: Seq<SyncDomain>, n: nat)
    requires n <= doms.len(),
    ensures forall|v: int| 0 <= v < catch_all_lines(doms, n).len() ==> enabled_catch_all_row(doms, #[trigger] catch_all_lines(doms, n)[v]),
    decreases n,
{
    if n > 0 {
        lemma_catch_all_rows(doms, (n - 1) as nat);
        let p = catch_all_lines(doms, (n - 1) as nat);
        assert forall|v: int| 0 <= v < catch_all_lines(doms, n).len() implies enabled_catch_all_row(doms, #[trigger] catch_all_lines(doms, n)[v]) by {
            if v < p.len() {
                assert(catch_all_lines(doms, n)[v] == p[v]);
            } else {
                assert(doms[n - 1].enabled);
            }
        }
    }
}

proof fn lemma_domain_rows(doms: Seq<SyncDomain>, n: nat)
    requires n <= doms.len(),
    ensures forall|v: int| 0 <= v < domain_lines(doms, n).len() ==> enabled_domain_row(doms, #[trigger] domain_lines(doms, n)[v]),
    decreases n,
{
    if n > 0 {
        lemma_domain_rows(doms, (n - 1) as nat);
        let p = domain_lines(doms, (n - 1) as nat);
        assert forall|v: int| 0 <= v < domain_lines(doms, n).len() implies enabled_domain_row(doms, #[trigger] domain_lines(doms, n)[v]) by {
            if v < p.len() {
                assert(domain_lines(doms, n)[v] == p[v]);
            } else {
                assert(doms[n - 1].enabled);
            }
        }
    }
}

proof fn lemma_user_rows(accs: Seq<SyncAccount>, n: nat)
    requires n <= accs.len(),
    ensures forall|v: int| 0 <= v < dovecot_lines(accs, n).len() ==> enabled_user_row(accs, #[trigger] dovecot_lines(accs, n)[v]),
    decreases n,
{
    if n > 0 {
        lemma_user_rows(accs, (n - 1) as nat);
        let p = dovecot_lines(accs, (n - 1) as nat);
        assert forall|v: int| 0 <= v < dovecot_lines(accs, n).len() implies enabled_user_row(accs, #[trigger] dovecot_lines(accs, n)[v]) by {
            if v < p.len() {
                assert(dovecot_lines(accs, n)[v] == p[v]);
            } else {
                assert(accs[n - 1].enabled);
                assert(dovecot_lines(accs, n)[v] == dovecot_row(accs[n - 1]));
            }
        }
    }
}

proof fn lemma_mailbox_rows(accs: Seq<SyncAccount>, n: nat)
    requires n <= accs.len(),
    ensures forall|v: int| 0 <= v < mailbox_lines(accs, n).len() ==> enabled_mailbox_row(accs, #[trigger] mailbox_lines(accs, n)[v]),
    decreases n,
{
    if n > 0 {
        lemma_mailbox_rows(accs, (n - 1) as nat);
        let p = mailbox_lines(accs, (n - 1) as nat);
        assert forall|v: int| 0 <= v < mailbox_lines(accs, n).len() implies enabled_mailbox_row(accs, #[trigger] mailbox_lines(accs, n)[v]) by {
            if v < p.len() {
                assert(mailbox_lines(accs, n)[v] == p[v]);
            } else {
                assert(accs[n - 1].enabled);
            }
        }
    }
}

/// A disabled domain or mailbox contributes nothing a sync writes for it
/// (and an empty catch-all writes no catch-all row):
/// every `virtual_domains` row is an enabled domain, every users-file row
/// belongs to an enabled account, and every account row of
/// `virtual_mailbox_maps` is an enabled account's `address<TAB>domain/local/`.
pub proof fn law_only_enabled_entries_are_written(body: SyncRequest)
    ensures
        forall|v: int| 0 <= v < domain_lines(body.domains@, body.domains@.len()).len() ==>
            enabled_domain_row(body.domains@, #[trigger] domain_lines(body.domains@, body.domains@.len())[v]),
        forall|v: int| 0 <= v < dovecot_lines(body.accounts@, body.accounts@.len()).len() ==>
            enabled_user_row(body.accounts@, #[trigger] dovecot_lines(body.accounts@, body.accounts@.len())[v]),
        forall|v: int| 0 <= v < mailbox_lines(body.accounts@, body.accounts@.len()).len() ==>
            enabled_mailbox_row(body.accounts@, #[trigger] mailbox_lines(body.accounts@, body.accounts@.len())[v]),
        forall|v: int| 0 <= v < catch_all_lines(body.domains@, body.domains@.len()).len() ==>
            enabled_catch_all_row(body.domains@, #[trigger] catch_all_lines(body.domains@, body.domains@.len())[v]),
{
    lemma_catch_all_rows(body.domains@, body.domains@.len());
    lemma_domain_rows(body.domains@, body.domains@.len());
    lemma_user_rows(body.accounts@, body.accounts@.len());
    lemma_mailbox_rows(body.accounts@, body.accounts@.len());
}

/// The files a sync writes, and the maildirs it creates.
pub struct MailTables {
    pub virtual_domains: String,
    pub virtual_mailbox_maps: String,
    pub virtual_alias_maps: String,
    pub dovecot_users: String,
    pub maildirs: Vec<String>,
}

pub open spec fn nl() -> Seq<char> {
    seq!['\n']
}

fn push_row(rows: &mut Vec<Vec<char>>, row: Vec<char>)
    ensures views(final(rows)@) == views(old(rows)@).push(row@),
{
    proof { lemma_views_push(rows@, row); }
    rows.push(row);
}

fn lines_text(rows: &Vec<Vec<char>>) -> (r: String)
    ensures r@ == join(views(rows@), nl()),
{
    let n = vec!['\n'];
    assert(n@ =~= nl());
    string_of(&join_v(rows, &n))
}

fn maildir_v(e: &Vec<char>) -> (r: Vec<char>)
    ensures r@ == maildir_of(e@),
{
    let mut m = chars_of("/var/vmail/");
    match at_split_v(e) {
        Some((u, d)) => {
            append(&mut m, &d);
            m.push('/');
            append(&mut m, &u);
        },
        None => {
            append(&mut m, e);
        },
    }
    m
}

/// What a sync writes to `virtual_domains`, `virtual_mailbox_maps`,
/// `virtual_alias_maps` and Dovecot's users file, and which maildirs it
/// creates. Disabled domains and accounts contribute nothing.
pub fn mail_tables(body: &SyncRequest) -> (r: MailTables)
    ensures
        r.virtual_domains@ == join(domain_lines(body.domains@, body.domains@.len()), nl()),
        r.virtual_mailbox_maps@ == join(mailbox_lines(body.accounts@, body.accounts@.len())
            + catch_all_lines(body.domains@, body.domains@.len()), nl()),
        r.virtual_alias_maps@ == join(alias_lines(body.aliases@, body.aliases@.len())
            + forward_lines(body.accounts@, body.accounts@.len()), nl()),
        r.virtual_alias_maps@ == join(alias_map_rows(*body), nl()),
        r.dovecot_users@ == join(dovecot_lines(body.accounts@, body.accounts@.len()), nl()),
        crate::text::str_views(r.maildirs@) == maildir_list(body.accounts@, body.accounts@.len()),
{
    let accs = &body.accounts;
    let doms = &body.domains;
    let als = &body.aliases;
    // domains and catch-alls
    let mut dl: Vec<Vec<char>> = Vec::new();
    let mut cl: Vec<Vec<char>> = Vec::new();
    let mut i: usize = 0;
    while i < doms.len()
        invariant
            i <= doms.len(),
            views(dl@) == domain_lines(doms@, i as nat),
            views(cl@) == catch_all_lines(doms@, i as nat),
        decreases doms.len() - i,
    {
        let d = &doms[i];
        if d.enabled {
            push_row(&mut dl, chars_of(d.domain.as_str()));
        }
        match &d.catch_all {
            Some(c) => {
                let cv = chars_of(c.as_str());
                if cv.len() > 0 && d.enabled {
                    let mut row = vec!['@'];
                    append(&mut row, &chars_of(d.domain.as_str()));
                    row.push('\t');
                    append(&mut row, &cv);
                    assert(row@ =~= seq!['@'] + d.domain@ + seq!['\t'] + d.catch_all->0@);
                    push_row(&mut cl, row);
                }
            },
            None => {},
        }
        i += 1;
    }
    // accounts
    let mut ml: Vec<Vec<char>> = Vec::new();
    let mut fl: Vec<Vec<char>> = Vec::new();
    let mut ul: Vec<Vec<char>> = Vec::new();
    let mut dirs: Vec<String> = Vec::new();
    let mut k: usize = 0;
    while k < accs.len()
        invariant
            k <= accs.len(),
            views(ml@) == mailbox_lines(accs@, k as nat),
            views(fl@) == forward_lines(accs@, k as nat),
            views(ul@) == dovecot_lines(accs@, k as nat),
            crate::text::str_views(dirs@) == maildir_list(accs@, k as nat),
        decreases accs.len() - k,
    {
        let a = &accs[k];
        let e = chars_of(a.email.as_str());
        if a.enabled {
            match at_split_v(&e) {
                Some((u, d)) => {
                    let mut row = e.clone();
                    row.push('\t');
                    append(&mut row, &d);
                    row.push('/');
                    append(&mut row, &u);
                    row.push('/');
                    assert(row@ =~= a.email@ + seq!['\t'] + d@ + seq!['/'] + u@ + seq!['/']);
                    push_row(&mut ml, row);
                    let md = maildir_v(&e);
                    let ghost before = dirs@;
                    dirs.push(string_of(&md));
                    assert(crate::text::str_views(dirs@) =~= crate::text::str_views(before).push(maildir_of(a.email@)));
                },
                None => {},
            }
            let mut urow = e.clone();
            urow.push(':');
            append(&mut urow, &chars_of(a.password_hash.as_str()));
            append(&mut urow, &chars_of("::::"));
            append(&mut urow, &maildir_v(&e));
            append(&mut urow, &chars_of("::userdb_quota_rule=*:storage="));
            append(&mut urow, &crate::text::signed_decimal_v(a.quota_mb as i64));
            urow.push('M');
            assert(urow@ =~= a.email@ + seq![':'] + a.password_hash@ + "::::"@ + maildir_of(a.email@)
                + "::userdb_quota_rule=*:storage="@ + crate::text::signed_decimal(a.quota_mb as int) + seq!['M']);
            push_row(&mut ul, urow);
        }
        match &a.forward_to {
            Some(f) => {
                let fv = chars_of(f.as_str());
                if fv.len() > 0 && a.enabled {
                    let mut row = e.clone();
                    row.push('\t');
                    append(&mut row, &fv);
                    assert(row@ =~= a.email@ + seq!['\t'] + a.forward_to->0@);
                    push_row(&mut fl, row);
                }
            },
            None => {},
        }
        k += 1;
    }
    // aliases
    let mut al: Vec<Vec<char>> = Vec::new();
    let mut j: usize = 0;
    while j < als.len()
        invariant
            j <= als.len(),
            views(al@) == alias_lines(als@, j as nat),
        decreases als.len() - j,
    {
        let mut row = chars_of(als[j].source.as_str());
        row.push('\t');
        append(&mut row, &chars_of(als[j].destination.as_str()));
        assert(row@ =~= als@[j as int].source@ + seq!['\t'] + als@[j as int].destination@);
        push_row(&mut al, row);
        j += 1;
    }
    let mut mailbox_all = ml;
    let mut c: usize = 0;
    let ghost ml_v = views(mailbox_all@);
    while c < cl.len()
        invariant
            c <= cl.len(),
            views(mailbox_all@) == ml_v + views(cl@).take(c as int),
        decreases cl.len() - c,
    {
        push_row(&mut mailbox_all, cl[c].clone());
        c += 1;
        assert(views(mailbox_all@) =~= ml_v + views(cl@).take(c as int));
    }
    assert(views(cl@).take(cl.len() as int) =~= views(cl@));
    let mut alias_all = al;
    let ghost al_v = views(alias_all@);
    let mut f: usize = 0;
    while f < fl.len()
        invariant
            f <= fl.len(),
            views(alias_all@) == al_v + views(fl@).take(f as int),
        decreases fl.len() - f,
    {
        push_row(&mut alias_all, fl[f].clone());
        f += 1;
        assert(views(alias_all@) =~= al_v + views(fl@).take(f as int));
    }
    assert(views(fl@).take(fl.len() as int) =~= views(fl@));
    MailTables {
        virtual_domains: lines_text(&dl),
        virtual_mailbox_maps: lines_text(&mailbox_all),
        virtual_alias_maps: lines_text(&alias_all),
        dovecot_users: lines_text(&ul),
        maildirs: dirs,
    }
}

// ── the sender-login allow-list ─────────────────────────────────────────

/// The owner of a hosted domain that holds no enabled mailbox: a token with
/// no `@`, which no login on the box can equal.
pub const NO_AUTHORISED_SENDER: &'static str = "dockpanel-no-authorised-sender";

pub open spec fn no_sender() -> Seq<char> {
    NO_AUTHORISED_SENDER@
}

/// One row of the table: the address or `@domain` key, and its owners.
pub type SenderEntry = (Seq<char>, Seq<Seq<char>>);

/// The emails of the first `n` accounts that are enabled and end with
/// `suffix`, in order.
pub open spec fn enabled_emails_at(accs: Seq<SyncAccount>, suffix: Seq<char>, n: nat) -> Seq<Seq<char>>
    decreases n,
{
    if n == 0 {
        Seq::empty()
    } else {
        let p = enabled_emails_at(accs, suffix, (n - 1) as nat);
        let a = accs[n - 1];
        if a.enabled && suffix.is_suffix_of(a.email@) { p.push(a.email@) } else { p }
    }
}

/// The owners of domain `d`: its enabled mailboxes, or the unmatchable
/// token when it has none.
pub open spec fn domain_owners(accs: Seq<SyncAccount>, d: Seq<char>) -> Seq<Seq<char>> {
    let o = enabled_emails_at(accs, seq!['@'] + d, accs.len());
    if o.len() == 0 { seq![no_sender()] } else { o }
}

/// One row per enabled mailbox, owned by itself.
pub open spec fn account_entries(accs: Seq<SyncAccount>, n: nat) -> Seq<SenderEntry>
    decreases n,
{
    if n == 0 {
        Seq::empty()
    } else {
        let p = account_entries(accs, (n - 1) as nat);
        let a = accs[n - 1];
        if a.enabled { p.push((a.email@, seq![a.email@])) } else { p }
    }
}

/// The `@domain` row of a domain.
pub open spec fn dom_entry(accs: Seq<SyncAccount>, d: SyncDomain) -> SenderEntry {
    (seq!['@'] + d.domain@, domain_owners(accs, d.domain@))
}

/// One `@domain` row per enabled domain, owned by that domain's mailboxes.
pub open spec fn domain_entries(doms: Seq<SyncDomain>, accs: Seq<SyncAccount>, n: nat) -> Seq<SenderEntry>
    decreases n,
{
    if n == 0 {
        Seq::empty()
    } else {
        let p = domain_entries(doms, accs, (n - 1) as nat);
        let d = doms[n - 1];
        if d.enabled { p.push(dom_entry(accs, d)) } else { p }
    }
}

/// The sender-login table: mailbox rows first, then domain rows.
pub open spec fn sender_table(body: SyncRequest) -> Seq<SenderEntry> {
    account_entries(body.accounts@, body.accounts@.len()) + domain_entries(body.domains@, body.accounts@, body.domains@.len())
}

/// A row as written: `key<TAB>owner,owner,...`.
pub open spec fn render_entry(e: SenderEntry) -> Seq<char> {
    e.0 + seq!['\t'] + join(e.1, seq![','])
}

pub open spec fn sender_map_text(body: SyncRequest) -> Seq<char> {
    let t = sender_table(body);
    join(Seq::new(t.len(), |i: int| render_entry(t[i])), seq!['\n'])
}

/// The owners of the first row whose key is `key`, as a table lookup finds it.
pub open spec fn owners_for(t: Seq<SenderEntry>, key: Seq<char>) -> Option<Seq<Seq<char>>>
    decreases t.len(),
{
    if t.len() == 0 {
        None
    } else if t[0].0 == key {
        Some(t[0].1)
    } else {
        owners_for(t.drop_first(), key)
    }
}

/// What follows the first `@` of an address.
pub open spec fn domain_part(s: Seq<char>) -> Option<Seq<char>> {
    match crate::text::find(s, seq!['@']) {
        Some(i) => Some(s.skip(i + 1)),
        None => None,
    }
}

/// The owners of an envelope sender, looked up as Postfix does: the full
/// address first, then `@domain`.
pub open spec fn sender_owners(t: Seq<SenderEntry>, sender: Seq<char>) -> Option<Seq<Seq<char>>> {
    match owners_for(t, sender) {
        Some(o) => Some(o),
        None => match domain_part(sender) {
            Some(d) => owners_for(t, seq!['@'] + d),
            None => None,
        },
    }
}

/// Whether an authenticated `login` may use `sender` as envelope sender: an
/// address the table does not list is refused.
pub open spec fn may_send_as(t: Seq<SenderEntry>, login: Seq<char>, sender: Seq<char>) -> bool {
    sender_owners(t, sender) matches Some(o) && o.contains(login)
}

fn push_entry(rows: &mut Vec<Vec<char>>, key: Vec<char>, owners: &Vec<Vec<char>>, Ghost(t): Ghost<Seq<SenderEntry>>)
    requires views(old(rows)@) == Seq::new(t.len(), |i: int| render_entry(t[i])),
    ensures
        views(final(rows)@) == Seq::new(t.len() + 1, |i: int| render_entry(t.push((key@, views(owners@)))[i])),
{
    let mut row = key;
    row.push('\t');
    let comma = vec![','];
    assert(comma@ =~= seq![',']);
    let o = join_v(owners, &comma);
    append(&mut row, &o);
    let ghost before = rows@;
    let ghost e = (key@, views(owners@));
    assert(row@ =~= render_entry(e));
    let ghost rv = row;
    rows.push(row);
    assert(rows@ == before.push(rv));
    assert(views(before).len() == t.len());
    assert forall|i: int| 0 <= i < t.len() + 1 implies #[trigger] views(rows@)[i] == render_entry(t.push(e)[i]) by {
        if i < t.len() {
            assert(rows@[i] == before[i]);
            assert(views(before)[i] == render_entry(t[i]));
            assert(t.push(e)[i] == t[i]);
        } else {
            assert(rows@[i] == rv);
        }
    }
    assert(views(rows@) =~= Seq::new(t.len() + 1, |i: int| render_entry(t.push(e)[i])));
}

/// Build the Postfix `smtpd_sender_login_maps` table: which SASL login may
/// use which envelope sender. Every enabled mailbox is owned by itself; each
/// enabled domain is owned by its own enabled mailboxes, or by nobody.
pub fn build_sender_login_map(body: &SyncRequest) -> (r: String)
    ensures r@ == sender_map_text(*body),
{
    let accs = &body.accounts;
    let doms = &body.domains;
    let mut rows: Vec<Vec<char>> = Vec::new();
    let ghost mut t: Seq<SenderEntry> = Seq::empty();
    let mut i: usize = 0;
    while i < accs.len()
        invariant
            i <= accs.len(),
            t == account_entries(accs@, i as nat),
            views(rows@) == Seq::new(t.len(), |k: int| render_entry(t[k])),
        decreases accs.len() - i,
    {
        if accs[i].enabled {
            let e = chars_of(accs[i].email.as_str());
            let mut owners: Vec<Vec<char>> = Vec::new();
            owners.push(e.clone());
            assert(views(owners@) =~= seq![e@]);
            push_entry(&mut rows, e, &owners, Ghost(t));
            proof { t = t.push((accs@[i as int].email@, seq![accs@[i as int].email@])); }
        }
        i += 1;
    }
    let ghost acc_t = t;
    let mut j: usize = 0;
    while j < doms.len()
        invariant
            j <= doms.len(),
            acc_t == account_entries(accs@, accs@.len()),
            t == acc_t + domain_entries(doms@, accs@, j as nat),
            views(rows@) == Seq::new(t.len(), |k: int| render_entry(t[k])),
        decreases doms.len() - j,
    {
        if doms[j].enabled {
            let d = chars_of(doms[j].domain.as_str());
            let mut suffix = vec!['@'];
            append(&mut suffix, &d);
            let mut owners: Vec<Vec<char>> = Vec::new();
            let mut k: usize = 0;
            while k < accs.len()
                invariant
                    k <= accs.len(),
                    suffix@ == seq!['@'] + d@,
                    views(owners@) == enabled_emails_at(accs@, suffix@, k as nat),
                decreases accs.len() - k,
            {
                if accs[k].enabled {
                    let e = chars_of(accs[k].email.as_str());
                    if ends_with_v(&e, &suffix) {
                        proof { lemma_views_push(owners@, e); }
                        owners.push(e);
                    }
                }
                k += 1;
            }
            if owners.len() == 0 {
                owners.push(chars_of(NO_AUTHORISED_SENDER));
                assert(views(owners@) =~= seq![no_sender()]);
            }
            let ghost entry = (suffix@, views(owners@));
            assert(entry == (seq!['@'] + doms@[j as int].domain@, domain_owners(accs@, doms@[j as int].domain@)));
            push_entry(&mut rows, suffix, &owners, Ghost(t));
            proof {
                assert(acc_t + domain_entries(doms@, accs@, (j + 1) as nat) =~= t.push(entry));
                t = t.push(entry);
            }
        }
        j += 1;
    }
    let nl = vec!['\n'];
    assert(nl@ =~= seq!['\n']);
    let text = join_v(&rows, &nl);
    assert(t == sender_table(*body));
    string_of(&text)
}

// ── laws of the allow-list ──────────────────────────────────────────────

proof fn lemma_owners_for(t: Seq<SenderEntry>, key: Seq<char>)
    ensures
        owners_for(t, key) matches Some(o) ==> exists|i: int| 0 <= i < t.len() && t[i].0 == key && t[i].1 == o,
        owners_for(t, key) is None <==> forall|i: int| 0 <= i < t.len() ==> (#[trigger] t[i]).0 != key,
    decreases t.len(),
{
    if t.len() > 0 && t[0].0 != key {
        lemma_owners_for(t.drop_first(), key);
        if owners_for(t.drop_first(), key) is Some {
            let o = owners_for(t.drop_first(), key)->0;
            let i = choose|i: int| 0 <= i < t.drop_first().len() && t.drop_first()[i].0 == key && t.drop_first()[i].1 == o;
            assert(t[i + 1] == t.drop_first()[i]);
        }
        assert forall|i: int| 0 <= i < t.len() && (forall|j: int| 0 <= j < t.drop_first().len() ==> (#[trigger] t.drop_first()[j]).0 != key)
            implies (#[trigger] t[i]).0 != key by {
            if i > 0 {
                assert(t[i] == t.drop_first()[i - 1]);
            }
        }
        assert forall|j: int| 0 <= j < t.drop_first().len() && (forall|i: int| 0 <= i < t.len() ==> (#[trigger] t[i]).0 != key)
            implies (#[trigger] t.drop_first()[j]).0 != key by {
            assert(t.drop_first()[j] == t[j + 1]);
        }
    }
}

proof fn lemma_owners_for_concat(t1: Seq<SenderEntry>, t2: Seq<SenderEntry>, key: Seq<char>)
    ensures
        owners_for(t1 + t2, key) == (match owners_for(t1, key) {
            Some(o) => Some(o),
            None => owners_for(t2, key),
        }),
    decreases t1.len(),
{
    if t1.len() == 0 {
        assert(t1 + t2 =~= t2);
    } else {
        assert((t1 + t2)[0] == t1[0]);
        assert((t1 + t2).drop_first() =~= t1.drop_first() + t2);
        lemma_owners_for_concat(t1.drop_first(), t2, key);
    }
}

#[verifier::spinoff_prover]
proof fn lemma_enabled_emails(accs: Seq<SyncAccount>, suffix: Seq<char>, n: nat)
    requires n <= accs.len(),
    ensures
        forall|i: int| 0 <= i < enabled_emails_at(accs, suffix, n).len() ==>
            exists|k: int| 0 <= k < n && accs[k].enabled && suffix.is_suffix_of(accs[k].email@)
                && #[trigger] enabled_emails_at(accs, suffix, n)[i] == accs[k].email@,
        forall|k: int| 0 <= k < n && accs[k].enabled && suffix.is_suffix_of(accs[k].email@) ==>
            enabled_emails_at(accs, suffix, n).contains(#[trigger] accs[k].email@),
    decreases n,
{
    if n > 0 {
        lemma_enabled_emails(accs, suffix, (n - 1) as nat);
        let p = enabled_emails_at(accs, suffix, (n - 1) as nat);
        let q = enabled_emails_at(accs, suffix, n);
        assert forall|i: int| 0 <= i < q.len() implies
            exists|k: int| 0 <= k < n && accs[k].enabled && suffix.is_suffix_of(accs[k].email@)
                && #[trigger] q[i] == accs[k].email@ by {
            if i < p.len() {
                assert(q[i] == p[i]);
            } else {
                assert(q[i] == accs[n - 1].email@);
            }
        }
        assert forall|k: int| 0 <= k < n && accs[k].enabled && suffix.is_suffix_of(accs[k].email@) implies
            q.contains(#[trigger] accs[k].email@) by {
            if k < n - 1 {
                let w = choose|w: int| 0 <= w < p.len() && p[w] == accs[k].email@;
                assert(q[w] == p[w]);
            } else {
                assert(q[p.len() as int] == accs[k].email@);
            }
        }
    }
}

proof fn lemma_account_entries(accs: Seq<SyncAccount>, n: nat)
    requires n <= accs.len(),
    ensures
        forall|i: int| 0 <= i < account_entries(accs, n).len() ==>
            (#[trigger] account_entries(accs, n)[i]).1 == seq![account_entries(accs, n)[i].0]
            && exists|k: int| 0 <= k < n && accs[k].enabled && accs[k].email@ == account_entries(accs, n)[i].0,
        forall|k: int| 0 <= k < n && (#[trigger] accs[k]).enabled ==>
            exists|i: int| 0 <= i < account_entries(accs, n).len() && account_entries(accs, n)[i].0 == accs[k].email@,
    decreases n,
{
    if n > 0 {
        lemma_account_entries(accs, (n - 1) as nat);
        let p = account_entries(accs, (n - 1) as nat);
        let q = account_entries(accs, n);
        assert forall|i: int| 0 <= i < q.len() implies
            (#[trigger] q[i]).1 == seq![q[i].0]
            && exists|k: int| 0 <= k < n && accs[k].enabled && accs[k].email@ == q[i].0 by {
            if i < p.len() {
                assert(q[i] == p[i]);
            } else {
                assert(q[i] == (accs[n - 1].email@, seq![accs[n - 1].email@]));
            }
        }
        assert forall|k: int| 0 <= k < n && (#[trigger] accs[k]).enabled implies
            exists|i: int| 0 <= i < q.len() && q[i].0 == accs[k].email@ by {
            if k < n - 1 {
                let w = choose|w: int| 0 <= w < p.len() && p[w].0 == accs[k].email@;
                assert(q[w] == p[w]);
            } else {
                assert(q[p.len() as int].0 == accs[k].email@);
            }
        }
    }
}

/// The index of the domain the `i`-th domain row was written for.
pub open spec fn dom_origin(doms: Seq<SyncDomain>, accs: Seq<SyncAccount>, n: nat, i: int) -> int
    decreases n,
{
    if n == 0 {
        0
    } else if doms[n - 1].enabled && i == domain_entries(doms, accs, (n - 1) as nat).len() {
        n - 1
    } else {
        dom_origin(doms, accs, (n - 1) as nat, i)
    }
}

/// The `i`-th domain row was written for an enabled domain, the one
/// `dom_origin` names.
pub open spec fn dom_origin_ok(doms: Seq<SyncDomain>, accs: Seq<SyncAccount>, n: nat, i: int) -> bool {
    let k = dom_origin(doms, accs, n, i);
    0 <= k && k < n && doms[k].enabled && domain_entries(doms, accs, n)[i] == dom_entry(accs, doms[k])
}

proof fn lemma_domain_entry_at(doms: Seq<SyncDomain>, accs: Seq<SyncAccount>, n: nat, i: int)
    requires n <= doms.len(), 0 <= i < domain_entries(doms, accs, n).len(),
    ensures dom_origin_ok(doms, accs, n, i),
    decreases n,
{
    let p = domain_entries(doms, accs, (n - 1) as nat);
    if i < p.len() {
        lemma_domain_entry_at(doms, accs, (n - 1) as nat, i);
    }
}

proof fn lemma_domain_entries(doms: Seq<SyncDomain>, accs: Seq<SyncAccount>, n: nat)
    requires n <= doms.len(),
    ensures
        forall|i: int| 0 <= i < domain_entries(doms, accs, n).len() ==> #[trigger] dom_origin_ok(doms, accs, n, i),
        forall|k: int| #![trigger doms[k]] 0 <= k < n && doms[k].enabled ==>
            exists|i: int| #![trigger domain_entries(doms, accs, n)[i]] 0 <= i < domain_entries(doms, accs, n).len()
                && domain_entries(doms, accs, n)[i] == dom_entry(accs, doms[k]),
{
    assert forall|i: int| 0 <= i < domain_entries(doms, accs, n).len() implies #[trigger] dom_origin_ok(doms, accs, n, i) by {
        lemma_domain_entry_at(doms, accs, n, i);
    }
    lemma_domain_entries_cover(doms, accs, n);
}

proof fn lemma_domain_entries_cover(doms: Seq<SyncDomain>, accs: Seq<SyncAccount>, n: nat)
    requires n <= doms.len(),
    ensures
        forall|k: int| #![trigger doms[k]] 0 <= k < n && doms[k].enabled ==>
            exists|i: int| #![trigger domain_entries(doms, accs, n)[i]] 0 <= i < domain_entries(doms, accs, n).len()
                && domain_entries(doms, accs, n)[i] == dom_entry(accs, doms[k]),
    decreases n,
{
    if n > 0 {
        lemma_domain_entries_cover(doms, accs, (n - 1) as nat);
        let p = domain_entries(doms, accs, (n - 1) as nat);
        let q = domain_entries(doms, accs, n);
        assert forall|k: int| #![trigger doms[k]] 0 <= k < n && doms[k].enabled implies
            exists|i: int| #![trigger q[i]] 0 <= i < q.len() && q[i] == dom_entry(accs, doms[k]) by {
            if k < n - 1 {
                let w = choose|w: int| #![trigger p[w]] 0 <= w < p.len() && p[w] == dom_entry(accs, doms[k]);
                assert(q[w] == p[w]);
            } else {
                assert(q[p.len() as int] == dom_entry(accs, doms[k]));
            }
        }
    }
}

/// Every owner in the table is an enabled mailbox, or the unmatchable token.
proof fn lemma_owner_is_mailbox(body: SyncRequest, key: Seq<char>, login: Seq<char>)
    requires owners_for(sender_table(body), key) matches Some(o) && o.contains(login),
    ensures
        login == no_sender() || exists|k: int| 0 <= k < body.accounts@.len() && body.accounts@[k].enabled
            && (#[trigger] body.accounts@[k]).email@ == login,
{
    let accs = body.accounts@;
    let doms = body.domains@;
    let ae = account_entries(accs, accs.len());
    let de = domain_entries(doms, accs, doms.len());
    lemma_owners_for_concat(ae, de, key);
    lemma_account_entries(accs, accs.len());
    lemma_domain_entries(doms, accs, doms.len());
    let o = owners_for(sender_table(body), key)->0;
    if owners_for(ae, key) is Some {
        lemma_owners_for(ae, key);
        let i = choose|i: int| 0 <= i < ae.len() && ae[i].0 == key && ae[i].1 == o;
        assert(ae[i].1 == seq![ae[i].0]);
        assert(o.contains(login));
        let w = choose|w: int| 0 <= w < o.len() && o[w] == login;
        assert(login == key);
    } else {
        lemma_owners_for(de, key);
        let i = choose|i: int| 0 <= i < de.len() && de[i].0 == key && de[i].1 == o;
        assert(dom_origin_ok(doms, accs, doms.len(), i));
        let k = dom_origin(doms, accs, doms.len(), i);
        assert(de[i] == dom_entry(accs, doms[k]));
        let em = enabled_emails_at(accs, seq!['@'] + doms[k].domain@, accs.len());
        lemma_enabled_emails(accs, seq!['@'] + doms[k].domain@, accs.len());
        let w = choose|w: int| 0 <= w < o.len() && o[w] == login;
        if em.len() > 0 {
            assert(em[w] == login);
        }
    }
}

/// An enabled mailbox may send as itself.
pub proof fn law_mailbox_sends_as_itself(body: SyncRequest, k: int)
    requires 0 <= k < body.accounts@.len(), body.accounts@[k].enabled,
    ensures may_send_as(sender_table(body), body.accounts@[k].email@, body.accounts@[k].email@),
{
    let accs = body.accounts@;
    let ae = account_entries(accs, accs.len());
    let de = domain_entries(body.domains@, accs, body.domains@.len());
    let e = accs[k].email@;
    lemma_account_entries(accs, accs.len());
    assert(accs[k].enabled);
    lemma_owners_for(ae, e);
    lemma_owners_for_concat(ae, de, e);
    let o = owners_for(ae, e)->0;
    let i = choose|i: int| 0 <= i < ae.len() && ae[i].0 == e && ae[i].1 == o;
    assert(o == seq![e]);
    assert(o[0] == e);
}

proof fn lemma_at_inj(x: Seq<char>, y: Seq<char>)
    requires seq!['@'] + x == seq!['@'] + y,
    ensures x == y,
{
    assert(x =~= (seq!['@'] + x).skip(1));
    assert(y =~= (seq!['@'] + y).skip(1));
}

proof fn lemma_domain_part_of_key(d: Seq<char>)
    ensures domain_part(seq!['@'] + d) == Some(d),
{
    let s = seq!['@'] + d;
    assert(crate::text::occurs_at(s, seq!['@'], 0)) by {
        assert(s.subrange(0, 1) =~= seq!['@']);
    }
    crate::text::lemma_find_from(s, seq!['@'], 0);
    assert(s.skip(1) =~= d);
}

/// Where an owner list in the table comes from: a mailbox row keyed by the
/// mailbox itself, or the row of an enabled domain.
proof fn lemma_row_origin(body: SyncRequest, key: Seq<char>)
    requires owners_for(sender_table(body), key) is Some,
    ensures
        (owners_for(sender_table(body), key) == Some(seq![key])
            && exists|k: int| 0 <= k < body.accounts@.len() && body.accounts@[k].enabled
                && (#[trigger] body.accounts@[k]).email@ == key)
        || (exists|k: int| 0 <= k < body.domains@.len() && (#[trigger] body.domains@[k]).enabled
            && key == seq!['@'] + body.domains@[k].domain@
            && owners_for(sender_table(body), key) == Some(domain_owners(body.accounts@, body.domains@[k].domain@))),
{
    let accs = body.accounts@;
    let doms = body.domains@;
    let ae = account_entries(accs, accs.len());
    let de = domain_entries(doms, accs, doms.len());
    lemma_owners_for_concat(ae, de, key);
    lemma_account_entries(accs, accs.len());
    lemma_domain_entries(doms, accs, doms.len());
    if owners_for(ae, key) is Some {
        lemma_owners_for(ae, key);
        let o = owners_for(ae, key)->0;
        let i = choose|i: int| 0 <= i < ae.len() && ae[i].0 == key && ae[i].1 == o;
        assert(ae[i].1 == seq![ae[i].0]);
    } else {
        lemma_owners_for(de, key);
        let o = owners_for(de, key)->0;
        let i = choose|i: int| 0 <= i < de.len() && de[i].0 == key && de[i].1 == o;
        assert(dom_origin_ok(doms, accs, doms.len(), i));
        let k = dom_origin(doms, accs, doms.len(), i);
        assert(de[i] == dom_entry(accs, doms[k]));
        assert(key == seq!['@'] + doms[k].domain@);
    }
}

/// The key under which a sender's owners were found.
pub open spec fn found_key(t: Seq<SenderEntry>, sender: Seq<char>) -> Seq<char> {
    if owners_for(t, sender) is Some { sender } else { seq!['@'] + domain_part(sender)->0 }
}

proof fn lemma_found_key(t: Seq<SenderEntry>, sender: Seq<char>)
    requires sender_owners(t, sender) is Some,
    ensures
        owners_for(t, found_key(t, sender)) == sender_owners(t, sender),
        found_key(t, sender) == sender || (domain_part(sender) matches Some(d) && found_key(t, sender) == seq!['@'] + d),
{
}

/// Tenants are separated by domain: a login may use an envelope sender only
/// when it is that very address, or a mailbox at the sender's own domain.
/// (Every login is a full address, so it contains `@`.)
pub proof fn law_no_sending_across_domains(body: SyncRequest, login: Seq<char>, sender: Seq<char>)
    requires
        login.contains('@'),
        may_send_as(sender_table(body), login, sender),
    ensures
        login == sender || (domain_part(sender) matches Some(d) && (seq!['@'] + d).is_suffix_of(login)),
{
    reveal_strlit("dockpanel-no-authorised-sender");
    let t = sender_table(body);
    assert(!no_sender().contains('@'));
    assert(login != no_sender());
    lemma_found_key(t, sender);
    let key = found_key(t, sender);
    let o = owners_for(t, key)->0;
    lemma_row_origin(body, key);
    let w = choose|w: int| 0 <= w < o.len() && o[w] == login;
    if o == seq![key] {
        assert(login == key);
        if key != sender {
            assert((seq!['@'] + domain_part(sender)->0).is_suffix_of(login));
        }
    } else {
        let accs = body.accounts@;
        let doms = body.domains@;
        let k = choose|k: int| 0 <= k < doms.len() && (#[trigger] doms[k]).enabled
            && key == seq!['@'] + doms[k].domain@
            && owners_for(t, key) == Some(domain_owners(accs, doms[k].domain@));
        let d = doms[k].domain@;
        let em = enabled_emails_at(accs, seq!['@'] + d, accs.len());
        lemma_enabled_emails(accs, seq!['@'] + d, accs.len());
        assert(em.len() > 0);
        assert(em[w] == login);
        assert((seq!['@'] + d).is_suffix_of(login));
        if key == sender {
            lemma_domain_part_of_key(d);
        } else {
            lemma_at_inj(domain_part(sender)->0, d);
        }
    }
}

/// A login that is no enabled mailbox — a disabled one, say — may send as
/// nobody.
pub proof fn law_unknown_login_owns_nothing(body: SyncRequest, login: Seq<char>, sender: Seq<char>)
    requires
        login.contains('@'),
        forall|k: int| 0 <= k < body.accounts@.len() && (#[trigger] body.accounts@[k]).enabled ==>
            body.accounts@[k].email@ != login,
    ensures !may_send_as(sender_table(body), login, sender),
{
    reveal_strlit("dockpanel-no-authorised-sender");
    assert(!no_sender().contains('@'));
    let t = sender_table(body);
    if may_send_as(t, login, sender) {
        lemma_found_key(t, sender);
        lemma_owner_is_mailbox(body, found_key(t, sender), login);
    }
}

/// An envelope sender the table does not list has no owner, so it is
/// refused: a listed one is a mailbox (or has a mailbox named after its
/// `@domain` key), or sits at an enabled domain.
pub proof fn law_only_listed_senders(body: SyncRequest, sender: Seq<char>)
    requires sender_owners(sender_table(body), sender) is Some,
    ensures
        (exists|k: int| 0 <= k < body.accounts@.len() && body.accounts@[k].enabled
            && ((#[trigger] body.accounts@[k]).email@ == sender
                || (domain_part(sender) matches Some(d) && body.accounts@[k].email@ == seq!['@'] + d)))
        || (exists|k: int| 0 <= k < body.domains@.len() && (#[trigger] body.domains@[k]).enabled
            && (seq!['@'] + body.domains@[k].domain@ == sender || domain_part(sender) == Some(body.domains@[k].domain@))),
{
    let t = sender_table(body);
    lemma_found_key(t, sender);
    let key = found_key(t, sender);
    lemma_row_origin(body, key);
    let doms = body.domains@;
    if exists|k: int| 0 <= k < doms.len() && (#[trigger] doms[k]).enabled && key == seq!['@'] + doms[k].domain@ {
        let k = choose|k: int| 0 <= k < doms.len() && (#[trigger] doms[k]).enabled && key == seq!['@'] + doms[k].domain@;
        if key != sender {
            lemma_at_inj(domain_part(sender)->0, doms[k].domain@);
        }
    }
}

/// Mailboxes of one domain may send as any address at that domain that is
/// not itself a mailbox: the bound is per domain, not per mailbox. It holds
/// unless a mailbox is named exactly `@domain`, whose row then answers for
/// the domain.
pub proof fn law_same_domain_mailboxes(body: SyncRequest, j: int, k: int, sender: Seq<char>)
    requires
        0 <= j < body.domains@.len(),
        body.domains@[j].enabled,
        0 <= k < body.accounts@.len(),
        body.accounts@[k].enabled,
        (seq!['@'] + body.domains@[j].domain@).is_suffix_of(body.accounts@[k].email@),
        domain_part(sender) == Some(body.domains@[j].domain@),
        forall|a: int| 0 <= a < body.accounts@.len() && (#[trigger] body.accounts@[a]).enabled ==>
            body.accounts@[a].email@ != sender && body.accounts@[a].email@ != seq!['@'] + body.domains@[j].domain@,
        forall|b: int| 0 <= b < body.domains@.len() && (#[trigger] body.domains@[b]).enabled ==>
            seq!['@'] + body.domains@[b].domain@ != sender,
    ensures may_send_as(sender_table(body), body.accounts@[k].email@, sender),
{
    let t = sender_table(body);
    let accs = body.accounts@;
    let d = body.domains@[j].domain@;
    let key = seq!['@'] + d;
    if owners_for(t, sender) is Some {
        lemma_row_origin(body, sender);
        if exists|a: int| 0 <= a < accs.len() && accs[a].enabled && (#[trigger] accs[a]).email@ == sender {
            let a = choose|a: int| 0 <= a < accs.len() && accs[a].enabled && (#[trigger] accs[a]).email@ == sender;
            assert(body.accounts@[a].enabled);
        } else {
            let b = choose|b: int| 0 <= b < body.domains@.len() && (#[trigger] body.domains@[b]).enabled
                && sender == seq!['@'] + body.domains@[b].domain@;
        }
        assert(false);
    }
    lemma_domain_owners_listed(body, j);
    lemma_row_origin(body, key);
    if exists|a: int| 0 <= a < accs.len() && accs[a].enabled && (#[trigger] accs[a]).email@ == key {
        let a = choose|a: int| 0 <= a < accs.len() && accs[a].enabled && (#[trigger] accs[a]).email@ == key;
        assert(body.accounts@[a].enabled);
        assert(false);
    }
    let b = choose|b: int| 0 <= b < body.domains@.len() && (#[trigger] body.domains@[b]).enabled
        && key == seq!['@'] + body.domains@[b].domain@
        && owners_for(t, key) == Some(domain_owners(accs, body.domains@[b].domain@));
    lemma_at_inj(d, body.domains@[b].domain@);
    lemma_enabled_emails(accs, key, accs.len());
    assert(enabled_emails_at(accs, key, accs.len()).contains(accs[k].email@));
}

/// An enabled domain's key is in the table.
proof fn lemma_domain_owners_listed(body: SyncRequest, j: int)
    requires 0 <= j < body.domains@.len(), body.domains@[j].enabled,
    ensures owners_for(sender_table(body), seq!['@'] + body.domains@[j].domain@) is Some,
{
    let accs = body.accounts@;
    let doms = body.domains@;
    let ae = account_entries(accs, accs.len());
    let de = domain_entries(doms, accs, doms.len());
    let key = seq!['@'] + doms[j].domain@;
    lemma_domain_entries(doms, accs, doms.len());
    lemma_owners_for_concat(ae, de, key);
    lemma_owners_for(de, key);
    assert(doms[j].enabled);
    let w = choose|w: int| #![trigger de[w]] 0 <= w < de.len() && de[w] == dom_entry(accs, doms[j]);
    assert(de[w].0 == key);
}

/// Everything a sync writes: the map files and maildirs, and the sender
/// login map.
pub struct MailSyncPlan {
    pub tables: MailTables,
    pub sender_login_map: String,
}

/// A sync, decided before anything is touched: a payload that fails a check
/// is refused with 400 and the check's message, and yields nothing to write
/// (no directory, map file, users file, `postmap` or reload); one that
/// passes yields exactly the tables and sender map to write.
pub fn plan_mail_sync(body: &SyncRequest) -> (r: Result<MailSyncPlan, (u16, String)>)
    ensures
        match sync_error(*body) {
            Some(m) => r matches Err((s, e)) && s == 400 && e@ == m,
            None => r matches Ok(p)
                && p.tables.virtual_domains@ == join(domain_lines(body.domains@, body.domains@.len()), nl())
                && p.tables.virtual_mailbox_maps@ == join(mailbox_lines(body.accounts@, body.accounts@.len())
                    + catch_all_lines(body.domains@, body.domains@.len()), nl())
                && p.tables.virtual_alias_maps@ == join(alias_lines(body.aliases@, body.aliases@.len())
                    + forward_lines(body.accounts@, body.accounts@.len()), nl())
                && p.tables.dovecot_users@ == join(dovecot_lines(body.accounts@, body.accounts@.len()), nl())
                && crate::text::str_views(p.tables.maildirs@) == maildir_list(body.accounts@, body.accounts@.len())
                && p.sender_login_map@ == sender_map_text(*body),
        },
{
    match check_sync(body) {
        Err(m) => Err((400, m)),
        Ok(()) => Ok(MailSyncPlan { tables: mail_tables(body), sender_login_map: build_sender_login_map(body) }),
    }
}

} // verus!
