//! Host utilities: the upload checks, root's SSH keys (listing, adding and
//! removing by fingerprint), automatic updates, and the panel's IP
//! whitelist file.
use vstd::prelude::*;
use base64::Engine;
use sha2::Digest;
use crate::text::{
    append, chars_of, contains, find_from_v, has_char, is_ws, join, join_v, lemma_find_from, lemma_lines_join, lemma_trim_shape, split_on,
    lemma_trim_fixed, lemma_trim_lacks, lemma_views_push, lines, lines_v, slice, starts_with_v, str_views, string_of,
    strip_trailing, strip_trailing_v, trim, trim_char, trim_char_v, trim_v, views, ws_tokens, ws_tokens_v,
    decimal, decimal_v, ends_with_v,
};
use crate::validation::{domain_ok, is_valid_domain};

verus! {

// ── outside computations ────────────────────────────────────────────────

/// The bytes standard base64 (with padding) decodes `text` to, or `None`
/// when it is not valid base64.
pub uninterp spec fn base64_decoded(text: Seq<char>) -> Option<Seq<u8>>;

/// The standard base64 encoding (with padding) of `bytes`.
pub uninterp spec fn base64_encoded(bytes: Seq<u8>) -> Seq<char>;

/// The SHA-256 digest of `bytes`.
pub uninterp spec fn sha256_of(bytes: Seq<u8>) -> Seq<u8>;

/// `base64::engine::general_purpose::STANDARD.decode`: the result depends
/// on the text alone; an error becomes `None`.
#[verifier::external_body]
fn b64_decode(text: &str) -> (r: Option<Vec<u8>>)
    ensures
        match base64_decoded(text@) {
            Some(b) => r matches Some(v) && v@ == b,
            None => r is None,
        },
{
    base64::engine::general_purpose::STANDARD.decode(text).ok()
}

/// `base64::engine::general_purpose::STANDARD.encode`: the result depends
/// on the bytes alone. The encoder panics when the encoded length does not
/// fit a `usize`, which the bound excludes.
#[verifier::external_body]
fn b64_encode(bytes: &Vec<u8>) -> (r: String)
    requires bytes@.len() <= 0x1000_0000,
    ensures r@ == base64_encoded(bytes@),
{
    base64::engine::general_purpose::STANDARD.encode(bytes)
}

/// `sha2::Sha256::digest`: a function of the input, 32 bytes long (the
/// hash's output size is `U32`).
#[verifier::external_body]
fn sha256(bytes: &Vec<u8>) -> (r: Vec<u8>)
    ensures r@ == sha256_of(bytes@), r@.len() == 32,
{
    sha2::Sha256::digest(bytes).to_vec()
}

fn copy_v(v: &Vec<char>) -> (r: Vec<char>)
    ensures r@ == v@,
{
    let r = slice(v, 0, v.len());
    assert(r@ =~= v@);
    r
}

fn text(s: &str) -> (r: String)
    ensures r@ == s@,
{
    string_of(&chars_of(s))
}

fn holds(s: &Vec<char>, p: &str) -> (r: bool)
    ensures r == contains(s@, p@),
{
    proof { lemma_find_from(s@, p@, 0); }
    find_from_v(s, &chars_of(p), 0).is_some()
}

// ── UTF-8 lengths ───────────────────────────────────────────────────────

/// How many bytes UTF-8 spends on `c`.
pub open spec fn utf8_width(c: char) -> nat {
    if (c as int) < 0x80 { 1 } else if (c as int) < 0x800 { 2 } else if (c as int) < 0x10000 { 3 } else { 4 }
}

/// How many bytes `s` takes in UTF-8 (`str::len`).
pub open spec fn utf8_len(s: Seq<char>) -> nat
    decreases s.len(),
{
    if s.len() == 0 { 0 } else { utf8_width(s[0]) + utf8_len(s.skip(1)) }
}

/// The longest start of `s` that fits in `n` bytes.
pub open spec fn fits_in(s: Seq<char>, n: int) -> Seq<char>
    decreases s.len(),
{
    if s.len() == 0 || utf8_width(s[0]) > n {
        Seq::empty()
    } else {
        seq![s[0]] + fits_in(s.skip(1), n - utf8_width(s[0]))
    }
}

/// Byte `n` of `s` starts a character (or ends the text): slicing there
/// does not panic.
pub open spec fn cut_at_boundary(s: Seq<char>, n: int) -> bool {
    exists|k: int| 0 <= k <= s.len() && utf8_len(#[trigger] s.take(k)) == n
}

fn width_v(c: char) -> (r: usize)
    ensures r == utf8_width(c),
{
    let u = c as u32;
    if u < 0x80 { 1 } else if u < 0x800 { 2 } else if u < 0x10000 { 3 } else { 4 }
}

proof fn lemma_utf8_len_concat(a: Seq<char>, b: Seq<char>)
    ensures utf8_len(a + b) == utf8_len(a) + utf8_len(b),
    decreases a.len(),
{
    if a.len() > 0 {
        assert((a + b).skip(1) =~= a.skip(1) + b);
        lemma_utf8_len_concat(a.skip(1), b);
    } else {
        assert(a + b =~= b);
    }
}

proof fn lemma_utf8_len_take(s: Seq<char>, i: int)
    requires 0 <= i < s.len(),
    ensures
        utf8_len(s.take(i + 1)) == utf8_len(s.take(i)) + utf8_width(s[i]),
        utf8_len(s.take(i)) <= utf8_len(s),
{
    assert(s.take(i + 1) =~= s.take(i) + seq![s[i]]);
    lemma_utf8_len_concat(s.take(i), seq![s[i]]);
    assert(seq![s[i]].skip(1) =~= Seq::<char>::empty());
    assert(utf8_len(seq![s[i]]) == utf8_width(s[i]) + utf8_len(seq![s[i]].skip(1)));
    assert(utf8_len(Seq::<char>::empty()) == 0);
    assert(s =~= s.take(i) + s.skip(i));
    lemma_utf8_len_concat(s.take(i), s.skip(i));
}

/// `min(utf8_len(s), cap)`, counted without passing the cap.
pub(crate) fn capped_len_v(s: &Vec<char>, cap: usize) -> (r: usize)
    requires cap <= 1024,
    ensures r == (if utf8_len(s@) < cap { utf8_len(s@) } else { cap as nat }),
{
    let mut i: usize = 0;
    let mut n: usize = 0;
    assert(s@.take(0) =~= Seq::<char>::empty());
    while i < s.len() && n < cap
        invariant
            i <= s.len(),
            cap <= 1024,
            n == utf8_len(s@.take(i as int)),
            n < cap + 4,
        decreases s.len() - i,
    {
        proof { lemma_utf8_len_take(s@, i as int); }
        n += width_v(s[i]);
        i += 1;
    }
    if n >= cap {
        proof {
            if i < s.len() {
                lemma_utf8_len_take(s@, i as int);
            } else {
                assert(s@.take(i as int) =~= s@);
            }
        }
        cap
    } else {
        assert(s@.take(i as int) =~= s@);
        n
    }
}

/// Whether byte `n` of `s` falls between characters (or at its end).
pub(crate) fn boundary_v(s: &Vec<char>, n: usize) -> (r: bool)
    requires n <= 1024,
    ensures r == cut_at_boundary(s@, n as int),
{
    let mut i: usize = 0;
    let mut b: usize = 0;
    assert(s@.take(0) =~= Seq::<char>::empty());
    while i < s.len() && b < n
        invariant
            i <= s.len(),
            n <= 1024,
            b == utf8_len(s@.take(i as int)),
            b < n + 4,
            forall|k: int| 0 <= k < i ==> utf8_len(#[trigger] s@.take(k)) < n,
        decreases s.len() - i,
    {
        proof { lemma_utf8_len_take(s@, i as int); }
        b += width_v(s[i]);
        i += 1;
    }
    proof {
        assert forall|k: int| i < k <= s@.len() implies utf8_len(#[trigger] s@.take(k)) > b by {
            lemma_utf8_len_grows(s@, i as int, k);
        }
    }
    b == n
}

proof fn lemma_utf8_len_grows(s: Seq<char>, i: int, k: int)
    requires 0 <= i <= k <= s.len(),
    ensures utf8_len(s.take(k)) >= utf8_len(s.take(i)) + (k - i),
    decreases k - i,
{
    if k > i {
        lemma_utf8_len_grows(s, i, k - 1);
        lemma_utf8_len_take(s, k - 1);
    }
}

pub(crate) fn fits_in_v(s: &Vec<char>, n: usize) -> (r: Vec<char>)
    ensures r@ == fits_in(s@, n as int),
{
    let mut out: Vec<char> = Vec::new();
    let mut i: usize = 0;
    let mut left: usize = n;
    assert(s@.skip(0) =~= s@);
    while i < s.len() && width_v(s[i]) <= left
        invariant
            i <= s.len(),
            left <= n,
            fits_in(s@, n as int) == out@ + fits_in(s@.skip(i as int), left as int),
        decreases s.len() - i,
    {
        let w = width_v(s[i]);
        assert(s@.skip(i as int).skip(1) =~= s@.skip(i + 1));
        assert(s@.skip(i as int)[0] == s@[i as int]);
        out.push(s[i]);
        left -= w;
        i += 1;
        assert(fits_in(s@, n as int) =~= out@ + fits_in(s@.skip(i as int), left as int));
    }
    if i < s.len() {
        assert(s@.skip(i as int)[0] == s@[i as int]);
    }
    assert(out@ + fits_in(s@.skip(i as int), left as int) =~= out@);
    out
}

// ── uploads ─────────────────────────────────────────────────────────────

/// A file upload: the path, its base64 content and an optional file name.
pub struct UploadRequest {
    pub path: String,
    pub content: String,
    pub filename: Option<String>,
}

/// What an accepted upload writes, relative to the site root.
pub struct UploadPlan {
    pub target: String,
    pub bytes: Vec<u8>,
}

pub open spec fn bad_filename(name: Seq<char>) -> bool {
    name.contains('/') || name.contains('\\') || contains(name, ".."@) || name.contains('\0')
}

/// Where an upload goes: `path` itself, or, with a file name, the name
/// joined onto `path` taken as its directory.
pub open spec fn upload_target(path: Seq<char>, filename: Option<Seq<char>>) -> Option<Seq<char>> {
    match filename {
        Some(name) => if name.len() > 0 {
            if bad_filename(name) {
                None
            } else {
                let dir = trim_char(path, '/');
                Some(if dir.len() == 0 { name } else { dir + seq!['/'] + name })
            }
        } else {
            Some(path)
        },
        None => Some(path),
    }
}

/// The largest upload accepted, in bytes.
pub const MAX_UPLOAD: usize = 52428800;

/// The checks an upload makes before touching the disk, in order: the
/// domain, the content's base64, the size, the file name.
pub fn plan_upload(domain: &str, req: &UploadRequest) -> (r: Result<UploadPlan, (u16, String)>)
    ensures
        ({
            let name = match req.filename { Some(n) => Some(n@), None => None };
            if !domain_ok(domain@) {
                r matches Err(e) && e.0 == 400 && e.1@ == "Invalid domain format"@
            } else if base64_decoded(req.content@) is None {
                r matches Err(e) && e.0 == 400 && e.1@ == "Invalid base64 content"@
            } else if base64_decoded(req.content@).unwrap().len() > MAX_UPLOAD {
                r matches Err(e) && e.0 == 413 && e.1@ == "File too large (max 50MB)"@
            } else if upload_target(req.path@, name) is None {
                r matches Err(e) && e.0 == 400 && e.1@ == "Invalid filename"@
            } else {
                r matches Ok(p) && p.bytes@ == base64_decoded(req.content@).unwrap()
                    && p.target@ == upload_target(req.path@, name).unwrap()
            }
        }),
{
    if !is_valid_domain(domain) {
        return Err((400, text("Invalid domain format")));
    }
    let bytes = match b64_decode(req.content.as_str()) {
        Some(b) => b,
        None => return Err((400, text("Invalid base64 content"))),
    };
    if bytes.len() > MAX_UPLOAD {
        return Err((413, text("File too large (max 50MB)")));
    }
    let named = match &req.filename {
        Some(name) => chars_of(name.as_str()),
        None => Vec::new(),
    };
    let target = if named.len() == 0 {
        text(req.path.as_str())
    } else {
        let n = named;
        if has_char(&n, '/') || has_char(&n, '\\') || holds(&n, "..") || has_char(&n, '\0') {
            return Err((400, text("Invalid filename")));
        }
        let dir = trim_char_v(&chars_of(req.path.as_str()), '/');
        if dir.len() == 0 {
            string_of(&n)
        } else {
            let mut d = dir;
            d.push('/');
            append(&mut d, &n);
            assert(d@ =~= trim_char(req.path@, '/') + seq!['/'] + n@);
            string_of(&d)
        }
    };
    Ok(UploadPlan { target, bytes })
}

// ── SSH keys ────────────────────────────────────────────────────────────

/// `str::splitn(3, ' ')`: up to two cuts at spaces, the rest kept whole.
pub open spec fn split3(l: Seq<char>) -> Seq<Seq<char>> {
    match crate::text::find(l, seq![' ']) {
        None => seq![l],
        Some(i) => {
            let rest = l.skip(i + 1);
            match crate::text::find(rest, seq![' ']) {
                None => seq![l.take(i), rest],
                Some(j) => seq![l.take(i), rest.take(j), rest.skip(j + 1)],
            }
        },
    }
}

fn split3_v(l: &Vec<char>) -> (r: Vec<Vec<char>>)
    ensures views(r@) == split3(l@),
{
    let sp = vec![' '];
    assert(sp@ =~= seq![' ']);
    proof { lemma_find_from(l@, sp@, 0); }
    match find_from_v(l, &sp, 0) {
        None => {
            let r = vec![slice(l, 0, l.len())];
            assert(views(r@) =~= seq![l@.subrange(0, l@.len() as int)]);
            assert(l@.subrange(0, l@.len() as int) =~= l@);
            r
        },
        Some(i) => {
            let rest = slice(l, i + 1, l.len());
            assert(rest@ =~= l@.skip(i + 1));
            let head = slice(l, 0, i);
            assert(head@ =~= l@.take(i as int));
            proof { lemma_find_from(rest@, sp@, 0); }
            match find_from_v(&rest, &sp, 0) {
                None => {
                    let r = vec![head, rest];
                    assert(views(r@) =~= split3(l@));
                    r
                },
                Some(j) => {
                    let mid = slice(&rest, 0, j);
                    let tail = slice(&rest, j + 1, rest.len());
                    assert(mid@ =~= rest@.take(j as int));
                    assert(tail@ =~= rest@.skip(j + 1));
                    let r = vec![head, mid, tail];
                    assert(views(r@) =~= split3(l@));
                    r
                },
            }
        },
    }
}

/// The `n`th piece, or empty.
pub open spec fn piece(p: Seq<Seq<char>>, n: int) -> Seq<char> {
    if n < p.len() { p[n] } else { Seq::empty() }
}

/// The fingerprint `ssh-keygen -l` prints for base64 key data: SHA-256 of
/// the decoded key (nothing, when it does not decode), in unpadded base64.
pub open spec fn fingerprint(key_data: Seq<char>) -> Seq<char> {
    let decoded = match base64_decoded(key_data) { Some(b) => b, None => Seq::empty() };
    "SHA256:"@ + strip_trailing(base64_encoded(sha256_of(decoded)), '=')
}

fn fingerprint_v(key_data: &Vec<char>) -> (r: String)
    ensures r@ == fingerprint(key_data@),
{
    let decoded = match b64_decode(string_of(key_data).as_str()) { Some(b) => b, None => Vec::new() };
    let hash = sha256(&decoded);
    let enc = b64_encode(&hash);
    let mut v = chars_of("SHA256:");
    append(&mut v, &strip_trailing_v(&chars_of(enc.as_str()), '='));
    string_of(&v)
}

/// A line of `authorized_keys` that holds a key: not blank and not a
/// comment, once trimmed.
pub open spec fn key_line(l: Seq<char>) -> bool {
    trim(l).len() > 0 && !("#"@.is_prefix_of(trim(l)))
}

/// The key lines of a file.
pub open spec fn key_lines(ls: Seq<Seq<char>>, n: nat) -> Seq<Seq<char>>
    decreases n,
{
    if n == 0 || n > ls.len() {
        Seq::empty()
    } else {
        let p = key_lines(ls, (n - 1) as nat);
        if key_line(ls[n - 1]) { p.push(ls[n - 1]) } else { p }
    }
}

/// What the key listing shows of one line.
pub struct KeyEntry {
    pub key_type: String,
    pub fingerprint: String,
    pub comment: String,
    /// The type, then the first 20 bytes of the key data and an ellipsis.
    pub preview: String,
}

pub struct EntryView {
    pub key_type: Seq<char>,
    pub fingerprint: Seq<char>,
    pub comment: Seq<char>,
    pub preview: Seq<char>,
}

pub open spec fn entry_view(e: KeyEntry) -> EntryView {
    EntryView { key_type: e.key_type@, fingerprint: e.fingerprint@, comment: e.comment@, preview: e.preview@ }
}

pub open spec fn min20(n: nat) -> int {
    if n < 20 { n as int } else { 20 }
}

/// The entry a key line lists as.
pub open spec fn entry_of(l: Seq<char>) -> EntryView {
    let p = split3(l);
    let data = piece(p, 1);
    EntryView {
        key_type: piece(p, 0),
        fingerprint: if data.len() > 0 { fingerprint(data) } else { Seq::empty() },
        comment: piece(p, 2),
        preview: piece(p, 0) + seq![' '] + fits_in(data, min20(utf8_len(data))) + "..."@,
    }
}

/// Showing a line slices its key data at byte 20 (or its end), which must
/// fall between characters.
pub open spec fn listable(l: Seq<char>) -> bool {
    let data = piece(split3(l), 1);
    cut_at_boundary(data, min20(utf8_len(data)))
}

/// Whether every key line of a file can be shown (its key data cut at byte
/// 20 falls between characters).
pub fn keys_listable(content: &str) -> (r: bool)
    ensures
        r == forall|i: int| 0 <= i < lines(content@).len() && key_line(lines(content@)[i]) ==>
            listable(#[trigger] lines(content@)[i]),
{
    let ls = lines_v(&chars_of(content));
    let mut k: usize = 0;
    while k < ls.len()
        invariant
            k <= ls.len(),
            views(ls@) == lines(content@),
            forall|i: int| 0 <= i < k && key_line(lines(content@)[i]) ==> listable(#[trigger] lines(content@)[i]),
        decreases ls.len() - k,
    {
        let l = &ls[k];
        assert(l@ == lines(content@)[k as int]);
        let t = trim_v(l);
        if t.len() > 0 && !starts_with_v(&t, &chars_of("#")) {
            let p = split3_v(l);
            let data = if p.len() > 1 { copy_v(&p[1]) } else { Vec::new() };
            assert(data@ == piece(split3(l@), 1));
            let n = capped_len_v(&data, 20);
            if !boundary_v(&data, n) {
                return false;
            }
        }
        k += 1;
    }
    true
}

fn entry_v(l: &Vec<char>) -> (r: KeyEntry)
    ensures entry_view(r) == entry_of(l@),
{
    let p = split3_v(l);
    let kt = if p.len() > 0 { copy_v(&p[0]) } else { Vec::new() };
    let data = if p.len() > 1 { copy_v(&p[1]) } else { Vec::new() };
    let comment = if p.len() > 2 { copy_v(&p[2]) } else { Vec::new() };
    assert(kt@ == piece(split3(l@), 0));
    assert(data@ == piece(split3(l@), 1));
    assert(comment@ == piece(split3(l@), 2));
    let fp = if data.len() > 0 { fingerprint_v(&data) } else { String::new() };
    let n = capped_len_v(&data, 20);
    let mut pv = copy_v(&kt);
    pv.push(' ');
    let shown = fits_in_v(&data, n);
    append(&mut pv, &shown);
    append(&mut pv, &chars_of("..."));
    assert(pv@ =~= kt@ + seq![' '] + shown@ + "..."@);
    KeyEntry { key_type: string_of(&kt), fingerprint: fp, comment: string_of(&comment), preview: string_of(&pv) }
}

/// The keys an `authorized_keys` file lists, in order.
pub fn authorized_key_entries(content: &str) -> (r: Vec<KeyEntry>)
    requires
        forall|i: int| 0 <= i < lines(content@).len() && key_line(lines(content@)[i]) ==>
            listable(#[trigger] lines(content@)[i]),
    ensures
        r@.len() == key_lines(lines(content@), lines(content@).len()).len(),
        forall|i: int| 0 <= i < r@.len() ==>
            entry_view(#[trigger] r@[i]) == entry_of(key_lines(lines(content@), lines(content@).len())[i]),
{
    let ls = lines_v(&chars_of(content));
    let mut out: Vec<KeyEntry> = Vec::new();
    let mut k: usize = 0;
    while k < ls.len()
        invariant
            k <= ls.len(),
            views(ls@) == lines(content@),
            out@.len() == key_lines(lines(content@), k as nat).len(),
            forall|i: int| 0 <= i < out@.len() ==>
                entry_view(#[trigger] out@[i]) == entry_of(key_lines(lines(content@), k as nat)[i]),
        decreases ls.len() - k,
    {
        let l = &ls[k];
        assert(l@ == lines(content@)[k as int]);
        let t = trim_v(l);
        let hash = chars_of("#");
        if t.len() > 0 && !starts_with_v(&t, &hash) {
            let e = entry_v(l);
            out.push(e);
        }
        k += 1;
    }
    out
}

pub open spec fn single_line_msg() -> Seq<char> { "SSH key must be a single line"@ }
pub open spec fn bad_format_msg() -> Seq<char> { "Invalid SSH key format"@ }
pub open spec fn missing_data_msg() -> Seq<char> { "Invalid SSH key: missing key data"@ }
pub open spec fn options_msg() -> Seq<char> { "SSH key options not allowed"@ }

/// Why a key may not be added, if it may not: several lines, an unknown
/// type, no key data (at least 16 bytes), or `authorized_keys` options.
pub open spec fn key_refusal(key: Seq<char>) -> Option<Seq<char>> {
    let k = trim(key);
    let parts = ws_tokens(k);
    if k.contains('\n') || k.contains('\r') || k.contains('\0') {
        Some(single_line_msg())
    } else if !("ssh-"@.is_prefix_of(k) || "ecdsa-"@.is_prefix_of(k) || "sk-"@.is_prefix_of(k)) {
        Some(bad_format_msg())
    } else if parts.len() < 2 || utf8_len(parts[1]) < 16 {
        Some(missing_data_msg())
    } else if contains(k, "command="@) || contains(k, "from="@) || contains(k, "restrict"@)
        || contains(k, "no-pty"@) || contains(k, "permitopen"@) {
        Some(options_msg())
    } else {
        None
    }
}

/// A key to authorise.
pub struct AddKeyRequest {
    pub key: String,
}

impl AddKeyRequest {
    /// The key to append, trimmed, or the refusal it earns.
    pub fn checked_key(&self) -> (r: Result<String, String>)
        ensures
            match key_refusal(self.key@) {
                Some(m) => r matches Err(e) && e@ == m,
                None => r matches Ok(k) && k@ == trim(self.key@),
            },
    {
        check_ssh_key(self.key.as_str())
    }
}

/// The trimmed key, or the sentence it is refused with.
pub fn check_ssh_key(key: &str) -> (r: Result<String, String>)
    ensures
        match key_refusal(key@) {
            Some(m) => r matches Err(e) && e@ == m,
            None => r matches Ok(k) && k@ == trim(key@),
        },
{
    let k = trim_v(&chars_of(key));
    if has_char(&k, '\n') || has_char(&k, '\r') || has_char(&k, '\0') {
        return Err(text("SSH key must be a single line"));
    }
    if !(starts_with_v(&k, &chars_of("ssh-")) || starts_with_v(&k, &chars_of("ecdsa-")) || starts_with_v(&k, &chars_of("sk-"))) {
        return Err(text("Invalid SSH key format"));
    }
    let parts = ws_tokens_v(&k);
    if parts.len() < 2 {
        return Err(text("Invalid SSH key: missing key data"));
    }
    assert(views(parts@)[1] == parts@[1]@);
    if capped_len_v(&parts[1], 16) < 16 {
        return Err(text("Invalid SSH key: missing key data"));
    }
    if holds(&k, "command=") || holds(&k, "from=") || holds(&k, "restrict") || holds(&k, "no-pty") || holds(&k, "permitopen") {
        return Err(text("SSH key options not allowed"));
    }
    Ok(string_of(&k))
}

/// `authorized_keys` with `key` added on a line of its own, or `None` when
/// the file already holds it.
pub open spec fn keys_with(content: Seq<char>, key: Seq<char>) -> Option<Seq<char>> {
    if contains(content, key) {
        None
    } else {
        let sep = if content.len() > 0 && content.last() != '\n' { seq!['\n'] } else { Seq::empty() };
        Some(content + sep + key + seq!['\n'])
    }
}

pub fn authorized_keys_with(content: &str, key: &str) -> (r: Option<String>)
    ensures
        match keys_with(content@, key@) {
            Some(x) => r matches Some(y) && y@ == x,
            None => r is None,
        },
{
    let c = chars_of(content);
    if holds(&c, key) {
        return None;
    }
    let mut v = c;
    let ghost c0 = v@;
    if v.len() > 0 && v[v.len() - 1] != '\n' {
        v.push('\n');
    }
    append(&mut v, &chars_of(key));
    v.push('\n');
    assert(v@ =~= keys_with(content@, key@).unwrap());
    Some(string_of(&v))
}

/// Adding a key keeps the file as it was and ends it with the key's line.
pub proof fn law_added_key_ends_file(content: Seq<char>, key: Seq<char>)
    ensures
        keys_with(content, key) matches Some(x) ==> content.is_prefix_of(x) && (key + seq!['\n']).is_suffix_of(x),
{
    if let Some(x) = keys_with(content, key) {
        assert(x.subrange(0, content.len() as int) =~= content);
        assert(x.subrange(x.len() - key.len() - 1, x.len() as int) =~= key + seq!['\n']);
    }
}

/// Whether removing the key with fingerprint `fp` keeps a line: blank and
/// comment lines, lines without key data, and keys with another
/// fingerprint stay.
pub open spec fn keeps(l: Seq<char>, fp: Seq<char>) -> bool {
    let data = piece(split3(l), 1);
    trim(l).len() == 0 || "#"@.is_prefix_of(l) || data.len() == 0 || fingerprint(data) != fp
}

pub open spec fn kept_lines(ls: Seq<Seq<char>>, fp: Seq<char>, n: nat) -> Seq<Seq<char>>
    decreases n,
{
    if n == 0 || n > ls.len() {
        Seq::empty()
    } else {
        let p = kept_lines(ls, fp, (n - 1) as nat);
        if keeps(ls[n - 1], fp) { p.push(ls[n - 1]) } else { p }
    }
}

/// The file without the key whose fingerprint is `fp`: the kept lines
/// joined by newlines, with a final newline.
pub fn authorized_keys_without(content: &str, fp: &str) -> (r: String)
    ensures r@ == join(kept_lines(lines(content@), fp@, lines(content@).len()), seq!['\n']) + seq!['\n'],
{
    let ls = lines_v(&chars_of(content));
    let f = chars_of(fp);
    let mut kept: Vec<Vec<char>> = Vec::new();
    let mut k: usize = 0;
    while k < ls.len()
        invariant
            k <= ls.len(),
            views(ls@) == lines(content@),
            f@ == fp@,
            views(kept@) == kept_lines(lines(content@), fp@, k as nat),
        decreases ls.len() - k,
    {
        let l = &ls[k];
        assert(l@ == lines(content@)[k as int]);
        let keep = if trim_v(l).len() == 0 || starts_with_v(l, &chars_of("#")) {
            true
        } else {
            let p = split3_v(l);
            if p.len() < 2 {
                assert(piece(split3(l@), 1) == Seq::<char>::empty());
                true
            } else {
                assert(views(p@)[1] == p@[1]@);
                if p[1].len() == 0 {
                    true
                } else {
                    let got = fingerprint_v(&p[1]);
                    !crate::text::eq_v(&chars_of(got.as_str()), &f)
                }
            }
        };
        if keep {
            let c = copy_v(l);
            proof { lemma_views_push(kept@, c); }
            kept.push(c);
        }
        k += 1;
    }
    let nl = vec!['\n'];
    assert(nl@ =~= seq!['\n']);
    let mut out = join_v(&kept, &nl);
    out.push('\n');
    assert(out@ =~= join(views(kept@), seq!['\n']) + seq!['\n']);
    string_of(&out)
}

/// Removing a key by fingerprint leaves no key line that carries it, and
/// keeps every line that does not.
pub proof fn law_removed_key_is_gone(ls: Seq<Seq<char>>, fp: Seq<char>, n: nat)
    requires n <= ls.len(),
    ensures
        forall|i: int| 0 <= i < kept_lines(ls, fp, n).len() ==> keeps(#[trigger] kept_lines(ls, fp, n)[i], fp),
        forall|i: int| 0 <= i < n && keeps(ls[i], fp) ==> kept_lines(ls, fp, n).contains(#[trigger] ls[i]),
    decreases n,
{
    if n > 0 {
        law_removed_key_is_gone(ls, fp, (n - 1) as nat);
        let p = kept_lines(ls, fp, (n - 1) as nat);
        if keeps(ls[n - 1], fp) {
            assert forall|i: int| 0 <= i < n && keeps(ls[i], fp) implies kept_lines(ls, fp, n).contains(#[trigger] ls[i]) by {
                if i == n - 1 {
                    assert(p.push(ls[i])[p.len() as int] == ls[i]);
                } else {
                    let j = choose|j: int| 0 <= j < p.len() && p[j] == ls[i];
                    assert(p.push(ls[n - 1])[j] == ls[i]);
                }
            }
        }
    }
}

// ── automatic updates ───────────────────────────────────────────────────

/// The apt periodic configuration that turns automatic updates on or off.
pub open spec fn auto_upgrades_config(enable: bool) -> Seq<char> {
    if enable {
        "APT::Periodic::Update-Package-Lists \"1\";\nAPT::Periodic::Unattended-Upgrade \"1\";\n"@
    } else {
        "APT::Periodic::Update-Package-Lists \"0\";\nAPT::Periodic::Unattended-Upgrade \"0\";\n"@
    }
}

pub fn auto_upgrades_config_v(enable: bool) -> (r: &'static str)
    ensures r@ == auto_upgrades_config(enable),
{
    if enable {
        "APT::Periodic::Update-Package-Lists \"1\";\nAPT::Periodic::Unattended-Upgrade \"1\";\n"
    } else {
        "APT::Periodic::Update-Package-Lists \"0\";\nAPT::Periodic::Unattended-Upgrade \"0\";\n"
    }
}

/// Updates are on when the package is installed and its configuration
/// (when it could be read) holds a `"1"`.
pub fn auto_updates_enabled(installed: bool, config: Option<&str>) -> (r: bool)
    ensures r == (installed && (config matches Some(c) && contains(c@, "\"1\""@))),
{
    if !installed {
        return false;
    }
    match config {
        Some(c) => holds(&chars_of(c), "\"1\""),
        None => false,
    }
}

// ── the panel whitelist ─────────────────────────────────────────────────

/// A whitelist request: the addresses to allow.
pub struct WhitelistRequest {
    pub ips: Vec<String>,
}

/// The addresses a whitelist file lists: lines that are not blank and not
/// comments, trimmed.
pub open spec fn listed_ips(ls: Seq<Seq<char>>, n: nat) -> Seq<Seq<char>>
    decreases n,
{
    if n == 0 || n > ls.len() {
        Seq::empty()
    } else {
        let p = listed_ips(ls, (n - 1) as nat);
        let l = ls[n - 1];
        if trim(l).len() > 0 && !("#"@.is_prefix_of(l)) { p.push(trim(l)) } else { p }
    }
}

pub fn whitelist_ips(content: &str) -> (r: Vec<String>)
    ensures str_views(r@) == listed_ips(lines(content@), lines(content@).len()),
{
    let ls = lines_v(&chars_of(content));
    let mut out: Vec<String> = Vec::new();
    let mut k: usize = 0;
    while k < ls.len()
        invariant
            k <= ls.len(),
            views(ls@) == lines(content@),
            str_views(out@) == listed_ips(lines(content@), k as nat),
        decreases ls.len() - k,
    {
        let l = &ls[k];
        assert(l@ == lines(content@)[k as int]);
        let t = trim_v(l);
        if t.len() > 0 && !starts_with_v(l, &chars_of("#")) {
            let s = string_of(&t);
            let ghost before = out@;
            out.push(s);
            assert(str_views(out@) =~= str_views(before).push(t@));
        }
        k += 1;
    }
    out
}

/// The addresses a whitelist request writes: the non-blank ones, trimmed.
pub open spec fn written_ips(ips: Seq<Seq<char>>) -> Seq<Seq<char>>
    decreases ips.len(),
{
    if ips.len() == 0 {
        Seq::empty()
    } else {
        let p = written_ips(ips.drop_last());
        if trim(ips.last()).len() > 0 { p.push(trim(ips.last())) } else { p }
    }
}

/// The first address that is neither IPv4-shaped (a dot) nor IPv6-shaped
/// (a colon), trimmed.
pub open spec fn first_bad_ip(ips: Seq<Seq<char>>) -> Option<Seq<char>>
    decreases ips.len(),
{
    if ips.len() == 0 {
        None
    } else {
        let t = trim(ips[0]);
        if t.len() > 0 && !t.contains('.') && !t.contains(':') { Some(t) } else { first_bad_ip(ips.skip(1)) }
    }
}

/// The whitelist file a request writes, or the sentence it is refused with.
pub fn whitelist_file(ips: &Vec<String>) -> (r: Result<String, String>)
    ensures
        match first_bad_ip(str_views(ips@)) {
            Some(t) => r matches Err(m) && m@ == "Invalid IP: "@ + t,
            None => r matches Ok(c) && c@ == join(written_ips(str_views(ips@)), seq!['\n']) + seq!['\n'],
        },
{
    let mut i: usize = 0;
    assert(str_views(ips@).skip(0) =~= str_views(ips@));
    while i < ips.len()
        invariant
            i <= ips.len(),
            first_bad_ip(str_views(ips@)) == first_bad_ip(str_views(ips@).skip(i as int)),
        decreases ips.len() - i,
    {
        let t = trim_v(&chars_of(ips[i].as_str()));
        assert(str_views(ips@).skip(i as int)[0] == ips@[i as int]@);
        assert(str_views(ips@).skip(i as int).skip(1) =~= str_views(ips@).skip(i + 1));
        if t.len() > 0 && !has_char(&t, '.') && !has_char(&t, ':') {
            let mut m = chars_of("Invalid IP: ");
            append(&mut m, &t);
            return Err(string_of(&m));
        }
        i += 1;
    }
    assert(str_views(ips@).skip(i as int) =~= Seq::<Seq<char>>::empty());
    let mut kept: Vec<Vec<char>> = Vec::new();
    let mut j: usize = 0;
    while j < ips.len()
        invariant
            j <= ips.len(),
            views(kept@) == written_ips(str_views(ips@).take(j as int)),
        decreases ips.len() - j,
    {
        let t = trim_v(&chars_of(ips[j].as_str()));
        assert(str_views(ips@).take(j + 1).drop_last() =~= str_views(ips@).take(j as int));
        assert(str_views(ips@).take(j + 1).last() == ips@[j as int]@);
        if t.len() > 0 {
            proof { lemma_views_push(kept@, t); }
            kept.push(t);
        }
        j += 1;
    }
    assert(str_views(ips@).take(ips.len() as int) =~= str_views(ips@));
    let nl = vec!['\n'];
    assert(nl@ =~= seq!['\n']);
    let mut out = join_v(&kept, &nl);
    out.push('\n');
    assert(out@ =~= join(views(kept@), seq!['\n']) + seq!['\n']);
    Ok(string_of(&out))
}


/// Every written address is its own trim, not empty.
proof fn lemma_written_trimmed(ips: Seq<Seq<char>>)
    ensures
        forall|i: int| 0 <= i < written_ips(ips).len() ==>
            (#[trigger] written_ips(ips)[i]).len() > 0 && trim(written_ips(ips)[i]) == written_ips(ips)[i]
            && !is_ws(written_ips(ips)[i].last()),
        forall|i: int| 0 <= i < written_ips(ips).len() ==>
            exists|j: int| 0 <= j < ips.len() && #[trigger] written_ips(ips)[i] == trim(ips[j]),
    decreases ips.len(),
{
    if ips.len() > 0 {
        lemma_written_trimmed(ips.drop_last());
        let t = trim(ips.last());
        lemma_trim_shape(ips.last());
        if t.len() > 0 {
            lemma_trim_fixed(t);
        }
        let p = written_ips(ips.drop_last());
        assert forall|i: int| 0 <= i < written_ips(ips).len() implies
            exists|j: int| 0 <= j < ips.len() && #[trigger] written_ips(ips)[i] == trim(ips[j]) by {
            if i < p.len() {
                let j = choose|j: int| 0 <= j < ips.drop_last().len() && p[i] == trim(ips.drop_last()[j]);
                assert(ips.drop_last()[j] == ips[j]);
            } else {
                assert(written_ips(ips)[i] == trim(ips[ips.len() - 1]));
            }
        }
    }
}

/// Entries that are their own non-empty trims and no comments read back
/// as themselves.
proof fn lemma_listed_identity(w: Seq<Seq<char>>, n: nat)
    requires
        n <= w.len(),
        forall|i: int| 0 <= i < w.len() ==> (#[trigger] w[i]).len() > 0 && trim(w[i]) == w[i] && !("#"@.is_prefix_of(w[i])),
    ensures listed_ips(w, n) == w.take(n as int),
    decreases n,
{
    if n > 0 {
        lemma_listed_identity(w, (n - 1) as nat);
        assert(w.take(n as int) =~= w.take(n - 1).push(w[n - 1]));
    } else {
        assert(w.take(0) =~= Seq::<Seq<char>>::empty());
    }
}

/// Reading back a whitelist gives the addresses written: the non-blank
/// ones, trimmed, in order — when none holds a line break or reads as a
/// comment.
pub proof fn law_whitelist_round_trip(ips: Seq<Seq<char>>)
    requires
        forall|i: int| 0 <= i < ips.len() ==> !(#[trigger] trim(ips[i])).contains('\n') && !("#"@.is_prefix_of(trim(ips[i]))),
    ensures
        ({
            let content = join(written_ips(ips), seq!['\n']) + seq!['\n'];
            listed_ips(lines(content), lines(content).len()) == written_ips(ips)
        }),
{
    let w = written_ips(ips);
    lemma_written_trimmed(ips);
    assert forall|i: int| 0 <= i < w.len() implies (#[trigger] w[i]).len() > 0 && trim(w[i]) == w[i]
        && !("#"@.is_prefix_of(w[i])) && !w[i].contains('\n') by {
        let j = choose|j: int| 0 <= j < ips.len() && w[i] == trim(ips[j]);
    }
    if w.len() == 0 {
        let content = join(w, seq!['\n']) + seq!['\n'];
        assert(content =~= seq!['\n']);
        assert(seq!['\n'].drop_last() =~= Seq::<char>::empty());
        assert(content.drop_last() =~= Seq::<char>::empty());
        assert(split_on(Seq::<char>::empty(), '\n') == seq![Seq::<char>::empty()]);
        let p = split_on(content, '\n');
        assert(p =~= seq![Seq::<char>::empty(), Seq::<char>::empty()]);
        assert(lines(content) =~= seq![Seq::<char>::empty()]);
        assert(trim(Seq::<char>::empty()) =~= Seq::<char>::empty());
        assert(listed_ips(lines(content), 0) == Seq::<Seq<char>>::empty());
        assert(listed_ips(lines(content), 1) == Seq::<Seq<char>>::empty());
        assert(lines(content).len() == 1);
    } else {
        assert forall|i: int| 0 <= i < w.len() && (i < w.len() - 1 || true) implies
            (#[trigger] w[i]).len() == 0 || w[i].last() != '\r' by {
        }
        lemma_lines_join(w, true);
        let content = join(w, seq!['\n']) + seq!['\n'];
        assert(content == join(w, seq!['\n']) + (if true { seq!['\n'] } else { Seq::<char>::empty() }));
        assert(lines(content) == w);
        lemma_listed_identity(w, w.len());
        assert(w.take(w.len() as int) =~= w);
        assert(listed_ips(lines(content), lines(content).len()) == w);
    }
}

/// How many addresses a request writes.
pub fn written_count(ips: &Vec<String>) -> (r: usize)
    ensures r == written_ips(str_views(ips@)).len(),
{
    let mut n: usize = 0;
    let mut j: usize = 0;
    while j < ips.len()
        invariant
            j <= ips.len(),
            n <= j,
            n == written_ips(str_views(ips@).take(j as int)).len(),
        decreases ips.len() - j,
    {
        assert(str_views(ips@).take(j + 1).drop_last() =~= str_views(ips@).take(j as int));
        assert(str_views(ips@).take(j + 1).last() == ips@[j as int]@);
        if trim_v(&chars_of(ips[j].as_str())).len() > 0 {
            n += 1;
        }
        j += 1;
    }
    assert(str_views(ips@).take(ips.len() as int) =~= str_views(ips@));
    n
}

} // verus!
