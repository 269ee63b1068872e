//! The named certificate registry: registering a pair under an alias,
//! asking whether it covers a domain, and removing it.
//!
//! A registration runs every check before it touches the disk, so a refused
//! upload leaves the registry as it was; a replacement that nginx refuses
//! is rolled back.
use vstd::prelude::*;
use crate::apps::{cert_alias_ok, is_valid_cert_alias};
use crate::text::{append, chars_of, contains, decimal, decimal_v, join, join_v, lemma_views_push, str_views, string_of, trim, trim_v, views};
use crate::validation::{domain_ok, is_valid_domain};

verus! {

fn text(s: &str) -> (r: String)
    ensures r@ == s@,
{
    string_of(&chars_of(s))
}

fn holds(s: &str, p: &str) -> (r: bool)
    ensures r == contains(s@, p@),
{
    proof { crate::text::lemma_find_from(s@, p@, 0); }
    crate::text::find_from_v(&chars_of(s), &chars_of(p), 0).is_some()
}

// ── refusals ────────────────────────────────────────────────────────────

pub open spec fn bad_alias() -> Seq<char> {
    "the alias must be 1 to 64 lowercase letters, digits or hyphens, starting and ending with a letter or digit — a DNS label shape, like wildcard-2026"@
}

pub open spec fn pair_required() -> Seq<char> {
    "both the certificate and the private key are required"@
}

pub open spec fn key_not_pem() -> Seq<char> {
    "the private key is not PEM — it should start with a BEGIN line"@
}

pub open spec fn not_covered(domain: Seq<char>, reason: Seq<char>) -> Seq<char> {
    domain + " is served under this alias and the new certificate does not cover it: "@ + reason
}

pub open spec fn already_registered(alias: Seq<char>) -> Seq<char> {
    "a certificate named "@ + alias + " is already registered on this server"@
}

pub open spec fn not_registered(alias: Seq<char>) -> Seq<char> {
    "no certificate named "@ + alias + " is registered on this server"@
}

/// A refusal: the status and the sentence.
pub struct Refusal {
    pub status: u16,
    pub message: String,
}

/// The checks a registration makes from the request alone, in order.
pub open spec fn request_refusal(alias: Seq<char>, certificate: Seq<char>, private_key: Seq<char>) -> Option<Seq<char>> {
    if !cert_alias_ok(alias) {
        Some(bad_alias())
    } else if trim(certificate).len() == 0 || trim(private_key).len() == 0 {
        Some(pair_required())
    } else if !contains(private_key, "BEGIN"@) {
        Some(key_not_pem())
    } else {
        None
    }
}

// ── registering ─────────────────────────────────────────────────────────

/// The result a registration awaits.
#[derive(Debug, Clone, Copy, PartialEq, Eq, Structural)]
pub enum RegisterStage {
    /// What the certificate says about itself.
    Metadata,
    /// Whether the key belongs to the certificate.
    KeyMatch,
    /// Whether the certificate covers `must_cover[index]`.
    Covers { index: usize },
    /// Whether the alias is already registered.
    Exists,
    Sweep,
    Stage,
    MoveAside,
    Install,
    /// Whether a live vhost names the alias.
    InUse,
    Test,
    Reload,
    /// Putting the previous pair back after nginx refused the new one.
    Restore,
    Done,
}

/// What the host is asked to do next.
#[derive(Debug)]
pub enum RegisterAction {
    ReadMetadata,
    CheckKeyMatch,
    CheckCovers { index: usize },
    ProbeExists,
    /// Remove stale staging and aside directories of the alias.
    SweepLeftovers,
    /// Write the pair into a fresh staging directory.
    StagePair,
    /// Move the registered pair aside (the aside directory cleared first).
    MoveAside,
    /// Rename the staged pair into place.
    Install,
    AskInUse,
    TestConfig,
    Reload,
    /// Put the previous pair back in place of the new one.
    RestorePrevious,
    /// Answer 201 with the certificate's details; drop the pair that was
    /// moved aside when `drop_previous`.
    Succeed { reloaded: bool, warning: Option<String>, drop_previous: bool },
    /// Answer with the refusal, first discarding the staged pair and putting
    /// the previous one back where the flags say.
    Fail { status: u16, message: String, discard_staged: bool, restore_previous: bool },
}

/// How it went.
#[derive(Debug)]
pub enum RegisterEvent {
    Done,
    Failed(String),
    Answer(bool),
    /// `nginx -t` ran and refused, with its output.
    Refused(String),
}

pub enum RegisterActionView {
    ReadMetadata,
    CheckKeyMatch,
    CheckCovers { index: usize },
    ProbeExists,
    SweepLeftovers,
    StagePair,
    MoveAside,
    Install,
    AskInUse,
    TestConfig,
    Reload,
    RestorePrevious,
    Succeed { reloaded: bool, warning: Option<Seq<char>>, drop_previous: bool },
    Fail { status: u16, message: Seq<char>, discard_staged: bool, restore_previous: bool },
}

pub enum RegisterEventView {
    Done,
    Failed(Seq<char>),
    Answer(bool),
    Refused(Seq<char>),
}

impl View for RegisterAction {
    type V = RegisterActionView;

    open spec fn view(&self) -> RegisterActionView {
        match self {
            RegisterAction::ReadMetadata => RegisterActionView::ReadMetadata,
            RegisterAction::CheckKeyMatch => RegisterActionView::CheckKeyMatch,
            RegisterAction::CheckCovers { index } => RegisterActionView::CheckCovers { index: *index },
            RegisterAction::ProbeExists => RegisterActionView::ProbeExists,
            RegisterAction::SweepLeftovers => RegisterActionView::SweepLeftovers,
            RegisterAction::StagePair => RegisterActionView::StagePair,
            RegisterAction::MoveAside => RegisterActionView::MoveAside,
            RegisterAction::Install => RegisterActionView::Install,
            RegisterAction::AskInUse => RegisterActionView::AskInUse,
            RegisterAction::TestConfig => RegisterActionView::TestConfig,
            RegisterAction::Reload => RegisterActionView::Reload,
            RegisterAction::RestorePrevious => RegisterActionView::RestorePrevious,
            RegisterAction::Succeed { reloaded, warning, drop_previous } => RegisterActionView::Succeed {
                reloaded: *reloaded,
                warning: match warning { Some(w) => Some(w@), None => None },
                drop_previous: *drop_previous,
            },
            RegisterAction::Fail { status, message, discard_staged, restore_previous } => RegisterActionView::Fail {
                status: *status,
                message: message@,
                discard_staged: *discard_staged,
                restore_previous: *restore_previous,
            },
        }
    }
}

impl View for RegisterEvent {
    type V = RegisterEventView;

    open spec fn view(&self) -> RegisterEventView {
        match self {
            RegisterEvent::Done => RegisterEventView::Done,
            RegisterEvent::Failed(e) => RegisterEventView::Failed(e@),
            RegisterEvent::Answer(b) => RegisterEventView::Answer(*b),
            RegisterEvent::Refused(e) => RegisterEventView::Refused(e@),
        }
    }
}

/// The actions that change the registry or the host's files.
pub open spec fn writes(a: RegisterActionView) -> bool {
    match a {
        RegisterActionView::SweepLeftovers | RegisterActionView::StagePair | RegisterActionView::MoveAside
        | RegisterActionView::Install | RegisterActionView::RestorePrevious | RegisterActionView::Reload => true,
        RegisterActionView::Succeed { drop_previous, .. } => drop_previous,
        RegisterActionView::Fail { discard_staged, restore_previous, .. } => discard_staged || restore_previous,
        _ => false,
    }
}

/// The stages that still check, before anything is written.
pub open spec fn checking(s: RegisterStage) -> bool {
    s == RegisterStage::Metadata || s == RegisterStage::KeyMatch || s is Covers || s == RegisterStage::Exists
}

/// A registration in progress.
pub struct Registration {
    pub alias: String,
    pub must_cover: Vec<String>,
    pub replace: bool,
    pub stage: RegisterStage,
    /// Whether a pair was registered under the alias when the writing began.
    pub existed: bool,
    /// Whether the registered pair was moved aside.
    pub previous_kept: bool,
    /// What nginx said when it refused the new pair.
    pub refusal: String,
}

pub struct RegView {
    pub stage: RegisterStage,
    pub existed: bool,
    pub previous_kept: bool,
    pub refusal: Seq<char>,
}

pub open spec fn fail(st: RegView, status: u16, message: Seq<char>, discard: bool, restore: bool) -> (RegView, RegisterActionView) {
    (
        RegView { stage: RegisterStage::Done, ..st },
        RegisterActionView::Fail { status, message, discard_staged: discard, restore_previous: restore },
    )
}

pub open spec fn then(st: RegView, stage: RegisterStage, a: RegisterActionView) -> (RegView, RegisterActionView) {
    (RegView { stage, ..st }, a)
}

pub open spec fn restore_note(restored: bool) -> Seq<char> {
    if restored {
        " (the previous certificate was put back)"@
    } else {
        " (and the previous certificate could NOT be put back — check the registry directory)"@
    }
}

/// One step of registering `alias`.
pub open spec fn register_next(
    alias: Seq<char>,
    must_cover: Seq<Seq<char>>,
    replace: bool,
    st: RegView,
    ev: RegisterEventView,
) -> (RegView, RegisterActionView) {
    match (st.stage, ev) {
        (RegisterStage::Metadata, RegisterEventView::Done) => then(st, RegisterStage::KeyMatch, RegisterActionView::CheckKeyMatch),
        (RegisterStage::Metadata, RegisterEventView::Failed(reason)) => fail(st, 400, reason, false, false),
        (RegisterStage::KeyMatch, RegisterEventView::Done) => if must_cover.len() > 0 {
            then(st, RegisterStage::Covers { index: 0 }, RegisterActionView::CheckCovers { index: 0 })
        } else {
            then(st, RegisterStage::Exists, RegisterActionView::ProbeExists)
        },
        (RegisterStage::KeyMatch, RegisterEventView::Failed(reason)) => fail(st, 400, reason, false, false),
        (RegisterStage::Covers { index }, RegisterEventView::Done) => if index + 1 < must_cover.len() {
            then(st, RegisterStage::Covers { index: (index + 1) as usize }, RegisterActionView::CheckCovers {
                index: (index + 1) as usize,
            })
        } else {
            then(st, RegisterStage::Exists, RegisterActionView::ProbeExists)
        },
        (RegisterStage::Covers { index }, RegisterEventView::Failed(reason)) => if index < must_cover.len() {
            fail(st, 400, not_covered(must_cover[index as int], reason), false, false)
        } else {
            unexpected(st)
        },
        (RegisterStage::Exists, RegisterEventView::Answer(exists)) => if exists && !replace {
            fail(st, 409, already_registered(alias), false, false)
        } else {
            then(RegView { existed: exists, previous_kept: false, ..st }, RegisterStage::Sweep, RegisterActionView::SweepLeftovers)
        },
        (RegisterStage::Sweep, RegisterEventView::Done) => then(st, RegisterStage::Stage, RegisterActionView::StagePair),
        (RegisterStage::Stage, RegisterEventView::Done) => if st.existed {
            then(st, RegisterStage::MoveAside, RegisterActionView::MoveAside)
        } else {
            then(st, RegisterStage::Install, RegisterActionView::Install)
        },
        (RegisterStage::Stage, RegisterEventView::Failed(e)) => fail(st, 500, e, true, false),
        _ => register_next_late(alias, replace, st, ev),
    }
}

/// The steps after the pair is staged.
pub open spec fn register_next_late(alias: Seq<char>, replace: bool, st: RegView, ev: RegisterEventView) -> (RegView, RegisterActionView) {
    match (st.stage, ev) {
        (RegisterStage::MoveAside, RegisterEventView::Done) =>
            then(RegView { previous_kept: true, ..st }, RegisterStage::Install, RegisterActionView::Install),
        (RegisterStage::MoveAside, RegisterEventView::Failed(e)) =>
            fail(st, 500, "could not move the previous certificate aside: "@ + e, true, false),
        (RegisterStage::Install, RegisterEventView::Done) => then(st, RegisterStage::InUse, RegisterActionView::AskInUse),
        (RegisterStage::Install, RegisterEventView::Failed(e)) =>
            fail(st, 500, "could not install the certificate: "@ + e, true, st.previous_kept),
        (RegisterStage::InUse, RegisterEventView::Answer(used)) => if st.previous_kept && used {
            then(st, RegisterStage::Test, RegisterActionView::TestConfig)
        } else {
            (RegView { stage: RegisterStage::Done, ..st }, RegisterActionView::Succeed {
                reloaded: false, warning: None, drop_previous: st.previous_kept,
            })
        },
        (RegisterStage::Test, RegisterEventView::Done) => then(st, RegisterStage::Reload, RegisterActionView::Reload),
        (RegisterStage::Test, RegisterEventView::Refused(out)) =>
            then(RegView { refusal: out, ..st }, RegisterStage::Restore, RegisterActionView::RestorePrevious),
        (RegisterStage::Test, RegisterEventView::Failed(e)) =>
            then(RegView { refusal: e, ..st }, RegisterStage::Restore, RegisterActionView::RestorePrevious),
        (RegisterStage::Restore, RegisterEventView::Answer(restored)) =>
            fail(st, 502, "nginx refused the configuration with the replaced certificate: "@ + trim(st.refusal) + restore_note(restored), false, false),
        (RegisterStage::Reload, RegisterEventView::Done) =>
            (RegView { stage: RegisterStage::Done, ..st }, RegisterActionView::Succeed {
                reloaded: true, warning: None, drop_previous: st.previous_kept,
            }),
        (RegisterStage::Reload, RegisterEventView::Failed(e)) =>
            (RegView { stage: RegisterStage::Done, ..st }, RegisterActionView::Succeed {
                reloaded: false,
                warning: Some("the certificate was replaced but nginx did not reload: "@ + e),
                drop_previous: st.previous_kept,
            }),
        _ => unexpected(st),
    }
}

/// A report that does not belong to the awaited step ends the registration
/// with nothing more done.
pub open spec fn unexpected(st: RegView) -> (RegView, RegisterActionView) {
    fail(st, 500, Seq::empty(), false, false)
}

impl Registration {
    pub open spec fn state(&self) -> RegView {
        RegView { stage: self.stage, existed: self.existed, previous_kept: self.previous_kept, refusal: self.refusal@ }
    }

    /// Start a registration: the checks on the request itself, then the
    /// certificate's own account of itself.
    pub fn begin(alias: &str, certificate: &str, private_key: &str, replace: bool, must_cover: Vec<String>)
        -> (r: (Registration, RegisterAction))
        ensures
            r.0.alias@ == alias@,
            r.0.must_cover@ == must_cover@,
            r.0.replace == replace,
            !r.0.previous_kept,
            match request_refusal(alias@, certificate@, private_key@) {
                Some(m) => r.0.stage == RegisterStage::Done && r.1@ == (RegisterActionView::Fail {
                    status: 400, message: m, discard_staged: false, restore_previous: false,
                }),
                None => r.0.stage == RegisterStage::Metadata && r.1@ == RegisterActionView::ReadMetadata,
            },
    {
        let refused = if !is_valid_cert_alias(alias) {
            Some(text("the alias must be 1 to 64 lowercase letters, digits or hyphens, starting and ending with a letter or digit — a DNS label shape, like wildcard-2026"))
        } else if trim_v(&chars_of(certificate)).len() == 0 || trim_v(&chars_of(private_key)).len() == 0 {
            Some(text("both the certificate and the private key are required"))
        } else if !holds(private_key, "BEGIN") {
            Some(text("the private key is not PEM — it should start with a BEGIN line"))
        } else {
            None
        };
        let mut reg = Registration {
            alias: text(alias),
            must_cover,
            replace,
            stage: RegisterStage::Metadata,
            existed: false,
            previous_kept: false,
            refusal: String::new(),
        };
        match refused {
            Some(m) => {
                reg.stage = RegisterStage::Done;
                (reg, RegisterAction::Fail { status: 400, message: m, discard_staged: false, restore_previous: false })
            },
            None => (reg, RegisterAction::ReadMetadata),
        }
    }

    /// Take the host's report and say what to do next.
    pub fn step(&mut self, ev: RegisterEvent) -> (a: RegisterAction)
        ensures
            final(self).alias == old(self).alias,
            final(self).must_cover == old(self).must_cover,
            final(self).replace == old(self).replace,
            (final(self).state(), a@) == register_next(
                old(self).alias@, str_views(old(self).must_cover@), old(self).replace, old(self).state(), ev@,
            ),
    {
        match self.stage {
            RegisterStage::Metadata | RegisterStage::KeyMatch | RegisterStage::Covers { .. } | RegisterStage::Exists
            | RegisterStage::Sweep | RegisterStage::Stage => self.check_step(ev),
            _ => self.write_step(ev),
        }
    }

    fn done_fail(&mut self, status: u16, message: String, discard: bool, restore: bool) -> (a: RegisterAction)
        ensures
            final(self).alias == old(self).alias,
            final(self).must_cover == old(self).must_cover,
            final(self).replace == old(self).replace,
            final(self).state() == (RegView { stage: RegisterStage::Done, ..old(self).state() }),
            a@ == (RegisterActionView::Fail { status, message: message@, discard_staged: discard, restore_previous: restore }),
    {
        self.stage = RegisterStage::Done;
        RegisterAction::Fail { status, message, discard_staged: discard, restore_previous: restore }
    }

    fn check_step(&mut self, ev: RegisterEvent) -> (a: RegisterAction)
        requires
            checking(old(self).stage) || old(self).stage == RegisterStage::Sweep || old(self).stage == RegisterStage::Stage,
        ensures
            final(self).alias == old(self).alias,
            final(self).must_cover == old(self).must_cover,
            final(self).replace == old(self).replace,
            (final(self).state(), a@) == register_next(
                old(self).alias@, str_views(old(self).must_cover@), old(self).replace, old(self).state(), ev@,
            ),
    {
        match (self.stage, ev) {
            (RegisterStage::Metadata, RegisterEvent::Done) => {
                self.stage = RegisterStage::KeyMatch;
                RegisterAction::CheckKeyMatch
            },
            (RegisterStage::Metadata, RegisterEvent::Failed(reason)) => self.done_fail(400, reason, false, false),
            (RegisterStage::KeyMatch, RegisterEvent::Done) => {
                if self.must_cover.len() > 0 {
                    self.stage = RegisterStage::Covers { index: 0 };
                    RegisterAction::CheckCovers { index: 0 }
                } else {
                    self.stage = RegisterStage::Exists;
                    RegisterAction::ProbeExists
                }
            },
            (RegisterStage::KeyMatch, RegisterEvent::Failed(reason)) => self.done_fail(400, reason, false, false),
            (RegisterStage::Covers { index }, RegisterEvent::Done) => {
                if index < self.must_cover.len() && index + 1 < self.must_cover.len() {
                    self.stage = RegisterStage::Covers { index: index + 1 };
                    RegisterAction::CheckCovers { index: index + 1 }
                } else {
                    self.stage = RegisterStage::Exists;
                    RegisterAction::ProbeExists
                }
            },
            (RegisterStage::Covers { index }, RegisterEvent::Failed(reason)) => {
                if index < self.must_cover.len() {
                    let mut m = chars_of(self.must_cover[index].as_str());
                    append(&mut m, &chars_of(" is served under this alias and the new certificate does not cover it: "));
                    append(&mut m, &chars_of(reason.as_str()));
                    assert(str_views(self.must_cover@)[index as int] == self.must_cover@[index as int]@);
                    self.done_fail(400, string_of(&m), false, false)
                } else {
                    self.done_fail(500, String::new(), false, false)
                }
            },
            (RegisterStage::Exists, RegisterEvent::Answer(exists)) => {
                if exists && !self.replace {
                    let mut m = chars_of("a certificate named ");
                    append(&mut m, &chars_of(self.alias.as_str()));
                    append(&mut m, &chars_of(" is already registered on this server"));
                    self.done_fail(409, string_of(&m), false, false)
                } else {
                    self.existed = exists;
                    self.previous_kept = false;
                    self.stage = RegisterStage::Sweep;
                    RegisterAction::SweepLeftovers
                }
            },
            (RegisterStage::Sweep, RegisterEvent::Done) => {
                self.stage = RegisterStage::Stage;
                RegisterAction::StagePair
            },
            (RegisterStage::Stage, RegisterEvent::Done) => {
                if self.existed {
                    self.stage = RegisterStage::MoveAside;
                    RegisterAction::MoveAside
                } else {
                    self.stage = RegisterStage::Install;
                    RegisterAction::Install
                }
            },
            (RegisterStage::Stage, RegisterEvent::Failed(e)) => self.done_fail(500, e, true, false),
            _ => self.done_fail(500, String::new(), false, false),
        }
    }

    fn write_step(&mut self, ev: RegisterEvent) -> (a: RegisterAction)
        requires
            !checking(old(self).stage) && old(self).stage != RegisterStage::Sweep && old(self).stage != RegisterStage::Stage,
        ensures
            final(self).alias == old(self).alias,
            final(self).must_cover == old(self).must_cover,
            final(self).replace == old(self).replace,
            (final(self).state(), a@) == register_next(
                old(self).alias@, str_views(old(self).must_cover@), old(self).replace, old(self).state(), ev@,
            ),
    {
        match (self.stage, ev) {
            (RegisterStage::MoveAside, RegisterEvent::Done) => {
                self.previous_kept = true;
                self.stage = RegisterStage::Install;
                RegisterAction::Install
            },
            (RegisterStage::MoveAside, RegisterEvent::Failed(e)) => {
                let mut m = chars_of("could not move the previous certificate aside: ");
                append(&mut m, &chars_of(e.as_str()));
                self.done_fail(500, string_of(&m), true, false)
            },
            (RegisterStage::Install, RegisterEvent::Done) => {
                self.stage = RegisterStage::InUse;
                RegisterAction::AskInUse
            },
            (RegisterStage::Install, RegisterEvent::Failed(e)) => {
                let mut m = chars_of("could not install the certificate: ");
                append(&mut m, &chars_of(e.as_str()));
                let kept = self.previous_kept;
                self.done_fail(500, string_of(&m), true, kept)
            },
            (RegisterStage::InUse, RegisterEvent::Answer(used)) => {
                if self.previous_kept && used {
                    self.stage = RegisterStage::Test;
                    RegisterAction::TestConfig
                } else {
                    self.stage = RegisterStage::Done;
                    RegisterAction::Succeed { reloaded: false, warning: None, drop_previous: self.previous_kept }
                }
            },
            (RegisterStage::Test, RegisterEvent::Done) => {
                self.stage = RegisterStage::Reload;
                RegisterAction::Reload
            },
            (RegisterStage::Test, RegisterEvent::Refused(out)) => {
                self.refusal = out;
                self.stage = RegisterStage::Restore;
                RegisterAction::RestorePrevious
            },
            (RegisterStage::Test, RegisterEvent::Failed(e)) => {
                self.refusal = e;
                self.stage = RegisterStage::Restore;
                RegisterAction::RestorePrevious
            },
            (RegisterStage::Restore, RegisterEvent::Answer(restored)) => {
                let mut m = chars_of("nginx refused the configuration with the replaced certificate: ");
                append(&mut m, &trim_v(&chars_of(self.refusal.as_str())));
                let note = if restored {
                    " (the previous certificate was put back)"
                } else {
                    " (and the previous certificate could NOT be put back — check the registry directory)"
                };
                append(&mut m, &chars_of(note));
                self.done_fail(502, string_of(&m), false, false)
            },
            (RegisterStage::Reload, RegisterEvent::Done) => {
                self.stage = RegisterStage::Done;
                RegisterAction::Succeed { reloaded: true, warning: None, drop_previous: self.previous_kept }
            },
            (RegisterStage::Reload, RegisterEvent::Failed(e)) => {
                let mut m = chars_of("the certificate was replaced but nginx did not reload: ");
                append(&mut m, &chars_of(e.as_str()));
                self.stage = RegisterStage::Done;
                RegisterAction::Succeed { reloaded: false, warning: Some(string_of(&m)), drop_previous: self.previous_kept }
            },
            _ => self.done_fail(500, String::new(), false, false),
        }
    }
}

// ── laws ────────────────────────────────────────────────────────────────

/// Nothing is written while a registration still checks: the only way out
/// of the checks that touches the disk is the sweep that starts the write,
/// once the alias is free or a replacement was asked for.
pub proof fn law_nothing_written_before_checks_pass(
    alias: Seq<char>,
    must_cover: Seq<Seq<char>>,
    replace: bool,
    st: RegView,
    ev: RegisterEventView,
)
    requires checking(st.stage),
    ensures
        ({
            let a = register_next(alias, must_cover, replace, st, ev).1;
            writes(a) ==> (st.stage == RegisterStage::Exists && a == RegisterActionView::SweepLeftovers
                && (ev matches RegisterEventView::Answer(e) && (!e || replace)))
        }),
{
}

/// An alias already registered is refused with a conflict unless a
/// replacement was asked for, and nothing is written.
pub proof fn law_conflict_without_replace(alias: Seq<char>, must_cover: Seq<Seq<char>>, st: RegView)
    requires st.stage == RegisterStage::Exists,
    ensures
        register_next(alias, must_cover, false, st, RegisterEventView::Answer(true)).1 == (RegisterActionView::Fail {
            status: 409, message: already_registered(alias), discard_staged: false, restore_previous: false,
        }),
{
}

/// A replaced pair that nginx refuses is put back before the refusal is
/// answered.
pub proof fn law_refused_replacement_restored(
    alias: Seq<char>,
    must_cover: Seq<Seq<char>>,
    replace: bool,
    st: RegView,
    out: Seq<char>,
)
    requires st.stage == RegisterStage::Test,
    ensures
        register_next(alias, must_cover, replace, st, RegisterEventView::Refused(out)).1 == RegisterActionView::RestorePrevious,
        register_next(alias, must_cover, replace, st, RegisterEventView::Failed(out)).1 == RegisterActionView::RestorePrevious,
{
}

/// nginx is only tested, and the pair only restored, when a previous pair
/// was kept aside.
pub proof fn law_test_only_after_replacement(
    alias: Seq<char>,
    must_cover: Seq<Seq<char>>,
    replace: bool,
    st: RegView,
    ev: RegisterEventView,
)
    requires st.stage == RegisterStage::InUse,
    ensures register_next(alias, must_cover, replace, st, ev).1 == RegisterActionView::TestConfig ==> st.previous_kept,
{
}

// ── asking and removing ─────────────────────────────────────────────────

/// The checks a cover question makes before reading the registry.
pub fn check_covers_request(alias: &str, domain: &str) -> (r: Result<(), Refusal>)
    ensures
        !cert_alias_ok(alias@) ==> (r matches Err(f) && f.status == 400 && f.message@ == "Invalid certificate alias"@),
        cert_alias_ok(alias@) && !domain_ok(domain@) ==> (r matches Err(f) && f.status == 400 && f.message@ == "Invalid domain format"@),
        cert_alias_ok(alias@) && domain_ok(domain@) ==> r is Ok,
{
    if !is_valid_cert_alias(alias) {
        return Err(Refusal { status: 400, message: text("Invalid certificate alias") });
    }
    if !is_valid_domain(domain) {
        return Err(Refusal { status: 400, message: text("Invalid domain format") });
    }
    Ok(())
}

/// How reading the registered pair went.
pub enum ReadOutcome {
    Found,
    NotFound,
    Failed(String),
}

/// The refusal a failed read of the registered pair answers with.
pub fn read_refusal(alias: &str, outcome: ReadOutcome) -> (r: Option<Refusal>)
    ensures
        match outcome {
            ReadOutcome::Found => r is None,
            ReadOutcome::NotFound => r matches Some(f) && f.status == 404 && f.message@ == not_registered(alias@),
            ReadOutcome::Failed(e) => r matches Some(f) && f.status == 500
                && f.message@ == "could not read the registered certificate: "@ + e@,
        },
{
    match outcome {
        ReadOutcome::Found => None,
        ReadOutcome::NotFound => {
            let mut m = chars_of("no certificate named ");
            append(&mut m, &chars_of(alias));
            append(&mut m, &chars_of(" is registered on this server"));
            Some(Refusal { status: 404, message: string_of(&m) })
        },
        ReadOutcome::Failed(e) => {
            let mut m = chars_of("could not read the registered certificate: ");
            append(&mut m, &chars_of(e.as_str()));
            Some(Refusal { status: 500, message: string_of(&m) })
        },
    }
}

pub open spec fn still_referenced(alias: Seq<char>, refs: Seq<Seq<char>>) -> Seq<char> {
    "the certificate named "@ + alias + " is still referenced by "@ + decimal(refs.len()) + " vhost file(s) on this server ("@
        + join(refs, ", "@)
        + "); move those domains to another certificate, or remove the parked configuration, first"@
}

/// Whether a registered pair may be removed, given which vhosts still name
/// it: only when none does, and not when that cannot be told.
pub fn removal_refusal(alias: &str, references: Result<Vec<String>, String>) -> (r: Option<Refusal>)
    ensures
        match references {
            Ok(refs) => if refs@.len() == 0 {
                r is None
            } else {
                r matches Some(f) && f.status == 409 && f.message@ == still_referenced(alias@, str_views(refs@))
            },
            Err(reason) => r matches Some(f) && f.status == 409
                && f.message@ == "cannot tell whether a vhost still names "@ + alias@ + ": "@ + reason@,
        },
{
    match references {
        Ok(refs) => {
            if refs.len() == 0 {
                return None;
            }
            let mut parts: Vec<Vec<char>> = Vec::new();
            let mut j: usize = 0;
            while j < refs.len()
                invariant
                    j <= refs.len(),
                    views(parts@) == str_views(refs@).take(j as int),
                decreases refs.len() - j,
            {
                let c = chars_of(refs[j].as_str());
                proof { lemma_views_push(parts@, c); }
                parts.push(c);
                j += 1;
                assert(views(parts@) =~= str_views(refs@).take(j as int));
            }
            assert(str_views(refs@).take(refs.len() as int) =~= str_views(refs@));
            let mut m = chars_of("the certificate named ");
            append(&mut m, &chars_of(alias));
            append(&mut m, &chars_of(" is still referenced by "));
            append(&mut m, &decimal_v(refs.len() as u64));
            append(&mut m, &chars_of(" vhost file(s) on this server ("));
            append(&mut m, &join_v(&parts, &chars_of(", ")));
            append(&mut m, &chars_of("); move those domains to another certificate, or remove the parked configuration, first"));
            Some(Refusal { status: 409, message: string_of(&m) })
        },
        Err(reason) => {
            let mut m = chars_of("cannot tell whether a vhost still names ");
            append(&mut m, &chars_of(alias));
            append(&mut m, &chars_of(": "));
            append(&mut m, &chars_of(reason.as_str()));
            Some(Refusal { status: 409, message: string_of(&m) })
        },
    }
}

/// Whether a directory in the registry root is a leftover of an earlier
/// request for `alias`: a staging or aside directory of it, older than ten
/// minutes (an age that cannot be read is not old enough).
pub open spec fn leftover(name: Seq<char>, alias: Seq<char>, age_secs: Option<u64>) -> bool {
    (("."@ + alias + ".tmp-"@).is_prefix_of(name) || ("."@ + alias + ".prev-"@).is_prefix_of(name))
        && (age_secs matches Some(a) && a > 600)
}

pub fn is_leftover(name: &str, alias: &str, age_secs: Option<u64>) -> (r: bool)
    ensures r == leftover(name@, alias@, age_secs),
{
    let n = chars_of(name);
    let mut tmp = chars_of(".");
    append(&mut tmp, &chars_of(alias));
    append(&mut tmp, &chars_of(".tmp-"));
    let mut prev = chars_of(".");
    append(&mut prev, &chars_of(alias));
    append(&mut prev, &chars_of(".prev-"));
    let named = crate::text::starts_with_v(&n, &tmp) || crate::text::starts_with_v(&n, &prev);
    let old_enough = match age_secs { Some(a) => a > 600, None => false };
    named && old_enough
}

} // verus!
