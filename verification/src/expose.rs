//! Putting a deployed app's domain in front of its port: the decisions the
//! proxy leg of a deploy makes, as a machine the host drives.
//!
//! Each step hands the host one thing to do (write a route, render, write,
//! test and reload a vhost, roll it back, wait for DNS, order a certificate)
//! and takes back how it went. The report it accumulates is what the deploy
//! answers with.
use vstd::prelude::*;
use crate::apps::TlsIntent;
use crate::text::{append, chars_of, string_of};

verus! {

/// What the host is asked to do next.
#[derive(Debug, Clone, Copy, PartialEq, Eq, Structural)]
pub enum ExposeAction {
    /// Write the Traefik route for the domain, with or without TLS.
    WriteTraefikRoute { ssl: bool },
    /// Read the registered certificate the intent names.
    ReadRegisteredCert,
    /// Ask whether that certificate covers the domain.
    CheckCover,
    /// Render the proxy vhost, with the registered certificate or as HTTP.
    Render { tls: bool },
    /// Write the rendered vhost where the domain's configuration lives.
    WriteVhost,
    /// Run `nginx -t`.
    TestConfig,
    /// Reload nginx.
    Reload,
    /// Put back the vhost that was there before, or remove the new one.
    RestoreVhost,
    /// Look the domain up (after a five-second pause from the second try on).
    LookupDns { attempt: u32 },
    /// Load or create the ACME account.
    LoadAccount,
    /// Order the certificate.
    ProvisionCert,
    /// Re-render the vhost with the new certificate.
    EnableSsl,
    /// Nothing more; the report is final.
    Finish,
}

/// Which proxy the report says fronts the domain.
#[derive(Debug, Clone, Copy, PartialEq, Eq, Structural)]
pub enum ProxyKind {
    Unset,
    Nginx,
    Traefik,
}

/// How the last action went.
#[derive(Debug)]
pub enum ExposeEvent {
    /// The exposure starts.
    Begin,
    /// The action succeeded (a lookup that resolved is `Resolved(true)`).
    Succeeded,
    /// The action failed with this message.
    Failed(String),
    /// The vhost was written; `live` when the domain is enabled.
    Written { live: bool },
    /// `nginx -t` ran and refused the configuration, with its output.
    Refused(String),
    /// Whether the domain resolved.
    Resolved(bool),
    /// The rollback finished; the note says what it did.
    Restored(String),
}

/// The events as plain values.
pub enum EventView {
    Begin,
    Succeeded,
    Failed(Seq<char>),
    Written { live: bool },
    Refused(Seq<char>),
    Resolved(bool),
    Restored(Seq<char>),
}

impl View for ExposeEvent {
    type V = EventView;

    open spec fn view(&self) -> EventView {
        match self {
            ExposeEvent::Begin => EventView::Begin,
            ExposeEvent::Succeeded => EventView::Succeeded,
            ExposeEvent::Failed(e) => EventView::Failed(e@),
            ExposeEvent::Written { live } => EventView::Written { live: *live },
            ExposeEvent::Refused(e) => EventView::Refused(e@),
            ExposeEvent::Resolved(b) => EventView::Resolved(*b),
            ExposeEvent::Restored(n) => EventView::Restored(n@),
        }
    }
}

/// The fields the deploy's answer carries about the domain. `tls_mode` and
/// `tls_certificate` say whether the intent's mode word and alias are
/// reported.
#[derive(Debug)]
pub struct ExposeReport {
    pub domain: bool,
    pub proxy: ProxyKind,
    pub ssl: bool,
    pub tls_mode: bool,
    pub tls_certificate: bool,
    pub parked: bool,
    pub tls_refused: bool,
    pub ssl_pending: bool,
    pub proxy_warning: Option<String>,
    pub ssl_warning: Option<String>,
}

pub struct ReportView {
    pub domain: bool,
    pub proxy: ProxyKind,
    pub ssl: bool,
    pub tls_mode: bool,
    pub tls_certificate: bool,
    pub parked: bool,
    pub tls_refused: bool,
    pub ssl_pending: bool,
    pub proxy_warning: Option<Seq<char>>,
    pub ssl_warning: Option<Seq<char>>,
}

pub open spec fn opt_view(o: Option<String>) -> Option<Seq<char>> {
    match o {
        Some(s) => Some(s@),
        None => None,
    }
}

impl View for ExposeReport {
    type V = ReportView;

    open spec fn view(&self) -> ReportView {
        ReportView {
            domain: self.domain,
            proxy: self.proxy,
            ssl: self.ssl,
            tls_mode: self.tls_mode,
            tls_certificate: self.tls_certificate,
            parked: self.parked,
            tls_refused: self.tls_refused,
            ssl_pending: self.ssl_pending,
            proxy_warning: opt_view(self.proxy_warning),
            ssl_warning: opt_view(self.ssl_warning),
        }
    }
}

/// A report with nothing in it.
pub open spec fn empty_report() -> ReportView {
    ReportView {
        domain: false,
        proxy: ProxyKind::Unset,
        ssl: false,
        tls_mode: false,
        tls_certificate: false,
        parked: false,
        tls_refused: false,
        ssl_pending: false,
        proxy_warning: None,
        ssl_warning: None,
    }
}

// ── the sentences ───────────────────────────────────────────────────────

pub open spec fn traefik_cannot_serve() -> Seq<char> {
    "registered certificates are served by nginx; this server proxies through Traefik"@
}

pub open spec fn not_registered(alias: Seq<char>, domain: Seq<char>) -> Seq<char> {
    "no certificate named "@ + alias + " is registered on this server, so the vhost for "@ + domain
        + " was left as it was rather than served over plain HTTP. Register the certificate and redeploy."@
}

pub open spec fn does_not_cover(alias: Seq<char>, domain: Seq<char>, reason: Seq<char>) -> Seq<char> {
    "the registered certificate "@ + alias + " cannot serve "@ + domain + ": "@ + reason
        + " The vhost was left as it was."@
}

pub open spec fn parked_note(domain: Seq<char>) -> Seq<char> {
    domain + " is disabled, so the proxy configuration was saved but is not serving. Enable the site to bring it up."@
}

pub open spec fn not_reloaded(domain: Seq<char>, e: Seq<char>) -> Seq<char> {
    "the HTTPS vhost for "@ + domain + " was written but nginx did not reload: "@ + e
        + ". Redeploy the stack, or reload nginx, to bring it into service."@
}

pub open spec fn retry_note(what: Seq<char>, e: Seq<char>) -> Seq<char> {
    what + e + " — retry from panel"@
}

// ── the machine ─────────────────────────────────────────────────────────

pub open spec fn finish(r: ReportView) -> (Option<ExposeAction>, ReportView, ExposeAction) {
    (Some(ExposeAction::Finish), r, ExposeAction::Finish)
}

pub open spec fn go(r: ReportView, a: ExposeAction) -> (Option<ExposeAction>, ReportView, ExposeAction) {
    (Some(a), r, a)
}

pub open spec fn warn(r: ReportView, w: Seq<char>) -> ReportView {
    ReportView { proxy_warning: Some(w), ..r }
}

pub open spec fn ssl_failed(r: ReportView, w: Seq<char>) -> ReportView {
    ReportView { ssl_warning: Some(w), ssl_pending: true, ..r }
}

/// The first step: which leg the intent and the proxy choose.
pub open spec fn expose_begin(tls: TlsIntent, use_traefik: bool, r: ReportView) -> (Option<ExposeAction>, ReportView, ExposeAction) {
    if use_traefik {
        if tls is Provided {
            finish(ReportView { tls_refused: true, ..warn(r, traefik_cannot_serve()) })
        } else {
            go(r, ExposeAction::WriteTraefikRoute { ssl: tls is Acme })
        }
    } else if tls is Provided {
        go(r, ExposeAction::ReadRegisteredCert)
    } else {
        go(r, ExposeAction::Render { tls: false })
    }
}

/// Where the machine goes when `awaited`'s result arrives as `ev`: the next
/// thing awaited, the report, and the action handed to the host. A result
/// that does not belong to the awaited action, or arrives after the end,
/// finishes with the report as it is.
pub open spec fn expose_next(
    domain: Seq<char>,
    tls: TlsIntent,
    use_traefik: bool,
    awaited: Option<ExposeAction>,
    r: ReportView,
    ev: EventView,
) -> (Option<ExposeAction>, ReportView, ExposeAction) {
    match awaited {
        None => match ev {
            EventView::Begin => expose_begin(tls, use_traefik, r),
            _ => finish(r),
        },
        Some(a) => match a {
            ExposeAction::WriteTraefikRoute { .. } => match ev {
                EventView::Succeeded => finish(ReportView {
                    domain: true,
                    proxy: ProxyKind::Traefik,
                    tls_mode: true,
                    ssl: r.ssl || tls is Acme,
                    ..r
                }),
                EventView::Failed(e) => finish(warn(r, "Traefik config failed: "@ + e)),
                _ => finish(r),
            },
            ExposeAction::ReadRegisteredCert => match (tls, ev) {
                (TlsIntent::Provided { .. }, EventView::Succeeded) => go(r, ExposeAction::CheckCover),
                (TlsIntent::Provided { alias }, EventView::Failed(_)) =>
                    finish(ReportView { tls_refused: true, ..warn(r, not_registered(alias@, domain)) }),
                _ => finish(r),
            },
            ExposeAction::CheckCover => match (tls, ev) {
                (TlsIntent::Provided { .. }, EventView::Succeeded) => go(r, ExposeAction::Render { tls: true }),
                (TlsIntent::Provided { alias }, EventView::Failed(reason)) =>
                    finish(ReportView { tls_refused: true, ..warn(r, does_not_cover(alias@, domain, reason)) }),
                _ => finish(r),
            },
            ExposeAction::Render { .. } => match ev {
                EventView::Succeeded => go(r, ExposeAction::WriteVhost),
                EventView::Failed(e) => finish(warn(r, "Failed to render nginx config: "@ + e)),
                _ => finish(r),
            },
            ExposeAction::WriteVhost => match ev {
                EventView::Failed(e) => finish(warn(r, "Failed to write nginx config: "@ + e)),
                EventView::Written { live } => if live {
                    go(r, ExposeAction::TestConfig)
                } else if tls is Provided {
                    finish(ReportView {
                        domain: true,
                        ssl: true,
                        parked: true,
                        tls_mode: true,
                        tls_certificate: true,
                        ..warn(r, parked_note(domain))
                    })
                } else {
                    finish(warn(r, parked_note(domain)))
                },
                _ => finish(r),
            },
            ExposeAction::TestConfig => match ev {
                EventView::Succeeded => go(r, ExposeAction::Reload),
                EventView::Refused(out) => go(warn(r, "Nginx config test failed: "@ + out), ExposeAction::RestoreVhost),
                EventView::Failed(e) => go(warn(r, "Nginx test error: "@ + e), ExposeAction::RestoreVhost),
                _ => finish(r),
            },
            ExposeAction::RestoreVhost => match ev {
                EventView::Restored(note) => finish(warn(r, match r.proxy_warning {
                    Some(w) => w + note,
                    None => note,
                })),
                _ => finish(r),
            },
            ExposeAction::Reload => if tls is Provided {
                match ev {
                    EventView::Succeeded => finish(ReportView {
                        domain: true,
                        proxy: ProxyKind::Nginx,
                        ssl: true,
                        tls_mode: true,
                        tls_certificate: true,
                        ..r
                    }),
                    EventView::Failed(e) => finish(ReportView { tls_refused: true, ..warn(r, not_reloaded(domain, e)) }),
                    _ => finish(r),
                }
            } else {
                match ev {
                    EventView::Succeeded | EventView::Failed(_) => {
                        let served = ReportView { domain: true, proxy: ProxyKind::Nginx, tls_mode: true, ..r };
                        if tls is Acme { go(served, ExposeAction::LookupDns { attempt: 0 }) } else { finish(served) }
                    },
                    _ => finish(r),
                }
            },
            ExposeAction::LookupDns { attempt } => match ev {
                EventView::Resolved(ok) => if tls is Acme && r.proxy == ProxyKind::Nginx {
                    if ok || attempt >= 5 {
                        go(r, ExposeAction::LoadAccount)
                    } else {
                        go(r, ExposeAction::LookupDns { attempt: (attempt + 1) as u32 })
                    }
                } else {
                    finish(r)
                },
                _ => finish(r),
            },
            ExposeAction::LoadAccount => if tls is Acme && r.proxy == ProxyKind::Nginx {
                match ev {
                    EventView::Succeeded => go(r, ExposeAction::ProvisionCert),
                    EventView::Failed(e) => finish(ssl_failed(r, retry_note("ACME account failed: "@, e))),
                    _ => finish(r),
                }
            } else {
                finish(r)
            },
            ExposeAction::ProvisionCert => if tls is Acme && r.proxy == ProxyKind::Nginx {
                match ev {
                    EventView::Succeeded => go(r, ExposeAction::EnableSsl),
                    EventView::Failed(e) => finish(ssl_failed(r, retry_note("SSL provisioning failed: "@, e))),
                    _ => finish(r),
                }
            } else {
                finish(r)
            },
            ExposeAction::EnableSsl => if tls is Acme && r.proxy == ProxyKind::Nginx {
                match ev {
                    EventView::Succeeded => finish(ReportView { ssl: true, ..r }),
                    EventView::Failed(e) => finish(ssl_failed(r, retry_note("SSL enable failed: "@, e))),
                    _ => finish(r),
                }
            } else {
                finish(r)
            },
            ExposeAction::Finish => finish(r),
        },
    }
}

/// An exposure in progress.
pub struct Exposure<'a> {
    pub domain: &'a str,
    pub tls: TlsIntent<'a>,
    pub use_traefik: bool,
    /// The action whose result is awaited; `None` before the start.
    pub awaited: Option<ExposeAction>,
    pub report: ExposeReport,
}

fn text(a: &str) -> (r: String)
    ensures r@ == a@,
{
    string_of(&chars_of(a))
}

fn cat(a: &str, b: &str) -> (r: String)
    ensures r@ == a@ + b@,
{
    let mut v = chars_of(a);
    append(&mut v, &chars_of(b));
    string_of(&v)
}

fn cat3(a: &str, b: &str, c: &str) -> (r: String)
    ensures r@ == a@ + b@ + c@,
{
    let mut v = chars_of(a);
    append(&mut v, &chars_of(b));
    append(&mut v, &chars_of(c));
    string_of(&v)
}

fn cat5(a: &str, b: &str, c: &str, d: &str, e: &str) -> (r: String)
    ensures r@ == a@ + b@ + c@ + d@ + e@,
{
    let mut v = chars_of(a);
    append(&mut v, &chars_of(b));
    append(&mut v, &chars_of(c));
    append(&mut v, &chars_of(d));
    append(&mut v, &chars_of(e));
    string_of(&v)
}

fn cat7(a: &str, b: &str, c: &str, d: &str, e: &str, f: &str, g: &str) -> (r: String)
    ensures r@ == a@ + b@ + c@ + d@ + e@ + f@ + g@,
{
    let mut v = chars_of(a);
    append(&mut v, &chars_of(b));
    append(&mut v, &chars_of(c));
    append(&mut v, &chars_of(d));
    append(&mut v, &chars_of(e));
    append(&mut v, &chars_of(f));
    append(&mut v, &chars_of(g));
    string_of(&v)
}

impl<'a> Exposure<'a> {
    /// An exposure of `domain` that has not started.
    pub fn new(domain: &'a str, tls: TlsIntent<'a>, use_traefik: bool) -> (r: Exposure<'a>)
        ensures
            r.domain == domain,
            r.tls == tls,
            r.use_traefik == use_traefik,
            r.awaited is None,
            r.report@ == empty_report(),
    {
        Exposure {
            domain,
            tls,
            use_traefik,
            awaited: None,
            report: ExposeReport {
                domain: false,
                proxy: ProxyKind::Unset,
                ssl: false,
                tls_mode: false,
                tls_certificate: false,
                parked: false,
                tls_refused: false,
                ssl_pending: false,
                proxy_warning: None,
                ssl_warning: None,
            },
        }
    }

    /// Take the result of the awaited action and say what to do next.
    pub fn step(&mut self, ev: ExposeEvent) -> (a: ExposeAction)
        ensures
            final(self).domain == old(self).domain,
            final(self).tls == old(self).tls,
            final(self).use_traefik == old(self).use_traefik,
            (final(self).awaited, final(self).report@, a) == expose_next(
                old(self).domain@, old(self).tls, old(self).use_traefik, old(self).awaited, old(self).report@, ev@,
            ),
    {
        let ghost before = self.report@;
        let ghost evv = ev@;
        let ghost o = outcome(self.domain@, self.tls, self.use_traefik, self.awaited, before, evv);
        proof { lemma_awaits_what_it_hands_out(self.domain@, self.tls, self.use_traefik, self.awaited, before, evv); }
        let a = match self.awaited {
            None => match ev {
                ExposeEvent::Begin => begin_step(&mut self.report, self.tls, self.use_traefik),
                _ => ExposeAction::Finish,
            },
            Some(awaited) => match awaited {
                ExposeAction::WriteTraefikRoute { .. } => traefik_step(&mut self.report, self.tls, awaited, ev),
                ExposeAction::ReadRegisteredCert | ExposeAction::CheckCover =>
                    cert_step(&mut self.report, self.domain, self.tls, awaited, ev),
                ExposeAction::Render { .. } | ExposeAction::WriteVhost =>
                    write_step(&mut self.report, self.domain, self.tls, awaited, ev),
                ExposeAction::TestConfig | ExposeAction::RestoreVhost => test_step(&mut self.report, awaited, ev),
                ExposeAction::Reload => reload_step(&mut self.report, self.domain, self.tls, ev),
                ExposeAction::LookupDns { .. } | ExposeAction::LoadAccount | ExposeAction::ProvisionCert
                | ExposeAction::EnableSsl => acme_step(&mut self.report, self.tls, awaited, ev),
                ExposeAction::Finish => ExposeAction::Finish,
            },
        };
        assert((self.report@, a) == o);
        self.awaited = Some(a);
        a
    }
}

/// The machine always awaits the action it has just handed out.
proof fn lemma_awaits_what_it_hands_out(
    domain: Seq<char>,
    tls: TlsIntent,
    use_traefik: bool,
    awaited: Option<ExposeAction>,
    r: ReportView,
    ev: EventView,
)
    ensures
        expose_next(domain, tls, use_traefik, awaited, r, ev).0 == Some(expose_next(domain, tls, use_traefik, awaited, r, ev).2),
{
}

/// The outcome of `expose_next` without the awaited action, which is always
/// the action handed out.
pub open spec fn outcome(
    domain: Seq<char>,
    tls: TlsIntent,
    use_traefik: bool,
    awaited: Option<ExposeAction>,
    r: ReportView,
    ev: EventView,
) -> (ReportView, ExposeAction) {
    let t = expose_next(domain, tls, use_traefik, awaited, r, ev);
    (t.1, t.2)
}

fn begin_step(report: &mut ExposeReport, tls: TlsIntent, use_traefik: bool) -> (a: ExposeAction)
    ensures (final(report)@, a) == outcome(Seq::empty(), tls, use_traefik, None, old(report)@, EventView::Begin),
{
    if use_traefik {
        match tls {
            TlsIntent::Provided { .. } => {
                report.proxy_warning = Some(text(
                    "registered certificates are served by nginx; this server proxies through Traefik",
                ));
                report.tls_refused = true;
                ExposeAction::Finish
            },
            TlsIntent::Acme { .. } => ExposeAction::WriteTraefikRoute { ssl: true },
            TlsIntent::NoTls => ExposeAction::WriteTraefikRoute { ssl: false },
        }
    } else {
        match tls {
            TlsIntent::Provided { .. } => ExposeAction::ReadRegisteredCert,
            _ => ExposeAction::Render { tls: false },
        }
    }
}

fn traefik_step(report: &mut ExposeReport, tls: TlsIntent, awaited: ExposeAction, ev: ExposeEvent) -> (a: ExposeAction)
    requires awaited is WriteTraefikRoute,
    ensures
        forall|d: Seq<char>, u: bool| (final(report)@, a) == #[trigger] outcome(d, tls, u, Some(awaited), old(report)@, ev@),
{
    match ev {
        ExposeEvent::Succeeded => {
            report.domain = true;
            report.proxy = ProxyKind::Traefik;
            report.tls_mode = true;
            if let TlsIntent::Acme { .. } = tls {
                report.ssl = true;
            }
            ExposeAction::Finish
        },
        ExposeEvent::Failed(e) => {
            report.proxy_warning = Some(cat("Traefik config failed: ", e.as_str()));
            ExposeAction::Finish
        },
        _ => ExposeAction::Finish,
    }
}

fn cert_step(report: &mut ExposeReport, domain: &str, tls: TlsIntent, awaited: ExposeAction, ev: ExposeEvent) -> (a: ExposeAction)
    requires awaited == ExposeAction::ReadRegisteredCert || awaited == ExposeAction::CheckCover,
    ensures
        forall|u: bool| (final(report)@, a) == #[trigger] outcome(domain@, tls, u, Some(awaited), old(report)@, ev@),
{
    match (tls, ev) {
        (TlsIntent::Provided { .. }, ExposeEvent::Succeeded) => match awaited {
            ExposeAction::ReadRegisteredCert => ExposeAction::CheckCover,
            _ => ExposeAction::Render { tls: true },
        },
        (TlsIntent::Provided { alias }, ExposeEvent::Failed(reason)) => {
            let w = match awaited {
                ExposeAction::ReadRegisteredCert => cat5(
                    "no certificate named ", alias, " is registered on this server, so the vhost for ", domain,
                    " was left as it was rather than served over plain HTTP. Register the certificate and redeploy.",
                ),
                _ => cat7(
                    "the registered certificate ", alias, " cannot serve ", domain, ": ", reason.as_str(),
                    " The vhost was left as it was.",
                ),
            };
            report.proxy_warning = Some(w);
            report.tls_refused = true;
            ExposeAction::Finish
        },
        _ => ExposeAction::Finish,
    }
}

fn write_step(report: &mut ExposeReport, domain: &str, tls: TlsIntent, awaited: ExposeAction, ev: ExposeEvent) -> (a: ExposeAction)
    requires awaited is Render || awaited == ExposeAction::WriteVhost,
    ensures
        forall|u: bool| (final(report)@, a) == #[trigger] outcome(domain@, tls, u, Some(awaited), old(report)@, ev@),
{
    match ev {
        ExposeEvent::Succeeded => match awaited {
            ExposeAction::WriteVhost => ExposeAction::Finish,
            _ => ExposeAction::WriteVhost,
        },
        ExposeEvent::Failed(e) => {
            let w = match awaited {
                ExposeAction::WriteVhost => cat("Failed to write nginx config: ", e.as_str()),
                _ => cat("Failed to render nginx config: ", e.as_str()),
            };
            report.proxy_warning = Some(w);
            ExposeAction::Finish
        },
        ExposeEvent::Written { live } => match awaited {
            ExposeAction::WriteVhost => {
                if live {
                    ExposeAction::TestConfig
                } else {
                    report.proxy_warning = Some(cat(
                        domain,
                        " is disabled, so the proxy configuration was saved but is not serving. Enable the site to bring it up.",
                    ));
                    if let TlsIntent::Provided { .. } = tls {
                        report.domain = true;
                        report.ssl = true;
                        report.parked = true;
                        report.tls_mode = true;
                        report.tls_certificate = true;
                    }
                    ExposeAction::Finish
                }
            },
            _ => ExposeAction::Finish,
        },
        _ => ExposeAction::Finish,
    }
}

fn test_step(report: &mut ExposeReport, awaited: ExposeAction, ev: ExposeEvent) -> (a: ExposeAction)
    requires awaited == ExposeAction::TestConfig || awaited == ExposeAction::RestoreVhost,
    ensures
        forall|d: Seq<char>, t: TlsIntent, u: bool|
            (final(report)@, a) == #[trigger] outcome(d, t, u, Some(awaited), old(report)@, ev@),
{
    match (awaited, ev) {
        (ExposeAction::TestConfig, ExposeEvent::Succeeded) => ExposeAction::Reload,
        (ExposeAction::TestConfig, ExposeEvent::Refused(out)) => {
            report.proxy_warning = Some(cat("Nginx config test failed: ", out.as_str()));
            ExposeAction::RestoreVhost
        },
        (ExposeAction::TestConfig, ExposeEvent::Failed(e)) => {
            report.proxy_warning = Some(cat("Nginx test error: ", e.as_str()));
            ExposeAction::RestoreVhost
        },
        (ExposeAction::RestoreVhost, ExposeEvent::Restored(note)) => {
            let w = match &report.proxy_warning {
                Some(w) => cat(w.as_str(), note.as_str()),
                None => text(note.as_str()),
            };
            report.proxy_warning = Some(w);
            ExposeAction::Finish
        },
        _ => ExposeAction::Finish,
    }
}

fn reload_step(report: &mut ExposeReport, domain: &str, tls: TlsIntent, ev: ExposeEvent) -> (a: ExposeAction)
    ensures
        forall|u: bool|
            (final(report)@, a) == #[trigger] outcome(domain@, tls, u, Some(ExposeAction::Reload), old(report)@, ev@),
{
    match tls {
        TlsIntent::Provided { .. } => match ev {
            ExposeEvent::Succeeded => {
                report.domain = true;
                report.proxy = ProxyKind::Nginx;
                report.ssl = true;
                report.tls_mode = true;
                report.tls_certificate = true;
                ExposeAction::Finish
            },
            ExposeEvent::Failed(e) => {
                report.proxy_warning = Some(cat5(
                    "the HTTPS vhost for ", domain, " was written but nginx did not reload: ", e.as_str(),
                    ". Redeploy the stack, or reload nginx, to bring it into service.",
                ));
                report.tls_refused = true;
                ExposeAction::Finish
            },
            _ => ExposeAction::Finish,
        },
        _ => match ev {
            ExposeEvent::Succeeded | ExposeEvent::Failed(_) => {
                report.domain = true;
                report.proxy = ProxyKind::Nginx;
                report.tls_mode = true;
                match tls {
                    TlsIntent::Acme { .. } => ExposeAction::LookupDns { attempt: 0 },
                    _ => ExposeAction::Finish,
                }
            },
            _ => ExposeAction::Finish,
        },
    }
}

fn acme_step(report: &mut ExposeReport, tls: TlsIntent, awaited: ExposeAction, ev: ExposeEvent) -> (a: ExposeAction)
    requires
        awaited is LookupDns || awaited == ExposeAction::LoadAccount || awaited == ExposeAction::ProvisionCert
            || awaited == ExposeAction::EnableSsl,
    ensures
        forall|d: Seq<char>, u: bool|
            (final(report)@, a) == #[trigger] outcome(d, tls, u, Some(awaited), old(report)@, ev@),
{
    let acme = match tls { TlsIntent::Acme { .. } => true, _ => false };
    if !(acme && report.proxy == ProxyKind::Nginx) {
        return ExposeAction::Finish;
    }
    match (awaited, ev) {
        (ExposeAction::LookupDns { attempt }, ExposeEvent::Resolved(ok)) => {
            if ok || attempt >= 5 {
                ExposeAction::LoadAccount
            } else {
                ExposeAction::LookupDns { attempt: attempt + 1 }
            }
        },
        (ExposeAction::LoadAccount, ExposeEvent::Succeeded) => ExposeAction::ProvisionCert,
        (ExposeAction::ProvisionCert, ExposeEvent::Succeeded) => ExposeAction::EnableSsl,
        (ExposeAction::EnableSsl, ExposeEvent::Succeeded) => {
            report.ssl = true;
            ExposeAction::Finish
        },
        (ExposeAction::LoadAccount, ExposeEvent::Failed(e)) => {
            report.ssl_warning = Some(cat3("ACME account failed: ", e.as_str(), " — retry from panel"));
            report.ssl_pending = true;
            ExposeAction::Finish
        },
        (ExposeAction::ProvisionCert, ExposeEvent::Failed(e)) => {
            report.ssl_warning = Some(cat3("SSL provisioning failed: ", e.as_str(), " — retry from panel"));
            report.ssl_pending = true;
            ExposeAction::Finish
        },
        (ExposeAction::EnableSsl, ExposeEvent::Failed(e)) => {
            report.ssl_warning = Some(cat3("SSL enable failed: ", e.as_str(), " — retry from panel"));
            report.ssl_pending = true;
            ExposeAction::Finish
        },
        _ => ExposeAction::Finish,
    }
}

// ── laws ────────────────────────────────────────────────────────────────

/// A domain that names a registered certificate is never rendered as plain
/// HTTP, never handed to Traefik, and never sent through an ACME order.
pub proof fn law_provided_never_served_plain(
    domain: Seq<char>,
    tls: TlsIntent,
    use_traefik: bool,
    awaited: Option<ExposeAction>,
    r: ReportView,
    ev: EventView,
)
    requires tls is Provided,
    ensures
        ({
            let a = expose_next(domain, tls, use_traefik, awaited, r, ev).2;
            &&& a != (ExposeAction::Render { tls: false })
            &&& !(a is WriteTraefikRoute)
            &&& !(a is LookupDns) && a != ExposeAction::LoadAccount
            &&& a != ExposeAction::ProvisionCert && a != ExposeAction::EnableSsl
        }),
{
}

/// Through Traefik, a registered certificate is refused in words at once and
/// nothing is written.
pub proof fn law_traefik_refuses_provided(domain: Seq<char>, alias: &str, r: ReportView)
    ensures
        ({
            let (aw, r2, a) = expose_next(domain, TlsIntent::Provided { alias }, true, None, r, EventView::Begin);
            &&& a == ExposeAction::Finish
            &&& r2.tls_refused
            &&& r2.proxy_warning == Some(traefik_cannot_serve())
            &&& r2.proxy == r.proxy && r2.ssl == r.ssl && r2.domain == r.domain
        }),
{
}

/// The report claims TLS only for an intent that asked for it.
pub proof fn law_ssl_only_when_asked(
    domain: Seq<char>,
    use_traefik: bool,
    awaited: Option<ExposeAction>,
    r: ReportView,
    ev: EventView,
)
    requires !r.ssl,
    ensures !expose_next(domain, TlsIntent::NoTls, use_traefik, awaited, r, ev).1.ssl,
{
}

/// A certificate is only ordered for a domain nginx already proxies.
pub proof fn law_acme_after_proxy(
    domain: Seq<char>,
    tls: TlsIntent,
    use_traefik: bool,
    awaited: Option<ExposeAction>,
    r: ReportView,
    ev: EventView,
)
    ensures
        ({
            let (_, r2, a) = expose_next(domain, tls, use_traefik, awaited, r, ev);
            (a is LookupDns || a == ExposeAction::LoadAccount || a == ExposeAction::ProvisionCert
                || a == ExposeAction::EnableSsl) ==> r2.proxy == ProxyKind::Nginx && tls is Acme
        }),
{
}

/// Every domain the machine hands work for is looked up at most six times
/// before the order is attempted.
pub proof fn law_dns_wait_bounded(
    domain: Seq<char>,
    tls: TlsIntent,
    use_traefik: bool,
    awaited: Option<ExposeAction>,
    r: ReportView,
    ev: EventView,
)
    requires awaited matches Some(ExposeAction::LookupDns { attempt }) ==> attempt <= 5,
    ensures
        expose_next(domain, tls, use_traefik, awaited, r, ev).2 matches ExposeAction::LookupDns { attempt } ==> attempt <= 5,
{
}

// ── taking a domain down ────────────────────────────────────────────────

/// What removing an app does to the vhost fronting its domain.
pub struct VhostCleanup {
    /// The vhost is this app's and is removed (and nginx reloaded).
    pub remove_vhost: bool,
    /// Said to the caller when the vhost serves something else and stays.
    pub warning: Option<String>,
}

/// The vhost goes only when it exists and still proxies to this app's
/// port; one that fronts something else now stays, with a warning.
pub fn vhost_cleanup(domain: &str, exists: bool, ours: bool) -> (r: VhostCleanup)
    ensures
        r.remove_vhost == (exists && ours),
        match r.warning {
            Some(w) => exists && !ours
                && w@ == "The nginx configuration for "@ + domain@ + " is serving something else and was left in place."@,
            None => !(exists && !ours),
        },
{
    if exists && !ours {
        let mut v = chars_of("The nginx configuration for ");
        append(&mut v, &chars_of(domain));
        append(&mut v, &chars_of(" is serving something else and was left in place."));
        VhostCleanup { remove_vhost: false, warning: Some(string_of(&v)) }
    } else {
        VhostCleanup { remove_vhost: exists, warning: None }
    }
}

/// The domain's certificates go only with the vhost that names them, and
/// only when no other vhost points at them.
pub fn remove_domain_certs(removed_vhost: bool, certs_exist: bool, used_elsewhere: bool) -> (r: bool)
    ensures r == (removed_vhost && certs_exist && !used_elsewhere),
{
    removed_vhost && certs_exist && !used_elsewhere
}

} // verus!
