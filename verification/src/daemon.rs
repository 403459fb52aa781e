//! The shared state of the real-time protection daemon, its status
//! summary, and the status box that the `status` command prints.

use vstd::prelude::*;

use crate::event::{duration_whole_secs, epoch_duration, secs_since_epoch, system_time_now};
use crate::log::{push_space_padded, space_pad};
use crate::text::{decimal, decimal_string, push_decimal, push_str};
use crate::ui::{concat3, line_views, push_line};

verus! {

broadcast use vstd::string::group_string_axioms;

/// The current time in whole seconds since the Unix epoch (zero for a clock
/// set before it): the whole seconds from the epoch to some clock reading.
fn now_secs() -> (r: u64)
    ensures
        exists|t: std::time::SystemTime| r == duration_whole_secs(#[trigger] epoch_duration(t)),
{
    let now = system_time_now();
    secs_since_epoch(&now)
}

/// The version this library reports for the daemon: the crate's own package
/// version.
pub fn daemon_version() -> (r: &'static str)
    ensures
        r@ == "0.1.0"@,
{
    "0.1.0"
}

/// How the daemon protects the machine. A fresh daemon protects by its rules
/// alone.
#[derive(Debug, Clone, Copy, PartialEq, Eq, Structural)]
pub enum ProtectionMode {
    /// Detection by the rules only.
    RulesOnly,
}

/// A counter after one more step: one more when `step` holds, wrapping to
/// zero past `u64::MAX` as an atomic `fetch_add` does; unchanged otherwise.
pub open spec fn next_count(n: u64, step: bool) -> u64 {
    if !step {
        n
    } else if n == u64::MAX {
        0
    } else {
        (n + 1) as u64
    }
}

fn bump(n: u64) -> (r: u64)
    ensures
        r == next_count(n, true),
{
    if n == u64::MAX {
        0
    } else {
        n + 1
    }
}

/// What the daemon reports of itself.
pub struct DaemonStatus {
    pub running: bool,
    pub started_at: u64,
    pub total_scans: u64,
    pub total_alerts: u64,
    pub watched_dirs: usize,
    pub version: String,
    pub protection_mode: ProtectionMode,
}

/// The state that every task of the daemon shares.
pub struct DaemonState {
    /// When the daemon started, in seconds since the Unix epoch; never changes.
    pub started_at: u64,
    total_scans: u64,
    total_alerts: u64,
    /// The watched directories.
    pub watched_dirs: Vec<String>,
    /// The current protection mode.
    pub protection_mode: ProtectionMode,
}

impl DaemonState {
    /// The number of scans recorded so far.
    pub closed spec fn scan_count(&self) -> u64 {
        self.total_scans
    }

    /// The number of scans recorded so far that produced an alert.
    pub closed spec fn alert_count(&self) -> u64 {
        self.total_alerts
    }

    /// The watched directories.
    pub closed spec fn watched(&self) -> Seq<String> {
        self.watched_dirs@
    }

    /// When the daemon started.
    pub closed spec fn start_time(&self) -> u64 {
        self.started_at
    }

    /// The current protection mode.
    pub closed spec fn mode(&self) -> ProtectionMode {
        self.protection_mode
    }

    /// A fresh state: started now (the whole seconds from the epoch to some
    /// clock reading), nothing scanned yet, protecting by rules only.
    pub fn new(watched_dirs: Vec<String>) -> (r: Self)
        ensures
            r.scan_count() == 0,
            r.alert_count() == 0,
            r.watched() == watched_dirs@,
            r.mode() == ProtectionMode::RulesOnly,
            exists|t: std::time::SystemTime| r.start_time() == duration_whole_secs(#[trigger] epoch_duration(t)),
    {
        DaemonState {
            started_at: now_secs(),
            total_scans: 0,
            total_alerts: 0,
            watched_dirs,
            protection_mode: ProtectionMode::RulesOnly,
        }
    }

    /// Records one finished scan, and one alert if it produced one.
    pub fn record_scan(&mut self, produced_alert: bool)
        ensures
            final(self).scan_count() == next_count(old(self).scan_count(), true),
            final(self).alert_count() == next_count(old(self).alert_count(), produced_alert),
            final(self).start_time() == old(self).start_time(),
            final(self).watched() == old(self).watched(),
            final(self).mode() == old(self).mode(),
    {
        self.total_scans = bump(self.total_scans);
        if produced_alert {
            self.total_alerts = bump(self.total_alerts);
        }
    }

    /// The number of scans so far.
    pub fn total_scans(&self) -> (r: u64)
        ensures
            r == self.scan_count(),
    {
        self.total_scans
    }

    /// The number of alerts so far.
    pub fn total_alerts(&self) -> (r: u64)
        ensures
            r == self.alert_count(),
    {
        self.total_alerts
    }

    /// The status summary sent to clients: running, with the start time,
    /// the counters, the number of watched directories, the daemon's version
    /// and the current protection mode.
    pub fn to_status(&self) -> (r: DaemonStatus)
        ensures
            r.running,
            r.started_at == self.start_time(),
            r.total_scans == self.scan_count(),
            r.total_alerts == self.alert_count(),
            r.watched_dirs == self.watched().len(),
            r.version@ == "0.1.0"@,
            r.protection_mode == self.mode(),
    {
        DaemonStatus {
            running: true,
            started_at: self.started_at,
            total_scans: self.total_scans,
            total_alerts: self.total_alerts,
            watched_dirs: self.watched_dirs.len(),
            version: daemon_version().to_owned(),
            protection_mode: self.protection_mode,
        }
    }
}

/// An uptime of `secs` seconds as `<s>s <m>dk <h>sa`: the seconds within the
/// minute, the minutes within the hour, and the whole hours.
pub open spec fn uptime_spec(secs: nat) -> Seq<char> {
    decimal(secs % 60) + "s "@ + decimal((secs / 60) % 60) + "dk "@ + decimal(secs / 3600) + "sa"@
}

/// The uptime text of the status box.
pub fn uptime_text(secs: u64) -> (r: String)
    ensures
        r@ == uptime_spec(secs as nat),
{
    let mut r = String::new();
    push_decimal(&mut r, secs % 60);
    push_str(&mut r, "s ");
    push_decimal(&mut r, (secs / 60) % 60);
    push_str(&mut r, "dk ");
    push_decimal(&mut r, secs / 3600);
    push_str(&mut r, "sa");
    r
}

/// Whole seconds from `started` to `now`, zero if `now` is not later.
pub open spec fn elapsed_secs(started: u64, now: u64) -> int {
    if now > started { now - started } else { 0 }
}

/// The uptime of a daemon that started at `started` (Unix seconds), at `now`.
pub fn uptime_between(started: u64, now: u64) -> (r: u64)
    ensures
        r == elapsed_secs(started, now),
{
    if now > started {
        now - started
    } else {
        0
    }
}

/// The uptime of the daemon that reported `status`, at the current time
/// (the whole seconds from the epoch to some clock reading).
pub fn uptime_now(status: &DaemonStatus) -> (r: u64)
    ensures
        exists|t: std::time::SystemTime|
            r == elapsed_secs(status.started_at, duration_whole_secs(#[trigger] epoch_duration(t))),
{
    let now = system_time_now();
    let secs = secs_since_epoch(&now);
    uptime_between(status.started_at, secs)
}

/// The lines of the status box for a running daemon.
pub open spec fn status_box(
    version: Seq<char>,
    uptime: Seq<char>,
    scans: nat,
    alerts: nat,
    dirs: nat,
    mode: Seq<char>,
) -> Seq<Seq<char>> {
    seq![
        "╔══════════════════════════════════════╗"@,
        "║     PanicScan Daemon Durumu          ║"@,
        "╠══════════════════════════════════════╣"@,
        "║ Durum     : ✅ Çalışıyor             ║"@,
        "║ Versiyon  : v"@ + space_pad(version, 28) + "║"@,
        "║ Çalışma   : "@ + space_pad(uptime, 28) + "║"@,
        "║ Taranan   : "@ + space_pad(decimal(scans), 28) + "║"@,
        "║ Uyarılar  : "@ + space_pad(decimal(alerts), 28) + "║"@,
        "║ İzlenen   : "@ + decimal(dirs) + " klasör"@ + space_pad(Seq::empty(), 21) + "║"@,
        "║ Koruma    : "@ + mode + "  ║"@,
        "╚══════════════════════════════════════╝"@,
    ]
}

fn padded_row(label: &str, value: &str, width: usize) -> (r: String)
    ensures
        r@ == label@ + space_pad(value@, width as nat) + "║"@,
{
    let mut r = String::new();
    push_str(&mut r, label);
    push_space_padded(&mut r, value, width);
    push_str(&mut r, "║");
    r
}

/// The status box printed for `status`, after `uptime_secs` seconds of
/// running, with the protection mode rendered as `mode`.
pub fn status_lines(status: &DaemonStatus, uptime_secs: u64, mode: &str) -> (r: Vec<String>)
    ensures
        line_views(r@) == status_box(
            status.version@,
            uptime_spec(uptime_secs as nat),
            status.total_scans as nat,
            status.total_alerts as nat,
            status.watched_dirs as nat,
            mode@,
        ),
{
    let mut lines: Vec<String> = Vec::new();
    push_line(&mut lines, String::from_str("╔══════════════════════════════════════╗"));
    push_line(&mut lines, String::from_str("║     PanicScan Daemon Durumu          ║"));
    push_line(&mut lines, String::from_str("╠══════════════════════════════════════╣"));
    push_line(&mut lines, String::from_str("║ Durum     : ✅ Çalışıyor             ║"));
    push_line(&mut lines, padded_row("║ Versiyon  : v", status.version.as_str(), 28));
    let up = uptime_text(uptime_secs);
    push_line(&mut lines, padded_row("║ Çalışma   : ", up.as_str(), 28));
    let scans = decimal_string(status.total_scans);
    push_line(&mut lines, padded_row("║ Taranan   : ", scans.as_str(), 28));
    let alerts = decimal_string(status.total_alerts);
    push_line(&mut lines, padded_row("║ Uyarılar  : ", alerts.as_str(), 28));
    let mut dirs = String::new();
    push_str(&mut dirs, "║ İzlenen   : ");
    push_decimal(&mut dirs, status.watched_dirs as u64);
    push_str(&mut dirs, " klasör");
    proof {
        reveal_strlit("");
    }
    push_line(&mut lines, padded_row(dirs.as_str(), "", 21));
    push_line(&mut lines, concat3("║ Koruma    : ", mode, "  ║"));
    push_line(&mut lines, String::from_str("╚══════════════════════════════════════╝"));
    assert(line_views(lines@) =~= status_box(
        status.version@,
        uptime_spec(uptime_secs as nat),
        status.total_scans as nat,
        status.total_alerts as nat,
        status.watched_dirs as nat,
        mode@,
    ));
    lines
}

/// Alerts never outnumber scans: a state with no more alerts than scans
/// keeps that after any `record_scan`, as long as the scan counter does not
/// wrap.
pub proof fn law_alerts_never_exceed_scans(scans: u64, alerts: u64, produced_alert: bool)
    requires
        alerts <= scans,
        scans < u64::MAX,
    ensures
        next_count(alerts, produced_alert) <= next_count(scans, true),
{
}

} // verus!
