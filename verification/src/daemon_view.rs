//! What the command line shows of the daemon's answers: the status box, the
//! result of a one-off scan, the list of recorded scans, and the framing of
//! the newline-delimited JSON messages exchanged with the daemon.

use vstd::prelude::*;

use crate::daemon::DaemonStatus;
use crate::log::{push_space_padded, space_pad};
use crate::log_rotation::{date_of, push_padded_decimal, zero_pad};
use crate::text::{chars_of, decimal, decimal_string, push_char, push_decimal, push_str, string_of, to_uppercase, trim, trimmed, uppercase};
use crate::ui::{byte_len, concat3, lemma_byte_len_concat, line_views, push_line, utf8_len};

verus! {

broadcast use vstd::string::group_string_axioms;

/// What the daemon answers to a one-off scan request.
pub struct ScanResult {
    pub path: String,
    pub finding_count: usize,
    pub highest_severity: String,
    pub duration_ms: u64,
}

/// One scan that the daemon recorded.
pub struct ScanEvent {
    /// When it was detected, in seconds since the Unix epoch (UTC).
    pub detected_at: i64,
    pub severity: String,
    pub finding_count: usize,
}

/// The line sent to the daemon for a request serialised as `json`.
pub fn request_line(json: &str) -> (r: String)
    ensures
        r@ == json@.push('\n'),
{
    let mut r = String::new();
    push_str(&mut r, json);
    push_char(&mut r, '\n');
    r
}

/// The JSON text of a reply line: the line without surrounding whitespace.
pub fn response_json(line: &str) -> (r: String)
    ensures
        r@ == trimmed(line@),
{
    let cs = chars_of(line);
    let t = trim(&cs);
    string_of(&t)
}

/// An uptime of `secs` seconds as `<hh>sa <mm>dk <ss>sn`, each part at least
/// two digits.
pub open spec fn hms_spec(secs: nat) -> Seq<char> {
    zero_pad(decimal(secs / 3600), 2) + "sa "@ + zero_pad(decimal((secs % 3600) / 60), 2) + "dk "@
        + zero_pad(decimal(secs % 60), 2) + "sn"@
}

/// The status box that `panicscan status` prints.
pub open spec fn cli_status_box(
    version: Seq<char>,
    uptime_secs: nat,
    scans: nat,
    alerts: nat,
    dirs: nat,
    mode: Seq<char>,
) -> Seq<Seq<char>> {
    seq![
        "╔══════════════════════════════════════════════╗"@,
        "║      🛡️  PanicScan Daemon Durumu             ║"@,
        "╠══════════════════════════════════════════════╣"@,
        "║ Durum     : ✅ Çalışıyor                     ║"@,
        "║ Versiyon  : v"@ + space_pad(version, 33) + "║"@,
        "║ Çalışma   : "@ + hms_spec(uptime_secs) + space_pad(Seq::empty(), 20) + "║"@,
        "║ Taranan   : "@ + space_pad(decimal(scans), 34) + "║"@,
        "║ Uyarılar  : "@ + space_pad(decimal(alerts), 34) + "║"@,
        "║ İzlenen   : "@ + decimal(dirs) + " klasör"@ + space_pad(Seq::empty(), 27) + "║"@,
        "╠══════════════════════════════════════════════╣"@,
        "║ "@ + mode + "  ║"@,
        "╚══════════════════════════════════════════════╝"@,
    ]
}

fn padded_row(label: &str, value: &str, width: usize, end: &str) -> (r: String)
    ensures
        r@ == label@ + space_pad(value@, width as nat) + end@,
{
    let mut r = String::new();
    push_str(&mut r, label);
    push_space_padded(&mut r, value, width);
    push_str(&mut r, end);
    r
}

/// The status box for a daemon that reported `status`, up for `uptime_secs`
/// seconds, with its protection mode rendered as `mode`.
pub fn cli_status_lines(status: &DaemonStatus, uptime_secs: u64, mode: &str) -> (r: Vec<String>)
    ensures
        line_views(r@) == cli_status_box(
            status.version@,
            uptime_secs as nat,
            status.total_scans as nat,
            status.total_alerts as nat,
            status.watched_dirs as nat,
            mode@,
        ),
{
    proof {
        reveal_strlit("");
    }
    let mut lines: Vec<String> = Vec::new();
    push_line(&mut lines, String::from_str("╔══════════════════════════════════════════════╗"));
    push_line(&mut lines, String::from_str("║      🛡️  PanicScan Daemon Durumu             ║"));
    push_line(&mut lines, String::from_str("╠══════════════════════════════════════════════╣"));
    push_line(&mut lines, String::from_str("║ Durum     : ✅ Çalışıyor                     ║"));
    push_line(&mut lines, padded_row("║ Versiyon  : v", status.version.as_str(), 33, "║"));
    let mut up = String::new();
    push_str(&mut up, "║ Çalışma   : ");
    push_padded_decimal(&mut up, uptime_secs / 3600, 2);
    push_str(&mut up, "sa ");
    push_padded_decimal(&mut up, (uptime_secs % 3600) / 60, 2);
    push_str(&mut up, "dk ");
    push_padded_decimal(&mut up, uptime_secs % 60, 2);
    push_str(&mut up, "sn");
    assert(up@ == "║ Çalışma   : "@ + hms_spec(uptime_secs as nat));
    push_line(&mut lines, padded_row(up.as_str(), "", 20, "║"));
    let scans = decimal_string(status.total_scans);
    push_line(&mut lines, padded_row("║ Taranan   : ", scans.as_str(), 34, "║"));
    let alerts = decimal_string(status.total_alerts);
    push_line(&mut lines, padded_row("║ Uyarılar  : ", alerts.as_str(), 34, "║"));
    let mut dirs = String::new();
    push_str(&mut dirs, "║ İzlenen   : ");
    push_decimal(&mut dirs, status.watched_dirs as u64);
    push_str(&mut dirs, " klasör");
    push_line(&mut lines, padded_row(dirs.as_str(), "", 27, "║"));
    push_line(&mut lines, String::from_str("╠══════════════════════════════════════════════╣"));
    push_line(&mut lines, concat3("║ ", mode, "  ║"));
    push_line(&mut lines, String::from_str("╚══════════════════════════════════════════════╝"));
    assert(line_views(lines@) =~= cli_status_box(
        status.version@,
        uptime_secs as nat,
        status.total_scans as nat,
        status.total_alerts as nat,
        status.watched_dirs as nat,
        mode@,
    ));
    lines
}

/// The message printed before a one-off scan of `path` is requested.
pub fn scan_request_message(path: &str) -> (r: String)
    ensures
        r@ == "🔍 Daemon'a tarama isteği gönderiliyor: "@ + path@,
{
    let mut r = String::new();
    push_str(&mut r, "🔍 Daemon'a tarama isteği gönderiliyor: ");
    push_str(&mut r, path);
    r
}

/// The longest prefix of `s` whose UTF-8 encoding takes at most `n` bytes.
pub open spec fn bytes_prefix(s: Seq<char>, n: nat) -> Seq<char>
    decreases s.len(),
{
    if s.len() == 0 || byte_len(s) <= n {
        s
    } else {
        bytes_prefix(s.drop_last(), n)
    }
}

/// Whether the first `n` bytes of `s` (all of them, if it is shorter) end
/// between two characters, so that slicing there succeeds.
pub open spec fn cut_on_boundary(s: Seq<char>, n: nat) -> bool {
    byte_len(bytes_prefix(s, n)) == if byte_len(s) < n { byte_len(s) } else { n }
}

proof fn lemma_byte_len_take_grows(s: Seq<char>, i: int, j: int)
    requires
        0 <= i <= j <= s.len(),
    ensures
        byte_len(s.take(i)) <= byte_len(s.take(j)),
{
    lemma_byte_len_concat(s.take(i), s.subrange(i, j));
    assert(s.take(i) + s.subrange(i, j) =~= s.take(j));
}

proof fn lemma_bytes_prefix(s: Seq<char>, n: nat, k: int)
    requires
        0 <= k <= s.len(),
        byte_len(s.take(k)) <= n,
        k == s.len() || byte_len(s.take(k + 1)) > n,
    ensures
        bytes_prefix(s, n) == s.take(k),
    decreases s.len(),
{
    if k == s.len() {
        assert(s.take(k) =~= s);
    } else {
        lemma_byte_len_take_grows(s, k + 1, s.len() as int);
        assert(s.take(s.len() as int) =~= s);
        let t = s.drop_last();
        assert(t.take(k) =~= s.take(k));
        if k + 1 < s.len() {
            assert(t.take(k + 1) =~= s.take(k + 1));
        } else {
            assert(t =~= s.take(k));
            assert(t.take(k) =~= t);
        }
        lemma_bytes_prefix(t, n, k);
    }
}

/// The longest prefix of `s` that fits in `n` bytes of UTF-8.
fn byte_prefix(s: &str, n: usize) -> (r: String)
    ensures
        r@ == bytes_prefix(s@, n as nat),
{
    let cs = chars_of(s);
    let mut k: usize = 0;
    let mut used: u128 = 0;
    while k < cs.len()
        invariant
            k <= cs@.len(),
            cs@ == s@,
            used == byte_len(cs@.take(k as int)),
            used <= n,
        ensures
            k <= cs@.len(),
            cs@ == s@,
            used == byte_len(cs@.take(k as int)),
            used <= n,
            k == cs@.len() || byte_len(cs@.take(k + 1)) > n,
        decreases cs.len() - k,
    {
        let u = cs[k] as u32;
        let w: u128 = if u <= 0x7F {
            1
        } else if u <= 0x7FF {
            2
        } else if u <= 0xFFFF {
            3
        } else {
            4
        };
        assert(cs@.take(k + 1).drop_last() =~= cs@.take(k as int));
        if used + w > n as u128 {
            break;
        }
        used = used + w;
        k = k + 1;
    }
    let mut out: Vec<char> = Vec::new();
    let mut i: usize = 0;
    while i < k
        invariant
            i <= k <= cs@.len(),
            out@ == cs@.take(i as int),
        decreases k - i,
    {
        out.push(cs[i]);
        assert(cs@.take(i + 1) =~= cs@.take(i as int).push(cs@[i as int]));
        i = i + 1;
    }
    proof {
        lemma_bytes_prefix(s@, n as nat, k as int);
    }
    string_of(&out)
}

/// Whether the first `n` bytes of `s` (all of them, if it is shorter) end
/// between two characters, as the result box needs for the file name.
pub fn cuts_on_boundary(s: &str, n: usize) -> (r: bool)
    ensures
        r == cut_on_boundary(s@, n as nat),
{
    let prefix = byte_prefix(s, n);
    let pc = chars_of(prefix.as_str());
    let used = utf8_len(&pc);
    let all = chars_of(s);
    let total = utf8_len(&all);
    let limit: u128 = if total < n as u128 {
        total
    } else {
        n as u128
    };
    used == limit
}

/// The result box of a one-off scan, with the severity already rendered in
/// upper case as `severity`.
pub open spec fn scan_result_box(path: Seq<char>, count: nat, severity: Seq<char>, ms: nat) -> Seq<Seq<char>> {
    seq![
        "╔══════════════════════════════════╗"@,
        "║ Tarama Sonucu                    ║"@,
        "╠══════════════════════════════════╣"@,
        "║ Dosya    : "@ + space_pad(bytes_prefix(path, 22), 22) + "...║"@,
        "║ Bulgular : "@ + space_pad(decimal(count), 22) + "║"@,
        "║ Seviye   : "@ + space_pad(severity, 22) + "║"@,
        "║ Süre     : "@ + decimal(ms) + "ms"@ + space_pad(Seq::empty(), 19) + "║"@,
        "╚══════════════════════════════════╝"@,
    ]
}

/// The result box of a one-off scan whose severity, in upper case, reads
/// `severity_upper`.
pub fn scan_result_lines_with(result: &ScanResult, severity_upper: &str) -> (r: Vec<String>)
    requires
        cut_on_boundary(result.path@, 22),
    ensures
        line_views(r@) == scan_result_box(
            result.path@,
            result.finding_count as nat,
            severity_upper@,
            result.duration_ms as nat,
        ),
{
    proof {
        reveal_strlit("");
    }
    let mut lines: Vec<String> = Vec::new();
    push_line(&mut lines, String::from_str("╔══════════════════════════════════╗"));
    push_line(&mut lines, String::from_str("║ Tarama Sonucu                    ║"));
    push_line(&mut lines, String::from_str("╠══════════════════════════════════╣"));
    let shown = byte_prefix(result.path.as_str(), 22);
    push_line(&mut lines, padded_row("║ Dosya    : ", shown.as_str(), 22, "...║"));
    let count = decimal_string(result.finding_count as u64);
    push_line(&mut lines, padded_row("║ Bulgular : ", count.as_str(), 22, "║"));
    push_line(&mut lines, padded_row("║ Seviye   : ", severity_upper, 22, "║"));
    let mut dur = String::new();
    push_str(&mut dur, "║ Süre     : ");
    push_decimal(&mut dur, result.duration_ms);
    push_str(&mut dur, "ms");
    push_line(&mut lines, padded_row(dur.as_str(), "", 19, "║"));
    push_line(&mut lines, String::from_str("╚══════════════════════════════════╝"));
    assert(line_views(lines@) =~= scan_result_box(
        result.path@,
        result.finding_count as nat,
        severity_upper@,
        result.duration_ms as nat,
    ));
    lines
}

/// The result box of a one-off scan. The file name is cut after its first
/// 22 bytes, which must end between two characters.
pub fn scan_result_lines(result: &ScanResult) -> (r: Vec<String>)
    requires
        cut_on_boundary(result.path@, 22),
    ensures
        line_views(r@) == scan_result_box(
            result.path@,
            result.finding_count as nat,
            uppercase(result.highest_severity@),
            result.duration_ms as nat,
        ),
{
    let upper = to_uppercase(result.highest_severity.as_str());
    scan_result_lines_with(result, upper.as_str())
}

/// Whether a severity calls for the high-threat warning.
pub open spec fn high_threat(severity: Seq<char>) -> bool {
    severity == "high"@ || severity == "critical"@
}

/// The warning printed after a scan whose highest severity is `severity`:
/// only for a high or critical one.
pub fn threat_warning(severity: &str) -> (r: Option<String>)
    ensures
        r is Some <==> high_threat(severity@),
        r is Some ==> r->0@ == "\n⚠️  YÜKSEK TEHDİT TESPİT EDİLDİ!"@,
{
    let s = severity.to_owned();
    if s == "high".to_owned() || s == "critical".to_owned() {
        Some(String::from_str("\n⚠️  YÜKSEK TEHDİT TESPİT EDİLDİ!"))
    } else {
        None
    }
}

/// A UTC time of `secs` seconds since the Unix epoch as
/// `YYYY-MM-DD HH:MM:SS`.
pub open spec fn utc_text_spec(secs: int) -> Seq<char> {
    let date = date_of(secs / 86400);
    let t = secs % 86400;
    zero_pad(decimal(date.0 as nat), 4) + "-"@ + zero_pad(decimal(date.1 as nat), 2) + "-"@
        + zero_pad(decimal(date.2 as nat), 2) + " "@ + zero_pad(decimal((t / 3600) as nat), 2) + ":"@
        + zero_pad(decimal(((t % 3600) / 60) as nat), 2) + ":"@ + zero_pad(decimal((t % 60) as nat), 2)
}

/// What `chrono` writes for the UTC time `secs` (Unix seconds) in the format
/// `%Y-%m-%d %H:%M:%S`; `None` where chrono has no such time.
pub uninterp spec fn utc_text(secs: i64) -> Option<Seq<char>>;

/// Calls `chrono::DateTime::from_timestamp(secs, 0)` and, where chrono has
/// that time, formats it with `%Y-%m-%d %H:%M:%S`. The result is named
/// `utc_text`. From 1970 to the end of 9999 it is also stated: chrono has
/// every such time, and its formatter writes the year in four digits and the
/// other fields zero-padded to two. Outside that range nothing more is stated.
#[verifier::external_body]
fn format_utc(secs: i64) -> (r: Option<String>)
    ensures
        r matches Some(s) ==> utc_text(secs) == Some(s@),
        r is None ==> utc_text(secs) is None,
        0 <= secs < 253402300800 ==> r.is_some() && r.unwrap()@ == utc_text_spec(secs as int),
{
    match chrono::DateTime::from_timestamp(secs, 0) {
        Some(d) => Some(d.format("%Y-%m-%d %H:%M:%S").to_string()),
        None => None,
    }
}

/// The time column of a recorded scan: chrono's rendering, or nothing where
/// chrono has no such time.
pub open spec fn time_column(secs: i64) -> Seq<char> {
    match utc_text(secs) {
        Some(t) => t,
        None => Seq::empty(),
    }
}

/// The heading of the list of recorded scans.
pub open spec fn events_heading() -> Seq<char> {
    space_pad("Zaman"@, 36) + " "@ + space_pad("Seviye"@, 12) + " "@ + space_pad("Bulgular"@, 8)
}

/// One row of the list: the time, the severity and the number of findings.
pub open spec fn event_row_spec(time: Seq<char>, severity: Seq<char>, count: nat) -> Seq<char> {
    space_pad(time, 36) + " "@ + space_pad(severity, 12) + " "@ + decimal(count)
}

/// The row of a recorded scan whose time reads `time` and whose severity, in
/// upper case, reads `severity_upper`.
pub fn event_row(time: &str, severity_upper: &str, finding_count: usize) -> (r: String)
    ensures
        r@ == event_row_spec(time@, severity_upper@, finding_count as nat),
{
    let mut r = String::new();
    push_space_padded(&mut r, time, 36);
    push_str(&mut r, " ");
    push_space_padded(&mut r, severity_upper, 12);
    push_str(&mut r, " ");
    push_decimal(&mut r, finding_count as u64);
    r
}

/// The list of recorded scans as printed.
pub open spec fn events_view(events: Seq<ScanEvent>) -> Seq<Seq<char>> {
    if events.len() == 0 {
        seq!["Henüz tarama olayı yok."@]
    } else {
        seq![events_heading(), Seq::new(60, |i: int| '-')] + events.map_values(
            |e: ScanEvent| event_row_spec(time_column(e.detected_at), uppercase(e.severity@), e.finding_count as nat),
        )
    }
}

/// The lines printed for the recorded scans `events`.
pub fn events_lines(events: &Vec<ScanEvent>) -> (r: Vec<String>)
    ensures
        line_views(r@) == events_view(events@),
{
    let mut lines: Vec<String> = Vec::new();
    if events.len() == 0 {
        push_line(&mut lines, String::from_str("Henüz tarama olayı yok."));
        assert(line_views(lines@) =~= events_view(events@));
        return lines;
    }
    let mut heading = String::new();
    push_space_padded(&mut heading, "Zaman", 36);
    push_str(&mut heading, " ");
    push_space_padded(&mut heading, "Seviye", 12);
    push_str(&mut heading, " ");
    push_space_padded(&mut heading, "Bulgular", 8);
    push_line(&mut lines, heading);
    let mut rule = String::new();
    let mut k: usize = 0;
    while k < 60
        invariant
            k <= 60,
            rule@ == Seq::new(k as nat, |i: int| '-'),
        decreases 60 - k,
    {
        push_char(&mut rule, '-');
        assert(rule@ =~= Seq::new((k + 1) as nat, |i: int| '-'));
        k = k + 1;
    }
    push_line(&mut lines, rule);
    let ghost head = line_views(lines@);
    let mut j: usize = 0;
    while j < events.len()
        invariant
            j <= events@.len(),
            head == seq![events_heading(), Seq::new(60, |i: int| '-')],
            line_views(lines@) == head + events@.take(j as int).map_values(
                |e: ScanEvent| event_row_spec(time_column(e.detected_at), uppercase(e.severity@), e.finding_count as nat),
            ),
        decreases events.len() - j,
    {
        let e = &events[j];
        let time = match format_utc(e.detected_at) {
            Some(t) => t,
            None => String::new(),
        };
        let sev = to_uppercase(e.severity.as_str());
        let row = event_row(time.as_str(), sev.as_str(), e.finding_count);
        push_line(&mut lines, row);
        assert(events@.take(j + 1) =~= events@.take(j as int).push(events@[j as int]));
        j = j + 1;
    }
    assert(events@.take(events.len() as int) =~= events@);
    lines
}

} // verus!
