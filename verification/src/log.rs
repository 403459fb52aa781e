//! Log lines: severity levels, masking of user names in paths, and the line
//! layout.

use vstd::prelude::*;

use crate::event::{duration_whole_secs, epoch_duration};
use crate::text::{chars_of, decimal, push_char, push_decimal, push_str};

verus! {

broadcast use vstd::string::group_string_axioms;

/// Whether `regex::Regex::new` accepts `pattern`.
pub uninterp spec fn regex_compiles(pattern: Seq<char>) -> bool;

/// What `Regex::replace_all` returns for the regex compiled from `pattern`, the
/// haystack `text` and the replacement `rep`.
pub uninterp spec fn regex_replace_all(pattern: Seq<char>, text: Seq<char>, rep: Seq<char>) -> Seq<char>;

/// Compiles `pattern` with `regex::Regex::new` and, when it compiles, calls
/// `Regex::replace_all` on `text` with the replacement `rep` (which the regex
/// crate expands for `$` references). `Some` exactly when the pattern
/// compiles, which is a matter of the pattern alone; the replaced text is
/// named `regex_replace_all` and depends on the three texts alone.
#[verifier::external_body]
fn regex_replace(pattern: &str, text: &str, rep: &str) -> (r: Option<String>)
    ensures
        r.is_some() == regex_compiles(pattern@),
        r matches Some(s) ==> s@ == regex_replace_all(pattern@, text@, rep@),
{
    match regex::Regex::new(pattern) {
        Ok(re) => Some(re.replace_all(text, rep).into_owned()),
        Err(_) => None,
    }
}

/// The pattern of a user's home directory on Unix.
pub open spec fn unix_home_pattern() -> Seq<char> {
    "/home/[^/]+/"@
}

/// The pattern of a user's profile directory on Windows (any case).
pub open spec fn windows_home_pattern() -> Seq<char> {
    "(?i)C:\\\\Users\\\\[^\\\\]+\\\\"@
}

/// `s` with user names in home directory paths replaced by `[USER]`.
pub open spec fn masked(s: Seq<char>) -> Seq<char> {
    let s1 = regex_replace_all(unix_home_pattern(), s, "/home/[USER]/"@);
    regex_replace_all(windows_home_pattern(), s1, "C:\\Users\\[USER]\\"@)
}

/// Both masking patterns compile.
pub open spec fn masking_available() -> bool {
    regex_compiles(unix_home_pattern()) && regex_compiles(windows_home_pattern())
}

/// `s` with user names in home directory paths replaced by `[USER]`:
/// `/home/<user>/` becomes `/home/[USER]/` and `C:\Users\<user>\` (any case)
/// becomes `C:\Users\[USER]\`; `None` when the masking patterns do not
/// compile.
pub fn mask_sensitive(s: &str) -> (r: Option<String>)
    ensures
        r.is_some() == masking_available(),
        r matches Some(m) ==> m@ == masked(s@),
{
    let s1 = match regex_replace("/home/[^/]+/", s, "/home/[USER]/") {
        Some(x) => x,
        None => return None,
    };
    regex_replace("(?i)C:\\\\Users\\\\[^\\\\]+\\\\", s1.as_str(), "C:\\Users\\[USER]\\")
}

/// Severity of a log line.
#[derive(Debug, Clone, Copy, PartialEq, Eq, Structural)]
pub enum Level {
    Info,
    Medium,
    High,
    Critical,
}

/// The tag a level has in a log line.
pub open spec fn level_label(level: Level) -> Seq<char> {
    match level {
        Level::Info => "INFO "@,
        Level::Medium => "MEDIUM"@,
        Level::High => "HIGH "@,
        Level::Critical => "CRIT "@,
    }
}

impl Level {
    /// The tag this level has in a log line.
    pub fn label(&self) -> (r: String)
        ensures
            r@ == level_label(*self),
    {
        match self {
            Level::Info => "INFO ".to_owned(),
            Level::Medium => "MEDIUM".to_owned(),
            Level::High => "HIGH ".to_owned(),
            Level::Critical => "CRIT ".to_owned(),
        }
    }
}

/// `s` padded on the right with spaces to at least `width` characters.
pub open spec fn space_pad(s: Seq<char>, width: nat) -> Seq<char> {
    if s.len() < width {
        s + Seq::new((width - s.len()) as nat, |i: int| ' ')
    } else {
        s
    }
}

/// The log line `[<ts>] [<level>] [<category padded to 10>] <message>`.
pub open spec fn log_line(ts: Seq<char>, level: Level, category: Seq<char>, message: Seq<char>) -> Seq<char> {
    "["@ + ts + "] ["@ + level_label(level) + "] ["@ + space_pad(category, 10) + "] "@ + message
}

/// Appends `s` padded on the right with spaces to `width` characters.
pub fn push_space_padded(out: &mut String, s: &str, width: usize)
    ensures
        final(out)@ == old(out)@ + space_pad(s@, width as nat),
{
    let cs = chars_of(s);
    let ghost start = out@;
    push_str(out, s);
    let mut k: usize = cs.len();
    while k < width
        invariant
            cs@ == s@,
            cs.len() <= k,
            k <= width || k == cs.len(),
            out@ == start + s@ + Seq::new((k - cs.len()) as nat, |i: int| ' '),
        decreases width - k,
    {
        push_char(out, ' ');
        assert(Seq::new((k + 1 - cs.len()) as nat, |i: int| ' ') =~= Seq::new((k - cs.len()) as nat, |i: int| ' ').push(' '));
        k = k + 1;
    }
    if cs.len() >= width {
        assert(Seq::new((k - cs.len()) as nat, |i: int| ' ') =~= Seq::<char>::empty());
        assert(out@ =~= start + s@);
    }
}

/// The log line for a message already masked, at Unix time `ts_secs`.
pub fn format_log_line_at(ts_secs: u64, level: Level, category: &str, masked_message: &str) -> (r: String)
    ensures
        r@ == log_line(decimal(ts_secs as nat), level, category@, masked_message@),
{
    let mut r = String::new();
    push_str(&mut r, "[");
    push_decimal(&mut r, ts_secs);
    push_str(&mut r, "] [");
    let l = level.label();
    push_str(&mut r, l.as_str());
    push_str(&mut r, "] [");
    push_space_padded(&mut r, category, 10);
    push_str(&mut r, "] ");
    push_str(&mut r, masked_message);
    r
}

/// The current Unix time in whole seconds, in decimal: the whole seconds
/// from the epoch to some clock reading `t`.
pub fn iso8601_now() -> (r: String)
    ensures
        exists|t: std::time::SystemTime| r@ == decimal(duration_whole_secs(#[trigger] epoch_duration(t)) as nat),
{
    let now = crate::event::system_time_now();
    let secs = crate::event::secs_since_epoch(&now);
    let r = crate::text::decimal_string(secs);
    assert(r@ == decimal(duration_whole_secs(epoch_duration(now)) as nat));
    r
}

/// The log line for `message` at the current time, with user names masked;
/// `None` when the masking patterns do not compile.
pub fn format_log_line(level: Level, category: &str, message: &str) -> (r: Option<String>)
    ensures
        r.is_some() == masking_available(),
        r matches Some(line) ==> exists|t: std::time::SystemTime|
            line@ == log_line(
                decimal(duration_whole_secs(#[trigger] epoch_duration(t)) as nat),
                level,
                category@,
                masked(message@),
            ),
{
    let now = crate::event::system_time_now();
    let secs = crate::event::secs_since_epoch(&now);
    match mask_sensitive(message) {
        Some(m) => {
            let line = format_log_line_at(secs, level, category, m.as_str());
            assert(line@ == log_line(
                decimal(duration_whole_secs(epoch_duration(now)) as nat),
                level,
                category@,
                masked(message@),
            ));
            Some(line)
        },
        None => None,
    }
}

} // verus!
