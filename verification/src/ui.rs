//! The terminal presentation of scan reports: number and time formatting,
//! word wrapping, severity ordering and counting, and the styled lines of the
//! report. Printing them is the caller's business.

use owo_colors::OwoColorize;
use vstd::prelude::*;

use crate::log_rotation::{push_padded_decimal, zero_pad};
use crate::report::{Finding, FindingSeverity, RecommendedAction, ScanMode, ScanReport, ScanRequest};
use crate::text::{chars_of, decimal, decimal_string, push_char, push_str, segments, split_whitespace, string_of, views, words};

verus! {

broadcast use vstd::string::group_string_axioms;

/// `s` in the ANSI style or colour `code`, closed by `reset`.
pub open spec fn styled(code: Seq<char>, s: Seq<char>, reset: Seq<char>) -> Seq<char> {
    "\x1b["@ + code + "m"@ + s + "\x1b["@ + reset + "m"@
}

/// Bold text, as `OwoColorize::bold` renders it.
pub open spec fn bold_text(s: Seq<char>) -> Seq<char> {
    styled("1"@, s, "0"@)
}

/// Dimmed text, as `OwoColorize::dimmed` renders it.
pub open spec fn dimmed_text(s: Seq<char>) -> Seq<char> {
    styled("2"@, s, "0"@)
}

/// Italic text, as `OwoColorize::italic` renders it.
pub open spec fn italic_text(s: Seq<char>) -> Seq<char> {
    styled("3"@, s, "0"@)
}

/// Text in the foreground colour `code`, as `OwoColorize` renders it.
pub open spec fn coloured(code: Seq<char>, s: Seq<char>) -> Seq<char> {
    styled(code, s, "39"@)
}

/// Calls `OwoColorize::bold`: `ESC[1m`, the text, `ESC[0m`.
#[verifier::external_body]
pub(crate) fn bold(s: &str) -> (r: String)
    ensures
        r@ == bold_text(s@),
{
    format!("{}", s.bold())
}

/// Calls `OwoColorize::dimmed`: `ESC[2m`, the text, `ESC[0m`.
#[verifier::external_body]
pub(crate) fn dimmed(s: &str) -> (r: String)
    ensures
        r@ == dimmed_text(s@),
{
    format!("{}", s.dimmed())
}

/// Calls `OwoColorize::italic`: `ESC[3m`, the text, `ESC[0m`.
#[verifier::external_body]
pub(crate) fn italic(s: &str) -> (r: String)
    ensures
        r@ == italic_text(s@),
{
    format!("{}", s.italic())
}

/// Calls `OwoColorize::red`: `ESC[31m`, the text, `ESC[39m`.
#[verifier::external_body]
pub(crate) fn red(s: &str) -> (r: String)
    ensures
        r@ == coloured("31"@, s@),
{
    format!("{}", s.red())
}

/// Calls `OwoColorize::green`: `ESC[32m`, the text, `ESC[39m`.
#[verifier::external_body]
pub(crate) fn green(s: &str) -> (r: String)
    ensures
        r@ == coloured("32"@, s@),
{
    format!("{}", s.green())
}

/// Calls `OwoColorize::yellow`: `ESC[33m`, the text, `ESC[39m`.
#[verifier::external_body]
pub(crate) fn yellow(s: &str) -> (r: String)
    ensures
        r@ == coloured("33"@, s@),
{
    format!("{}", s.yellow())
}

/// Calls `OwoColorize::bright_yellow`: `ESC[93m`, the text, `ESC[39m`.
#[verifier::external_body]
pub(crate) fn bright_yellow(s: &str) -> (r: String)
    ensures
        r@ == coloured("93"@, s@),
{
    format!("{}", s.bright_yellow())
}

/// Calls `OwoColorize::bright_blue`: `ESC[94m`, the text, `ESC[39m`.
#[verifier::external_body]
pub(crate) fn bright_blue(s: &str) -> (r: String)
    ensures
        r@ == coloured("94"@, s@),
{
    format!("{}", s.bright_blue())
}

/// Calls `OwoColorize::bright_cyan`: `ESC[96m`, the text, `ESC[39m`.
#[verifier::external_body]
pub(crate) fn bright_cyan(s: &str) -> (r: String)
    ensures
        r@ == coloured("96"@, s@),
{
    format!("{}", s.bright_cyan())
}

/// The decimal digits `d` with a comma before every group of three, counted
/// from the right.
pub open spec fn with_commas(d: Seq<char>) -> Seq<char>
    decreases d.len(),
{
    if d.len() <= 3 {
        d
    } else {
        with_commas(d.take(d.len() - 3)) + ","@ + d.skip(d.len() - 3)
    }
}

fn push_grouped(out: &mut String, d: &Vec<char>, end: usize)
    requires
        end <= d@.len(),
    ensures
        final(out)@ == old(out)@ + with_commas(d@.take(end as int)),
    decreases end,
{
    let ghost prefix = d@.take(end as int);
    let mut start: usize = 0;
    if end > 3 {
        push_grouped(out, d, end - 3);
        push_char(out, ',');
        assert(prefix.take(prefix.len() - 3) == d@.take(end - 3));
        start = end - 3;
    }
    let ghost mid = out@;
    let mut k: usize = start;
    while k < end
        invariant
            start <= k <= end <= d@.len(),
            out@ == mid + d@.subrange(start as int, k as int),
        decreases end - k,
    {
        push_char(out, d[k]);
        assert(d@.subrange(start as int, k + 1) == d@.subrange(start as int, k as int).push(d@[k as int]));
        k = k + 1;
    }
    proof {
        reveal_strlit(",");
        if end > 3 {
            assert(prefix.skip(prefix.len() - 3) == d@.subrange(start as int, end as int));
        } else {
            assert(d@.subrange(0, end as int) == prefix);
        }
    }
}

/// `n` in decimal with thousands separators (12345 becomes `12,345`).
pub fn format_number(n: u64) -> (r: String)
    ensures
        r@ == with_commas(decimal(n as nat)),
{
    let s = decimal_string(n);
    let d = chars_of(s.as_str());
    let mut r = String::new();
    push_grouped(&mut r, &d, d.len());
    assert(d@.take(d.len() as int) == d@);
    r
}

proof fn lemma_segments_plain(s: Seq<char>)
    requires
        !s.contains(','),
    ensures
        segments(s, ',') == seq![s],
    decreases s.len(),
{
    if s.len() > 0 {
        assert(!s.drop_last().contains(',')) by {
            if s.drop_last().contains(',') {
                let i = choose|i: int| 0 <= i < s.drop_last().len() && s.drop_last()[i] == ',';
                assert(s[i] == ',');
            }
        }
        assert(s.last() != ',') by {
            assert(s[s.len() - 1] == s.last());
        }
        lemma_segments_plain(s.drop_last());
        assert(s.drop_last().push(s.last()) =~= s);
    } else {
        assert(s =~= Seq::<char>::empty());
    }
}

proof fn lemma_segments_after_comma(a: Seq<char>, b: Seq<char>)
    requires
        !b.contains(','),
    ensures
        segments(a + seq![','] + b, ',') == segments(a, ',').push(b),
    decreases b.len(),
{
    if b.len() == 0 {
        assert(a + seq![','] + b =~= a.push(','));
        assert(a.push(',').drop_last() =~= a);
        assert(b =~= Seq::<char>::empty());
    } else {
        let s = a + seq![','] + b;
        assert(!b.drop_last().contains(',')) by {
            if b.drop_last().contains(',') {
                let i = choose|i: int| 0 <= i < b.drop_last().len() && b.drop_last()[i] == ',';
                assert(b[i] == ',');
            }
        }
        assert(b.last() != ',') by {
            assert(b[b.len() - 1] == b.last());
        }
        lemma_segments_after_comma(a, b.drop_last());
        assert(s.drop_last() =~= a + seq![','] + b.drop_last());
        assert(s.last() == b.last());
        assert(b.drop_last().push(b.last()) =~= b);
        let r = segments(a, ',').push(b.drop_last());
        assert(r.drop_last() =~= segments(a, ','));
    }
}

/// The comma-separated groups of `with_commas(d)`, for digits `d`: a first
/// group of one to three digits and then groups of exactly three.
proof fn lemma_comma_groups(d: Seq<char>)
    requires
        d.len() > 0,
        !d.contains(','),
    ensures
        segments(with_commas(d), ',').len() > 0,
        1 <= segments(with_commas(d), ',')[0].len() <= 3,
        forall|i: int|
            1 <= i < segments(with_commas(d), ',').len() ==> (#[trigger] segments(with_commas(d), ',')[i]).len() == 3,
    decreases d.len(),
{
    if d.len() <= 3 {
        lemma_segments_plain(d);
    } else {
        let a = d.take(d.len() - 3);
        let b = d.skip(d.len() - 3);
        assert(!a.contains(',')) by {
            if a.contains(',') {
                let i = choose|i: int| 0 <= i < a.len() && a[i] == ',';
                assert(d[i] == ',');
            }
        }
        assert(!b.contains(',')) by {
            if b.contains(',') {
                let i = choose|i: int| 0 <= i < b.len() && b[i] == ',';
                assert(d[d.len() - 3 + i] == ',');
            }
        }
        lemma_comma_groups(a);
        reveal_strlit(",");
        assert(","@ =~= seq![',']);
        lemma_segments_after_comma(with_commas(a), b);
        let g = segments(with_commas(a), ',');
        assert(segments(with_commas(d), ',') == g.push(b));
        assert forall|i: int|
            1 <= i < g.push(b).len() implies (#[trigger] g.push(b)[i]).len() == 3 by {
            if i < g.len() {
                assert(g.push(b)[i] == g[i]);
            }
        }
    }
}

/// The thousands separators of `format_number` split the digits into a first
/// group of one to three digits followed by groups of exactly three.
pub proof fn law_comma_groups(n: nat)
    ensures
        segments(with_commas(decimal(n)), ',').len() > 0,
        1 <= segments(with_commas(decimal(n)), ',')[0].len() <= 3,
        forall|i: int|
            1 <= i < segments(with_commas(decimal(n)), ',').len()
                ==> (#[trigger] segments(with_commas(decimal(n)), ',')[i]).len() == 3,
{
    lemma_decimal_has_no_commas(n);
    assert(decimal(n).len() > 0) by {
        reveal_with_fuel(decimal, 1);
    }
    lemma_comma_groups(decimal(n));
}

/// `secs` as hours, minutes and seconds: `HH:MM:SS`, each at least two digits.
pub open spec fn elapsed_text(secs: nat) -> Seq<char> {
    zero_pad(decimal(secs / 3600), 2) + ":"@ + zero_pad(decimal((secs % 3600) / 60), 2) + ":"@
        + zero_pad(decimal(secs % 60), 2)
}

/// `secs` as `HH:MM:SS` (hours may take more than two digits).
pub fn format_elapsed(secs: u64) -> (r: String)
    ensures
        r@ == elapsed_text(secs as nat),
{
    let h = secs / 3600;
    let m = (secs % 3600) / 60;
    let s = secs % 60;
    let mut r = String::new();
    push_padded_decimal(&mut r, h, 2);
    push_str(&mut r, ":");
    push_padded_decimal(&mut r, m, 2);
    push_str(&mut r, ":");
    push_padded_decimal(&mut r, s, 2);
    r
}

/// The number of bytes UTF-8 takes for `c`.
pub open spec fn utf8_width(c: char) -> nat {
    let u = c as u32;
    if u <= 0x7F {
        1
    } else if u <= 0x7FF {
        2
    } else if u <= 0xFFFF {
        3
    } else {
        4
    }
}

/// The number of bytes of the UTF-8 encoding of `s`.
pub open spec fn byte_len(s: Seq<char>) -> nat
    decreases s.len(),
{
    if s.len() == 0 {
        0
    } else {
        byte_len(s.drop_last()) + utf8_width(s.last())
    }
}

/// The UTF-8 length of a concatenation is the sum of the lengths.
pub proof fn lemma_byte_len_concat(a: Seq<char>, b: Seq<char>)
    ensures
        byte_len(a + b) == byte_len(a) + byte_len(b),
    decreases b.len(),
{
    if b.len() == 0 {
        assert(a + b == a);
    } else {
        assert((a + b).drop_last() == a + b.drop_last());
        lemma_byte_len_concat(a, b.drop_last());
    }
}

/// The pieces a word is cut into so that none is longer than `width`
/// characters: the word itself when it fits (or when `width` is zero, which
/// no piece can fit), otherwise its first `width` characters followed by the
/// pieces of the rest.
pub open spec fn word_pieces(w: Seq<char>, width: nat) -> Seq<Seq<char>>
    decreases w.len(),
{
    if width == 0 || w.len() <= width {
        seq![w]
    } else {
        seq![w.take(width as int)] + word_pieces(w.skip(width as int), width)
    }
}

/// The pieces of the words `ws`, in order.
pub open spec fn all_pieces(ws: Seq<Seq<char>>, width: nat) -> Seq<Seq<char>>
    decreases ws.len(),
{
    if ws.len() == 0 {
        Seq::empty()
    } else {
        all_pieces(ws.drop_last(), width) + word_pieces(ws.last(), width)
    }
}

/// One step of greedy wrapping: the piece `w` joins the current line when the
/// line is empty or when the joined line stays within `width` characters;
/// otherwise the current line is finished and `w` starts the next one.
pub open spec fn wrap_step(state: (Seq<Seq<char>>, Seq<char>), w: Seq<char>, width: nat) -> (Seq<Seq<char>>, Seq<char>) {
    let lines = state.0;
    let cur = state.1;
    if cur.len() == 0 {
        (lines, w)
    } else if cur.len() + 1 + w.len() <= width {
        (lines, cur + seq![' '] + w)
    } else {
        (lines.push(cur), w)
    }
}

/// The finished lines and the current line after wrapping the pieces `ws`.
pub open spec fn wrap_state(ws: Seq<Seq<char>>, width: nat) -> (Seq<Seq<char>>, Seq<char>)
    decreases ws.len(),
{
    if ws.len() == 0 {
        (Seq::empty(), Seq::empty())
    } else {
        wrap_step(wrap_state(ws.drop_last(), width), ws.last(), width)
    }
}

/// The lines `text` is wrapped into, each of at most `width` characters: its
/// whitespace-separated words, a word longer than `width` cut into pieces of
/// `width` characters, filled greedily into lines with one space between
/// neighbours; a text without words gives one empty line.
pub open spec fn wrap_text(text: Seq<char>, width: nat) -> Seq<Seq<char>> {
    let st = wrap_state(all_pieces(words(text), width), width);
    let lines = if st.1.len() > 0 { st.0.push(st.1) } else { st.0 };
    if lines.len() == 0 {
        seq![Seq::<char>::empty()]
    } else {
        lines
    }
}

/// The views of a list of strings.
pub open spec fn line_views(v: Seq<String>) -> Seq<Seq<char>> {
    v.map_values(|s: String| s@)
}

/// The number of bytes of the UTF-8 encoding of `cs`.
pub fn utf8_len(cs: &Vec<char>) -> (r: u128)
    ensures
        r == byte_len(cs@),
        r <= 4 * cs@.len(),
{
    let mut sum: u128 = 0;
    let mut k: usize = 0;
    while k < cs.len()
        invariant
            k <= cs@.len(),
            sum == byte_len(cs@.take(k as int)),
            sum <= 4 * k,
        decreases cs.len() - k,
    {
        let u = cs[k] as u32;
        let w: u128 = if u <= 0x7F {
            1
        } else if u <= 0x7FF {
            2
        } else if u <= 0xFFFF {
            3
        } else {
            4
        };
        assert(cs@.take(k + 1).drop_last() == cs@.take(k as int));
        sum = sum + w;
        k = k + 1;
    }
    assert(cs@.take(cs.len() as int) == cs@);
    sum
}

fn copy_range(w: &Vec<char>, from: usize, to: usize) -> (r: Vec<char>)
    requires
        from <= to <= w@.len(),
    ensures
        r@ == w@.subrange(from as int, to as int),
{
    let mut r: Vec<char> = Vec::new();
    let mut k: usize = from;
    while k < to
        invariant
            from <= k <= to <= w@.len(),
            r@ == w@.subrange(from as int, k as int),
        decreases to - k,
    {
        r.push(w[k]);
        assert(w@.subrange(from as int, k + 1) =~= w@.subrange(from as int, k as int).push(w@[k as int]));
        k = k + 1;
    }
    r
}

fn push_pieces(out: &mut Vec<Vec<char>>, w: &Vec<char>, width: usize)
    ensures
        views(final(out)@) == views(old(out)@) + word_pieces(w@, width as nat),
{
    let ghost start = views(out@);
    let mut from: usize = 0;
    assert(w@.skip(0) =~= w@);
    while width > 0 && w.len() - from > width
        invariant
            from <= w@.len(),
            views(out@) + word_pieces(w@.skip(from as int), width as nat) == start + word_pieces(w@, width as nat),
        decreases w.len() - from,
    {
        let ghost rest = w@.skip(from as int);
        let piece = copy_range(w, from, from + width);
        assert(rest.take(width as int) =~= piece@);
        assert(rest.skip(width as int) =~= w@.skip(from + width));
        let ghost before = views(out@);
        out.push(piece);
        assert(views(out@) =~= before.push(piece@));
        assert(word_pieces(rest, width as nat) == seq![piece@] + word_pieces(w@.skip(from + width), width as nat));
        assert(before.push(piece@) + word_pieces(w@.skip(from + width), width as nat)
            =~= before + (seq![piece@] + word_pieces(w@.skip(from + width), width as nat)));
        from = from + width;
    }
    let last = copy_range(w, from, w.len());
    assert(last@ =~= w@.skip(from as int));
    let ghost before = views(out@);
    out.push(last);
    assert(views(out@) =~= before.push(last@));
    assert(word_pieces(w@.skip(from as int), width as nat) == seq![last@]);
    assert(before.push(last@) =~= before + seq![last@]);
}

/// The pieces of all the words of `ws`, in order.
fn pieces_of(ws: &Vec<Vec<char>>, width: usize) -> (r: Vec<Vec<char>>)
    ensures
        views(r@) == all_pieces(views(ws@), width as nat),
{
    let ghost wv = views(ws@);
    let mut out: Vec<Vec<char>> = Vec::new();
    let mut i: usize = 0;
    assert(views(out@) =~= Seq::<Seq<char>>::empty());
    while i < ws.len()
        invariant
            i <= ws@.len(),
            wv == views(ws@),
            views(out@) == all_pieces(wv.take(i as int), width as nat),
        decreases ws.len() - i,
    {
        assert(wv.take(i + 1).drop_last() =~= wv.take(i as int));
        assert(wv.take(i + 1).last() == ws@[i as int]@);
        push_pieces(&mut out, &ws[i], width);
        i = i + 1;
    }
    assert(wv.take(ws.len() as int) =~= wv);
    out
}

/// The lines `text` is wrapped into, each of at most `width` characters
/// (for a positive `width`).
pub fn wrap(text: &str, width: usize) -> (r: Vec<String>)
    ensures
        line_views(r@) == wrap_text(text@, width as nat),
{
    let cs = chars_of(text);
    let ws = split_whitespace(&cs);
    let ps = pieces_of(&ws, width);
    let ghost pv = views(ps@);
    assert(pv == all_pieces(words(text@), width as nat));
    let mut lines: Vec<String> = Vec::new();
    let mut current = String::new();
    let mut cur_len: usize = 0;
    let mut i: usize = 0;
    while i < ps.len()
        invariant
            i <= ps@.len(),
            pv == views(ps@),
            cur_len == current@.len(),
            (line_views(lines@), current@) == wrap_state(pv.take(i as int), width as nat),
        decreases ps.len() - i,
    {
        let piece = string_of(&ps[i]);
        let plen = ps[i].len();
        assert(pv.take(i + 1).drop_last() == pv.take(i as int));
        assert(pv.take(i + 1).last() == piece@);
        let ghost before = line_views(lines@);
        let ghost cur0 = current@;
        if cur_len == 0 {
            current = piece;
            cur_len = plen;
        } else if (cur_len as u128) + 1 + (plen as u128) <= width as u128 {
            push_char(&mut current, ' ');
            push_str(&mut current, piece.as_str());
            assert(current@ =~= cur0 + seq![' '] + piece@);
            cur_len = cur_len + 1 + plen;
        } else {
            lines.push(current);
            assert(line_views(lines@) =~= before.push(cur0));
            current = piece;
            cur_len = plen;
        }
        i = i + 1;
    }
    assert(pv.take(ps.len() as int) == pv);
    if cur_len > 0 {
        let ghost before = line_views(lines@);
        let ghost cur0 = current@;
        lines.push(current);
        assert(line_views(lines@) =~= before.push(cur0));
    }
    if lines.len() == 0 {
        lines.push(String::new());
        assert(line_views(lines@) =~= seq![Seq::<char>::empty()]);
    }
    lines
}

proof fn lemma_word_pieces_fit(w: Seq<char>, width: nat)
    requires
        width > 0,
    ensures
        forall|i: int| 0 <= i < word_pieces(w, width).len() ==> (#[trigger] word_pieces(w, width)[i]).len() <= width,
    decreases w.len(),
{
    if w.len() > width {
        lemma_word_pieces_fit(w.skip(width as int), width);
        let rest = word_pieces(w.skip(width as int), width);
        assert forall|i: int| 0 <= i < word_pieces(w, width).len() implies (#[trigger] word_pieces(w, width)[i]).len() <= width by {
            if i > 0 {
                assert(word_pieces(w, width)[i] == rest[i - 1]);
            }
        }
    }
}

proof fn lemma_all_pieces_fit(ws: Seq<Seq<char>>, width: nat)
    requires
        width > 0,
    ensures
        forall|i: int| 0 <= i < all_pieces(ws, width).len() ==> (#[trigger] all_pieces(ws, width)[i]).len() <= width,
    decreases ws.len(),
{
    if ws.len() > 0 {
        lemma_all_pieces_fit(ws.drop_last(), width);
        lemma_word_pieces_fit(ws.last(), width);
        let a = all_pieces(ws.drop_last(), width);
        let b = word_pieces(ws.last(), width);
        assert forall|i: int| 0 <= i < all_pieces(ws, width).len() implies (#[trigger] all_pieces(ws, width)[i]).len() <= width by {
            if i < a.len() {
                assert(all_pieces(ws, width)[i] == a[i]);
            } else {
                assert(all_pieces(ws, width)[i] == b[i - a.len()]);
            }
        }
    }
}

proof fn lemma_wrap_state_fits(ps: Seq<Seq<char>>, width: nat)
    requires
        forall|i: int| 0 <= i < ps.len() ==> (#[trigger] ps[i]).len() <= width,
    ensures
        forall|i: int| 0 <= i < wrap_state(ps, width).0.len() ==> (#[trigger] wrap_state(ps, width).0[i]).len() <= width,
        wrap_state(ps, width).1.len() <= width,
    decreases ps.len(),
{
    if ps.len() > 0 {
        let p = ps.drop_last();
        assert forall|i: int| 0 <= i < p.len() implies (#[trigger] p[i]).len() <= width by {
            assert(p[i] == ps[i]);
        }
        lemma_wrap_state_fits(p, width);
        assert(ps[ps.len() - 1].len() <= width);
    }
}

/// Every wrapped line is at most `width` characters long, for every positive
/// `width`.
pub proof fn law_wrapped_lines_fit(text: Seq<char>, width: nat)
    requires
        width > 0,
    ensures
        forall|i: int| 0 <= i < wrap_text(text, width).len() ==> (#[trigger] wrap_text(text, width)[i]).len() <= width,
{
    let ps = all_pieces(words(text), width);
    lemma_all_pieces_fit(words(text), width);
    lemma_wrap_state_fits(ps, width);
    let st = wrap_state(ps, width);
    let lines = if st.1.len() > 0 { st.0.push(st.1) } else { st.0 };
    assert forall|i: int| 0 <= i < wrap_text(text, width).len() implies (#[trigger] wrap_text(text, width)[i]).len() <= width by {
        if lines.len() == 0 {
            assert(wrap_text(text, width)[i] == Seq::<char>::empty());
        } else if i < st.0.len() {
            assert(lines[i] == st.0[i]);
        }
    }
}

/// Cutting a word into pieces loses nothing: the pieces joined back together
/// give the word.
pub proof fn law_pieces_rejoin_word(w: Seq<char>, width: nat)
    ensures
        word_pieces(w, width).flatten() == w,
    decreases w.len(),
{
    if width == 0 || w.len() <= width {
        assert(seq![w].drop_first() =~= Seq::<Seq<char>>::empty());
        assert(seq![w].flatten() =~= w + Seq::<Seq<char>>::empty().flatten());
        assert(w + Seq::<char>::empty() =~= w);
    } else {
        law_pieces_rejoin_word(w.skip(width as int), width);
        let rest = word_pieces(w.skip(width as int), width);
        let all = seq![w.take(width as int)] + rest;
        assert(all.drop_first() =~= rest);
        assert(all[0] == w.take(width as int));
        assert(w.take(width as int) + w.skip(width as int) =~= w);
    }
}

/// `s` without its commas.
pub open spec fn strip_commas(s: Seq<char>) -> Seq<char>
    decreases s.len(),
{
    if s.len() == 0 {
        s
    } else if s.last() == ',' {
        strip_commas(s.drop_last())
    } else {
        strip_commas(s.drop_last()).push(s.last())
    }
}

proof fn lemma_strip_concat(a: Seq<char>, b: Seq<char>)
    ensures
        strip_commas(a + b) == strip_commas(a) + strip_commas(b),
    decreases b.len(),
{
    if b.len() == 0 {
        assert(a + b == a);
        assert(strip_commas(b) == b);
    } else {
        assert((a + b).drop_last() == a + b.drop_last());
        lemma_strip_concat(a, b.drop_last());
    }
}

proof fn lemma_strip_no_commas(s: Seq<char>)
    requires
        !s.contains(','),
    ensures
        strip_commas(s) == s,
    decreases s.len(),
{
    if s.len() > 0 {
        assert(!s.drop_last().contains(',')) by {
            if s.drop_last().contains(',') {
                let i = choose|i: int| 0 <= i < s.drop_last().len() && s.drop_last()[i] == ',';
                assert(s[i] == ',');
            }
        }
        assert(s.last() != ',') by {
            assert(s[s.len() - 1] == s.last());
        }
        lemma_strip_no_commas(s.drop_last());
    }
}

proof fn lemma_with_commas_strips(d: Seq<char>)
    requires
        !d.contains(','),
    ensures
        strip_commas(with_commas(d)) == d,
    decreases d.len(),
{
    if d.len() > 3 {
        let a = d.take(d.len() - 3);
        let b = d.skip(d.len() - 3);
        assert(!a.contains(',')) by {
            if a.contains(',') {
                let i = choose|i: int| 0 <= i < a.len() && a[i] == ',';
                assert(d[i] == ',');
            }
        }
        assert(!b.contains(',')) by {
            if b.contains(',') {
                let i = choose|i: int| 0 <= i < b.len() && b[i] == ',';
                assert(d[d.len() - 3 + i] == ',');
            }
        }
        lemma_with_commas_strips(a);
        lemma_strip_concat(with_commas(a) + ","@, b);
        lemma_strip_concat(with_commas(a), ","@);
        assert(strip_commas(","@) == Seq::<char>::empty()) by {
            reveal_strlit(",");
            reveal_with_fuel(strip_commas, 2);
            assert(","@ =~= seq![',']);
            assert(seq![','].drop_last() =~= Seq::<char>::empty());
        }
        lemma_strip_no_commas(b);
        assert(a + b =~= d);
    } else {
        lemma_strip_no_commas(d);
    }
}

proof fn lemma_decimal_has_no_commas(n: nat)
    ensures
        !decimal(n).contains(','),
    decreases n,
{
    if n >= 10 {
        lemma_decimal_has_no_commas(n / 10);
        let d = decimal(n);
        assert(d == decimal(n / 10).push(crate::text::digit_char(n % 10)));
        if d.contains(',') {
            let i = choose|i: int| 0 <= i < d.len() && d[i] == ',';
            if i < d.len() - 1 {
                assert(decimal(n / 10)[i] == ',');
            }
        }
    }
}

/// Thousands separators only add commas: removing them gives back the plain
/// decimal rendering.
pub proof fn law_separators_only_add_commas(n: nat)
    ensures
        strip_commas(with_commas(decimal(n))) == decimal(n),
{
    lemma_decimal_has_no_commas(n);
    lemma_with_commas_strips(decimal(n));
}

/// The hours, minutes and seconds shown add back up to the elapsed seconds,
/// with minutes and seconds below sixty.
pub proof fn law_elapsed_parts(secs: nat)
    ensures
        (secs / 3600) * 3600 + ((secs % 3600) / 60) * 60 + secs % 60 == secs,
        (secs % 3600) / 60 < 60,
        secs % 60 < 60,
{
    assert((secs / 3600) * 3600 + ((secs % 3600) / 60) * 60 + secs % 60 == secs) by (nonlinear_arith);
}

/// The rank of a severity when findings are listed, most severe first.
pub open spec fn severity_rank(s: FindingSeverity) -> u8 {
    match s {
        FindingSeverity::Critical => 0,
        FindingSeverity::High => 1,
        FindingSeverity::Medium => 2,
        FindingSeverity::Low => 3,
        FindingSeverity::Info => 4,
    }
}

/// The rank of a severity when findings are listed, most severe first.
pub fn severity_sort_key(s: &FindingSeverity) -> (r: u8)
    ensures
        r == severity_rank(*s),
{
    match s {
        FindingSeverity::Critical => 0,
        FindingSeverity::High => 1,
        FindingSeverity::Medium => 2,
        FindingSeverity::Low => 3,
        FindingSeverity::Info => 4,
    }
}

/// The title of a scan mode.
pub open spec fn mode_title(mode: ScanMode) -> Seq<char> {
    match mode {
        ScanMode::Quick => "Quick Scan"@,
        ScanMode::Full => "Full Scan"@,
        ScanMode::Usb => "USB Scan"@,
    }
}

/// The title of a scan mode.
pub fn mode_label(mode: &ScanMode) -> (r: &'static str)
    ensures
        r@ == mode_title(*mode),
{
    match mode {
        ScanMode::Quick => "Quick Scan",
        ScanMode::Full => "Full Scan",
        ScanMode::Usb => "USB Scan",
    }
}

/// The spinner message while a scan of kind `mode` starts.
pub open spec fn spinner_text(mode: ScanMode) -> Seq<char> {
    "Scanning ("@ + mode_title(mode) + ")…"@
}

/// The spinner message while a scan of kind `mode` starts.
pub fn spinner_message(mode: &ScanMode) -> (r: String)
    ensures
        r@ == spinner_text(*mode),
{
    concat3("Scanning (", mode_label(mode), ")…")
}

/// The spinner message while a scan of kind `mode` runs: the files scanned so
/// far, with thousands separators, and the time taken.
pub open spec fn progress_text(mode: ScanMode, files: nat, elapsed_secs: nat) -> Seq<char> {
    spinner_text(mode) + " "@ + with_commas(decimal(files)) + " dosya | "@ + elapsed_text(elapsed_secs)
}

/// The spinner message after `files` files and `elapsed_secs` seconds.
pub fn progress_message(mode: &ScanMode, files: u64, elapsed_secs: u64) -> (r: String)
    ensures
        r@ == progress_text(*mode, files as nat, elapsed_secs as nat),
{
    let head = spinner_message(mode);
    let count = format_number(files);
    let time = format_elapsed(elapsed_secs);
    let mut r = String::new();
    push_str(&mut r, head.as_str());
    push_str(&mut r, " ");
    push_str(&mut r, count.as_str());
    push_str(&mut r, " dosya | ");
    push_str(&mut r, time.as_str());
    r
}

/// The variant name of a scan mode.
pub open spec fn mode_name(mode: ScanMode) -> Seq<char> {
    match mode {
        ScanMode::Quick => "Quick"@,
        ScanMode::Full => "Full"@,
        ScanMode::Usb => "Usb"@,
    }
}

/// The message printed when a scan starts without the interactive display.
pub fn scan_start_message(request: &ScanRequest) -> (r: String)
    ensures
        r@ == "panicscan: starting "@ + mode_name(request.mode) + " scan"@,
{
    let mut r = String::new();
    push_str(&mut r, "panicscan: starting ");
    match request.mode {
        ScanMode::Quick => push_str(&mut r, "Quick"),
        ScanMode::Full => push_str(&mut r, "Full"),
        ScanMode::Usb => push_str(&mut r, "Usb"),
    }
    push_str(&mut r, " scan");
    r
}

/// The number of findings in `fs` with severity `s`.
pub open spec fn count_severity(fs: Seq<Finding>, s: FindingSeverity) -> nat
    decreases fs.len(),
{
    if fs.len() == 0 {
        0
    } else {
        count_severity(fs.drop_last(), s) + if fs.last().severity == s { 1nat } else { 0nat }
    }
}

/// How many findings of each severity a report has.
pub struct SeverityCounts {
    pub critical: usize,
    pub high: usize,
    pub medium: usize,
    pub low: usize,
    pub info: usize,
}

impl SeverityCounts {
    /// Counts the findings of `report` by severity.
    pub fn from(report: &ScanReport) -> (r: Self)
        ensures
            r.critical == count_severity(report.findings@, FindingSeverity::Critical),
            r.high == count_severity(report.findings@, FindingSeverity::High),
            r.medium == count_severity(report.findings@, FindingSeverity::Medium),
            r.low == count_severity(report.findings@, FindingSeverity::Low),
            r.info == count_severity(report.findings@, FindingSeverity::Info),
    {
        let fs = &report.findings;
        let mut c = SeverityCounts { critical: 0, high: 0, medium: 0, low: 0, info: 0 };
        let mut i: usize = 0;
        while i < fs.len()
            invariant
                i <= fs@.len(),
                c.critical + c.high + c.medium + c.low + c.info == i,
                c.critical == count_severity(fs@.take(i as int), FindingSeverity::Critical),
                c.high == count_severity(fs@.take(i as int), FindingSeverity::High),
                c.medium == count_severity(fs@.take(i as int), FindingSeverity::Medium),
                c.low == count_severity(fs@.take(i as int), FindingSeverity::Low),
                c.info == count_severity(fs@.take(i as int), FindingSeverity::Info),
            decreases fs.len() - i,
        {
            assert(fs@.take(i + 1).drop_last() == fs@.take(i as int));
            assert(fs@.take(i + 1).last() == fs@[i as int]);
            match fs[i].severity {
                FindingSeverity::Critical => c.critical = c.critical + 1,
                FindingSeverity::High => c.high = c.high + 1,
                FindingSeverity::Medium => c.medium = c.medium + 1,
                FindingSeverity::Low => c.low = c.low + 1,
                FindingSeverity::Info => c.info = c.info + 1,
            }
            i = i + 1;
        }
        assert(fs@.take(fs.len() as int) == fs@);
        c
    }

    /// The number of findings counted.
    pub fn total(&self) -> (r: usize)
        requires
            self.critical + self.high + self.medium + self.low + self.info <= usize::MAX,
        ensures
            r == self.critical + self.high + self.medium + self.low + self.info,
    {
        self.critical + self.high + self.medium + self.low + self.info
    }
}

/// The badge text of a severity, padded to ten columns.
pub open spec fn badge_label(s: FindingSeverity) -> Seq<char> {
    match s {
        FindingSeverity::Critical => " CRITICAL "@,
        FindingSeverity::High => "  HIGH    "@,
        FindingSeverity::Medium => "  MEDIUM  "@,
        FindingSeverity::Low => "  LOW     "@,
        FindingSeverity::Info => "  INFO    "@,
    }
}

/// The styled badge of a severity: critical in bold red, high in bold yellow,
/// medium in bright yellow, low in bright blue, info dimmed.
pub open spec fn badge_text(s: FindingSeverity) -> Seq<char> {
    match s {
        FindingSeverity::Critical => bold_text(coloured("31"@, badge_label(s))),
        FindingSeverity::High => bold_text(coloured("33"@, badge_label(s))),
        FindingSeverity::Medium => coloured("93"@, badge_label(s)),
        FindingSeverity::Low => coloured("94"@, badge_label(s)),
        FindingSeverity::Info => dimmed_text(badge_label(s)),
    }
}

/// The styled badge of a severity.
pub fn severity_badge(s: &FindingSeverity) -> (r: String)
    ensures
        r@ == badge_text(*s),
{
    match s {
        FindingSeverity::Critical => {
            let c = red(" CRITICAL ");
            bold(c.as_str())
        },
        FindingSeverity::High => {
            let c = yellow("  HIGH    ");
            bold(c.as_str())
        },
        FindingSeverity::Medium => bright_yellow("  MEDIUM  "),
        FindingSeverity::Low => bright_blue("  LOW     "),
        FindingSeverity::Info => dimmed("  INFO    "),
    }
}

/// The findings of `fs` with severity `s`, in order.
pub open spec fn of_severity(fs: Seq<Finding>, s: FindingSeverity) -> Seq<Finding>
    decreases fs.len(),
{
    if fs.len() == 0 {
        Seq::empty()
    } else {
        let rest = of_severity(fs.drop_last(), s);
        if fs.last().severity == s {
            rest.push(fs.last())
        } else {
            rest
        }
    }
}

/// The findings of `fs` most severe first, keeping the order of findings of
/// equal severity (a stable sort by severity).
pub open spec fn by_severity(fs: Seq<Finding>) -> Seq<Finding> {
    of_severity(fs, FindingSeverity::Critical) + of_severity(fs, FindingSeverity::High) + of_severity(
        fs,
        FindingSeverity::Medium,
    ) + of_severity(fs, FindingSeverity::Low) + of_severity(fs, FindingSeverity::Info)
}

/// The views of the evidence codes of a finding.
pub open spec fn evidence_codes(es: Seq<crate::report::Evidence>) -> Seq<Seq<char>> {
    es.map_values(|e: crate::report::Evidence| e.code@)
}

/// The indentation of the detail lines of a finding.
pub open spec fn detail_indent() -> Seq<char> {
    "              "@
}

/// `s` padded on the left with spaces to at least `width` characters.
pub open spec fn right_aligned(s: Seq<char>, width: nat) -> Seq<char> {
    if s.len() < width {
        Seq::new((width - s.len()) as nat, |i: int| ' ') + s
    } else {
        s
    }
}

/// The score column of a finding: `[` and the score right-aligned in three
/// columns, then `]`.
pub open spec fn score_text(score: u32) -> Seq<char> {
    "["@ + right_aligned(decimal(score as nat), 3) + "]"@
}

/// Where a finding was found: its file, else its persistence location, else
/// its process.
pub open spec fn location_lines(f: Finding) -> Seq<Seq<char>> {
    match f.item_path {
        Some(p) => seq![detail_indent() + dimmed_text(p@)],
        None => match f.persistence_location {
            Some(l) => seq![detail_indent() + dimmed_text(l@)],
            None => match f.process_id {
                Some(pid) => seq![detail_indent() + "PID "@ + dimmed_text(decimal(pid as nat))],
                None => Seq::empty(),
            },
        },
    }
}

/// The advice shown for a recommended action.
pub open spec fn action_hint(a: RecommendedAction) -> Option<Seq<char>> {
    match a {
        RecommendedAction::Quarantine => Some("→ quarantine recommended"@),
        RecommendedAction::ManualExpertReview => Some("→ manual expert review"@),
        RecommendedAction::OfflineSecurityScan => Some("→ offline security scan"@),
        RecommendedAction::Review => Some("→ review"@),
        RecommendedAction::Ignore => None,
    }
}

/// A wrapped explanation line as shown: indented, dimmed and italic.
pub open spec fn explanation_lines(ls: Seq<Seq<char>>) -> Seq<Seq<char>> {
    Seq::new(ls.len(), |i: int| detail_indent() + italic_text(dimmed_text(ls[i])))
}

/// The lines shown for a finding: a blank line, the badge, score and title,
/// the location, the explanation wrapped at 70 bytes, the evidence codes and
/// the advice.
pub open spec fn finding_lines_spec(f: Finding) -> Seq<Seq<char>> {
    seq![
        Seq::<char>::empty(),
        "  "@ + badge_text(f.severity) + "  "@ + dimmed_text(score_text(f.score)) + "  "@ + bold_text(f.title@),
    ] + location_lines(f) + explanation_lines(wrap_text(f.explanation@, 70)) + (if f.evidences@.len() > 0 {
        seq![detail_indent() + dimmed_text("evidence: "@ + crate::text::join(evidence_codes(f.evidences@), ", "@))]
    } else {
        Seq::empty()
    }) + match action_hint(f.recommended_action) {
        Some(h) => seq![detail_indent() + coloured("96"@, h)],
        None => Seq::empty(),
    }
}

proof fn lemma_of_severity(fs: Seq<Finding>, s: FindingSeverity)
    ensures
        of_severity(fs, s).len() == count_severity(fs, s),
        forall|i: int| 0 <= i < of_severity(fs, s).len() ==> (#[trigger] of_severity(fs, s)[i]).severity == s,
    decreases fs.len(),
{
    if fs.len() > 0 {
        lemma_of_severity(fs.drop_last(), s);
    }
}

/// Listing findings most severe first keeps every finding (as many as the
/// report has) and never puts a less severe finding before a more severe one.
pub proof fn law_listing_sorted_by_severity(fs: Seq<Finding>)
    ensures
        by_severity(fs).len() == fs.len(),
        forall|i: int, j: int|
            0 <= i < j < by_severity(fs).len() ==> severity_rank(#[trigger] by_severity(fs)[i].severity)
                <= severity_rank(#[trigger] by_severity(fs)[j].severity),
{
    let a = of_severity(fs, FindingSeverity::Critical);
    let b = of_severity(fs, FindingSeverity::High);
    let c = of_severity(fs, FindingSeverity::Medium);
    let d = of_severity(fs, FindingSeverity::Low);
    let e = of_severity(fs, FindingSeverity::Info);
    lemma_of_severity(fs, FindingSeverity::Critical);
    lemma_of_severity(fs, FindingSeverity::High);
    lemma_of_severity(fs, FindingSeverity::Medium);
    lemma_of_severity(fs, FindingSeverity::Low);
    lemma_of_severity(fs, FindingSeverity::Info);
    lemma_counts_cover_findings(fs);
    let o = by_severity(fs);
    assert(o == a + b + c + d + e);
    assert forall|i: int| 0 <= i < o.len() implies severity_rank(#[trigger] o[i].severity) == (if i < a.len() {
        0u8
    } else if i < a.len() + b.len() {
        1u8
    } else if i < a.len() + b.len() + c.len() {
        2u8
    } else if i < a.len() + b.len() + c.len() + d.len() {
        3u8
    } else {
        4u8
    }) by {
        if i < a.len() {
            assert(o[i] == a[i]);
        } else if i < a.len() + b.len() {
            assert(o[i] == b[i - a.len()]);
        } else if i < a.len() + b.len() + c.len() {
            assert(o[i] == c[i - a.len() - b.len()]);
        } else if i < a.len() + b.len() + c.len() + d.len() {
            assert(o[i] == d[i - a.len() - b.len() - c.len()]);
        } else {
            assert(o[i] == e[i - a.len() - b.len() - c.len() - d.len()]);
        }
    }
}

pub(crate) fn push_line(lines: &mut Vec<String>, line: String)
    ensures
        line_views(final(lines)@) == line_views(old(lines)@).push(line@),
{
    let ghost before = line_views(lines@);
    lines.push(line);
    assert(line_views(lines@) =~= before.push(line@));
}

fn append_lines(lines: &mut Vec<String>, more: Vec<String>)
    ensures
        line_views(final(lines)@) == line_views(old(lines)@) + line_views(more@),
{
    let ghost start = line_views(lines@);
    let mut i: usize = 0;
    let rest = more;
    let ghost all = line_views(rest@);
    while i < rest.len()
        invariant
            i <= rest@.len(),
            all == line_views(rest@),
            line_views(lines@) == start + all.take(i as int),
        decreases rest.len() - i,
    {
        let l = rest[i].clone();
        push_line(lines, l);
        assert(all.take(i + 1) == all.take(i as int).push(all[i as int]));
        i = i + 1;
    }
    assert(all.take(rest.len() as int) == all);
}

fn concat2(a: &str, b: &str) -> (r: String)
    ensures
        r@ == a@ + b@,
{
    let mut r = String::new();
    push_str(&mut r, a);
    push_str(&mut r, b);
    r
}

pub(crate) fn concat3(a: &str, b: &str, c: &str) -> (r: String)
    ensures
        r@ == a@ + b@ + c@,
{
    let mut r = String::new();
    push_str(&mut r, a);
    push_str(&mut r, b);
    push_str(&mut r, c);
    r
}

/// The lines shown for a finding.
pub fn finding_lines(f: &Finding) -> (r: Vec<String>)
    ensures
        line_views(r@) == finding_lines_spec(*f),
{
    let mut lines: Vec<String> = Vec::new();
    let indent = "              ";
    push_line(&mut lines, String::new());
    let badge = severity_badge(&f.severity);
    let mut score = String::new();
    push_str(&mut score, "[");
    let n = crate::text::decimal_len(f.score as u64);
    let mut k: usize = n;
    while k < 3
        invariant
            n <= k <= 3 || k == n,
            n == decimal(f.score as nat).len(),
            score@ == "["@ + Seq::new((k - n) as nat, |i: int| ' '),
        decreases 3 - k,
    {
        push_char(&mut score, ' ');
        assert(Seq::new((k + 1 - n) as nat, |i: int| ' ') =~= Seq::new((k - n) as nat, |i: int| ' ').push(' '));
        k = k + 1;
    }
    crate::text::push_decimal(&mut score, f.score as u64);
    push_str(&mut score, "]");
    proof {
        if n < 3 {
            assert(score@ =~= score_text(f.score));
        } else {
            assert(Seq::new((k - n) as nat, |i: int| ' ') =~= Seq::<char>::empty());
            assert(score@ =~= score_text(f.score));
        }
    }
    let score_d = dimmed(score.as_str());
    let title = bold(f.title.as_str());
    let mut head = String::new();
    push_str(&mut head, "  ");
    push_str(&mut head, badge.as_str());
    push_str(&mut head, "  ");
    push_str(&mut head, score_d.as_str());
    push_str(&mut head, "  ");
    push_str(&mut head, title.as_str());
    push_line(&mut lines, head);
    let ghost after_head = line_views(lines@);
    match &f.item_path {
        Some(p) => {
            let d = dimmed(p.as_str());
            push_line(&mut lines, concat2(indent, d.as_str()));
        },
        None => match &f.persistence_location {
            Some(l) => {
                let d = dimmed(l.as_str());
                push_line(&mut lines, concat2(indent, d.as_str()));
            },
            None => match f.process_id {
                Some(pid) => {
                    let pid_s = decimal_string(pid as u64);
                    let d = dimmed(pid_s.as_str());
                    push_line(&mut lines, concat3(indent, "PID ", d.as_str()));
                },
                None => {},
            },
        },
    }
    assert(line_views(lines@) =~= after_head + location_lines(*f));
    let ghost after_loc = line_views(lines@);
    let wrapped = wrap(f.explanation.as_str(), 70);
    let ghost wv = line_views(wrapped@);
    let mut i: usize = 0;
    while i < wrapped.len()
        invariant
            i <= wrapped@.len(),
            wv == line_views(wrapped@),
            indent@ == detail_indent(),
            line_views(lines@) == after_loc + explanation_lines(wv.take(i as int)),
        decreases wrapped.len() - i,
    {
        let d = dimmed(wrapped[i].as_str());
        let it = italic(d.as_str());
        push_line(&mut lines, concat2(indent, it.as_str()));
        assert(wv[i as int] == wrapped@[i as int]@);
        assert(explanation_lines(wv.take(i + 1)) =~= explanation_lines(wv.take(i as int)).push(
            detail_indent() + italic_text(dimmed_text(wv[i as int])),
        ));
        i = i + 1;
    }
    assert(wv.take(wrapped.len() as int) == wv);
    let ghost after_expl = line_views(lines@);
    if f.evidences.len() > 0 {
        let mut codes: Vec<String> = Vec::new();
        let mut j: usize = 0;
        while j < f.evidences.len()
            invariant
                j <= f.evidences@.len(),
                line_views(codes@) == evidence_codes(f.evidences@).take(j as int),
            decreases f.evidences.len() - j,
        {
            let ghost before = line_views(codes@);
            codes.push(f.evidences[j].code.clone());
            assert(line_views(codes@) =~= before.push(f.evidences@[j as int].code@));
            assert(evidence_codes(f.evidences@).take(j + 1) =~= evidence_codes(f.evidences@).take(j as int).push(
                f.evidences@[j as int].code@,
            ));
            j = j + 1;
        }
        assert(evidence_codes(f.evidences@).take(f.evidences.len() as int) == evidence_codes(f.evidences@));
        let joined = crate::text::join_with(&codes, ", ");
        let text = concat2("evidence: ", joined.as_str());
        let d = dimmed(text.as_str());
        push_line(&mut lines, concat2(indent, d.as_str()));
    }
    let ghost after_ev = line_views(lines@);
    let hint: Option<&str> = match f.recommended_action {
        RecommendedAction::Quarantine => Some("→ quarantine recommended"),
        RecommendedAction::ManualExpertReview => Some("→ manual expert review"),
        RecommendedAction::OfflineSecurityScan => Some("→ offline security scan"),
        RecommendedAction::Review => Some("→ review"),
        RecommendedAction::Ignore => None,
    };
    match hint {
        Some(h) => {
            let c = bright_cyan(h);
            push_line(&mut lines, concat2(indent, c.as_str()));
        },
        None => {},
    }
    assert(line_views(lines@) =~= finding_lines_spec(*f));
    lines
}

/// The lines of the findings `fs`, one finding after another.
pub open spec fn findings_lines(fs: Seq<Finding>) -> Seq<Seq<char>>
    decreases fs.len(),
{
    if fs.len() == 0 {
        Seq::empty()
    } else {
        findings_lines(fs.drop_last()) + finding_lines_spec(fs.last())
    }
}

/// The rule under the findings: 60 box-drawing dashes.
pub open spec fn divider() -> Seq<char> {
    Seq::new(60, |i: int| '─')
}

/// One part of the summary: `<n> <label>` styled, then two spaces; nothing
/// when `n` is zero.
pub open spec fn summary_part(n: nat, label: Seq<char>, style: spec_fn(Seq<char>) -> Seq<char>) -> Seq<char> {
    if n > 0 {
        style(decimal(n) + label) + "  "@
    } else {
        Seq::empty()
    }
}

/// The summary line: the count of each severity present, most severe first,
/// or `Clean` when there is no finding.
pub open spec fn summary_line(fs: Seq<Finding>) -> Seq<char> {
    let c = count_severity(fs, FindingSeverity::Critical);
    let h = count_severity(fs, FindingSeverity::High);
    let m = count_severity(fs, FindingSeverity::Medium);
    let l = count_severity(fs, FindingSeverity::Low);
    let i = count_severity(fs, FindingSeverity::Info);
    "  Summary: "@
        + summary_part(c, " CRITICAL"@, |t: Seq<char>| bold_text(coloured("31"@, t)))
        + summary_part(h, " HIGH"@, |t: Seq<char>| bold_text(coloured("33"@, t)))
        + summary_part(m, " MEDIUM"@, |t: Seq<char>| coloured("93"@, t))
        + summary_part(l, " LOW"@, |t: Seq<char>| coloured("94"@, t))
        + summary_part(i, " INFO"@, |t: Seq<char>| dimmed_text(t))
        + if fs.len() == 0 { coloured("32"@, "Clean"@) } else { Seq::empty() }
}

proof fn lemma_uniform_counts(fs: Seq<Finding>, s: FindingSeverity)
    requires
        forall|i: int| 0 <= i < fs.len() ==> (#[trigger] fs[i]).severity == s,
    ensures
        forall|t: FindingSeverity| #[trigger] count_severity(fs, t) == if t == s { fs.len() } else { 0 },
    decreases fs.len(),
{
    if fs.len() > 0 {
        let p = fs.drop_last();
        assert forall|i: int| 0 <= i < p.len() implies (#[trigger] p[i]).severity == s by {
            assert(p[i] == fs[i]);
        }
        lemma_uniform_counts(p, s);
        assert(fs.last() == fs[fs.len() - 1]);
        assert forall|t: FindingSeverity| #[trigger] count_severity(fs, t) == if t == s { fs.len() } else { 0 } by {
            assert(count_severity(p, t) == if t == s { p.len() } else { 0 });
        }
    } else {
        assert forall|t: FindingSeverity| #[trigger] count_severity(fs, t) == if t == s { fs.len() } else { 0 } by {}
    }
}

proof fn lemma_count_positive(fs: Seq<Finding>, s: FindingSeverity)
    requires
        count_severity(fs, s) > 0,
    ensures
        fs.len() > 0,
{
}

/// The summary of findings that all have one severity names that severity
/// alone, with the number of findings, in its style: red and bold for
/// critical, yellow and bold for high, bright yellow for medium, bright blue
/// for low and dimmed for info.
pub proof fn law_summary_of_one_severity(fs: Seq<Finding>, s: FindingSeverity)
    requires
        fs.len() > 0,
        forall|i: int| 0 <= i < fs.len() ==> (#[trigger] fs[i]).severity == s,
    ensures
        summary_line(fs) == "  Summary: "@ + match s {
            FindingSeverity::Critical => bold_text(coloured("31"@, decimal(fs.len()) + " CRITICAL"@)),
            FindingSeverity::High => bold_text(coloured("33"@, decimal(fs.len()) + " HIGH"@)),
            FindingSeverity::Medium => coloured("93"@, decimal(fs.len()) + " MEDIUM"@),
            FindingSeverity::Low => coloured("94"@, decimal(fs.len()) + " LOW"@),
            FindingSeverity::Info => dimmed_text(decimal(fs.len()) + " INFO"@),
        } + "  "@,
{
    lemma_uniform_counts(fs, s);
    assert(count_severity(fs, FindingSeverity::Critical) == if s == FindingSeverity::Critical { fs.len() } else { 0 });
    assert(count_severity(fs, FindingSeverity::High) == if s == FindingSeverity::High { fs.len() } else { 0 });
    assert(count_severity(fs, FindingSeverity::Medium) == if s == FindingSeverity::Medium { fs.len() } else { 0 });
    assert(count_severity(fs, FindingSeverity::Low) == if s == FindingSeverity::Low { fs.len() } else { 0 });
    assert(count_severity(fs, FindingSeverity::Info) == if s == FindingSeverity::Info { fs.len() } else { 0 });
    let e = Seq::<char>::empty();
    match s {
        FindingSeverity::Critical => {
            assert(summary_line(fs) =~= "  Summary: "@ + (bold_text(coloured("31"@, decimal(fs.len()) + " CRITICAL"@)) + "  "@) + e + e + e + e + e);
        },
        FindingSeverity::High => {
            assert(summary_line(fs) =~= "  Summary: "@ + e + (bold_text(coloured("33"@, decimal(fs.len()) + " HIGH"@)) + "  "@) + e + e + e + e);
        },
        FindingSeverity::Medium => {
            assert(summary_line(fs) =~= "  Summary: "@ + e + e + (coloured("93"@, decimal(fs.len()) + " MEDIUM"@) + "  "@) + e + e + e);
        },
        FindingSeverity::Low => {
            assert(summary_line(fs) =~= "  Summary: "@ + e + e + e + (coloured("94"@, decimal(fs.len()) + " LOW"@) + "  "@) + e + e);
        },
        FindingSeverity::Info => {
            assert(summary_line(fs) =~= "  Summary: "@ + e + e + e + e + (dimmed_text(decimal(fs.len()) + " INFO"@) + "  "@) + e);
        },
    }
}

/// The summary line ends with the number of info findings, dimmed, whenever
/// there is one; and it reads `Clean` exactly when there is no finding.
pub proof fn law_summary_info_count_and_clean(fs: Seq<Finding>)
    ensures
        count_severity(fs, FindingSeverity::Info) > 0 ==> ({
            let tail = dimmed_text(decimal(count_severity(fs, FindingSeverity::Info)) + " INFO"@) + "  "@;
            &&& tail.len() <= summary_line(fs).len()
            &&& summary_line(fs).skip(summary_line(fs).len() - tail.len()) == tail
        }),
        fs.len() == 0 ==> summary_line(fs) == "  Summary: "@ + coloured("32"@, "Clean"@),
{
    let c = count_severity(fs, FindingSeverity::Critical);
    let h = count_severity(fs, FindingSeverity::High);
    let m = count_severity(fs, FindingSeverity::Medium);
    let l = count_severity(fs, FindingSeverity::Low);
    let i = count_severity(fs, FindingSeverity::Info);
    let head = "  Summary: "@
        + summary_part(c, " CRITICAL"@, |t: Seq<char>| bold_text(coloured("31"@, t)))
        + summary_part(h, " HIGH"@, |t: Seq<char>| bold_text(coloured("33"@, t)))
        + summary_part(m, " MEDIUM"@, |t: Seq<char>| coloured("93"@, t))
        + summary_part(l, " LOW"@, |t: Seq<char>| coloured("94"@, t));
    if i > 0 {
        lemma_count_positive(fs, FindingSeverity::Info);
        let tail = dimmed_text(decimal(i) + " INFO"@) + "  "@;
        assert(summary_line(fs) =~= head + tail);
        assert((head + tail).skip(head.len() as int) =~= tail);
    }
    if fs.len() == 0 {
        let e = Seq::<char>::empty();
        assert(summary_line(fs) =~= "  Summary: "@ + e + e + e + e + e + coloured("32"@, "Clean"@));
    }
}

/// Some finding of `fs` recommends quarantine.
pub open spec fn any_quarantine(fs: Seq<Finding>) -> bool {
    exists|i: int| 0 <= i < fs.len() && fs[i].recommended_action == RecommendedAction::Quarantine
}

/// The lines of a rendered report: the findings most severe first (or a
/// no-threat line), the summary, the file count and duration, and the
/// quarantine hint when a finding recommends quarantine.
pub open spec fn report_lines_spec(r: ScanReport) -> Seq<Seq<char>> {
    let fs = r.findings@;
    (if fs.len() == 0 {
        seq!["  "@ + bold_text(coloured("32"@, "✓  No threats found."@))]
    } else {
        seq!["  "@ + divider()] + findings_lines(by_severity(fs))
    }) + seq![
        "  "@ + divider(),
        Seq::<char>::empty(),
        summary_line(fs),
        "  Files: "@ + bold_text(with_commas(decimal(r.scanned_files as nat))) + "    Duration: "@
            + bold_text(elapsed_text((r.duration_ms / 1000) as nat)),
        Seq::<char>::empty(),
    ] + if any_quarantine(fs) {
        seq![
            "  "@ + dimmed_text("To quarantine a finding:"@),
            "  "@ + italic_text(dimmed_text("  panicscan quarantine file <path> --finding-id <id> --yes"@)),
            Seq::<char>::empty(),
        ]
    } else {
        Seq::empty()
    }
}

/// The counts of the five severities add up to the number of findings.
pub proof fn lemma_counts_cover_findings(fs: Seq<Finding>)
    ensures
        count_severity(fs, FindingSeverity::Critical) + count_severity(fs, FindingSeverity::High)
            + count_severity(fs, FindingSeverity::Medium) + count_severity(fs, FindingSeverity::Low)
            + count_severity(fs, FindingSeverity::Info) == fs.len(),
    decreases fs.len(),
{
    if fs.len() > 0 {
        lemma_counts_cover_findings(fs.drop_last());
    }
}

fn push_summary_part(line: &mut String, n: usize, label: &str, sev: FindingSeverity)
    ensures
        final(line)@ == old(line)@ + summary_part(
            n as nat,
            label@,
            match sev {
                FindingSeverity::Critical => |t: Seq<char>| bold_text(coloured("31"@, t)),
                FindingSeverity::High => |t: Seq<char>| bold_text(coloured("33"@, t)),
                FindingSeverity::Medium => |t: Seq<char>| coloured("93"@, t),
                FindingSeverity::Low => |t: Seq<char>| coloured("94"@, t),
                FindingSeverity::Info => |t: Seq<char>| dimmed_text(t),
            },
        ),
{
    if n > 0 {
        let mut t = decimal_string(n as u64);
        push_str(&mut t, label);
        let styled = match sev {
            FindingSeverity::Critical => {
                let c = red(t.as_str());
                bold(c.as_str())
            },
            FindingSeverity::High => {
                let c = yellow(t.as_str());
                bold(c.as_str())
            },
            FindingSeverity::Medium => bright_yellow(t.as_str()),
            FindingSeverity::Low => bright_blue(t.as_str()),
            FindingSeverity::Info => dimmed(t.as_str()),
        };
        push_str(line, styled.as_str());
        push_str(line, "  ");
    }
}

/// The lines of a rendered report (see [`report_lines_spec`]).
pub fn report_lines(report: &ScanReport) -> (r: Vec<String>)
    ensures
        line_views(r@) == report_lines_spec(*report),
{
    let fs = &report.findings;
    let mut lines: Vec<String> = Vec::new();
    let mut div = String::new();
    let mut k: usize = 0;
    while k < 60
        invariant
            k <= 60,
            div@ == Seq::new(k as nat, |i: int| '─'),
        decreases 60 - k,
    {
        push_char(&mut div, '─');
        assert(div@ =~= Seq::new((k + 1) as nat, |i: int| '─'));
        k = k + 1;
    }
    if fs.len() == 0 {
        let g = green("✓  No threats found.");
        let b = bold(g.as_str());
        push_line(&mut lines, concat2("  ", b.as_str()));
    } else {
        push_line(&mut lines, concat2("  ", div.as_str()));
        let ghost start = line_views(lines@);
        let sevs = [
            FindingSeverity::Critical,
            FindingSeverity::High,
            FindingSeverity::Medium,
            FindingSeverity::Low,
            FindingSeverity::Info,
        ];
        let mut si: usize = 0;
        let ghost mut done: Seq<Finding> = Seq::empty();
        while si < 5
            invariant
                si <= 5,
                sevs@ == seq![
                    FindingSeverity::Critical,
                    FindingSeverity::High,
                    FindingSeverity::Medium,
                    FindingSeverity::Low,
                    FindingSeverity::Info,
                ],
                done == (if si == 0 {
                    Seq::<Finding>::empty()
                } else if si == 1 {
                    of_severity(fs@, FindingSeverity::Critical)
                } else if si == 2 {
                    of_severity(fs@, FindingSeverity::Critical) + of_severity(fs@, FindingSeverity::High)
                } else if si == 3 {
                    of_severity(fs@, FindingSeverity::Critical) + of_severity(fs@, FindingSeverity::High)
                        + of_severity(fs@, FindingSeverity::Medium)
                } else if si == 4 {
                    of_severity(fs@, FindingSeverity::Critical) + of_severity(fs@, FindingSeverity::High)
                        + of_severity(fs@, FindingSeverity::Medium) + of_severity(fs@, FindingSeverity::Low)
                } else {
                    by_severity(fs@)
                }),
                line_views(lines@) == start + findings_lines(done),
            decreases 5 - si,
        {
            let sev = sevs[si];
            let ghost before = done;
            let mut i: usize = 0;
            while i < fs.len()
                invariant
                    i <= fs@.len(),
                    line_views(lines@) == start + findings_lines(before + of_severity(fs@.take(i as int), sev)),
                decreases fs.len() - i,
            {
                assert(fs@.take(i + 1).drop_last() == fs@.take(i as int));
                assert(fs@.take(i + 1).last() == fs@[i as int]);
                if fs[i].severity == sev {
                    let more = finding_lines(&fs[i]);
                    append_lines(&mut lines, more);
                    let ghost sel = of_severity(fs@.take(i as int), sev);
                    assert((before + sel.push(fs@[i as int])).drop_last() =~= before + sel);
                    assert((before + sel.push(fs@[i as int])).last() == fs@[i as int]);
                    assert(before + of_severity(fs@.take(i + 1), sev) =~= (before + sel).push(fs@[i as int]));
                } else {
                    assert(of_severity(fs@.take(i + 1), sev) == of_severity(fs@.take(i as int), sev));
                }
                i = i + 1;
            }
            assert(fs@.take(fs.len() as int) == fs@);
            proof {
                done = before + of_severity(fs@, sev);
            }
            si = si + 1;
        }
    }
    let ghost body = line_views(lines@);
    push_line(&mut lines, concat2("  ", div.as_str()));
    push_line(&mut lines, String::new());
    let counts = SeverityCounts::from(report);
    proof {
        lemma_counts_cover_findings(fs@);
    }
    let mut summary = String::new();
    push_str(&mut summary, "  Summary: ");
    push_summary_part(&mut summary, counts.critical, " CRITICAL", FindingSeverity::Critical);
    push_summary_part(&mut summary, counts.high, " HIGH", FindingSeverity::High);
    push_summary_part(&mut summary, counts.medium, " MEDIUM", FindingSeverity::Medium);
    push_summary_part(&mut summary, counts.low, " LOW", FindingSeverity::Low);
    push_summary_part(&mut summary, counts.info, " INFO", FindingSeverity::Info);
    if counts.total() == 0 {
        let c = green("Clean");
        push_str(&mut summary, c.as_str());
    }
    push_line(&mut lines, summary);
    let files = format_number(report.scanned_files);
    let dur = format_elapsed(report.duration_ms / 1000);
    let fb = bold(files.as_str());
    let db = bold(dur.as_str());
    let mut info = String::new();
    push_str(&mut info, "  Files: ");
    push_str(&mut info, fb.as_str());
    push_str(&mut info, "    Duration: ");
    push_str(&mut info, db.as_str());
    push_line(&mut lines, info);
    push_line(&mut lines, String::new());
    let mut quarantinable = false;
    let mut i: usize = 0;
    while i < fs.len()
        invariant
            i <= fs@.len(),
            quarantinable == exists|j: int| 0 <= j < i && fs@[j].recommended_action == RecommendedAction::Quarantine,
        decreases fs.len() - i,
    {
        if fs[i].recommended_action == RecommendedAction::Quarantine {
            quarantinable = true;
        }
        i = i + 1;
    }
    if quarantinable {
        let d = dimmed("To quarantine a finding:");
        push_line(&mut lines, concat2("  ", d.as_str()));
        let d2 = dimmed("  panicscan quarantine file <path> --finding-id <id> --yes");
        let it = italic(d2.as_str());
        push_line(&mut lines, concat2("  ", it.as_str()));
        push_line(&mut lines, String::new());
    }
    assert(line_views(lines@) =~= report_lines_spec(*report));
    lines
}

/// The title line of the scan header.
pub open spec fn header_title(mode: ScanMode) -> Seq<char> {
    " PanicScan  ·  "@ + mode_title(mode) + " "@
}

/// The header printed before a scan: a box around the bold title, as wide as
/// the title's UTF-8 length plus four.
pub open spec fn header_lines_spec(mode: ScanMode) -> Seq<Seq<char>> {
    let title = header_title(mode);
    let bar = Seq::new(byte_len(title) + 4, |i: int| '═');
    seq![
        Seq::<char>::empty(),
        "  ╔"@ + bar + "╗"@,
        "  ║  "@ + bold_text(title) + "  ║"@,
        "  ╚"@ + bar + "╝"@,
        Seq::<char>::empty(),
    ]
}

/// The header printed before a scan of kind `mode`.
pub fn header_lines(mode: &ScanMode) -> (r: Vec<String>)
    ensures
        line_views(r@) == header_lines_spec(*mode),
{
    let label = mode_label(mode);
    let title = concat3(" PanicScan  ·  ", label, " ");
    let tc = chars_of(title.as_str());
    let n = tc.len();
    let bytes = utf8_len(&tc);
    assert(bytes <= 4 * (n as int));
    assert((n as int) <= u64::MAX);
    let width = bytes + 4;
    let mut bar = String::new();
    let mut k: u128 = 0;
    while k < width
        invariant
            k <= width,
            bar@ == Seq::new(k as nat, |i: int| '═'),
        decreases width - k,
    {
        push_char(&mut bar, '═');
        assert(bar@ =~= Seq::new((k + 1) as nat, |i: int| '═'));
        k = k + 1;
    }
    let mut lines: Vec<String> = Vec::new();
    push_line(&mut lines, String::new());
    push_line(&mut lines, concat3("  ╔", bar.as_str(), "╗"));
    let b = bold(title.as_str());
    push_line(&mut lines, concat3("  ║  ", b.as_str(), "  ║"));
    push_line(&mut lines, concat3("  ╚", bar.as_str(), "╝"));
    push_line(&mut lines, String::new());
    assert(line_views(lines@) =~= header_lines_spec(*mode));
    lines
}

} // verus!
