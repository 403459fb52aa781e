//! Reading established TCP connections out of the text of `/proc/net/tcp`.

use vstd::prelude::*;

use crate::event::{EventKind, SecurityEvent};
use crate::text::{decimal, push_char, push_decimal, segments, split_on, split_whitespace, views, words};

verus! {

broadcast use vstd::string::group_string_axioms;

/// The value of a hexadecimal digit (either case).
pub open spec fn hex_digit(c: char) -> Option<nat> {
    if '0' <= c && c <= '9' {
        Some((c as nat - 48) as nat)
    } else if 'a' <= c && c <= 'f' {
        Some((c as nat - 87) as nat)
    } else if 'A' <= c && c <= 'F' {
        Some((c as nat - 55) as nat)
    } else {
        None
    }
}

/// Every character of `ds` is a hexadecimal digit.
pub open spec fn all_hex(ds: Seq<char>) -> bool {
    forall|i: int| 0 <= i < ds.len() ==> (#[trigger] hex_digit(ds[i])) is Some
}

/// The value of the hexadecimal digits `ds`, most significant first.
pub open spec fn hex_value(ds: Seq<char>) -> nat
    decreases ds.len(),
{
    if ds.len() == 0 {
        0
    } else {
        hex_value(ds.drop_last()) * 16 + hex_digit(ds.last())->0
    }
}

/// What `from_str_radix(s, 16)` gives for an unsigned type whose values are
/// below `bound`: an optional `+`, then at least one hexadecimal digit, and a
/// value that fits.
pub open spec fn parse_hex(s: Seq<char>, bound: nat) -> Option<nat> {
    let ds = if s.len() > 0 && s[0] == '+' { s.drop_first() } else { s };
    if ds.len() > 0 && all_hex(ds) && hex_value(ds) < bound {
        Some(hex_value(ds))
    } else {
        None
    }
}

proof fn lemma_hex_value_grows(ds: Seq<char>, k: int)
    requires
        0 <= k <= ds.len(),
        all_hex(ds),
    ensures
        hex_value(ds.take(k)) <= hex_value(ds),
    decreases ds.len(),
{
    if k < ds.len() {
        assert(ds.drop_last().take(k) == ds.take(k));
        assert(all_hex(ds.drop_last())) by {
            assert forall|i: int| 0 <= i < ds.drop_last().len() implies (#[trigger] hex_digit(ds.drop_last()[i])) is Some by {
                assert(hex_digit(ds[i]) is Some);
            }
        }
        lemma_hex_value_grows(ds.drop_last(), k);
    } else {
        assert(ds.take(k) == ds);
    }
}

fn hex_digit_of(c: char) -> (r: Option<u64>)
    ensures
        r matches Some(v) ==> hex_digit(c) == Some(v as nat) && v < 16,
        r is None ==> hex_digit(c) is None,
{
    if '0' <= c && c <= '9' {
        Some((c as u32 - 48) as u64)
    } else if 'a' <= c && c <= 'f' {
        Some((c as u32 - 87) as u64)
    } else if 'A' <= c && c <= 'F' {
        Some((c as u32 - 55) as u64)
    } else {
        None
    }
}

/// Reads `s` as a hexadecimal number below `bound` (`from_str_radix(s, 16)`
/// for an unsigned type whose values are below `bound`).
pub fn parse_hex_below(s: &Vec<char>, bound: u64) -> (r: Option<u64>)
    requires
        0 < bound <= 0x1_0000_0000,
    ensures
        r matches Some(v) ==> parse_hex(s@, bound as nat) == Some(v as nat),
        r is None ==> parse_hex(s@, bound as nat) is None,
{
    let start: usize = if s.len() > 0 && s[0] == '+' { 1 } else { 0 };
    let ghost ds = if s@.len() > 0 && s@[0] == '+' { s@.drop_first() } else { s@ };
    assert(ds == s@.skip(start as int));
    if start >= s.len() {
        return None;
    }
    let mut acc: u64 = 0;
    let mut i: usize = start;
    while i < s.len()
        invariant
            start <= i <= s.len(),
            ds == s@.skip(start as int),
            ds == (if s@.len() > 0 && s@[0] == '+' { s@.drop_first() } else { s@ }),
            ds.len() > 0,
            0 < bound <= 0x1_0000_0000,
            acc < bound,
            all_hex(ds.take(i - start)),
            acc == hex_value(ds.take(i - start)),
        decreases s.len() - i,
    {
        let ghost pre = ds.take(i - start);
        let ghost next = ds.take(i + 1 - start);
        assert(next.drop_last() == pre);
        assert(next.last() == s@[i as int]);
        match hex_digit_of(s[i]) {
            None => {
                assert(!all_hex(ds)) by {
                    assert(ds[i - start] == s@[i as int]);
                    assert(hex_digit(ds[i - start]) is None);
                }
                assert(parse_hex(s@, bound as nat) is None);
                return None;
            },
            Some(d) => {
                let v = acc * 16 + d;
                assert(all_hex(next)) by {
                    assert forall|j: int| 0 <= j < next.len() implies (#[trigger] hex_digit(next[j])) is Some by {
                        if j < next.len() - 1 {
                            assert(next[j] == pre[j]);
                            assert(hex_digit(pre[j]) is Some);
                        }
                    }
                }
                assert(v == hex_value(next));
                if v >= bound {
                    proof {
                        if all_hex(ds) {
                            lemma_hex_value_grows(ds, i + 1 - start);
                        }
                    }
                    assert(parse_hex(s@, bound as nat) is None);
                    return None;
                }
                acc = v;
            },
        }
        i = i + 1;
    }
    assert(ds.take(i - start) == ds);
    Some(acc)
}

/// The dotted-quad text of the IPv4 address stored little-endian in `n`, the
/// way `/proc/net/tcp` stores addresses.
pub open spec fn ipv4_text(n: nat) -> Seq<char> {
    decimal(n % 256) + "."@ + decimal((n / 256) % 256) + "."@ + decimal((n / 65536) % 256) + "."@
        + decimal((n / 16777216) % 256)
}

/// The dotted-quad address written as 8 hexadecimal digits, or `None` when
/// `hex` is not that.
pub open spec fn hex_ipv4(hex: Seq<char>) -> Option<Seq<char>> {
    if hex.len() == 8 && parse_hex(hex, 0x1_0000_0000) is Some {
        Some(ipv4_text(parse_hex(hex, 0x1_0000_0000)->0))
    } else {
        None
    }
}

/// The dotted-quad address written as 8 hexadecimal digits (little-endian),
/// or `None` when `hex` is not that.
pub fn hex_to_ipv4(hex: &Vec<char>) -> (r: Option<String>)
    ensures
        r matches Some(s) ==> hex_ipv4(hex@) == Some(s@),
        r is None ==> hex_ipv4(hex@) is None,
{
    if hex.len() != 8 {
        return None;
    }
    match parse_hex_below(hex, 0x1_0000_0000) {
        None => None,
        Some(n) => {
            let mut r = String::new();
            push_decimal(&mut r, n % 256);
            push_char(&mut r, '.');
            push_decimal(&mut r, (n / 256) % 256);
            push_char(&mut r, '.');
            push_decimal(&mut r, (n / 65536) % 256);
            push_char(&mut r, '.');
            push_decimal(&mut r, (n / 16777216) % 256);
            proof {
                reveal_strlit(".");
                assert(r@ =~= ipv4_text(n as nat));
            }
            Some(r)
        },
    }
}

/// The index of the first `:` in `s`.
pub open spec fn first_colon(s: Seq<char>) -> Option<int> {
    if exists|i: int| 0 <= i < s.len() && s[i] == ':' {
        Some(choose|i: int| 0 <= i < s.len() && s[i] == ':' && forall|j: int| 0 <= j < i ==> s[j] != ':')
    } else {
        None
    }
}

/// Splits `s` at its first `:` into the part before and the part after.
pub fn parse_hex_addr(s: &Vec<char>) -> (r: Option<(Vec<char>, Vec<char>)>)
    ensures
        r matches Some(p) ==> first_colon(s@) matches Some(i) && p.0@ == s@.take(i) && p.1@ == s@.skip(i + 1),
        r is None ==> first_colon(s@) is None,
{
    let mut i: usize = 0;
    while i < s.len()
        invariant
            i <= s.len(),
            forall|j: int| 0 <= j < i ==> s@[j] != ':',
        decreases s.len() - i,
    {
        if s[i] == ':' {
            let mut before: Vec<char> = Vec::new();
            let mut after: Vec<char> = Vec::new();
            let mut k: usize = 0;
            while k < i
                invariant
                    k <= i < s.len(),
                    before@ == s@.take(k as int),
                decreases i - k,
            {
                before.push(s[k]);
                assert(s@.take(k + 1) == s@.take(k as int).push(s@[k as int]));
                k = k + 1;
            }
            k = i + 1;
            while k < s.len()
                invariant
                    i < k <= s.len(),
                    after@ == s@.subrange(i + 1, k as int),
                decreases s.len() - k,
            {
                after.push(s[k]);
                assert(s@.subrange(i + 1, k + 1) == s@.subrange(i + 1, k as int).push(s@[k as int]));
                k = k + 1;
            }
            proof {
                let w = i as int;
                assert(0 <= w < s@.len() && s@[w] == ':' && forall|j: int| 0 <= j < w ==> s@[j] != ':');
                let c = first_colon(s@)->0;
                if c < w {
                    assert(s@[c] == ':');
                } else if w < c {
                    assert(s@[w] == ':');
                }
                assert(c == w);
                assert(s@.subrange(i + 1, s.len() as int) == s@.skip(i + 1));
            }
            return Some((before, after));
        }
        i = i + 1;
    }
    None
}

/// The connection (dotted-quad remote address, remote port) that a line of
/// `/proc/net/tcp` describes, when the line describes an established
/// connection to a remote address other than `0.0.0.0`.
pub open spec fn tcp_line_connection(line: Seq<char>) -> Option<(Seq<char>, u16)> {
    let f = words(line);
    if f.len() < 4 || f[3] != seq!['0', '1'] {
        None
    } else {
        match first_colon(f[2]) {
            None => None,
            Some(i) => {
                let ip = f[2].take(i);
                let port = f[2].skip(i + 1);
                if ip == Seq::new(8, |k: int| '0') {
                    None
                } else {
                    match (hex_ipv4(ip), parse_hex(port, 0x1_0000)) {
                        (Some(addr), Some(p)) => Some((addr, p as u16)),
                        _ => None,
                    }
                }
            },
        }
    }
}

/// A carriage return at the end of a line (as in text with CRLF line ends)
/// changes nothing about the connection the line describes.
pub proof fn law_carriage_return_ignored(line: Seq<char>)
    ensures
        tcp_line_connection(line.push('\r')) == tcp_line_connection(line),
{
    assert(line.push('\r').drop_last() == line);
    assert(crate::text::is_ws('\r'));
}

/// `e` is the event for the connection `conn` with id `id`.
pub open spec fn is_connection_event(e: SecurityEvent, id: u64, conn: (Seq<char>, u16)) -> bool {
    &&& e.id == id
    &&& e.kind matches EventKind::Network { pid, dst_ip, dst_port, protocol, bytes_sent, bytes_recv }
        && pid == 0 && dst_ip@ == conn.0 && dst_port == conn.1 && protocol@ == "tcp"@ && bytes_sent == 0
        && bytes_recv == 0
}

fn is_zero_address(ip: &Vec<char>) -> (r: bool)
    ensures
        r == (ip@ == Seq::new(8, |k: int| '0')),
{
    if ip.len() != 8 {
        return false;
    }
    let mut i: usize = 0;
    while i < 8
        invariant
            ip@.len() == 8,
            i <= 8,
            forall|k: int| 0 <= k < i ==> ip@[k] == '0',
        decreases 8 - i,
    {
        if ip[i] != '0' {
            return false;
        }
        i = i + 1;
    }
    assert(ip@ =~= Seq::new(8, |k: int| '0'));
    true
}

/// The event for one line of `/proc/net/tcp`, with id `id`, when the line
/// describes an established connection to a remote address other than
/// `0.0.0.0`.
pub fn parse_proc_net_tcp_line(line: &str, id: u64) -> (r: Option<SecurityEvent>)
    ensures
        r matches Some(e) ==> tcp_line_connection(line@) matches Some(c) && is_connection_event(e, id, c),
        r is None ==> tcp_line_connection(line@) is None,
{
    let cs = crate::text::chars_of(line);
    parse_line_chars(&cs, id)
}

fn parse_line_chars(line: &Vec<char>, id: u64) -> (r: Option<SecurityEvent>)
    ensures
        r matches Some(e) ==> tcp_line_connection(line@) matches Some(c) && is_connection_event(e, id, c),
        r is None ==> tcp_line_connection(line@) is None,
{
    let fields = split_whitespace(line);
    assert(views(fields@) == words(line@));
    if fields.len() < 4 {
        return None;
    }
    assert(views(fields@)[3] == fields@[3]@);
    assert(views(fields@)[2] == fields@[2]@);
    let state = &fields[3];
    if !(state.len() == 2 && state[0] == '0' && state[1] == '1') {
        assert(state@ != seq!['0', '1']) by {
            if state@ == seq!['0', '1'] {
                assert(state@[0] == '0');
            }
        }
        return None;
    }
    assert(state@ =~= seq!['0', '1']);
    let (ip, port) = match parse_hex_addr(&fields[2]) {
        Some(p) => p,
        None => return None,
    };
    if is_zero_address(&ip) {
        return None;
    }
    let dst_ip = match hex_to_ipv4(&ip) {
        Some(a) => a,
        None => return None,
    };
    let dst_port = match parse_hex_below(&port, 0x1_0000) {
        Some(p) => p as u16,
        None => return None,
    };
    let kind = EventKind::Network {
        pid: 0,
        dst_ip,
        dst_port,
        protocol: "tcp".to_owned(),
        bytes_sent: 0,
        bytes_recv: 0,
    };
    Some(SecurityEvent::new(id, kind))
}

/// The lines of `s`: the newline-separated segments, without the empty
/// segment after a final newline. (A carriage return before a newline stays
/// part of its line; it is whitespace to the field split, so it changes no
/// parse.)
pub open spec fn text_lines(s: Seq<char>) -> Seq<Seq<char>> {
    let r = segments(s, '\n');
    if r.last().len() == 0 {
        r.drop_last()
    } else {
        r
    }
}

/// The lines of `s` (see [`text_lines`]).
pub fn split_lines(s: &Vec<char>) -> (r: Vec<Vec<char>>)
    ensures
        views(r@) == text_lines(s@),
{
    let mut out = split_on(s, '\n');
    let last = out.len() - 1;
    if out[last].len() == 0 {
        let ghost all = views(out@);
        out.pop();
        assert(views(out@) =~= all.drop_last());
    }
    out
}

/// The connections described by `lines`, in order.
pub open spec fn connections(lines: Seq<Seq<char>>) -> Seq<(Seq<char>, u16)>
    decreases lines.len(),
{
    if lines.len() == 0 {
        Seq::empty()
    } else {
        let prev = connections(lines.drop_last());
        match tcp_line_connection(lines.last()) {
            Some(c) => prev.push(c),
            None => prev,
        }
    }
}

/// The lines of a `/proc/net/tcp` text after its header line.
pub open spec fn table_rows(content: Seq<char>) -> Seq<Seq<char>> {
    let l = text_lines(content);
    if l.len() == 0 {
        l
    } else {
        l.drop_first()
    }
}

proof fn lemma_first_connection(rows: Seq<Seq<char>>, c: (Seq<char>, u16))
    requires
        rows.len() > 0,
        tcp_line_connection(rows[0]) == Some(c),
    ensures
        connections(rows).len() > 0,
        connections(rows)[0] == c,
    decreases rows.len(),
{
    if rows.len() == 1 {
        assert(rows.drop_last() =~= Seq::<Seq<char>>::empty());
        assert(rows.last() == rows[0]);
        assert(connections(rows.drop_last()) =~= Seq::<(Seq<char>, u16)>::empty());
        assert(connections(rows) =~= seq![c]);
        assert(connections(rows)[0] == c);
    } else {
        assert(rows.drop_last()[0] == rows[0]);
        lemma_first_connection(rows.drop_last(), c);
        let prev = connections(rows.drop_last());
        match tcp_line_connection(rows.last()) {
            Some(d) => {
                assert(connections(rows) == prev.push(d));
                assert(prev.push(d)[0] == prev[0]);
            },
            None => {
                assert(connections(rows) == prev);
            },
        }
    }
}

/// Only the header line of the table is skipped: the rows read are exactly
/// the lines after the first, in order, so the first line after the header
/// is read like every other; when it describes an established connection,
/// that connection is the first one reported.
pub proof fn law_only_header_skipped(content: Seq<char>)
    requires
        text_lines(content).len() > 0,
    ensures
        table_rows(content).len() == text_lines(content).len() - 1,
        forall|i: int| 0 <= i < table_rows(content).len() ==> #[trigger] table_rows(content)[i] == text_lines(content)[i + 1],
        text_lines(content).len() >= 2 ==> (tcp_line_connection(text_lines(content)[1]) matches Some(c) ==> (
            connections(table_rows(content)).len() > 0 && connections(table_rows(content))[0] == c)),
{
    let l = text_lines(content);
    if l.len() >= 2 {
        if let Some(c) = tcp_line_connection(l[1]) {
            assert(table_rows(content)[0] == l[1]);
            lemma_first_connection(table_rows(content), c);
        }
    }
}

/// The id `k` steps after `base`, counting on past `u64::MAX` from zero as a
/// release build's `+= 1` does.
pub open spec fn id_after(base: u64, k: int) -> u64 {
    ((base + k) % 0x1_0000_0000_0000_0000) as u64
}

proof fn lemma_id_after_step(base: u64, k: int)
    requires
        k >= 0,
    ensures
        id_after(base, k + 1) == if id_after(base, k) == u64::MAX { 0u64 } else { (id_after(base, k) + 1) as u64 },
{
    let m: int = 0x1_0000_0000_0000_0000;
    let x = base + k;
    assert(x >= 0);
    let q = x / m;
    let r = x % m;
    assert(x == q * m + r && 0 <= r < m) by (nonlinear_arith)
        requires m > 0, x >= 0, q == x / m, r == x % m;
    if r == m - 1 {
        assert((x + 1) % m == 0) by (nonlinear_arith)
            requires x == q * m + r, r == m - 1, m > 0, q >= 0;
    } else {
        assert((x + 1) % m == r + 1) by (nonlinear_arith)
            requires x == q * m + r, 0 <= r < m - 1, m > 0, q >= 0;
    }
}

/// Ids handed out one after another are consecutive: one step after the id
/// `k` steps after `base` is the id `k + 1` steps after it.
pub proof fn law_ids_consecutive(base: u64, k: nat)
    ensures
        id_after(id_after(base, k as int), 1) == id_after(base, k + 1int),
{
    let x = id_after(base, k as int);
    lemma_id_after_step(base, k as int);
    lemma_id_after_step(x, 0);
    assert(id_after(x, 0) == x) by (nonlinear_arith)
        requires
            0 <= x < 0x1_0000_0000_0000_0000,
            id_after(x, 0) == ((x + 0) % 0x1_0000_0000_0000_0000) as u64,
    ;
}

/// The established connections listed in the text of `/proc/net/tcp`, as
/// events numbered from `base_id` in the order of the table.
pub fn parse_proc_net_tcp(content: &str, base_id: u64) -> (r: Vec<SecurityEvent>)
    ensures
        r@.len() == connections(table_rows(content@)).len(),
        forall|i: int|
            0 <= i < r@.len() ==> is_connection_event(
                #[trigger] r@[i],
                id_after(base_id, i),
                connections(table_rows(content@))[i],
            ),
{
    let chars = crate::text::chars_of(content);
    let lines = split_lines(&chars);
    let ghost rows = table_rows(content@);
    let mut out: Vec<SecurityEvent> = Vec::new();
    if lines.len() == 0 {
        return out;
    }
    assert(views(lines@).drop_first() == rows);
    let mut id = base_id;
    let mut i: usize = 1;
    proof {
        assert(rows.take(0) =~= Seq::<Seq<char>>::empty());
        assert(id_after(base_id, 0) == base_id);
    }
    while i < lines.len()
        invariant
            1 <= i <= lines@.len(),
            rows == views(lines@).drop_first(),
            id == id_after(base_id, out@.len() as int),
            out@.len() <= i - 1,
            out@.len() == connections(rows.take(i - 1)).len(),
            forall|k: int|
                0 <= k < out@.len() ==> is_connection_event(
                    #[trigger] out@[k],
                    id_after(base_id, k),
                    connections(rows.take(i - 1))[k],
                ),
        decreases lines.len() - i,
    {
        assert(rows.take(i as int).drop_last() == rows.take(i - 1));
        assert(rows.take(i as int).last() == lines@[i as int]@);
        match parse_line_chars(&lines[i], id) {
            Some(e) => {
                proof {
                    lemma_id_after_step(base_id, out@.len() as int);
                }
                out.push(e);
                id = if id == u64::MAX {
                    0
                } else {
                    id + 1
                };
            },
            None => {},
        }
        i = i + 1;
    }
    assert(rows.take(i - 1) == rows);
    out
}

} // verus!
