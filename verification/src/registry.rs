//! The Windows registry watch: which keys are watched, and how two snapshots
//! of a key's values differ.

use vstd::prelude::*;

use crate::event::RegistryOp;
use crate::text::push_str;

verus! {

broadcast use vstd::string::group_string_axioms;

/// A registry root key.
#[derive(Debug, Clone, Copy, PartialEq, Eq, Structural)]
pub enum RegistryHive {
    LocalMachine,
    CurrentUser,
}

/// The root key a hive name stands for: `HKLM` and `HKCU`; no other name is
/// watched.
pub fn hive_of(name: &str) -> (r: Option<RegistryHive>)
    ensures
        r == if name@ == "HKLM"@ {
            Some(RegistryHive::LocalMachine)
        } else if name@ == "HKCU"@ {
            Some(RegistryHive::CurrentUser)
        } else {
            None::<RegistryHive>
        },
{
    let n = name.to_owned();
    if n == "HKLM".to_owned() {
        Some(RegistryHive::LocalMachine)
    } else if n == "HKCU".to_owned() {
        Some(RegistryHive::CurrentUser)
    } else {
        None
    }
}

/// The watched keys as (subkey, hive name), in the order they are polled.
pub open spec fn watch_keys_spec() -> Seq<(Seq<char>, Seq<char>)> {
    seq![
        ("SOFTWARE\\Microsoft\\Windows\\CurrentVersion\\Run"@, "HKLM"@),
        ("SOFTWARE\\Microsoft\\Windows\\CurrentVersion\\RunOnce"@, "HKLM"@),
        ("SOFTWARE\\Microsoft\\Windows\\CurrentVersion\\Run"@, "HKCU"@),
        ("SOFTWARE\\Microsoft\\Windows NT\\CurrentVersion\\Winlogon"@, "HKLM"@),
        ("SYSTEM\\CurrentControlSet\\Services"@, "HKLM"@),
    ]
}

/// The view of a list of string pairs.
pub open spec fn pair_views(v: Seq<(String, String)>) -> Seq<(Seq<char>, Seq<char>)> {
    v.map_values(|p: (String, String)| (p.0@, p.1@))
}

/// The watched keys as (subkey, hive name): the autorun keys, Winlogon and the
/// service list.
pub fn registry_watch_keys() -> (r: Vec<(String, String)>)
    ensures
        pair_views(r@) == watch_keys_spec(),
{
    let mut v: Vec<(String, String)> = Vec::new();
    v.push(("SOFTWARE\\Microsoft\\Windows\\CurrentVersion\\Run".to_owned(), "HKLM".to_owned()));
    v.push(("SOFTWARE\\Microsoft\\Windows\\CurrentVersion\\RunOnce".to_owned(), "HKLM".to_owned()));
    v.push(("SOFTWARE\\Microsoft\\Windows\\CurrentVersion\\Run".to_owned(), "HKCU".to_owned()));
    v.push(
        ("SOFTWARE\\Microsoft\\Windows NT\\CurrentVersion\\Winlogon".to_owned(), "HKLM".to_owned()),
    );
    v.push(("SYSTEM\\CurrentControlSet\\Services".to_owned(), "HKLM".to_owned()));
    assert(pair_views(v@) =~= watch_keys_spec());
    v
}

/// The full name of a watched key: `<hive>\<subkey>`.
pub fn registry_full_path(hive: &str, subkey: &str) -> (r: String)
    ensures
        r@ == hive@ + "\\"@ + subkey@,
{
    let mut r = String::new();
    push_str(&mut r, hive);
    push_str(&mut r, "\\");
    push_str(&mut r, subkey);
    r
}

/// The value of the first entry named `name` at or after index `i`.
pub open spec fn value_from(m: Seq<(Seq<char>, Seq<char>)>, name: Seq<char>, i: int) -> Option<Seq<char>>
    decreases m.len() - i,
{
    if i < 0 || i >= m.len() {
        None
    } else if m[i].0 == name {
        Some(m[i].1)
    } else {
        value_from(m, name, i + 1)
    }
}

/// The value a snapshot gives `name`.
pub open spec fn value_in(m: Seq<(Seq<char>, Seq<char>)>, name: Seq<char>) -> Option<Seq<char>> {
    value_from(m, name, 0)
}

/// The changes reported for the entries of `cur` against the earlier snapshot
/// `prev`, in the order of `cur`: a name that was absent is created, a name
/// whose value differs is set, an unchanged value is not reported.
pub open spec fn changed_entries(cur: Seq<(Seq<char>, Seq<char>)>, prev: Seq<(Seq<char>, Seq<char>)>) -> Seq<(Seq<char>, RegistryOp)>
    decreases cur.len(),
{
    if cur.len() == 0 {
        Seq::empty()
    } else {
        let rest = changed_entries(cur.drop_last(), prev);
        let (n, v) = cur.last();
        match value_in(prev, n) {
            None => rest.push((n, RegistryOp::Create)),
            Some(pv) => if pv != v {
                rest.push((n, RegistryOp::SetValue))
            } else {
                rest
            },
        }
    }
}

/// The deletions reported for the entries of `prev` that `cur` no longer has,
/// in the order of `prev`.
pub open spec fn deleted_entries(prev: Seq<(Seq<char>, Seq<char>)>, cur: Seq<(Seq<char>, Seq<char>)>) -> Seq<(Seq<char>, RegistryOp)>
    decreases prev.len(),
{
    if prev.len() == 0 {
        Seq::empty()
    } else {
        let rest = deleted_entries(prev.drop_last(), cur);
        let (n, _v) = prev.last();
        if value_in(cur, n) is None {
            rest.push((n, RegistryOp::Delete))
        } else {
            rest
        }
    }
}

/// Everything reported when a key's values go from `prev` to `cur`.
pub open spec fn snapshot_changes(prev: Seq<(Seq<char>, Seq<char>)>, cur: Seq<(Seq<char>, Seq<char>)>) -> Seq<(Seq<char>, RegistryOp)> {
    changed_entries(cur, prev) + deleted_entries(prev, cur)
}

/// No two entries of `m` have the same name.
pub open spec fn unique_names(m: Seq<(Seq<char>, Seq<char>)>) -> bool {
    forall|i: int, j: int| 0 <= i < j < m.len() ==> m[i].0 != m[j].0
}

proof fn lemma_value_of_entry(m: Seq<(Seq<char>, Seq<char>)>, k: int, i: int)
    requires
        unique_names(m),
        0 <= i <= k < m.len(),
    ensures
        value_from(m, m[k].0, i) == Some(m[k].1),
    decreases k - i,
{
    if i < k {
        assert(m[i].0 != m[k].0);
        lemma_value_of_entry(m, k, i + 1);
    }
}

proof fn lemma_unchanged_prefix(m: Seq<(Seq<char>, Seq<char>)>, cur: Seq<(Seq<char>, Seq<char>)>)
    requires
        unique_names(m),
        forall|k: int| 0 <= k < cur.len() ==> value_in(m, (#[trigger] cur[k]).0) == Some(cur[k].1),
    ensures
        changed_entries(cur, m) == Seq::<(Seq<char>, RegistryOp)>::empty(),
    decreases cur.len(),
{
    if cur.len() > 0 {
        assert(value_in(m, cur[cur.len() - 1].0) == Some(cur[cur.len() - 1].1));
        lemma_unchanged_prefix(m, cur.drop_last());
    }
}

proof fn lemma_nothing_deleted(m: Seq<(Seq<char>, Seq<char>)>, prev: Seq<(Seq<char>, Seq<char>)>)
    requires
        forall|k: int| 0 <= k < prev.len() ==> value_in(m, (#[trigger] prev[k]).0) is Some,
    ensures
        deleted_entries(prev, m) == Seq::<(Seq<char>, RegistryOp)>::empty(),
    decreases prev.len(),
{
    if prev.len() > 0 {
        assert(value_in(m, prev[prev.len() - 1].0) is Some);
        lemma_nothing_deleted(m, prev.drop_last());
    }
}

/// A key whose values did not change (no name listed twice) reports no
/// change.
pub proof fn law_unchanged_snapshot_reports_nothing(m: Seq<(Seq<char>, Seq<char>)>)
    requires
        unique_names(m),
    ensures
        snapshot_changes(m, m) == Seq::<(Seq<char>, RegistryOp)>::empty(),
{
    assert forall|k: int| 0 <= k < m.len() implies value_in(m, (#[trigger] m[k]).0) == Some(m[k].1) by {
        lemma_value_of_entry(m, k, 0);
    }
    lemma_unchanged_prefix(m, m);
    lemma_nothing_deleted(m, m);
}

proof fn lemma_deletions_complete(prev: Seq<(Seq<char>, Seq<char>)>, cur: Seq<(Seq<char>, Seq<char>)>)
    ensures
        forall|k: int|
            0 <= k < prev.len() && value_in(cur, (#[trigger] prev[k]).0) is None ==> deleted_entries(prev, cur).contains(
                (prev[k].0, RegistryOp::Delete),
            ),
    decreases prev.len(),
{
    if prev.len() > 0 {
        let p = prev.drop_last();
        lemma_deletions_complete(p, cur);
        let rest = deleted_entries(p, cur);
        assert forall|k: int|
            0 <= k < prev.len() && value_in(cur, (#[trigger] prev[k]).0) is None implies deleted_entries(prev, cur).contains(
                (prev[k].0, RegistryOp::Delete),
            ) by {
            let x = (prev[k].0, RegistryOp::Delete);
            if k < prev.len() - 1 {
                assert(p[k] == prev[k]);
                assert(rest.contains(x));
                let j = choose|j: int| 0 <= j < rest.len() && rest[j] == x;
                if value_in(cur, prev.last().0) is None {
                    assert(rest.push((prev.last().0, RegistryOp::Delete))[j] == x);
                }
            } else {
                assert(prev[k] == prev.last());
                assert(rest.push(x)[rest.len() as int] == x);
            }
        }
    }
}

proof fn lemma_changes_complete(cur: Seq<(Seq<char>, Seq<char>)>, prev: Seq<(Seq<char>, Seq<char>)>)
    ensures
        forall|k: int|
            0 <= k < cur.len() && value_in(prev, (#[trigger] cur[k]).0) is None ==> changed_entries(cur, prev).contains(
                (cur[k].0, RegistryOp::Create),
            ),
        forall|k: int|
            0 <= k < cur.len() && value_in(prev, (#[trigger] cur[k]).0) is Some && value_in(prev, cur[k].0)->0 != cur[k].1
                ==> changed_entries(cur, prev).contains((cur[k].0, RegistryOp::SetValue)),
    decreases cur.len(),
{
    if cur.len() > 0 {
        let c = cur.drop_last();
        lemma_changes_complete(c, prev);
        let rest = changed_entries(c, prev);
        let full = changed_entries(cur, prev);
        assert forall|j: int| 0 <= j < rest.len() implies full.contains(#[trigger] rest[j]) by {
            if full != rest {
                assert(full[j] == rest[j]);
            }
        }
        assert forall|k: int|
            0 <= k < cur.len() && value_in(prev, (#[trigger] cur[k]).0) is None implies full.contains(
                (cur[k].0, RegistryOp::Create),
            ) by {
            if k < cur.len() - 1 {
                assert(c[k] == cur[k]);
                let j = choose|j: int| 0 <= j < rest.len() && rest[j] == (cur[k].0, RegistryOp::Create);
                assert(full.contains(rest[j]));
            } else {
                assert(cur[k] == cur.last());
                assert(full[rest.len() as int] == (cur[k].0, RegistryOp::Create));
            }
        }
        assert forall|k: int|
            0 <= k < cur.len() && value_in(prev, (#[trigger] cur[k]).0) is Some && value_in(prev, cur[k].0)->0 != cur[k].1
                implies full.contains((cur[k].0, RegistryOp::SetValue)) by {
            if k < cur.len() - 1 {
                assert(c[k] == cur[k]);
                let j = choose|j: int| 0 <= j < rest.len() && rest[j] == (cur[k].0, RegistryOp::SetValue);
                assert(full.contains(rest[j]));
            } else {
                assert(cur[k] == cur.last());
                assert(full[rest.len() as int] == (cur[k].0, RegistryOp::SetValue));
            }
        }
    }
}

/// Every change between two snapshots is reported: a name of the earlier
/// snapshot that the current one lacks is reported deleted, a name of the
/// current snapshot that the earlier one lacks is reported created, and a
/// name whose value differs from the earlier value is reported set.
pub proof fn law_every_change_reported(prev: Seq<(Seq<char>, Seq<char>)>, cur: Seq<(Seq<char>, Seq<char>)>)
    ensures
        forall|k: int|
            0 <= k < prev.len() && value_in(cur, (#[trigger] prev[k]).0) is None ==> snapshot_changes(prev, cur).contains(
                (prev[k].0, RegistryOp::Delete),
            ),
        forall|k: int|
            0 <= k < cur.len() && value_in(prev, (#[trigger] cur[k]).0) is None ==> snapshot_changes(prev, cur).contains(
                (cur[k].0, RegistryOp::Create),
            ),
        forall|k: int|
            0 <= k < cur.len() && value_in(prev, (#[trigger] cur[k]).0) is Some && value_in(prev, cur[k].0)->0 != cur[k].1
                ==> snapshot_changes(prev, cur).contains((cur[k].0, RegistryOp::SetValue)),
{
    lemma_deletions_complete(prev, cur);
    lemma_changes_complete(cur, prev);
    let a = changed_entries(cur, prev);
    let b = deleted_entries(prev, cur);
    assert forall|x: (Seq<char>, RegistryOp)| b.contains(x) implies #[trigger] (a + b).contains(x) by {
        let j = choose|j: int| 0 <= j < b.len() && b[j] == x;
        assert((a + b)[a.len() + j] == x);
    }
    assert forall|x: (Seq<char>, RegistryOp)| a.contains(x) implies #[trigger] (a + b).contains(x) by {
        let j = choose|j: int| 0 <= j < a.len() && a[j] == x;
        assert((a + b)[j] == x);
    }
}

/// The view of a list of reported changes.
pub open spec fn change_views(v: Seq<(String, RegistryOp)>) -> Seq<(Seq<char>, RegistryOp)> {
    v.map_values(|p: (String, RegistryOp)| (p.0@, p.1))
}

/// The value `m` gives `name`, if any.
pub fn find_value(m: &Vec<(String, String)>, name: &String) -> (r: Option<String>)
    ensures
        r matches Some(v) ==> value_in(pair_views(m@), name@) == Some(v@),
        r is None ==> value_in(pair_views(m@), name@) is None,
{
    let ghost mv = pair_views(m@);
    let mut i: usize = 0;
    while i < m.len()
        invariant
            i <= m@.len(),
            mv == pair_views(m@),
            value_from(mv, name@, 0) == value_from(mv, name@, i as int),
        decreases m.len() - i,
    {
        assert(mv[i as int] == (m@[i as int].0@, m@[i as int].1@));
        if m[i].0 == *name {
            return Some(m[i].1.clone());
        }
        i = i + 1;
    }
    None
}

/// The changes between two snapshots of a key's values, (name, value) each:
/// first the creations and updates in the order of `current`, then the
/// deletions in the order of `prev`.
pub fn registry_changes(prev: &Vec<(String, String)>, current: &Vec<(String, String)>) -> (r: Vec<(String, RegistryOp)>)
    ensures
        change_views(r@) == snapshot_changes(pair_views(prev@), pair_views(current@)),
{
    let ghost pv = pair_views(prev@);
    let ghost cv = pair_views(current@);
    let mut out: Vec<(String, RegistryOp)> = Vec::new();
    let mut i: usize = 0;
    while i < current.len()
        invariant
            i <= current@.len(),
            pv == pair_views(prev@),
            cv == pair_views(current@),
            change_views(out@) == changed_entries(cv.take(i as int), pv),
        decreases current.len() - i,
    {
        assert(cv.take(i + 1).drop_last() == cv.take(i as int));
        assert(cv.take(i + 1).last() == (current@[i as int].0@, current@[i as int].1@));
        let name = &current[i].0;
        let ghost before = change_views(out@);
        match find_value(prev, name) {
            None => {
                out.push((name.clone(), RegistryOp::Create));
                assert(change_views(out@) =~= before.push((name@, RegistryOp::Create)));
            },
            Some(old_value) => {
                if old_value != current[i].1 {
                    out.push((name.clone(), RegistryOp::SetValue));
                    assert(change_views(out@) =~= before.push((name@, RegistryOp::SetValue)));
                }
            },
        }
        i = i + 1;
    }
    assert(cv.take(current.len() as int) == cv);
    let ghost first = change_views(out@);
    let mut j: usize = 0;
    while j < prev.len()
        invariant
            j <= prev@.len(),
            pv == pair_views(prev@),
            cv == pair_views(current@),
            first == changed_entries(cv, pv),
            change_views(out@) == first + deleted_entries(pv.take(j as int), cv),
        decreases prev.len() - j,
    {
        assert(pv.take(j + 1).drop_last() == pv.take(j as int));
        assert(pv.take(j + 1).last() == (prev@[j as int].0@, prev@[j as int].1@));
        let name = &prev[j].0;
        let ghost before = change_views(out@);
        if find_value(current, name).is_none() {
            out.push((name.clone(), RegistryOp::Delete));
            assert(change_views(out@) =~= before.push((name@, RegistryOp::Delete)));
        }
        j = j + 1;
    }
    assert(pv.take(prev.len() as int) == pv);
    out
}

} // verus!
