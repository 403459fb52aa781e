//! The decisions the collectors make about what they observe: which
//! processes, interfaces and disks are new, how an observation becomes an
//! event, and where to look by default. The polling itself is I/O and lives
//! with the caller.

use std::collections::HashSet;

use vstd::prelude::*;

use crate::event::{duration_whole_secs, EventKind, FsEventType, SecurityEvent};
use crate::netstat::id_after;
use crate::name_set::{string_views, NameSet};
use crate::text::{chars_of, push_str, segments, split_on, string_of, trim, trimmed, views};

verus! {

broadcast use vstd::string::group_string_axioms, vstd::std_specs::hash::group_hash_axioms;

/// Calls `Duration::from_secs`: a duration of exactly `n` whole seconds, so
/// `Duration::as_secs` gives `n` back.
#[verifier::external_body]
fn secs(n: u64) -> (r: core::time::Duration)
    ensures
        duration_whole_secs(r) == n,
{
    core::time::Duration::from_secs(n)
}

/// Polls the process table for processes it has not reported yet.
pub struct ProcessCollector {
    pub poll_interval: core::time::Duration,
}

impl Default for ProcessCollector {
    /// Polls every 2 seconds.
    fn default() -> (r: Self)
        ensures
            duration_whole_secs(r.poll_interval) == 2,
    {
        ProcessCollector { poll_interval: secs(2) }
    }
}

/// Reports each network interface once and the established TCP connections.
pub struct NetworkCollector {
    pub poll_interval: core::time::Duration,
}

impl Default for NetworkCollector {
    /// Polls every 5 seconds.
    fn default() -> (r: Self)
        ensures
            duration_whole_secs(r.poll_interval) == 5,
    {
        NetworkCollector { poll_interval: secs(5) }
    }
}

/// Watches high-value persistence keys of the Windows registry.
pub struct RegistryCollector {
    pub poll_interval: core::time::Duration,
}

impl Default for RegistryCollector {
    /// Polls every 10 seconds.
    fn default() -> (r: Self)
        ensures
            duration_whole_secs(r.poll_interval) == 10,
    {
        RegistryCollector { poll_interval: secs(10) }
    }
}

/// Reports each removable disk once.
pub struct UsbCollector {
    pub poll_interval: core::time::Duration,
}

impl Default for UsbCollector {
    /// Polls every 3 seconds.
    fn default() -> (r: Self)
        ensures
            duration_whole_secs(r.poll_interval) == 3,
    {
        UsbCollector { poll_interval: secs(3) }
    }
}

/// Watches directory trees for file changes.
pub struct FileSystemCollector {
    pub watch_paths: Vec<String>,
}

/// The operating systems the agent knows default paths for.
#[derive(Debug, Clone, Copy, PartialEq, Eq, Structural)]
pub enum TargetOs {
    Windows,
    Linux,
    MacOs,
    Other,
}

/// The directories watched by default on `os`.
pub open spec fn default_watch_paths_spec(os: TargetOs) -> Seq<Seq<char>> {
    match os {
        TargetOs::Windows => seq!["C:\\Users"@, "C:\\Windows\\Temp"@, "C:\\Temp"@],
        TargetOs::Linux => seq!["/tmp"@, "/home"@, "/etc"@],
        TargetOs::MacOs => seq!["/tmp"@, "/Users"@, "/private/tmp"@],
        TargetOs::Other => seq!["/tmp"@],
    }
}

/// The directories watched by default on `os`.
pub fn default_watch_paths(os: TargetOs) -> (r: Vec<String>)
    ensures
        string_views(r@) == default_watch_paths_spec(os),
{
    let mut v: Vec<String> = Vec::new();
    match os {
        TargetOs::Windows => {
            v.push("C:\\Users".to_owned());
            v.push("C:\\Windows\\Temp".to_owned());
            v.push("C:\\Temp".to_owned());
        },
        TargetOs::Linux => {
            v.push("/tmp".to_owned());
            v.push("/home".to_owned());
            v.push("/etc".to_owned());
        },
        TargetOs::MacOs => {
            v.push("/tmp".to_owned());
            v.push("/Users".to_owned());
            v.push("/private/tmp".to_owned());
        },
        TargetOs::Other => {
            v.push("/tmp".to_owned());
        },
    }
    assert(string_views(v@) =~= default_watch_paths_spec(os));
    v
}

impl FileSystemCollector {
    /// A collector watching the default directories of `os`.
    pub fn for_os(os: TargetOs) -> (r: Self)
        ensures
            string_views(r.watch_paths@) == default_watch_paths_spec(os),
    {
        FileSystemCollector { watch_paths: default_watch_paths(os) }
    }
}

/// The kinds of change a file watcher reports.
#[derive(Debug, Clone, Copy, PartialEq, Eq, Structural)]
pub enum WatchChange {
    Create,
    Modify,
    Remove,
    Access,
    Any,
    Other,
}

/// The file event type a watcher change is reported as; accesses and other
/// changes are not reported.
pub fn fs_event_type_for(change: WatchChange) -> (r: Option<FsEventType>)
    ensures
        r == match change {
            WatchChange::Create => Some(FsEventType::Created),
            WatchChange::Modify => Some(FsEventType::Modified),
            WatchChange::Remove => Some(FsEventType::Deleted),
            _ => None::<FsEventType>,
        },
{
    match change {
        WatchChange::Create => Some(FsEventType::Created),
        WatchChange::Modify => Some(FsEventType::Modified),
        WatchChange::Remove => Some(FsEventType::Deleted),
        _ => None,
    }
}

/// The event payload for a change of kind `event_type` to `path`.
pub fn file_event(path: String, event_type: FsEventType) -> (r: EventKind)
    ensures
        r == (EventKind::FileSystem { path, event_type, entropy_estimate: None }),
{
    EventKind::FileSystem { path, event_type, entropy_estimate: None }
}

/// The process ids already reported.
pub struct SeenPids {
    seen: HashSet<u32>,
}

impl View for SeenPids {
    type V = Set<u32>;

    closed spec fn view(&self) -> Set<u32> {
        self.seen@
    }
}

impl SeenPids {
    /// No process reported yet.
    pub fn new() -> (r: Self)
        ensures
            r@ == Set::<u32>::empty(),
    {
        SeenPids { seen: HashSet::new() }
    }

    /// Records `pid`; true when it had not been recorded before.
    pub fn record(&mut self, pid: u32) -> (r: bool)
        ensures
            r == !old(self)@.contains(pid),
            final(self)@ == old(self)@.insert(pid),
    {
        self.seen.insert(pid)
    }
}

/// Decides whether a disk is reported: a disk is reported once, and only
/// while it is removable (a disk seen while fixed is looked at again later).
pub fn accept_disk(seen: &mut NameSet, name: &str, removable: bool) -> (r: bool)
    ensures
        r == (removable && !old(seen)@.contains(name@)),
        final(seen)@ == if r { old(seen)@.insert(name@) } else { old(seen)@ },
{
    if seen.contains(name) {
        return false;
    }
    if removable {
        seen.insert(name)
    } else {
        false
    }
}

/// The event a collector sends next: the payload `kind` with the id
/// `next_id`, which then moves on by one (from `u64::MAX` on to zero, as a
/// release build's `+= 1` does).
pub fn stamp_event(next_id: &mut u64, kind: EventKind) -> (r: SecurityEvent)
    ensures
        r.id == *old(next_id),
        r.kind == kind,
        *final(next_id) == id_after(*old(next_id), 1),
{
    let e = SecurityEvent::new(*next_id, kind);
    proof {
        lemma_step_id(*next_id);
    }
    *next_id = if *next_id == u64::MAX {
        0
    } else {
        *next_id + 1
    };
    e
}

proof fn lemma_step_id(n: u64)
    ensures
        id_after(n, 1) == if n == u64::MAX { 0u64 } else { (n + 1) as u64 },
{
    if n == u64::MAX {
        assert((n + 1) % 0x1_0000_0000_0000_0000 == 0);
    } else {
        assert((n + 1) % 0x1_0000_0000_0000_0000 == n + 1);
    }
}

/// Decides whether a network interface is reported: each interface once,
/// the first time it is seen.
pub fn accept_interface(seen: &mut NameSet, name: &str) -> (r: bool)
    ensures
        r == !old(seen)@.contains(name@),
        final(seen)@ == old(seen)@.insert(name@),
{
    seen.insert(name)
}

/// The event payload for a newly seen network interface with its traffic
/// totals.
pub fn interface_event(bytes_sent: u64, bytes_recv: u64) -> (r: EventKind)
    ensures
        r matches EventKind::Network { pid, dst_ip, dst_port, protocol, bytes_sent: s, bytes_recv: v }
            && pid == 0 && dst_ip@ == Seq::<char>::empty() && dst_port == 0 && protocol@ == "unknown"@
            && s == bytes_sent && v == bytes_recv,
{
    EventKind::Network {
        pid: 0,
        dst_ip: String::new(),
        dst_port: 0,
        protocol: "unknown".to_owned(),
        bytes_sent,
        bytes_recv,
    }
}

/// The event payload for a removable disk.
pub fn usb_event(device_id: String, device_class: String) -> (r: EventKind)
    ensures
        r == (EventKind::Usb { device_id, device_class }),
{
    EventKind::Usb { device_id, device_class }
}

fn string_or_empty(s: Option<String>) -> (r: String)
    ensures
        r@ == match s {
            Some(x) => x@,
            None => Seq::<char>::empty(),
        },
{
    match s {
        Some(x) => x,
        None => String::new(),
    }
}

/// The event payload for a newly seen process: its executable path (empty
/// when unknown), its arguments joined with spaces, its parent id (0 when it
/// has none) and the parent's executable path (empty when unknown).
pub fn process_event(
    pid: u32,
    parent_pid: Option<u32>,
    image: Option<String>,
    parent_image: Option<String>,
    args: &Vec<String>,
) -> (r: EventKind)
    ensures
        r matches EventKind::Process { pid: p, parent_pid: pp, image: i, parent_image: pi, command_line: c }
            && p == pid
            && pp == (match parent_pid { Some(x) => x, None => 0u32 })
            && i@ == (match image { Some(x) => x@, None => Seq::<char>::empty() })
            && pi@ == (match parent_image { Some(x) => x@, None => Seq::<char>::empty() })
            && c@ == crate::text::join(string_views(args@), " "@),
{
    let command_line = crate::text::join_with(args, " ");
    let parent_pid = match parent_pid {
        Some(x) => x,
        None => 0,
    };
    EventKind::Process {
        pid,
        parent_pid,
        image: string_or_empty(image),
        parent_image: string_or_empty(parent_image),
        command_line,
    }
}

/// The collectors the agent can run.
#[derive(Debug, Clone, Copy, PartialEq, Eq, Structural)]
pub enum CollectorName {
    Process,
    FileSystem,
    Network,
    Registry,
    Usb,
}

/// The collector a name in the `--collectors` list selects.
pub open spec fn collector_named(name: Seq<char>) -> Option<CollectorName> {
    if name == "process"@ {
        Some(CollectorName::Process)
    } else if name == "fs"@ {
        Some(CollectorName::FileSystem)
    } else if name == "network"@ {
        Some(CollectorName::Network)
    } else if name == "registry"@ {
        Some(CollectorName::Registry)
    } else if name == "usb"@ {
        Some(CollectorName::Usb)
    } else {
        None
    }
}

/// The collector `name` selects; `None` for an unknown name.
pub fn collector_for(name: &str) -> (r: Option<CollectorName>)
    ensures
        r == collector_named(name@),
{
    let n = name.to_owned();
    if n == "process".to_owned() {
        Some(CollectorName::Process)
    } else if n == "fs".to_owned() {
        Some(CollectorName::FileSystem)
    } else if n == "network".to_owned() {
        Some(CollectorName::Network)
    } else if n == "registry".to_owned() {
        Some(CollectorName::Registry)
    } else if n == "usb".to_owned() {
        Some(CollectorName::Usb)
    } else {
        None
    }
}

/// The names in a comma-separated collector list, each trimmed of
/// surrounding whitespace.
pub open spec fn collector_list(list: Seq<char>) -> Seq<Seq<char>> {
    segments(list, ',').map_values(|p: Seq<char>| trimmed(p))
}

/// The names in a comma-separated collector list, each trimmed of
/// surrounding whitespace, in order.
pub fn active_collectors(list: &str) -> (r: Vec<String>)
    ensures
        string_views(r@) == collector_list(list@),
{
    let cs = chars_of(list);
    let parts = split_on(&cs, ',');
    let mut out: Vec<String> = Vec::new();
    let mut i: usize = 0;
    while i < parts.len()
        invariant
            i <= parts@.len(),
            views(parts@) == segments(list@, ','),
            out@.len() == i,
            forall|k: int| 0 <= k < i ==> (#[trigger] out@[k])@ == trimmed(parts@[k]@),
        decreases parts.len() - i,
    {
        let t = trim(&parts[i]);
        out.push(string_of(&t));
        i = i + 1;
    }
    assert(string_views(out@) =~= collector_list(list@)) by {
        assert forall|k: int| 0 <= k < out@.len() implies string_views(out@)[k] == collector_list(list@)[k] by {
            assert(views(parts@)[k] == parts@[k]@);
        }
    }
    out
}

} // verus!
