//! Security events as the collectors report them.

use vstd::prelude::*;

verus! {

#[verifier::external_type_specification]
#[verifier::external_body]
pub struct ExSystemTime(std::time::SystemTime);

/// `SystemTime` is `Copy`; its `clone` returns an identical copy.
pub assume_specification[ <std::time::SystemTime as Clone>::clone ](t: &std::time::SystemTime) -> (r: std::time::SystemTime)
    ensures
        r == *t,
;

/// Calls `SystemTime::now`: the current wall-clock time. Nothing is stated
/// of the value; it depends on the clock.
#[verifier::external_body]
pub(crate) fn system_time_now() -> std::time::SystemTime {
    std::time::SystemTime::now()
}

/// The time from the Unix epoch to `t`, or the zero duration for a time
/// before the epoch: what `t.duration_since(UNIX_EPOCH).unwrap_or_default()`
/// returns, which depends on `t` alone.
pub uninterp spec fn epoch_duration(t: std::time::SystemTime) -> core::time::Duration;

/// The whole seconds of `d`: what `Duration::as_secs` returns, which depends
/// on `d` alone.
pub uninterp spec fn duration_whole_secs(d: core::time::Duration) -> u64;

/// Calls `SystemTime::duration_since(UNIX_EPOCH)`; a time before the epoch
/// gives the zero duration, as `unwrap_or_default` does. The result is named
/// `epoch_duration`; nothing more is stated of it.
#[verifier::external_body]
pub(crate) fn since_epoch(t: &std::time::SystemTime) -> (r: core::time::Duration)
    ensures
        r == epoch_duration(*t),
{
    t.duration_since(std::time::UNIX_EPOCH).unwrap_or_default()
}

/// Calls `Duration::as_secs`: the whole seconds of `d`, named
/// `duration_whole_secs`, as the duration is opaque here.
#[verifier::external_body]
pub(crate) fn whole_secs(d: &core::time::Duration) -> (r: u64)
    ensures
        r == duration_whole_secs(*d),
{
    d.as_secs()
}

/// Whole seconds from the Unix epoch to `t` (zero before the epoch).
pub(crate) fn secs_since_epoch(t: &std::time::SystemTime) -> (r: u64)
    ensures
        r == duration_whole_secs(epoch_duration(*t)),
{
    let d = since_epoch(t);
    whole_secs(&d)
}

/// What happened to a file.
#[derive(Debug, Clone, Copy, PartialEq, Eq, Structural)]
pub enum FsEventType {
    Created,
    Modified,
    Deleted,
    Renamed,
}

/// What happened to a registry value.
#[derive(Debug, Clone, Copy, PartialEq, Eq, Structural)]
pub enum RegistryOp {
    /// A value was written (shown as `Set`).
    SetValue,
    Delete,
    Create,
}

/// The payload of an event, one variant per collector.
#[derive(Debug, Clone)]
pub enum EventKind {
    Process {
        pid: u32,
        parent_pid: u32,
        image: String,
        parent_image: String,
        command_line: String,
    },
    FileSystem {
        path: String,
        event_type: FsEventType,
        /// The entropy estimate of the file contents, if one was taken, in
        /// its decimal rendering.
        entropy_estimate: Option<String>,
    },
    Network {
        pid: u32,
        dst_ip: String,
        dst_port: u16,
        protocol: String,
        bytes_sent: u64,
        bytes_recv: u64,
    },
    Registry {
        key: String,
        value_name: String,
        operation: RegistryOp,
    },
    Usb {
        device_id: String,
        device_class: String,
    },
}

/// An observed event: a collector-local sequence number, the time it was
/// observed and what was observed.
#[derive(Debug, Clone)]
pub struct SecurityEvent {
    pub id: u64,
    pub timestamp: std::time::SystemTime,
    pub kind: EventKind,
}

impl SecurityEvent {
    /// An event with the given id and payload, stamped with the current time.
    pub fn new(id: u64, kind: EventKind) -> (e: Self)
        ensures
            e.id == id,
            e.kind == kind,
    {
        SecurityEvent { id, timestamp: system_time_now(), kind }
    }
}

/// The lower-case name of a file event type, as rules see it.
pub open spec fn fs_event_type_label(t: FsEventType) -> Seq<char> {
    match t {
        FsEventType::Created => "created"@,
        FsEventType::Modified => "modified"@,
        FsEventType::Deleted => "deleted"@,
        FsEventType::Renamed => "renamed"@,
    }
}

/// The variant name of a file event type (`"Created"`, ...), as alerts show it.
pub open spec fn fs_event_type_name(t: FsEventType) -> Seq<char> {
    match t {
        FsEventType::Created => "Created"@,
        FsEventType::Modified => "Modified"@,
        FsEventType::Deleted => "Deleted"@,
        FsEventType::Renamed => "Renamed"@,
    }
}

/// The lower-case name of a registry operation, as rules see it.
pub open spec fn registry_op_label(op: RegistryOp) -> Seq<char> {
    match op {
        RegistryOp::SetValue => "set"@,
        RegistryOp::Delete => "delete"@,
        RegistryOp::Create => "create"@,
    }
}

/// The variant name of a registry operation (`"Set"`, ...), as alerts show it.
pub open spec fn registry_op_name(op: RegistryOp) -> Seq<char> {
    match op {
        RegistryOp::SetValue => "Set"@,
        RegistryOp::Delete => "Delete"@,
        RegistryOp::Create => "Create"@,
    }
}

impl FsEventType {
    /// The lower-case name of this event type.
    pub fn label(&self) -> (r: String)
        ensures
            r@ == fs_event_type_label(*self),
    {
        match self {
            FsEventType::Created => "created".to_owned(),
            FsEventType::Modified => "modified".to_owned(),
            FsEventType::Deleted => "deleted".to_owned(),
            FsEventType::Renamed => "renamed".to_owned(),
        }
    }

    /// The variant name of this event type.
    pub fn name(&self) -> (r: String)
        ensures
            r@ == fs_event_type_name(*self),
    {
        match self {
            FsEventType::Created => "Created".to_owned(),
            FsEventType::Modified => "Modified".to_owned(),
            FsEventType::Deleted => "Deleted".to_owned(),
            FsEventType::Renamed => "Renamed".to_owned(),
        }
    }
}

impl RegistryOp {
    /// The lower-case name of this operation.
    pub fn label(&self) -> (r: String)
        ensures
            r@ == registry_op_label(*self),
    {
        match self {
            RegistryOp::SetValue => "set".to_owned(),
            RegistryOp::Delete => "delete".to_owned(),
            RegistryOp::Create => "create".to_owned(),
        }
    }

    /// The variant name of this operation.
    pub fn name(&self) -> (r: String)
        ensures
            r@ == registry_op_name(*self),
    {
        match self {
            RegistryOp::SetValue => "Set".to_owned(),
            RegistryOp::Delete => "Delete".to_owned(),
            RegistryOp::Create => "Create".to_owned(),
        }
    }
}

} // verus!
