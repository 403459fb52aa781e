//! Alert records: one per rule that matched an event, with a summary of the
//! event. Turning them into JSON lines is the caller's business.

use vstd::prelude::*;

use crate::engine::RuleMatch;
use crate::event::{fs_event_type_name, registry_op_name, EventKind, FsEventType, RegistryOp, SecurityEvent};

verus! {

/// The parts of an event that an alert shows.
#[derive(Debug, Clone)]
pub enum EventSummary {
    Process { pid: u32, image: String, command_line: String },
    FileSystem { path: String, event_type: String },
    Network { dst_ip: String, dst_port: u16, protocol: String, bytes_sent: u64 },
    Registry { key: String, value_name: String, operation: String },
    Usb { device_id: String, device_class: String },
}

/// One alert: a matched rule and the event it matched.
#[derive(Debug, Clone)]
pub struct Alert {
    pub timestamp: String,
    pub event_id: u64,
    pub rule_id: String,
    pub rule_name: String,
    pub score: u32,
    pub category: String,
    pub mitre: Option<String>,
    pub recommended_action: String,
    pub event: EventSummary,
}

/// `s` summarizes the event payload `kind`: the same variant with the fields
/// it shows copied, and event types and operations by their variant names.
pub open spec fn summarizes(s: EventSummary, kind: EventKind) -> bool {
    match (s, kind) {
        (
            EventSummary::Process { pid, image, command_line },
            EventKind::Process { pid: p, image: i, command_line: c, .. },
        ) => pid == p && image@ == i@ && command_line@ == c@,
        (
            EventSummary::FileSystem { path, event_type },
            EventKind::FileSystem { path: p, event_type: t, .. },
        ) => path@ == p@ && event_type@ == fs_event_type_name(t),
        (
            EventSummary::Network { dst_ip, dst_port, protocol, bytes_sent },
            EventKind::Network { dst_ip: ip, dst_port: port, protocol: pr, bytes_sent: b, .. },
        ) => dst_ip@ == ip@ && dst_port == port && protocol@ == pr@ && bytes_sent == b,
        (
            EventSummary::Registry { key, value_name, operation },
            EventKind::Registry { key: k, value_name: v, operation: o },
        ) => key@ == k@ && value_name@ == v@ && operation@ == registry_op_name(o),
        (
            EventSummary::Usb { device_id, device_class },
            EventKind::Usb { device_id: d, device_class: c },
        ) => device_id@ == d@ && device_class@ == c@,
        _ => false,
    }
}

/// A summary shows the event's own fields: the same kind of event, and each
/// field it shows equal to the event's field of the same name (a network
/// summary's `bytes_sent` is the bytes the event sent, not those it
/// received); file event types and registry operations appear by their
/// variant names.
pub proof fn law_summary_fields_are_the_events(s: EventSummary, kind: EventKind)
    requires
        summarizes(s, kind),
    ensures
        kind matches EventKind::Process { pid: p, image: i, command_line: c, .. } ==> (s matches EventSummary::Process {
            pid,
            image,
            command_line,
        } && pid == p && image@ == i@ && command_line@ == c@),
        kind matches EventKind::FileSystem { path: p, event_type: t, .. } ==> (s matches EventSummary::FileSystem {
            path,
            event_type,
        } && path@ == p@ && event_type@ == match t {
            FsEventType::Created => "Created"@,
            FsEventType::Modified => "Modified"@,
            FsEventType::Deleted => "Deleted"@,
            FsEventType::Renamed => "Renamed"@,
        }),
        kind matches EventKind::Network { dst_ip: ip, dst_port: port, protocol: pr, bytes_sent: b, .. } ==> (
        s matches EventSummary::Network { dst_ip, dst_port, protocol, bytes_sent } && dst_ip@ == ip@ && dst_port
            == port && protocol@ == pr@ && bytes_sent == b),
        kind matches EventKind::Registry { key: k, value_name: v, operation: o } ==> (s matches EventSummary::Registry {
            key,
            value_name,
            operation,
        } && key@ == k@ && value_name@ == v@ && operation@ == match o {
            RegistryOp::SetValue => "Set"@,
            RegistryOp::Delete => "Delete"@,
            RegistryOp::Create => "Create"@,
        }),
        kind matches EventKind::Usb { device_id: d, device_class: c } ==> (s matches EventSummary::Usb {
            device_id,
            device_class,
        } && device_id@ == d@ && device_class@ == c@),
{
}

/// The summary an alert shows of an event.
pub fn event_summary(event: &SecurityEvent) -> (r: EventSummary)
    ensures
        summarizes(r, event.kind),
{
    match &event.kind {
        EventKind::Process { pid, image, command_line, .. } => EventSummary::Process {
            pid: *pid,
            image: image.clone(),
            command_line: command_line.clone(),
        },
        EventKind::FileSystem { path, event_type, .. } => EventSummary::FileSystem {
            path: path.clone(),
            event_type: event_type.name(),
        },
        EventKind::Network { dst_ip, dst_port, protocol, bytes_sent, .. } => EventSummary::Network {
            dst_ip: dst_ip.clone(),
            dst_port: *dst_port,
            protocol: protocol.clone(),
            bytes_sent: *bytes_sent,
        },
        EventKind::Registry { key, value_name, operation } => EventSummary::Registry {
            key: key.clone(),
            value_name: value_name.clone(),
            operation: operation.name(),
        },
        EventKind::Usb { device_id, device_class } => EventSummary::Usb {
            device_id: device_id.clone(),
            device_class: device_class.clone(),
        },
    }
}

/// `a` is the alert for the match `m` of `event`, stamped `timestamp`.
pub open spec fn alert_for(a: Alert, timestamp: Seq<char>, event: SecurityEvent, m: RuleMatch) -> bool {
    &&& a.timestamp@ == timestamp
    &&& a.event_id == event.id
    &&& a.rule_id@ == m.rule_id@
    &&& a.rule_name@ == m.rule_name@
    &&& a.score == m.score
    &&& a.category@ == m.category@
    &&& a.mitre == m.mitre
    &&& a.recommended_action@ == m.recommended_action@
    &&& summarizes(a.event, event.kind)
}

fn clone_opt(s: &Option<String>) -> (r: Option<String>)
    ensures
        r == *s,
{
    match s {
        Some(x) => Some(x.clone()),
        None => None,
    }
}

/// The alerts for the matches of `event`, one per match in the same order,
/// all stamped `timestamp`.
pub fn alerts_for(event: &SecurityEvent, matches: &Vec<RuleMatch>, timestamp: &String) -> (r: Vec<Alert>)
    ensures
        r@.len() == matches@.len(),
        forall|i: int| 0 <= i < r@.len() ==> alert_for(#[trigger] r@[i], timestamp@, *event, matches@[i]),
{
    let mut out: Vec<Alert> = Vec::new();
    let mut i: usize = 0;
    while i < matches.len()
        invariant
            i <= matches@.len(),
            out@.len() == i,
            forall|k: int| 0 <= k < i ==> alert_for(#[trigger] out@[k], timestamp@, *event, matches@[k]),
        decreases matches.len() - i,
    {
        let m = &matches[i];
        let a = Alert {
            timestamp: timestamp.clone(),
            event_id: event.id,
            rule_id: m.rule_id.clone(),
            rule_name: m.rule_name.clone(),
            score: m.score,
            category: m.category.clone(),
            mitre: clone_opt(&m.mitre),
            recommended_action: m.recommended_action.clone(),
            event: event_summary(event),
        };
        out.push(a);
        i = i + 1;
    }
    out
}

} // verus!
