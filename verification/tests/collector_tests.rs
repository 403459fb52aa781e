use defense::collectors::{
    accept_interface, stamp_event, usb_event,
    accept_disk, active_collectors, collector_for, default_watch_paths, file_event,
    fs_event_type_for, interface_event, process_event, CollectorName, FileSystemCollector,
    NetworkCollector, ProcessCollector, RegistryCollector, SeenPids, TargetOs, UsbCollector,
    WatchChange,
};
use defense::event::{EventKind, FsEventType, RegistryOp};
use defense::name_set::NameSet;
use defense::netstat::{hex_to_ipv4, parse_hex_addr, parse_proc_net_tcp, parse_proc_net_tcp_line};
use defense::registry::{hive_of, registry_changes, registry_full_path, registry_watch_keys, RegistryHive};
use std::time::Duration;

fn chars(s: &str) -> Vec<char> {
    s.chars().collect()
}

#[test]
fn default_poll_intervals() {
    assert_eq!(ProcessCollector::default().poll_interval, Duration::from_secs(2));
    assert_eq!(NetworkCollector::default().poll_interval, Duration::from_secs(5));
    assert_eq!(RegistryCollector::default().poll_interval, Duration::from_secs(10));
    assert_eq!(UsbCollector::default().poll_interval, Duration::from_secs(3));
}

#[test]
fn default_watch_paths_per_os() {
    assert_eq!(default_watch_paths(TargetOs::Linux), vec!["/tmp", "/home", "/etc"]);
    assert_eq!(
        default_watch_paths(TargetOs::Windows),
        vec![r"C:\Users", r"C:\Windows\Temp", r"C:\Temp"]
    );
    assert_eq!(FileSystemCollector::for_os(TargetOs::Other).watch_paths, vec!["/tmp"]);
}

#[test]
fn watcher_changes_map_to_event_types() {
    assert_eq!(fs_event_type_for(WatchChange::Create), Some(FsEventType::Created));
    assert_eq!(fs_event_type_for(WatchChange::Modify), Some(FsEventType::Modified));
    assert_eq!(fs_event_type_for(WatchChange::Remove), Some(FsEventType::Deleted));
    assert_eq!(fs_event_type_for(WatchChange::Access), None);
    assert_eq!(fs_event_type_for(WatchChange::Other), None);
    match file_event("/tmp/x".to_string(), FsEventType::Created) {
        EventKind::FileSystem { path, entropy_estimate, .. } => {
            assert_eq!(path, "/tmp/x");
            assert!(entropy_estimate.is_none());
        }
        _ => panic!("wrong kind"),
    }
}

#[test]
fn pids_are_reported_once() {
    let mut seen = SeenPids::new();
    assert!(seen.record(10));
    assert!(seen.record(11));
    assert!(!seen.record(10));
}

#[test]
fn disks_are_reported_once_and_only_when_removable() {
    let mut seen = NameSet::new();
    assert!(!accept_disk(&mut seen, "sda", false));
    assert!(accept_disk(&mut seen, "sdb", true));
    assert!(!accept_disk(&mut seen, "sdb", true));
    assert!(accept_disk(&mut seen, "sda", true));
}

#[test]
fn process_event_joins_arguments() {
    let args = vec!["powershell.exe".to_string(), "-enc".to_string(), "AAA".to_string()];
    match process_event(9, None, Some("/bin/x".to_string()), None, &args) {
        EventKind::Process { pid, parent_pid, image, parent_image, command_line } => {
            assert_eq!(pid, 9);
            assert_eq!(parent_pid, 0);
            assert_eq!(image, "/bin/x");
            assert_eq!(parent_image, "");
            assert_eq!(command_line, "powershell.exe -enc AAA");
        }
        _ => panic!("wrong kind"),
    }
}

#[test]
fn interface_event_is_synthetic() {
    match interface_event(100, 200) {
        EventKind::Network { pid, dst_ip, dst_port, protocol, bytes_sent, bytes_recv } => {
            assert_eq!((pid, dst_port, bytes_sent, bytes_recv), (0, 0, 100, 200));
            assert_eq!(dst_ip, "");
            assert_eq!(protocol, "unknown");
        }
        _ => panic!("wrong kind"),
    }
}

#[test]
fn collector_list_is_split_and_trimmed() {
    assert_eq!(
        active_collectors("process, fs ,network,registry,usb"),
        vec!["process", "fs", "network", "registry", "usb"]
    );
    assert_eq!(active_collectors(""), vec![""]);
    assert_eq!(collector_for("fs"), Some(CollectorName::FileSystem));
    assert_eq!(collector_for("usb"), Some(CollectorName::Usb));
    assert_eq!(collector_for("filesystem"), None);
}

#[test]
fn hex_addresses_decode_little_endian() {
    assert_eq!(hex_to_ipv4(&chars("0100007F")), Some("127.0.0.1".to_string()));
    assert_eq!(hex_to_ipv4(&chars("0101A8C0")), Some("192.168.1.1".to_string()));
    assert_eq!(hex_to_ipv4(&chars("+100007F")), Some("127.0.0.1".to_string()));
    assert_eq!(hex_to_ipv4(&chars("0100007")), None);
    assert_eq!(hex_to_ipv4(&chars("0100007G")), None);
    let (a, b) = parse_hex_addr(&chars("0100007F:0050")).unwrap();
    assert_eq!(a, chars("0100007F"));
    assert_eq!(b, chars("0050"));
    assert!(parse_hex_addr(&chars("nocolon")).is_none());
}

const TCP_TABLE: &str = "  sl  local_address rem_address   st tx_queue rx_queue\n   0: 0100007F:0277 00000000:0000 0A 00000000:00000000\n   1: 0F02000A:A1B2 2200A8C0:01BB 01 00000000:00000000\r\n   2: 0F02000A:A1B4 2200A8C0:115C 06 00000000:00000000\n   3: 0F02000A:A1B6 0800080A:0035 01 00000000:00000000\n";

#[test]
fn proc_net_tcp_lists_established_connections() {
    let events = parse_proc_net_tcp(TCP_TABLE, 100);
    assert_eq!(events.len(), 2);
    assert_eq!(events[0].id, 100);
    assert_eq!(events[1].id, 101);
    match &events[0].kind {
        EventKind::Network { dst_ip, dst_port, protocol, pid, .. } => {
            assert_eq!(dst_ip, "192.168.0.34");
            assert_eq!(*dst_port, 443);
            assert_eq!(protocol, "tcp");
            assert_eq!(*pid, 0);
        }
        _ => panic!("wrong kind"),
    }
    match &events[1].kind {
        EventKind::Network { dst_ip, dst_port, .. } => {
            assert_eq!(dst_ip, "10.8.0.8");
            assert_eq!(*dst_port, 53);
        }
        _ => panic!("wrong kind"),
    }
}

#[test]
fn proc_net_tcp_line_rejections() {
    assert!(parse_proc_net_tcp_line("0: a b", 0).is_none());
    assert!(parse_proc_net_tcp_line("0: 0100007F:0277 00000000:0050 01", 0).is_none());
    assert!(parse_proc_net_tcp_line("0: 0100007F:0277 0100007F:1FFFF 01", 0).is_none());
    assert!(parse_proc_net_tcp_line("0: 0100007F:0277 0100007F:0050 0A", 0).is_none());
    let e = parse_proc_net_tcp_line("0: 0100007F:0277 0100007F:0050 01", 5).unwrap();
    assert_eq!(e.id, 5);
    assert!(parse_proc_net_tcp("", 0).is_empty());
}

#[test]
fn registry_keys_and_paths() {
    let keys = registry_watch_keys();
    assert_eq!(keys.len(), 5);
    assert_eq!(keys[2], (r"SOFTWARE\Microsoft\Windows\CurrentVersion\Run".to_string(), "HKCU".to_string()));
    assert_eq!(registry_full_path("HKLM", r"SYSTEM\X"), r"HKLM\SYSTEM\X");
    assert_eq!(hive_of("HKLM"), Some(RegistryHive::LocalMachine));
    assert_eq!(hive_of("HKCU"), Some(RegistryHive::CurrentUser));
    assert_eq!(hive_of("HKCR"), None);
}

fn pairs(v: &[(&str, &str)]) -> Vec<(String, String)> {
    v.iter().map(|(a, b)| (a.to_string(), b.to_string())).collect()
}

#[test]
fn registry_snapshot_differences() {
    let prev = pairs(&[("a", "1"), ("b", "2"), ("c", "3")]);
    let cur = pairs(&[("b", "2"), ("c", "4"), ("d", "5")]);
    let changes = registry_changes(&prev, &cur);
    assert_eq!(
        changes,
        vec![
            ("c".to_string(), RegistryOp::SetValue),
            ("d".to_string(), RegistryOp::Create),
            ("a".to_string(), RegistryOp::Delete),
        ]
    );
    assert!(registry_changes(&cur, &cur).is_empty());
    assert_eq!(registry_changes(&vec![], &pairs(&[("x", "1")])), vec![("x".to_string(), RegistryOp::Create)]);
}

#[test]
fn proc_net_tcp_ids_count_on_past_the_maximum() {
    let events = parse_proc_net_tcp(TCP_TABLE, u64::MAX);
    assert_eq!(events.len(), 2);
    assert_eq!(events[0].id, u64::MAX);
    assert_eq!(events[1].id, 0);
}

#[test]
fn stamped_events_get_consecutive_ids() {
    let mut next: u64 = 0;
    let a = stamp_event(&mut next, usb_event("USB0".to_string(), "MassStorage".to_string()));
    let b = stamp_event(&mut next, usb_event("USB1".to_string(), "MassStorage".to_string()));
    let c = stamp_event(&mut next, usb_event("USB2".to_string(), "MassStorage".to_string()));
    assert_eq!((a.id, b.id, c.id), (0, 1, 2));
    assert_eq!(next, 3);
    let mut last = u64::MAX;
    let d = stamp_event(&mut last, usb_event("USB3".to_string(), "MassStorage".to_string()));
    assert_eq!(d.id, u64::MAX);
    assert_eq!(last, 0);
}

#[test]
fn interfaces_are_reported_once() {
    let mut seen = NameSet::new();
    assert!(accept_interface(&mut seen, "eth0"));
    assert!(accept_interface(&mut seen, "lo"));
    assert!(!accept_interface(&mut seen, "eth0"));
    assert!(seen.contains("eth0") && seen.contains("lo"));
}
