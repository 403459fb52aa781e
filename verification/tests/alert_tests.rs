use defense::alert::{alerts_for, event_summary, EventSummary};
use defense::engine::RuleMatch;
use defense::event::{EventKind, FsEventType, RegistryOp, SecurityEvent};

fn rule_match(id: &str, score: u32) -> RuleMatch {
    RuleMatch {
        rule_id: id.to_string(),
        rule_name: format!("{id} name"),
        score,
        category: "execution".to_string(),
        mitre: Some("T1059.001".to_string()),
        recommended_action: "investigate".to_string(),
    }
}

#[test]
fn one_alert_per_match() {
    let event = SecurityEvent::new(
        42,
        EventKind::Process {
            pid: 1234,
            parent_pid: 1,
            image: "powershell.exe".to_string(),
            parent_image: "explorer.exe".to_string(),
            command_line: "powershell.exe -EncodedCommand SQBFAFgA".to_string(),
        },
    );
    let ts = "2026-06-22T14:30:00Z".to_string();
    let alerts = alerts_for(&event, &vec![rule_match("PROC-001", 85), rule_match("PROC-002", 40)], &ts);
    assert_eq!(alerts.len(), 2);
    assert_eq!(alerts[0].rule_id, "PROC-001");
    assert_eq!(alerts[1].score, 40);
    assert_eq!(alerts[1].event_id, 42);
    assert_eq!(alerts[0].timestamp, ts);
    assert_eq!(alerts[0].mitre.as_deref(), Some("T1059.001"));
    match &alerts[0].event {
        EventSummary::Process { pid, image, command_line } => {
            assert_eq!(*pid, 1234);
            assert_eq!(image, "powershell.exe");
            assert_eq!(command_line, "powershell.exe -EncodedCommand SQBFAFgA");
        }
        _ => panic!("wrong summary"),
    }
}

#[test]
fn summaries_use_variant_names() {
    let fs = SecurityEvent::new(
        1,
        EventKind::FileSystem {
            path: "/tmp/a".to_string(),
            event_type: FsEventType::Deleted,
            entropy_estimate: None,
        },
    );
    match event_summary(&fs) {
        EventSummary::FileSystem { path, event_type } => {
            assert_eq!(path, "/tmp/a");
            assert_eq!(event_type, "Deleted");
        }
        _ => panic!("wrong summary"),
    }
    let reg = SecurityEvent::new(
        2,
        EventKind::Registry {
            key: "HKLM\\Run".to_string(),
            value_name: "x".to_string(),
            operation: RegistryOp::SetValue,
        },
    );
    match event_summary(&reg) {
        EventSummary::Registry { operation, .. } => assert_eq!(operation, "Set"),
        _ => panic!("wrong summary"),
    }
    assert!(alerts_for(&reg, &vec![], &"t".to_string()).is_empty());
}
