use defense::engine::{
    eval_condition, extract_fields, field_value, NumericOutcome, RuleMatch, TomlRuleEngine,
};
use defense::event::{EventKind, FsEventType, RegistryOp, SecurityEvent};
use defense::rules::{default_match_mode, Condition, ConditionOp, RuleDef};

/// Compares the two sides of a condition as floating-point numbers, a side
/// that does not parse counting as zero.
fn numeric(field: &str, value: &str) -> NumericOutcome {
    let f: f64 = field.parse().unwrap_or(0.0);
    let v: f64 = value.parse().unwrap_or(0.0);
    NumericOutcome {
        greater: f > v,
        less: f < v,
        near_equal: (f - v).abs() < f64::EPSILON,
    }
}

fn evaluate(engine: &TomlRuleEngine, event: &SecurityEvent) -> Vec<RuleMatch> {
    let answers: Vec<Vec<NumericOutcome>> = engine
        .rules()
        .iter()
        .map(|rule| {
            rule.conditions
                .iter()
                .map(|c| numeric(&field_value(&event.kind, &c.field), &c.value))
                .collect()
        })
        .collect();
    engine.evaluate_with(event, &answers)
}

fn make_rule(id: &str, field: &str, op: ConditionOp, value: &str, score: u32) -> RuleDef {
    RuleDef {
        id: id.to_string(),
        name: id.to_string(),
        score,
        category: "test".to_string(),
        mitre: None,
        recommended_action: "alert".to_string(),
        conditions: vec![Condition {
            field: field.to_string(),
            op,
            value: value.to_string(),
        }],
        match_mode: "all".to_string(),
    }
}

#[test]
fn matches_powershell_encoded_command() {
    let engine = TomlRuleEngine::new(vec![make_rule(
        "PROC-001",
        "process.command_line",
        ConditionOp::Contains,
        "-EncodedCommand",
        80,
    )]);
    let event = SecurityEvent::new(
        0,
        EventKind::Process {
            pid: 1234,
            parent_pid: 1,
            image: "powershell.exe".to_string(),
            parent_image: String::new(),
            command_line: "powershell.exe -EncodedCommand SQBFAFgA".to_string(),
        },
    );
    let matches = evaluate(&engine, &event);
    assert_eq!(matches.len(), 1);
    assert_eq!(matches[0].rule_id, "PROC-001");
    assert_eq!(matches[0].score, 80);
}

#[test]
fn no_match_on_benign_process() {
    let engine = TomlRuleEngine::new(vec![make_rule(
        "PROC-001",
        "process.command_line",
        ConditionOp::Contains,
        "-EncodedCommand",
        80,
    )]);
    let event = SecurityEvent::new(
        0,
        EventKind::Process {
            pid: 1,
            parent_pid: 0,
            image: "explorer.exe".to_string(),
            parent_image: String::new(),
            command_line: "explorer.exe".to_string(),
        },
    );
    assert!(evaluate(&engine, &event).is_empty());
}

#[test]
fn or_mode_matches_any_condition() {
    let rule = RuleDef {
        id: "NET-001".to_string(),
        name: "Suspicious Port".to_string(),
        score: 60,
        category: "network".to_string(),
        mitre: None,
        recommended_action: "alert".to_string(),
        conditions: vec![
            Condition {
                field: "network.dst_port".to_string(),
                op: ConditionOp::Eq,
                value: "4444".to_string(),
            },
            Condition {
                field: "network.dst_port".to_string(),
                op: ConditionOp::Eq,
                value: "1337".to_string(),
            },
        ],
        match_mode: "any".to_string(),
    };
    let engine = TomlRuleEngine::new(vec![rule]);
    let event = SecurityEvent::new(
        0,
        EventKind::Network {
            pid: 0,
            dst_ip: "1.2.3.4".to_string(),
            dst_port: 4444,
            protocol: "tcp".to_string(),
            bytes_sent: 0,
            bytes_recv: 0,
        },
    );
    let matches = evaluate(&engine, &event);
    assert_eq!(matches.len(), 1);
}

#[test]
fn suspicious_script_extension_matches() {
    let engine = TomlRuleEngine::new(vec![make_rule(
        "FS-001",
        "fs.path",
        ConditionOp::EndsWith,
        ".ps1",
        50,
    )]);
    let event = SecurityEvent::new(
        0,
        EventKind::FileSystem {
            path: r"C:\Users\victim\AppData\Roaming\evil.ps1".to_string(),
            event_type: FsEventType::Created,
            entropy_estimate: None,
        },
    );
    let matches = evaluate(&engine, &event);
    assert_eq!(matches.len(), 1);
}

fn process_event(cmd: &str) -> SecurityEvent {
    SecurityEvent::new(
        7,
        EventKind::Process {
            pid: 42,
            parent_pid: 1,
            image: "C:\\Tools\\PsExec.EXE".to_string(),
            parent_image: "cmd.exe".to_string(),
            command_line: cmd.to_string(),
        },
    )
}

#[test]
fn comparisons_ignore_case() {
    let engine = TomlRuleEngine::new(vec![
        make_rule("A", "process.image", ConditionOp::EndsWith, "psexec.exe", 1),
        make_rule("B", "process.image", ConditionOp::StartsWith, "c:\\tools", 2),
        make_rule("C", "process.parent_image", ConditionOp::Equals, "CMD.EXE", 3),
        make_rule("D", "process.parent_image", ConditionOp::NotEquals, "CMD.EXE", 4),
        make_rule("E", "process.command_line", ConditionOp::NotContains, "MIMIKATZ", 5),
    ]);
    let ids: Vec<String> = evaluate(&engine, &process_event("run mimikatz now"))
        .into_iter()
        .map(|m| m.rule_id)
        .collect();
    assert_eq!(ids, vec!["A", "B", "C"]);
}

#[test]
fn all_mode_needs_every_condition() {
    let mut rule = make_rule("ALL", "process.pid", ConditionOp::Gt, "10", 9);
    rule.conditions.push(Condition {
        field: "process.pid".to_string(),
        op: ConditionOp::Lt,
        value: "40".to_string(),
    });
    let engine = TomlRuleEngine::new(vec![rule.clone()]);
    assert!(evaluate(&engine, &process_event("x")).is_empty());
    rule.conditions[1].value = "50".to_string();
    let engine = TomlRuleEngine::new(vec![rule]);
    assert_eq!(evaluate(&engine, &process_event("x")).len(), 1);
}

#[test]
fn rule_without_conditions_never_matches() {
    let mut rule = make_rule("EMPTY", "process.pid", ConditionOp::Gt, "0", 1);
    rule.conditions.clear();
    rule.match_mode = "any".to_string();
    let engine = TomlRuleEngine::new(vec![rule]);
    assert!(evaluate(&engine, &process_event("x")).is_empty());
}

#[test]
fn unknown_field_reads_as_empty() {
    let engine = TomlRuleEngine::new(vec![
        make_rule("U1", "process.nope", ConditionOp::Equals, "", 1),
        make_rule("U2", "process.nope", ConditionOp::Contains, "a", 2),
        make_rule("U3", "usb.device_id", ConditionOp::Eq, "0", 3),
    ]);
    let ids: Vec<String> = evaluate(&engine, &process_event("x"))
        .into_iter()
        .map(|m| m.rule_id)
        .collect();
    assert_eq!(ids, vec!["U1", "U3"]);
}

#[test]
fn match_carries_rule_metadata() {
    let mut rule = make_rule("R-9", "process.pid", ConditionOp::Eq, "42", 77);
    rule.mitre = Some("T1059".to_string());
    rule.category = "execution".to_string();
    let engine = TomlRuleEngine::new(vec![rule]);
    let m = evaluate(&engine, &process_event("x"));
    assert_eq!(m.len(), 1);
    assert_eq!(m[0].rule_name, "R-9");
    assert_eq!(m[0].category, "execution");
    assert_eq!(m[0].mitre.as_deref(), Some("T1059"));
    assert_eq!(m[0].recommended_action, "alert");
}

#[test]
fn fields_are_flattened_per_kind() {
    let fields = extract_fields(&EventKind::Registry {
        key: "HKLM\\Run".to_string(),
        value_name: "evil".to_string(),
        operation: RegistryOp::SetValue,
    });
    assert_eq!(
        fields,
        vec![
            ("registry.key".to_string(), "HKLM\\Run".to_string()),
            ("registry.value_name".to_string(), "evil".to_string()),
            ("registry.operation".to_string(), "set".to_string()),
        ]
    );
    let fs = extract_fields(&EventKind::FileSystem {
        path: "/tmp/a".to_string(),
        event_type: FsEventType::Renamed,
        entropy_estimate: Some("7.5".to_string()),
    });
    assert_eq!(fs[1].1, "renamed");
    assert_eq!(fs[2].1, "7.5");
    let net = extract_fields(&EventKind::Network {
        pid: 5,
        dst_ip: "10.0.0.1".to_string(),
        dst_port: 65535,
        protocol: "tcp".to_string(),
        bytes_sent: u64::MAX,
        bytes_recv: 0,
    });
    assert_eq!(net[2].1, "65535");
    assert_eq!(net[4].1, "18446744073709551615");
}

#[test]
fn default_match_mode_is_all() {
    assert_eq!(default_match_mode(), "all");
}

#[test]
fn text_operators_ignore_ascii_case() {
    let none = NumericOutcome { greater: false, less: false, near_equal: false };
    assert!(eval_condition(
        ConditionOp::Contains,
        &"POWERSHELL -ENCODEDCOMMAND x".to_string(),
        &"-EncodedCommand".to_string(),
        none
    ));
    assert!(eval_condition(ConditionOp::Equals, &"CMD.EXE".to_string(), &"cmd.exe".to_string(), none));
    assert!(!eval_condition(ConditionOp::NotEquals, &"CMD.EXE".to_string(), &"cmd.exe".to_string(), none));
    assert!(eval_condition(ConditionOp::EndsWith, &"EVIL.PS1".to_string(), &".ps1".to_string(), none));
}

#[test]
fn engine_without_rules_matches_nothing() {
    let engine = TomlRuleEngine::new(Vec::new());
    let event = SecurityEvent::new(
        0,
        EventKind::Usb { device_id: "USB0".to_string(), device_class: "MassStorage".to_string() },
    );
    assert!(evaluate(&engine, &event).is_empty());
}
