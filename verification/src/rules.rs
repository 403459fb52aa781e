//! Rule definitions as they are written in the TOML rule files.

use vstd::prelude::*;

verus! {

/// How a condition compares the event field with the rule's value.
#[derive(Debug, Clone, Copy, PartialEq, Eq, Structural)]
pub enum ConditionOp {
    Contains,
    NotContains,
    Equals,
    NotEquals,
    StartsWith,
    EndsWith,
    /// Numeric: greater than
    Gt,
    /// Numeric: less than
    Lt,
    /// Numeric: equals
    Eq,
}

/// One test on one event field.
#[derive(Debug, Clone)]
pub struct Condition {
    /// Field path: "process.image", "process.command_line",
    /// "fs.path", "fs.event_type",
    /// "network.dst_port", "network.dst_ip", "network.protocol",
    /// "registry.key", "registry.value_name", "registry.operation",
    /// "usb.device_id", "usb.device_class"
    pub field: String,
    pub op: ConditionOp,
    pub value: String,
}

/// A detection rule.
#[derive(Debug, Clone)]
pub struct RuleDef {
    pub id: String,
    pub name: String,
    pub score: u32,
    pub category: String,
    pub mitre: Option<String>,
    pub recommended_action: String,
    pub conditions: Vec<Condition>,
    /// "all" (default) = AND logic, "any" = OR logic
    pub match_mode: String,
}

/// The contents of one rule file.
#[derive(Debug, Clone)]
pub struct RuleFile {
    pub rules: Vec<RuleDef>,
}

/// The match mode a rule has when its file names none.
pub fn default_match_mode() -> (r: String)
    ensures
        r@ == "all"@,
{
    "all".to_owned()
}

} // verus!
