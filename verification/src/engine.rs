//! The rule engine: flattens an event into named fields and tests every rule's
//! conditions against them.

use vstd::prelude::*;

use crate::event::{fs_event_type_label, registry_op_label, EventKind, SecurityEvent};
use crate::rules::{ConditionOp, RuleDef};
use crate::text::{
    ascii_folded, chars_of, occurs_at, contains_chars, contains_seq, decimal, decimal_string, ends_with_chars, is_prefix,
    is_suffix, lowercase, starts_with_chars, to_lowercase,
};

verus! {

broadcast use vstd::string::group_string_axioms;

/// A rule that matched an event, as reported to the alert sink.
#[derive(Debug, Clone)]
pub struct RuleMatch {
    pub rule_id: String,
    pub rule_name: String,
    pub score: u32,
    pub category: String,
    pub mitre: Option<String>,
    pub recommended_action: String,
}

/// How the two sides of a numeric condition compare once both are read as
/// floating-point numbers (a side that does not parse counts as zero):
/// `greater` for `gt`, `less` for `lt` and `near_equal` (closer than machine
/// epsilon) for `eq`.
#[derive(Debug, Clone, Copy)]
pub struct NumericOutcome {
    pub greater: bool,
    pub less: bool,
    pub near_equal: bool,
}

/// The named fields of an event, in the order the engine searches them.
pub open spec fn event_fields(kind: EventKind) -> Seq<(Seq<char>, Seq<char>)> {
    match kind {
        EventKind::Process { pid, parent_pid, image, parent_image, command_line } => seq![
            ("process.pid"@, decimal(pid as nat)),
            ("process.parent_pid"@, decimal(parent_pid as nat)),
            ("process.image"@, image@),
            ("process.parent_image"@, parent_image@),
            ("process.command_line"@, command_line@),
        ],
        EventKind::FileSystem { path, event_type, entropy_estimate } => seq![
            ("fs.path"@, path@),
            ("fs.event_type"@, fs_event_type_label(event_type)),
            ("fs.entropy"@, match entropy_estimate {
                Some(e) => e@,
                None => Seq::<char>::empty(),
            }),
        ],
        EventKind::Network { pid, dst_ip, dst_port, protocol, bytes_sent, bytes_recv } => seq![
            ("network.pid"@, decimal(pid as nat)),
            ("network.dst_ip"@, dst_ip@),
            ("network.dst_port"@, decimal(dst_port as nat)),
            ("network.protocol"@, protocol@),
            ("network.bytes_sent"@, decimal(bytes_sent as nat)),
            ("network.bytes_recv"@, decimal(bytes_recv as nat)),
        ],
        EventKind::Registry { key, value_name, operation } => seq![
            ("registry.key"@, key@),
            ("registry.value_name"@, value_name@),
            ("registry.operation"@, registry_op_label(operation)),
        ],
        EventKind::Usb { device_id, device_class } => seq![
            ("usb.device_id"@, device_id@),
            ("usb.device_class"@, device_class@),
        ],
    }
}

/// The value of the first field at or after index `i` named `name`; empty when
/// there is none.
pub open spec fn lookup_from(fields: Seq<(Seq<char>, Seq<char>)>, name: Seq<char>, i: int) -> Seq<char>
    decreases fields.len() - i,
{
    if i < 0 || i >= fields.len() {
        Seq::<char>::empty()
    } else if fields[i].0 == name {
        fields[i].1
    } else {
        lookup_from(fields, name, i + 1)
    }
}

/// The value an event gives the field `name`; empty for a field the event does
/// not have.
pub open spec fn field_of(kind: EventKind, name: Seq<char>) -> Seq<char> {
    lookup_from(event_fields(kind), name, 0)
}

/// Whether a condition with operator `op` holds of the field text `field` and
/// the rule's text `value`. Text comparisons ignore case; numeric ones take the
/// outcome `num`.
pub open spec fn condition_holds(op: ConditionOp, field: Seq<char>, value: Seq<char>, num: NumericOutcome) -> bool {
    let f = lowercase(field);
    let v = lowercase(value);
    match op {
        ConditionOp::Contains => contains_seq(f, v),
        ConditionOp::NotContains => !contains_seq(f, v),
        ConditionOp::Equals => f == v,
        ConditionOp::NotEquals => f != v,
        ConditionOp::StartsWith => is_prefix(v, f),
        ConditionOp::EndsWith => is_suffix(v, f),
        ConditionOp::Gt => num.greater,
        ConditionOp::Lt => num.less,
        ConditionOp::Eq => num.near_equal,
    }
}

/// Whether condition `j` of `rule` holds of the event `kind`.
pub open spec fn condition_at_holds(rule: RuleDef, kind: EventKind, num: Seq<NumericOutcome>, j: int) -> bool {
    let c = rule.conditions@[j];
    condition_holds(c.op, field_of(kind, c.field@), c.value@, num[j])
}

/// A rule combines its conditions with OR when its match mode is `"any"`,
/// with AND otherwise.
pub open spec fn is_any_mode(rule: RuleDef) -> bool {
    rule.match_mode@ == "any"@
}

/// Whether `rule` matches the event `kind`: a rule without conditions never
/// matches; otherwise some condition must hold in "any" mode and every one in
/// any other mode.
pub open spec fn rule_holds(rule: RuleDef, kind: EventKind, num: Seq<NumericOutcome>) -> bool {
    &&& rule.conditions@.len() > 0
    &&& if is_any_mode(rule) {
        exists|j: int| 0 <= j < rule.conditions@.len() && #[trigger] condition_at_holds(rule, kind, num, j)
    } else {
        forall|j: int| 0 <= j < rule.conditions@.len() ==> #[trigger] condition_at_holds(rule, kind, num, j)
    }
}

/// The match reported for `rule`.
pub open spec fn match_of(rule: RuleDef) -> RuleMatch {
    RuleMatch {
        rule_id: rule.id,
        rule_name: rule.name,
        score: rule.score,
        category: rule.category,
        mitre: rule.mitre,
        recommended_action: rule.recommended_action,
    }
}

/// The matches of `rules` against the event `kind`, in rule order.
pub open spec fn matches_of(rules: Seq<RuleDef>, kind: EventKind, numeric: Seq<Vec<NumericOutcome>>) -> Seq<RuleMatch>
    decreases rules.len(),
{
    if rules.len() == 0 {
        Seq::<RuleMatch>::empty()
    } else {
        let prev = matches_of(rules.drop_last(), kind, numeric);
        if rule_holds(rules.last(), kind, numeric[rules.len() - 1]@) {
            prev.push(match_of(rules.last()))
        } else {
            prev
        }
    }
}

/// `numeric` has one outcome per condition of every rule.
pub open spec fn numeric_fits(rules: Seq<RuleDef>, numeric: Seq<Vec<NumericOutcome>>) -> bool {
    &&& numeric.len() == rules.len()
    &&& forall|i: int| 0 <= i < rules.len() ==> (#[trigger] numeric[i])@.len() == rules[i].conditions@.len()
}

/// The view of a list of (name, value) pairs.
pub open spec fn pairs_view(v: Seq<(String, String)>) -> Seq<(Seq<char>, Seq<char>)> {
    v.map_values(|p: (String, String)| (p.0@, p.1@))
}

fn pair(name: &str, value: String) -> (r: (String, String))
    ensures
        r.0@ == name@,
        r.1@ == value@,
{
    (name.to_owned(), value)
}

fn clone_opt(s: &Option<String>) -> (r: Option<String>)
    ensures
        r == *s,
{
    match s {
        Some(x) => Some(x.clone()),
        None => None,
    }
}

/// Flattens an event into (field name, value) pairs.
pub fn extract_fields(kind: &EventKind) -> (r: Vec<(String, String)>)
    ensures
        pairs_view(r@) == event_fields(*kind),
{
    let mut v: Vec<(String, String)> = Vec::new();
    match kind {
        EventKind::Process { pid, parent_pid, image, parent_image, command_line } => {
            v.push(pair("process.pid", decimal_string(*pid as u64)));
            v.push(pair("process.parent_pid", decimal_string(*parent_pid as u64)));
            v.push(pair("process.image", image.clone()));
            v.push(pair("process.parent_image", parent_image.clone()));
            v.push(pair("process.command_line", command_line.clone()));
        },
        EventKind::FileSystem { path, event_type, entropy_estimate } => {
            v.push(pair("fs.path", path.clone()));
            v.push(pair("fs.event_type", event_type.label()));
            let e = match entropy_estimate {
                Some(e) => e.clone(),
                None => String::new(),
            };
            v.push(pair("fs.entropy", e));
        },
        EventKind::Network { pid, dst_ip, dst_port, protocol, bytes_sent, bytes_recv } => {
            v.push(pair("network.pid", decimal_string(*pid as u64)));
            v.push(pair("network.dst_ip", dst_ip.clone()));
            v.push(pair("network.dst_port", decimal_string(*dst_port as u64)));
            v.push(pair("network.protocol", protocol.clone()));
            v.push(pair("network.bytes_sent", decimal_string(*bytes_sent)));
            v.push(pair("network.bytes_recv", decimal_string(*bytes_recv)));
        },
        EventKind::Registry { key, value_name, operation } => {
            v.push(pair("registry.key", key.clone()));
            v.push(pair("registry.value_name", value_name.clone()));
            v.push(pair("registry.operation", operation.label()));
        },
        EventKind::Usb { device_id, device_class } => {
            v.push(pair("usb.device_id", device_id.clone()));
            v.push(pair("usb.device_class", device_class.clone()));
        },
    }
    assert(pairs_view(v@) =~= event_fields(*kind));
    v
}

/// The value of the first pair named `name`; empty when there is none.
pub fn lookup_field(fields: &Vec<(String, String)>, name: &String) -> (r: String)
    ensures
        r@ == lookup_from(pairs_view(fields@), name@, 0),
{
    let ghost fv = pairs_view(fields@);
    let mut i: usize = 0;
    while i < fields.len()
        invariant
            i <= fields.len(),
            fv == pairs_view(fields@),
            lookup_from(fv, name@, 0) == lookup_from(fv, name@, i as int),
        decreases fields.len() - i,
    {
        assert(fv[i as int] == (fields@[i as int].0@, fields@[i as int].1@));
        if fields[i].0 == *name {
            return fields[i].1.clone();
        }
        i = i + 1;
    }
    String::new()
}

/// The value an event gives the field `name` (empty when it has no such field).
pub fn field_value(kind: &EventKind, name: &String) -> (r: String)
    ensures
        r@ == field_of(*kind, name@),
{
    let fields = extract_fields(kind);
    lookup_field(&fields, name)
}

/// Whether a condition holds of the field text `field` and the rule's text
/// `value`; `num` is how the two compare as numbers.
pub fn eval_condition(op: ConditionOp, field: &String, value: &String, num: NumericOutcome) -> (r: bool)
    ensures
        r == condition_holds(op, field@, value@, num),
        forall|f2: Seq<char>, v2: Seq<char>|
            #![trigger ascii_folded(f2), ascii_folded(v2)]
            ascii_folded(f2) == ascii_folded(field@) && ascii_folded(v2) == ascii_folded(value@)
                ==> condition_holds(op, f2, v2, num) == r,
{
    let field_lower = to_lowercase(field.as_str());
    let value_lower = to_lowercase(value.as_str());
    let f = chars_of(field_lower.as_str());
    let v = chars_of(value_lower.as_str());
    match op {
        ConditionOp::Contains => contains_chars(&f, &v),
        ConditionOp::NotContains => !contains_chars(&f, &v),
        ConditionOp::Equals => field_lower == value_lower,
        ConditionOp::NotEquals => field_lower != value_lower,
        ConditionOp::StartsWith => starts_with_chars(&f, &v),
        ConditionOp::EndsWith => ends_with_chars(&f, &v),
        ConditionOp::Gt => num.greater,
        ConditionOp::Lt => num.less,
        ConditionOp::Eq => num.near_equal,
    }
}

/// Whether `rule` matches the event `kind`; `num` holds the numeric outcome of
/// each of its conditions.
pub fn rule_matches(rule: &RuleDef, kind: &EventKind, num: &Vec<NumericOutcome>) -> (r: bool)
    requires
        num@.len() == rule.conditions@.len(),
    ensures
        r == rule_holds(*rule, *kind, num@),
{
    if rule.conditions.len() == 0 {
        return false;
    }
    let fields = extract_fields(kind);
    let any = "any".to_owned();
    let or_mode = rule.match_mode == any;
    let n = rule.conditions.len();
    let mut matched: usize = 0;
    let mut j: usize = 0;
    while j < n
        invariant
            n == rule.conditions@.len(),
            num@.len() == n,
            j <= n,
            pairs_view(fields@) == event_fields(*kind),
            or_mode == is_any_mode(*rule),
            or_mode ==> forall|k: int| 0 <= k < j ==> !#[trigger] condition_at_holds(*rule, *kind, num@, k),
            matched <= j,
            !or_mode ==> matched == j,
            !or_mode ==> forall|k: int| 0 <= k < j ==> #[trigger] condition_at_holds(*rule, *kind, num@, k),
        decreases n - j,
    {
        let cond = &rule.conditions[j];
        let field_val = lookup_field(&fields, &cond.field);
        let ok = eval_condition(cond.op, &field_val, &cond.value, num[j]);
        assert(ok == condition_at_holds(*rule, *kind, num@, j as int));
        if ok {
            matched = matched + 1;
            if or_mode {
                return true;
            }
        } else if !or_mode {
            return false;
        }
        j = j + 1;
    }
    if or_mode {
        false
    } else {
        matched == n
    }
}

/// Evaluates rules loaded from the rule files against events.
pub struct TomlRuleEngine {
    rules: Vec<RuleDef>,
}

impl View for TomlRuleEngine {
    type V = Seq<RuleDef>;

    closed spec fn view(&self) -> Seq<RuleDef> {
        self.rules@
    }
}

impl TomlRuleEngine {
    /// An engine holding `rules`, in the given order.
    pub fn new(rules: Vec<RuleDef>) -> (r: Self)
        ensures
            r@ == rules@,
    {
        TomlRuleEngine { rules }
    }

    /// The rules of this engine.
    pub fn rules(&self) -> (r: &Vec<RuleDef>)
        ensures
            r@ == self@,
    {
        &self.rules
    }

    /// The matches of this engine's rules against `event`, in rule order;
    /// `numeric[i][j]` is the numeric outcome of condition `j` of rule `i`.
    pub fn evaluate_with(&self, event: &SecurityEvent, numeric: &Vec<Vec<NumericOutcome>>) -> (r: Vec<RuleMatch>)
        requires
            numeric_fits(self@, numeric@),
        ensures
            r@ == matches_of(self@, event.kind, numeric@),
    {
        let mut out: Vec<RuleMatch> = Vec::new();
        let mut i: usize = 0;
        while i < self.rules.len()
            invariant
                i <= self.rules@.len(),
                numeric_fits(self.rules@, numeric@),
                out@ == matches_of(self.rules@.take(i as int), event.kind, numeric@),
            decreases self.rules.len() - i,
        {
            let rule = &self.rules[i];
            assert(self.rules@.take(i + 1).drop_last() == self.rules@.take(i as int));
            assert(numeric@[i as int]@.len() == rule.conditions@.len());
            if rule_matches(rule, &event.kind, &numeric[i]) {
                let m = RuleMatch {
                    rule_id: rule.id.clone(),
                    rule_name: rule.name.clone(),
                    score: rule.score,
                    category: rule.category.clone(),
                    mitre: clone_opt(&rule.mitre),
                    recommended_action: rule.recommended_action.clone(),
                };
                out.push(m);
            }
            i = i + 1;
        }
        assert(self.rules@.take(self.rules.len() as int) == self.rules@);
        out
    }
}

/// `not_contains` and `not_equals` hold exactly when `contains` and `equals`
/// fail, whatever the texts.
pub proof fn law_negated_operators(field: Seq<char>, value: Seq<char>, num: NumericOutcome)
    ensures
        condition_holds(ConditionOp::NotContains, field, value, num) == !condition_holds(
            ConditionOp::Contains,
            field,
            value,
            num,
        ),
        condition_holds(ConditionOp::NotEquals, field, value, num) == !condition_holds(
            ConditionOp::Equals,
            field,
            value,
            num,
        ),
{
}

/// Text comparisons are case-insensitive: texts with the same lower-case
/// form give the same outcome under every text operator.
pub proof fn law_text_comparisons_ignore_case(
    op: ConditionOp,
    f1: Seq<char>,
    f2: Seq<char>,
    v1: Seq<char>,
    v2: Seq<char>,
    num: NumericOutcome,
)
    requires
        lowercase(f1) == lowercase(f2),
        lowercase(v1) == lowercase(v2),
    ensures
        condition_holds(op, f1, v1, num) == condition_holds(op, f2, v2, num),
{
}

/// The characters of `p` appear in `s` one after another from index `i` on.
pub open spec fn chars_appear_at(s: Seq<char>, p: Seq<char>, i: int) -> bool {
    &&& 0 <= i
    &&& i + p.len() <= s.len()
    &&& forall|j: int| 0 <= j < p.len() ==> s[i + j] == #[trigger] p[j]
}

/// What each text operator means, character by character, on the lower-cased
/// field text `lf` and rule value `lv`: `ends_with` holds exactly when `lv`
/// fits in `lf` and its characters are the last characters of `lf` (so a
/// value that merely occurs inside the field does not end it);
/// `starts_with` exactly when they are the first ones; `contains` exactly
/// when they appear consecutively somewhere; `equals` exactly when the two
/// texts are the same; and the negated operators are the opposites.
pub proof fn law_text_operator_meanings(f: Seq<char>, v: Seq<char>, num: NumericOutcome)
    ensures
        condition_holds(ConditionOp::EndsWith, f, v, num) <==> (lowercase(v).len() <= lowercase(f).len()
            && forall|j: int|
            0 <= j < lowercase(v).len() ==> lowercase(f)[lowercase(f).len() - lowercase(v).len() + j]
                == #[trigger] lowercase(v)[j]),
        condition_holds(ConditionOp::StartsWith, f, v, num) <==> (lowercase(v).len() <= lowercase(f).len()
            && forall|j: int| 0 <= j < lowercase(v).len() ==> lowercase(f)[j] == #[trigger] lowercase(v)[j]),
        condition_holds(ConditionOp::Contains, f, v, num) <==> (exists|i: int|
            #[trigger] chars_appear_at(lowercase(f), lowercase(v), i)),
        condition_holds(ConditionOp::NotContains, f, v, num) <==> !condition_holds(ConditionOp::Contains, f, v, num),
        condition_holds(ConditionOp::Equals, f, v, num) <==> lowercase(f) == lowercase(v),
        condition_holds(ConditionOp::NotEquals, f, v, num) <==> lowercase(f) != lowercase(v),
{
    let lf = lowercase(f);
    let lv = lowercase(v);
    if lv.len() <= lf.len() {
        let t = lf.skip(lf.len() - lv.len());
        if forall|j: int| 0 <= j < lv.len() ==> lf[lf.len() - lv.len() + j] == #[trigger] lv[j] {
            assert(t =~= lv);
        }
        if t == lv {
            assert forall|j: int| 0 <= j < lv.len() implies lf[lf.len() - lv.len() + j] == #[trigger] lv[j] by {
                assert(t[j] == lv[j]);
            }
        }
        let h = lf.take(lv.len() as int);
        if forall|j: int| 0 <= j < lv.len() ==> lf[j] == #[trigger] lv[j] {
            assert(h =~= lv);
        }
        if h == lv {
            assert forall|j: int| 0 <= j < lv.len() implies lf[j] == #[trigger] lv[j] by {
                assert(h[j] == lv[j]);
            }
        }
    }
    if contains_seq(lf, lv) {
        let i = choose|i: int| occurs_at(lf, lv, i);
        assert forall|j: int| 0 <= j < lv.len() implies lf[i + j] == #[trigger] lv[j] by {
            assert(lf.subrange(i, i + lv.len())[j] == lv[j]);
        }
        assert(chars_appear_at(lf, lv, i));
    }
    if exists|i: int| #[trigger] chars_appear_at(lf, lv, i) {
        let i = choose|i: int| #[trigger] chars_appear_at(lf, lv, i);
        assert(lf.subrange(i, i + lv.len()) =~= lv);
        assert(occurs_at(lf, lv, i));
    }
}

/// A numeric condition depends on the numeric outcome alone, not on the text
/// of the field or the value.
pub proof fn law_numeric_operators_use_outcome(
    op: ConditionOp,
    f1: Seq<char>,
    f2: Seq<char>,
    v1: Seq<char>,
    v2: Seq<char>,
    num: NumericOutcome,
)
    requires
        op == ConditionOp::Gt || op == ConditionOp::Lt || op == ConditionOp::Eq,
    ensures
        condition_holds(op, f1, v1, num) == condition_holds(op, f2, v2, num),
{
}

/// An engine without rules reports no match for any event.
pub proof fn law_no_rules_no_matches(kind: EventKind, numeric: Seq<Vec<NumericOutcome>>)
    ensures
        matches_of(Seq::<RuleDef>::empty(), kind, numeric) == Seq::<RuleMatch>::empty(),
{
}

/// A rule without conditions matches no event.
pub proof fn law_empty_rule_never_matches(rule: RuleDef, kind: EventKind, num: Seq<NumericOutcome>)
    requires
        rule.conditions@.len() == 0,
    ensures
        !rule_holds(rule, kind, num),
{
}

/// With a single condition, "any" and "all" agree: the rule matches exactly
/// when its condition holds.
pub proof fn law_single_condition_mode_irrelevant(rule: RuleDef, kind: EventKind, num: Seq<NumericOutcome>)
    requires
        rule.conditions@.len() == 1,
    ensures
        rule_holds(rule, kind, num) == condition_at_holds(rule, kind, num, 0),
{
    if is_any_mode(rule) {
        if condition_at_holds(rule, kind, num, 0) {
            assert(exists|j: int| 0 <= j < rule.conditions@.len() && #[trigger] condition_at_holds(rule, kind, num, j));
        }
    } else {
        if !condition_at_holds(rule, kind, num, 0) {
            assert(!(forall|j: int| 0 <= j < rule.conditions@.len() ==> #[trigger] condition_at_holds(rule, kind, num, j)));
        }
    }
}

proof fn lemma_matches_prefix_numeric(rules: Seq<RuleDef>, kind: EventKind, n1: Seq<Vec<NumericOutcome>>, n2: Seq<Vec<NumericOutcome>>)
    requires
        n1.len() >= rules.len(),
        n2.len() >= rules.len(),
        forall|i: int| 0 <= i < rules.len() ==> n1[i] == n2[i],
    ensures
        matches_of(rules, kind, n1) == matches_of(rules, kind, n2),
    decreases rules.len(),
{
    if rules.len() > 0 {
        lemma_matches_prefix_numeric(rules.drop_last(), kind, n1, n2);
    }
}

/// Adding a rule at the end of the rule list adds its match, when it
/// matches, after the matches of the other rules and changes nothing else.
pub proof fn law_added_rule_appends(
    rules: Seq<RuleDef>,
    r: RuleDef,
    kind: EventKind,
    numeric: Seq<Vec<NumericOutcome>>,
    n: Vec<NumericOutcome>,
)
    requires
        numeric.len() == rules.len(),
    ensures
        matches_of(rules.push(r), kind, numeric.push(n)) == if rule_holds(r, kind, n@) {
            matches_of(rules, kind, numeric).push(match_of(r))
        } else {
            matches_of(rules, kind, numeric)
        },
{
    assert(rules.push(r).drop_last() == rules);
    lemma_matches_prefix_numeric(rules, kind, numeric.push(n), numeric);
}

/// Every reported match is the match of a rule that holds, and there are at
/// most as many matches as rules.
pub proof fn law_matches_come_from_matching_rules(rules: Seq<RuleDef>, kind: EventKind, numeric: Seq<Vec<NumericOutcome>>)
    requires
        numeric.len() >= rules.len(),
    ensures
        matches_of(rules, kind, numeric).len() <= rules.len(),
        forall|k: int|
            0 <= k < matches_of(rules, kind, numeric).len() ==> exists|i: int|
                0 <= i < rules.len() && rule_holds(rules[i], kind, numeric[i]@) && #[trigger] matches_of(
                    rules,
                    kind,
                    numeric,
                )[k] == match_of(rules[i]),
    decreases rules.len(),
{
    if rules.len() > 0 {
        let p = rules.drop_last();
        law_matches_come_from_matching_rules(p, kind, numeric);
        let prev = matches_of(p, kind, numeric);
        let all = matches_of(rules, kind, numeric);
        assert forall|k: int| 0 <= k < all.len() implies exists|i: int|
            0 <= i < rules.len() && rule_holds(rules[i], kind, numeric[i]@) && #[trigger] all[k] == match_of(rules[i]) by {
            if k < prev.len() {
                assert(all[k] == prev[k]);
                let i = choose|i: int| 0 <= i < p.len() && rule_holds(p[i], kind, numeric[i]@) && prev[k] == match_of(p[i]);
                assert(rules[i] == p[i]);
            } else {
                assert(rules[rules.len() - 1] == rules.last());
            }
        }
    }
}

} // verus!
