//! The content of the status displays: firmware and signal labels, outlet
//! labels, schedule rows and day lists. Colors and layout are the caller's.

use vstd::prelude::*;
use crate::devices::{kind_name, DeviceKind};
use crate::hosts::join;
use crate::http::{skip_word, skip_ws, word_len};
use crate::json::{i64_of, member, str_of, u64_of, Json};
use crate::strip::Strip;
use crate::text::{append_chars, chars_of, decimal, decimal_chars, decimal_padded, decimal_padded_chars, string_of, sub_chars, trim_start};

verus! {

/// The first word of a firmware version ("1.0.9 Build 200225 Rel.112346"
/// shows as "1.0.9"); the whole text when it has no word.
pub open spec fn short_fw_spec(fw: Seq<char>) -> Seq<char> {
    let t = trim_start(fw);
    if t.len() == 0 { fw } else { t.take(word_len(t) as int) }
}

/// The first word of a firmware version.
pub fn short_fw(fw: &str) -> (r: String)
    ensures
        r@ == short_fw_spec(fw@),
{
    let cs = chars_of(fw);
    let a = skip_ws(&cs, 0);
    assert(cs@.subrange(0, cs@.len() as int) =~= cs@);
    if a == cs.len() {
        return String::from_str(fw);
    }
    let b = skip_word(&cs, a);
    let ghost t = trim_start(cs@);
    assert(t.take((b - a) as int) =~= cs@.subrange(a as int, b as int));
    string_of(&sub_chars(&cs, a, b))
}

/// How strong a Wi-Fi signal is.
#[derive(Debug, Clone, Copy, PartialEq, Eq, Structural)]
pub enum SignalStrength {
    Excellent,
    Good,
    Weak,
}

/// The strength of a signal of `rssi` dBm: excellent from -50, good from
/// -65, weak below.
pub open spec fn strength_of(rssi: i32) -> SignalStrength {
    if rssi >= -50 { SignalStrength::Excellent } else if rssi >= -65 { SignalStrength::Good } else { SignalStrength::Weak }
}

/// The strength of a signal of `rssi` dBm.
pub fn signal_strength(rssi: i32) -> (s: SignalStrength)
    ensures
        s == strength_of(rssi),
{
    if rssi >= -50 {
        SignalStrength::Excellent
    } else if rssi >= -65 {
        SignalStrength::Good
    } else {
        SignalStrength::Weak
    }
}

/// The label of a signal strength.
pub open spec fn strength_label(s: SignalStrength) -> Seq<char> {
    match s {
        SignalStrength::Excellent => "excellent"@,
        SignalStrength::Good => "good"@,
        SignalStrength::Weak => "weak"@,
    }
}

impl SignalStrength {
    /// The label of this strength ("excellent", "good", "weak").
    pub fn label(&self) -> (s: &'static str)
        ensures
            s@ == strength_label(*self),
    {
        match self {
            SignalStrength::Excellent => "excellent",
            SignalStrength::Good => "good",
            SignalStrength::Weak => "weak",
        }
    }
}

/// The label of a Tapo signal level (3 best).
pub open spec fn tapo_signal_text(level: u8) -> Seq<char> {
    if level == 3 {
        "excellent"@
    } else if level == 2 {
        "good"@
    } else if level == 1 {
        "weak"@
    } else {
        "no signal"@
    }
}

/// The label of a Tapo signal level.
pub fn tapo_signal(level: u8) -> (s: &'static str)
    ensures
        s@ == tapo_signal_text(level),
{
    if level == 3 {
        "excellent"
    } else if level == 2 {
        "good"
    } else if level == 1 {
        "weak"
    } else {
        "no signal"
    }
}

/// How many outlets of the strip are on.
pub open spec fn on_count(children: Seq<crate::strip::StripChild>) -> nat
    decreases children.len(),
{
    if children.len() == 0 {
        0
    } else {
        on_count(children.drop_last()) + if children.last().state == 1 { 1nat } else { 0nat }
    }
}

/// How many outlets of the strip are on.
pub fn outlets_on(s: &Strip) -> (n: usize)
    ensures
        n as nat == on_count(s.children@),
{
    let mut n: usize = 0;
    let mut i: usize = 0;
    while i < s.children.len()
        invariant
            i <= s.children@.len(),
            n <= i,
            n as nat == on_count(s.children@.take(i as int)),
        decreases s.children@.len() - i,
    {
        assert(s.children@.take(i + 1).drop_last() =~= s.children@.take(i as int));
        if s.children[i].state == 1 {
            n = n + 1;
        }
        i = i + 1;
    }
    assert(s.children@.take(s.children@.len() as int) =~= s.children@);
    n
}

/// The label of outlet `i` (0-based) of a strip: its 1-based number and alias.
pub open spec fn outlet_label(i: int, alias: Seq<char>) -> Seq<char> {
    decimal((i + 1) as nat) + " "@ + alias
}

/// Each outlet's label and whether it is on.
pub fn outlet_labels(s: &Strip) -> (r: Vec<(String, bool)>)
    ensures
        r@.len() == s.children@.len(),
        forall|i: int| 0 <= i < r@.len() ==> (#[trigger] r@[i]).0@ == outlet_label(i, s.children@[i].alias@)
            && r@[i].1 == (s.children@[i].state == 1),
{
    let mut r: Vec<(String, bool)> = Vec::new();
    let mut i: usize = 0;
    while i < s.children.len()
        invariant
            i <= s.children@.len(),
            r@.len() == i,
            forall|j: int| 0 <= j < i ==> (#[trigger] r@[j]).0@ == outlet_label(j, s.children@[j].alias@)
                && r@[j].1 == (s.children@[j].state == 1),
        decreases s.children@.len() - i,
    {
        let mut label = String::new();
        append_chars(&mut label, &decimal_chars((i + 1) as u64));
        label.append(" ");
        label.append(s.children[i].alias.as_str());
        r.push((label, s.children[i].state == 1));
        i = i + 1;
    }
    r
}

/// The answer when a device's system information does not read as its kind.
pub open spec fn unparsed_message(k: DeviceKind, ip: Seq<char>) -> Seq<char> {
    let what = match k {
        DeviceKind::Bulb => "bulb"@,
        DeviceKind::LightStrip => "light strip"@,
        DeviceKind::Dimmer => "dimmer"@,
        DeviceKind::Strip => "strip"@,
        _ => "plug"@,
    };
    "Could not parse "@ + what + " sysinfo from "@ + ip
}

/// The answer when a device's system information does not read as its kind.
pub fn unparsed(kind: &DeviceKind, ip: &str) -> (m: String)
    ensures
        m@ == unparsed_message(*kind, ip@),
{
    let mut m = String::from_str("Could not parse ");
    m.append(match kind {
        DeviceKind::Bulb => "bulb",
        DeviceKind::LightStrip => "light strip",
        DeviceKind::Dimmer => "dimmer",
        DeviceKind::Strip => "strip",
        _ => "plug",
    });
    m.append(" sysinfo from ");
    m.append(ip);
    m
}

/// The notice shown before the raw information of a device without a
/// detailed view.
pub open spec fn raw_notice_message(k: DeviceKind, ip: Seq<char>) -> Seq<char> {
    "Detailed info is not available for "@ + kind_name(k) + " yet. Raw sysinfo from "@ + ip + ":"@
}

/// The notice shown before the raw information of a device without a
/// detailed view.
pub fn raw_notice(kind: &DeviceKind, ip: &str) -> (m: String)
    ensures
        m@ == raw_notice_message(*kind, ip@),
{
    let mut m = String::from_str("Detailed info is not available for ");
    let k = kind.display_name();
    m.append(k.as_str());
    m.append(" yet. Raw sysinfo from ");
    m.append(ip);
    m.append(":");
    m
}

// ── Schedules ────────────────────────────────────────────────────────────────

/// The day labels, Sunday first.
pub open spec fn day_labels() -> Seq<Seq<char>> {
    seq!["Sun"@, "Mon"@, "Tue"@, "Wed"@, "Thu"@, "Fri"@, "Sat"@]
}

/// A day flag is set when it is the number 1.
pub open spec fn day_set(v: Json) -> bool {
    u64_of(Some(v)) == Some(1u64)
}

/// The labels of the days set among the first `n` flags.
pub open spec fn active_days(days: Seq<Json>, n: nat) -> Seq<Seq<char>>
    decreases n,
{
    if n == 0 {
        Seq::empty()
    } else {
        let before = active_days(days, (n - 1) as nat);
        if day_set(days[n - 1]) { before.push(day_labels()[n - 1]) } else { before }
    }
}

/// No day flag past Saturday is set (a set one would have no label).
pub open spec fn days_labelled(days: Seq<Json>) -> bool {
    forall|i: int| 7 <= i < days.len() ==> !day_set(#[trigger] days[i])
}

/// The days of a schedule: "every day" without a day list or with all
/// seven set, "no days" with none set, else the set days' labels joined by
/// spaces.
pub open spec fn wday_text(days: Option<Seq<Json>>) -> Seq<char> {
    match days {
        None => "every day"@,
        Some(d) => {
            let a = active_days(d, d.len());
            if a.len() == 0 {
                "no days"@
            } else if a.len() == 7 {
                "every day"@
            } else {
                join(a, " "@)
            }
        },
    }
}

proof fn lemma_active_len(days: Seq<Json>, n: nat)
    requires
        n <= days.len(),
    ensures
        active_days(days, n).len() <= n,
    decreases n,
{
    if n > 0 {
        lemma_active_len(days, (n - 1) as nat);
    }
}

/// The days of a schedule (see `wday_text`).
pub fn format_wday(wday: Option<&Vec<Json>>) -> (s: String)
    requires
        match wday {
            Some(d) => days_labelled(d@),
            None => true,
        },
    ensures
        s@ == wday_text(match wday { Some(d) => Some(d@), None => None }),
{
    let days = match wday {
        None => {
            return String::from_str("every day");
        },
        Some(d) => d,
    };
    let labels = vec!["Sun", "Mon", "Tue", "Wed", "Thu", "Fri", "Sat"];
    assert(labels@.map_values(|l: &str| l@) =~= day_labels());
    let mut active: Vec<String> = Vec::new();
    let mut i: usize = 0;
    while i < days.len()
        invariant
            i <= days@.len(),
            days_labelled(days@),
            labels@.map_values(|l: &str| l@) == day_labels(),
            labels@.len() == 7,
            active@.map_values(|a: String| a@) == active_days(days@, i as nat),
        decreases days@.len() - i,
    {
        let set = match days[i].as_u64() {
            Some(n) => n == 1,
            None => false,
        };
        if set {
            assert(day_set(days@[i as int]));
            assert(i < 7);
            let ghost before = active@;
            assert(labels@.map_values(|l: &str| l@)[i as int] == labels@[i as int]@);
            active.push(String::from_str(labels[i]));
            assert(active@.map_values(|a: String| a@) =~= before.map_values(|a: String| a@).push(day_labels()[i as int]));
        }
        i = i + 1;
    }
    proof {
        lemma_active_len(days@, days@.len());
    }
    if active.len() == 0 {
        String::from_str("no days")
    } else if active.len() == 7 {
        String::from_str("every day")
    } else {
        crate::hosts::join_strings(&active, " ")
    }
}

/// One row of the schedule list.
pub struct ScheduleRow {
    /// The rule switches the device on (else off).
    pub on: bool,
    /// The start time, "hh:mm".
    pub time: String,
    /// The days it runs (see `wday_text`).
    pub days: String,
    pub name: String,
    pub enabled: bool,
}

/// The day list of a rule, if it has one.
pub open spec fn rule_days(rule: Json) -> Option<Seq<Json>> {
    match member(rule, "wday"@) {
        Some(Json::Array(v)) => Some(v@),
        _ => None,
    }
}

/// A rule's day list has no flag set past Saturday.
pub open spec fn rule_labelled(rule: Json) -> bool {
    match rule_days(rule) {
        Some(d) => days_labelled(d),
        None => true,
    }
}

/// A numeric member of a rule, with a default.
pub open spec fn rule_u64(rule: Json, key: Seq<char>, default: u64) -> u64 {
    match u64_of(member(rule, key)) {
        Some(n) => n,
        None => default,
    }
}

/// The row shown for a schedule rule: on when its start action is 1
/// (the default), the start minute as hh:mm, the days, the name
/// ("(unnamed)" when missing) and whether it is enabled.
pub open spec fn row_of(rule: Json, row: ScheduleRow) -> bool {
    let smin = rule_u64(rule, "smin"@, 0);
    &&& row.on == (match i64_of(member(rule, "sact"@)) { Some(a) => a == 1, None => true })
    &&& row.time@ == decimal_padded((smin / 60) as nat, 2) + ":"@ + decimal_padded((smin % 60) as nat, 2)
    &&& row.days@ == wday_text(rule_days(rule))
    &&& row.name@ == (match str_of(member(rule, "name"@)) { Some(n) => n, None => "(unnamed)"@ })
    &&& row.enabled == (rule_u64(rule, "enable"@, 0) == 1)
}

/// The rule list of a `get_rules` answer, if it has one.
pub open spec fn rule_list(resp: Json) -> Option<Seq<Json>> {
    match member(resp, "schedule"@) {
        Some(s) => match member(s, "get_rules"@) {
            Some(g) => match member(g, "rule_list"@) {
                Some(Json::Array(v)) => Some(v@),
                _ => None,
            },
            None => None,
        },
        None => None,
    }
}

fn row_for(rule: &Json) -> (row: ScheduleRow)
    requires
        rule_labelled(*rule),
    ensures
        row_of(*rule, row),
{
    let enabled = match rule.get("enable") {
        Some(v) => match v.as_u64() { Some(n) => n == 1, None => false },
        None => false,
    };
    let name = match rule.get("name") {
        Some(v) => match v.as_str() { Some(n) => String::from_str(n), None => String::from_str("(unnamed)") },
        None => String::from_str("(unnamed)"),
    };
    let smin: u64 = match rule.get("smin") {
        Some(v) => match v.as_u64() { Some(n) => n, None => 0 },
        None => 0,
    };
    let on = match rule.get("sact") {
        Some(v) => match v.as_i64() { Some(a) => a == 1, None => true },
        None => true,
    };
    let mut time = String::new();
    append_chars(&mut time, &decimal_padded_chars(smin / 60, 2));
    time.append(":");
    append_chars(&mut time, &decimal_padded_chars(smin % 60, 2));
    let days = match rule.get("wday") {
        Some(v) => format_wday(v.as_array()),
        None => format_wday(None),
    };
    ScheduleRow { on, time, days, name, enabled }
}

/// The rows of the schedule list of a `get_rules` answer: none when the
/// answer has no rule list, else one row per rule, in order.
pub fn schedule_rows(resp: &Json) -> (r: Option<Vec<ScheduleRow>>)
    requires
        match rule_list(*resp) {
            Some(rules) => forall|i: int| 0 <= i < rules.len() ==> rule_labelled(#[trigger] rules[i]),
            None => true,
        },
    ensures
        match rule_list(*resp) {
            None => r is None,
            Some(rules) => r matches Some(rows) && rows@.len() == rules.len()
                && forall|i: int| 0 <= i < rules.len() ==> row_of(rules[i], #[trigger] rows@[i]),
        },
{
    let rules = match resp.get("schedule") {
        Some(s) => match s.get("get_rules") {
            Some(g) => match g.get("rule_list") {
                Some(l) => match l.as_array() {
                    Some(v) => v,
                    None => {
                        return None;
                    },
                },
                None => {
                    return None;
                },
            },
            None => {
                return None;
            },
        },
        None => {
            return None;
        },
    };
    assert(rule_list(*resp) == Some(rules@));
    assert forall|k: int| 0 <= k < rules@.len() implies rule_labelled(#[trigger] rules@[k]) by {
        match rule_list(*resp) {
            Some(rl) => {
                assert(rl == rules@);
                assert(rule_labelled(rl[k]));
            },
            None => {},
        }
    }
    let mut rows: Vec<ScheduleRow> = Vec::new();
    let mut i: usize = 0;
    while i < rules.len()
        invariant
            i <= rules@.len(),
            rule_list(*resp) == Some(rules@),
            forall|k: int| 0 <= k < rules@.len() ==> rule_labelled(#[trigger] rules@[k]),
            rows@.len() == i,
            forall|k: int| 0 <= k < i ==> row_of(rules@[k], #[trigger] rows@[k]),
        decreases rules@.len() - i,
    {
        rows.push(row_for(&rules[i]));
        i = i + 1;
    }
    Some(rows)
}

} // verus!
