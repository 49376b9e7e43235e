//! Group power actions: one action applied to every alias that a pattern
//! matches, each device on its own, with a report of what succeeded.

use vstd::prelude::*;
use crate::hosts::{join, join_strings, protocol_name, HostEntry, Protocol};
use crate::resolve::Resolved;
use crate::text::{append_chars, decimal, decimal_chars};

verus! {

/// What a group command does to each device.
#[derive(Debug, Clone, Copy, PartialEq, Eq, Structural)]
pub enum GroupAction {
    /// Turn every matched alias on.
    On,
    /// Turn every matched alias off.
    Off,
    /// Toggle every matched alias.
    Toggle,
}

/// The verb of an action.
pub open spec fn verb(a: GroupAction) -> Seq<char> {
    match a {
        GroupAction::On => "on"@,
        GroupAction::Off => "off"@,
        GroupAction::Toggle => "toggle"@,
    }
}

impl GroupAction {
    /// The verb of this action ("on", "off", "toggle").
    pub fn as_verb(&self) -> (s: &'static str)
        ensures
            s@ == verb(*self),
    {
        match self {
            GroupAction::On => "on",
            GroupAction::Off => "off",
            GroupAction::Toggle => "toggle",
        }
    }
}

/// The answer when a pattern matches no alias.
pub open spec fn no_match_message(pattern: Seq<char>) -> Seq<char> {
    "No aliases matched pattern \""@ + pattern + "\".\nCheck current aliases with: denki aliases"@
}

/// The answer when a pattern matches no alias.
pub fn no_match(pattern: &str) -> (m: String)
    ensures
        m@ == no_match_message(pattern@),
{
    let mut m = String::from_str("No aliases matched pattern \"");
    m.append(pattern);
    m.append("\".\nCheck current aliases with: denki aliases");
    m
}

/// The first line of a group run: a dry run says what it would do, a real
/// run what it does and how many devices it reaches at once.
pub open spec fn group_heading(a: GroupAction, count: nat, pattern: Seq<char>, dry_run: bool, concurrency: nat) -> Seq<char> {
    if dry_run {
        "Would turn "@ + verb(a) + " "@ + decimal(count) + " alias(es) matching \""@ + pattern + "\":"@
    } else {
        "Turning "@ + verb(a) + " "@ + decimal(count) + " alias(es) matching \""@ + pattern
            + "\" (up to "@ + decimal(concurrency) + " at once):"@
    }
}

/// The first line of a group run.
pub fn heading(a: GroupAction, count: usize, pattern: &str, dry_run: bool, concurrency: usize) -> (m: String)
    ensures
        m@ == group_heading(a, count as nat, pattern@, dry_run, concurrency as nat),
{
    let mut m = if dry_run { String::from_str("Would turn ") } else { String::from_str("Turning ") };
    m.append(a.as_verb());
    m.append(" ");
    append_chars(&mut m, &decimal_chars(count as u64));
    m.append(" alias(es) matching \"");
    m.append(pattern);
    if dry_run {
        m.append("\":");
    } else {
        m.append("\" (up to ");
        append_chars(&mut m, &decimal_chars(concurrency as u64));
        m.append(" at once):");
    }
    m
}

/// The targets of a group run: each matched alias as a device found under
/// its own name.
pub fn group_targets(matches: Vec<(String, HostEntry)>) -> (r: Vec<Resolved>)
    ensures
        r@.len() == matches@.len(),
        forall|i: int| 0 <= i < r@.len() ==> (#[trigger] r@[i]).ip@ == matches@[i].1.ip@
            && r@[i].protocol == matches@[i].1.protocol
            && (r@[i].saved_name matches Some(n) && n@ == matches@[i].0@),
{
    let ghost orig = matches@;
    let mut rest = matches;
    let mut r: Vec<Resolved> = Vec::new();
    while rest.len() > 0
        invariant
            r@.len() + rest@.len() == orig.len(),
            rest@ == orig.subrange(r@.len() as int, orig.len() as int),
            forall|i: int| 0 <= i < r@.len() ==> (#[trigger] r@[i]).ip@ == orig[i].1.ip@
                && r@[i].protocol == orig[i].1.protocol
                && (r@[i].saved_name matches Some(n) && n@ == orig[i].0@),
        decreases rest@.len(),
    {
        let ghost k = r@.len();
        let (alias, entry) = rest.remove(0);
        assert(alias == orig[k as int].0 && entry == orig[k as int].1);
        r.push(Resolved { ip: entry.ip, protocol: entry.protocol, saved_name: Some(alias) });
        assert(rest@ =~= orig.subrange(r@.len() as int, orig.len() as int));
    }
    r
}

/// A dry-run line for one matched alias: name, IP and protocol.
pub open spec fn dry_run_line(alias: Seq<char>, ip: Seq<char>, p: Protocol) -> Seq<char> {
    "  "@ + alias + " ["@ + ip + "; "@ + protocol_name(p) + "]"@
}

/// A dry-run line for one matched alias.
pub fn dry_run_entry(alias: &str, entry: &HostEntry) -> (m: String)
    ensures
        m@ == dry_run_line(alias@, entry.ip@, entry.protocol),
{
    let mut m = String::from_str("  ");
    m.append(alias);
    m.append(" [");
    m.append(entry.ip.as_str());
    m.append("; ");
    let p = entry.protocol.name();
    m.append(p.as_str());
    m.append("]");
    m
}

/// The outcome of one device in a group run: its alias, and the power
/// state it was left in or why it failed.
pub struct GroupResult {
    pub alias: String,
    pub result: Result<bool, String>,
}

/// The summary of a group run: how many succeeded, the aliases that
/// failed (in result order), and the error that ends the run when any did.
pub struct GroupSummary {
    pub succeeded: usize,
    pub failures: Vec<String>,
    pub error: Option<String>,
}

/// The aliases among `rs` whose action failed, in order.
pub open spec fn failed_aliases(rs: Seq<GroupResult>) -> Seq<Seq<char>>
    decreases rs.len(),
{
    if rs.len() == 0 {
        Seq::empty()
    } else {
        let before = failed_aliases(rs.drop_last());
        if rs.last().result is Err { before.push(rs.last().alias@) } else { before }
    }
}

/// The error that ends a group run in which `failed` aliases failed.
pub open spec fn group_failure_message(failed: Seq<Seq<char>>) -> Seq<char> {
    "Group action failed for "@ + decimal(failed.len()) + " alias(es): "@ + join(failed, ", "@)
}

/// Sums up the outcomes of a group run (see `GroupSummary`).
pub fn summarize(results: &Vec<GroupResult>) -> (s: GroupSummary)
    ensures
        s.failures@.map_values(|a: String| a@) == failed_aliases(results@),
        s.succeeded == results@.len() - failed_aliases(results@).len(),
        failed_aliases(results@).len() == 0 ==> s.error is None,
        failed_aliases(results@).len() > 0 ==> (s.error matches Some(m)
            && m@ == group_failure_message(failed_aliases(results@))),
{
    let mut failures: Vec<String> = Vec::new();
    let mut i: usize = 0;
    while i < results.len()
        invariant
            i <= results@.len(),
            failures@.map_values(|a: String| a@) == failed_aliases(results@.take(i as int)),
            failures@.len() <= i,
        decreases results@.len() - i,
    {
        assert(results@.take(i + 1).drop_last() =~= results@.take(i as int));
        assert(results@.take(i + 1).last() == results@[i as int]);
        if results[i].result.is_err() {
            let ghost before = failures@;
            failures.push(results[i].alias.clone());
            assert(failures@.map_values(|a: String| a@) =~= before.map_values(|a: String| a@).push(results@[i as int].alias@));
        }
        i = i + 1;
    }
    assert(results@.take(results@.len() as int) =~= results@);
    let succeeded = results.len() - failures.len();
    let error = if failures.len() == 0 {
        None
    } else {
        let mut m = String::from_str("Group action failed for ");
        append_chars(&mut m, &decimal_chars(failures.len() as u64));
        m.append(" alias(es): ");
        let j = join_strings(&failures, ", ");
        m.append(j.as_str());
        Some(m)
    };
    GroupSummary { succeeded, failures, error }
}

/// The closing line of a group run.
pub open spec fn completed_line(succeeded: nat, failed: nat) -> Seq<char> {
    "Completed: "@ + decimal(succeeded) + " succeeded, "@ + decimal(failed) + " failed."@
}

/// The closing line of a group run.
pub fn completed(succeeded: usize, failed: usize) -> (m: String)
    ensures
        m@ == completed_line(succeeded as nat, failed as nat),
{
    let mut m = String::from_str("Completed: ");
    append_chars(&mut m, &decimal_chars(succeeded as u64));
    m.append(" succeeded, ");
    append_chars(&mut m, &decimal_chars(failed as u64));
    m.append(" failed.");
    m
}

} // verus!
