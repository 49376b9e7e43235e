//! Turning what the user typed (an IP address or a saved alias) into a
//! device to talk to, and the protocol and outlet checks made before a
//! command runs.

use vstd::prelude::*;
use crate::hosts::{join, lookup, lookup_spec, HostMap, Protocol};
use crate::strip::{Strip, StripChild};
use crate::text::{append_chars, decimal, decimal_chars};

verus! {

/// A device to talk to: its address, protocol, and the alias it was found
/// under (none for a raw IP address).
#[derive(Debug)]
pub struct Resolved {
    pub ip: String,
    pub protocol: Protocol,
    pub saved_name: Option<String>,
}

/// The answer to a name that is neither an IP address nor a saved alias.
pub open spec fn not_found_message(input: Seq<char>) -> Seq<char> {
    "No device named \""@ + input + "\" was found in saved aliases.\n\nIf you just ran `denki scan`, use the device IP directly:\n  denki <command> 192.168.x.x\n\nTo save a friendly name for next time:\n  denki alias \"<name>\" <ip>\n\nTo review saved names:\n  denki aliases"@
}

/// The answer to a name that is neither an IP address nor a saved alias.
pub fn not_found(input: &str) -> (m: String)
    ensures
        m@ == not_found_message(input@),
{
    let mut m = String::from_str("No device named \"");
    m.append(input);
    m.append("\" was found in saved aliases.\n\nIf you just ran `denki scan`, use the device IP directly:\n  denki <command> 192.168.x.x\n\nTo save a friendly name for next time:\n  denki alias \"<name>\" <ip>\n\nTo review saved names:\n  denki aliases");
    m
}

/// `r` is a device at `ip` reached over `p`, found under the alias `name`.
pub open spec fn resolved_as(r: Result<Resolved, String>, ip: Seq<char>, p: Protocol, name: Option<Seq<char>>) -> bool {
    match r {
        Ok(res) => res.ip@ == ip && res.protocol == p && match (res.saved_name, name) {
            (Some(a), Some(b)) => a@ == b,
            (None, None) => true,
            _ => false,
        },
        Err(_) => false,
    }
}

/// `r` is a refusal with message `m`.
pub open spec fn refused_with<T>(r: Result<T, String>, m: Seq<char>) -> bool {
    match r {
        Ok(_) => false,
        Err(x) => x@ == m,
    }
}

/// Resolves `input` against the saved aliases `map`. `is_ip` tells whether
/// `input` reads as an IP address: such input is used as it is, with the
/// Kasa protocol. Otherwise the alias lookup decides: a match gives its
/// entry under the name typed, no match the not-found answer, and an
/// ambiguous name the lookup's error.
pub fn resolve_in(input: &str, is_ip: bool, map: &HostMap) -> (r: Result<Resolved, String>)
    ensures
        is_ip ==> resolved_as(r, input@, Protocol::Kasa, None),
        !is_ip ==> match lookup_spec(map@, input@) {
            Ok(Some(v)) => resolved_as(r, v.0, v.1, Some(input@)),
            Ok(None) => refused_with(r, not_found_message(input@)),
            Err(names) => refused_with(r, "\""@ + input@ + "\" is ambiguous; matches: "@ + join(names, ", "@)),
        },
{
    if is_ip {
        return Ok(Resolved { ip: String::from_str(input), protocol: Protocol::Kasa, saved_name: None });
    }
    match lookup(input, map) {
        Ok(Some(entry)) => Ok(Resolved { ip: entry.ip, protocol: entry.protocol, saved_name: Some(String::from_str(input)) }),
        Ok(None) => Err(not_found(input)),
        Err(e) => Err(e.message()),
    }
}

/// The refusal of an outlet number that the strip does not have.
pub open spec fn no_outlet_message(outlet: u8, count: nat) -> Seq<char> {
    "outlet "@ + decimal(outlet as nat) + " does not exist (strip has "@ + decimal(count) + " outlets)"@
}

/// The outlet with 1-based number `outlet`.
pub fn resolve_outlet(s: &Strip, outlet: u8) -> (r: Result<&StripChild, String>)
    requires
        outlet >= 1,
    ensures
        match r {
            Ok(c) => outlet <= s.children@.len() && *c == s.children@[outlet - 1],
            Err(m) => outlet > s.children@.len() && m@ == no_outlet_message(outlet, s.children@.len()),
        },
{
    let idx: usize = (outlet - 1) as usize;
    if idx < s.children.len() {
        Ok(&s.children[idx])
    } else {
        let mut m = String::from_str("outlet ");
        append_chars(&mut m, &decimal_chars(outlet as u64));
        m.append(" does not exist (strip has ");
        append_chars(&mut m, &decimal_chars(s.children.len() as u64));
        m.append(" outlets)");
        Err(m)
    }
}

/// The refusal of a Kasa-only command `cmd` on a KLAP device.
pub open spec fn kasa_only_message(cmd: Seq<char>) -> Seq<char> {
    "`"@ + cmd + "` requires Kasa protocol \u{2014} save the alias without --klap"@
}

/// Commands other than power need the Kasa protocol: KLAP (Tapo) devices
/// do not speak the Kasa XOR protocol.
pub fn require_kasa(r: &Resolved, cmd: &str) -> (res: Result<(), String>)
    ensures
        match res {
            Ok(()) => r.protocol == Protocol::Kasa,
            Err(m) => r.protocol != Protocol::Kasa && m@ == kasa_only_message(cmd@),
        },
{
    if r.protocol != Protocol::Kasa {
        let mut m = String::from_str("`");
        m.append(cmd);
        m.append("` requires Kasa protocol \u{2014} save the alias without --klap");
        return Err(m);
    }
    Ok(())
}

/// The refusal of an outlet command on a device that is not a power strip.
pub open spec fn not_a_strip_message(ip: Seq<char>) -> Seq<char> {
    ip + " does not appear to be a power strip"@
}

/// The refusal of an outlet energy command on a strip without energy
/// monitoring.
pub open spec fn strip_without_energy_message(alias: Seq<char>, model: Seq<char>) -> Seq<char> {
    alias + " ("@ + model + ") does not have energy monitoring"@
}

fn not_a_strip(ip: &str) -> (m: String)
    ensures
        m@ == not_a_strip_message(ip@),
{
    let mut m = String::from_str(ip);
    m.append(" does not appear to be a power strip");
    m
}

/// The id, alias and state of outlet `outlet` (1-based) of the device at
/// `ip`, whose answer read into `strip` as a power strip.
pub fn strip_outlet(ip: &str, strip: &Option<Strip>, outlet: u8) -> (r: Result<(String, String, bool), String>)
    requires
        outlet >= 1,
    ensures
        match strip {
            None => r matches Err(m) && m@ == not_a_strip_message(ip@),
            Some(s) => if outlet <= s.children@.len() {
                r matches Ok(t) && t.0@ == s.children@[outlet - 1].id@
                    && t.1@ == s.children@[outlet - 1].alias@ && t.2 == (s.children@[outlet - 1].state == 1)
            } else {
                r matches Err(m) && m@ == no_outlet_message(outlet, s.children@.len())
            },
        },
{
    match strip {
        None => Err(not_a_strip(ip)),
        Some(s) => match resolve_outlet(s, outlet) {
            Ok(c) => Ok((c.id.clone(), c.alias.clone(), c.is_on())),
            Err(m) => Err(m),
        },
    }
}

/// The id and alias of outlet `outlet` (1-based) of the device at `ip`,
/// for an energy request: the strip must measure energy.
pub fn strip_energy_outlet(ip: &str, strip: &Option<Strip>, outlet: u8) -> (r: Result<(String, String), String>)
    requires
        outlet >= 1,
    ensures
        match strip {
            None => r matches Err(m) && m@ == not_a_strip_message(ip@),
            Some(s) => if !crate::plug::feature_has_energy(s.feature) {
                r matches Err(m) && m@ == strip_without_energy_message(s.alias@, s.model@)
            } else if outlet <= s.children@.len() {
                r matches Ok(t) && t.0@ == s.children@[outlet - 1].id@ && t.1@ == s.children@[outlet - 1].alias@
            } else {
                r matches Err(m) && m@ == no_outlet_message(outlet, s.children@.len())
            },
        },
{
    match strip {
        None => Err(not_a_strip(ip)),
        Some(s) => {
            if !s.has_energy_monitoring() {
                let mut m = String::from_str(s.alias.as_str());
                m.append(" (");
                m.append(s.model.as_str());
                m.append(") does not have energy monitoring");
                return Err(m);
            }
            match resolve_outlet(s, outlet) {
                Ok(c) => Ok((c.id.clone(), c.alias.clone())),
                Err(m) => Err(m),
            }
        },
    }
}

} // verus!
