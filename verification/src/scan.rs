//! Network scan decisions: where the discovery probe goes, which replies
//! count, which new devices get an alias, and which saved Tapo devices are
//! asked directly.

use vstd::prelude::*;
use crate::classify::{field, sysinfo_of};
use crate::hosts::{
    alias_for_ip, list, lookup_by_ip_in, map_insert, save_if_new_in, AliasView, HostEntry, HostMap,
    Protocol, alias_view,
};
use crate::json::{str_of, Json};
use crate::text::{append_chars, decimal, decimal_chars, chars_eq, chars_of};

verus! {

/// The port of the legacy Kasa protocol.
pub const PORT: u16 = 9999;

/// The dotted form of an IPv4 address, with the Kasa port.
pub open spec fn target_text(a: Seq<u8>) -> Seq<char> {
    decimal(a[0] as nat) + "."@ + decimal(a[1] as nat) + "."@ + decimal(a[2] as nat) + "."@
        + decimal(a[3] as nat) + ":9999"@
}

/// The limited broadcast, always probed.
pub fn limited_broadcast_target() -> (s: String)
    ensures
        s@ == "255.255.255.255:9999"@,
{
    String::from_str("255.255.255.255:9999")
}

/// The broadcast address is the limited broadcast 255.255.255.255.
pub open spec fn is_limited(a: Seq<u8>) -> bool {
    a[0] == 255 && a[1] == 255 && a[2] == 255 && a[3] == 255
}

/// The directed broadcasts to probe besides the limited one: each local
/// IPv4 subnet's broadcast address, except the limited one itself.
pub open spec fn directed_targets(bcasts: Seq<[u8; 4]>) -> Seq<Seq<char>>
    decreases bcasts.len(),
{
    if bcasts.len() == 0 {
        Seq::empty()
    } else {
        let before = directed_targets(bcasts.drop_last());
        if is_limited(bcasts.last()@) { before } else { before.push(target_text(bcasts.last()@)) }
    }
}

/// The directed broadcasts to probe (see `directed_targets`).
pub fn broadcast_targets(bcasts: &Vec<[u8; 4]>) -> (r: Vec<String>)
    ensures
        r@.map_values(|s: String| s@) == directed_targets(bcasts@),
{
    let mut r: Vec<String> = Vec::new();
    let mut i: usize = 0;
    while i < bcasts.len()
        invariant
            i <= bcasts@.len(),
            r@.map_values(|s: String| s@) == directed_targets(bcasts@.take(i as int)),
        decreases bcasts@.len() - i,
    {
        assert(bcasts@.take(i + 1).drop_last() =~= bcasts@.take(i as int));
        assert(bcasts@.take(i + 1).last() == bcasts@[i as int]);
        let a = bcasts[i];
        if !(a[0] == 255 && a[1] == 255 && a[2] == 255 && a[3] == 255) {
            let ghost before = r@;
            let mut t = String::new();
            append_chars(&mut t, &decimal_chars(a[0] as u64));
            t.append(".");
            append_chars(&mut t, &decimal_chars(a[1] as u64));
            t.append(".");
            append_chars(&mut t, &decimal_chars(a[2] as u64));
            t.append(".");
            append_chars(&mut t, &decimal_chars(a[3] as u64));
            t.append(":9999");
            r.push(t);
            assert(r@.map_values(|s: String| s@) =~= before.map_values(|s: String| s@).push(target_text(a@)));
        }
        i = i + 1;
    }
    assert(bcasts@.take(bcasts@.len() as int) =~= bcasts@);
    r
}

/// Counts a reply from `ip` unless that address already replied (a device
/// may answer both the limited and a directed broadcast).
pub fn first_reply(seen: &mut Vec<String>, ip: &str) -> (fresh: bool)
    ensures
        fresh == !old(seen)@.map_values(|s: String| s@).contains(ip@),
        fresh ==> final(seen)@.map_values(|s: String| s@) == old(seen)@.map_values(|s: String| s@).push(ip@),
        !fresh ==> final(seen)@ == old(seen)@,
{
    let ipc = chars_of(ip);
    let mut i: usize = 0;
    while i < seen.len()
        invariant
            i <= seen@.len(),
            seen@ == old(seen)@,
            ipc@ == ip@,
            forall|j: int| 0 <= j < i ==> seen@[j]@ != ip@,
        decreases seen@.len() - i,
    {
        if chars_eq(&chars_of(seen[i].as_str()), &ipc) {
            assert(old(seen)@.map_values(|s: String| s@)[i as int] == ip@);
            return false;
        }
        i = i + 1;
    }
    let ghost names = old(seen)@.map_values(|s: String| s@);
    assert(!names.contains(ip@)) by {
        assert forall|k: int| 0 <= k < names.len() implies #[trigger] names[k] != ip@ by {
            assert(names[k] == seen@[k]@);
        }
    }
    let ghost before = seen@;
    seen.push(String::from_str(ip));
    assert(seen@.map_values(|s: String| s@) =~= before.map_values(|s: String| s@).push(ip@));
    true
}

/// The alias that a reply reports for its device, if it has one.
pub open spec fn reported_alias(reply: Json) -> Option<Seq<char>> {
    str_of(field(sysinfo_of(reply), "alias"@))
}

/// What a reply from `ip` leaves behind: whether its alias was saved as a
/// new one, and the name to show it under (its saved alias, else `ip`).
pub struct Sighting {
    pub is_new: bool,
    pub hint: String,
}

/// Records the reply `reply` from `ip`: the device's reported alias is
/// saved when it is non-empty and nothing is saved for `ip` yet.
pub fn record_reply(map: &mut HostMap, ip: &str, reply: &Json) -> (s: Sighting)
    ensures
        s.is_new == (match reported_alias(*reply) {
            Some(name) => name.len() > 0 && alias_for_ip(old(map)@, ip@) is None,
            None => false,
        }),
        s.is_new ==> final(map)@ == map_insert(old(map)@, reported_alias(*reply)->Some_0, (ip@, Protocol::Kasa)),
        !s.is_new ==> final(map)@ == old(map)@,
        s.hint@ == match alias_for_ip(final(map)@, ip@) {
            Some(a) => a,
            None => ip@,
        },
{
    let name = match reply.get("system") {
        Some(sys) => match sys.get("get_sysinfo") {
            Some(si) => match si.get("alias") {
                Some(a) => a.as_str(),
                None => None,
            },
            None => None,
        },
        None => None,
    };
    let is_new = match name {
        Some(n) => save_if_new_in(n, ip, map),
        None => false,
    };
    let hint = match lookup_by_ip_in(ip, map) {
        Some(a) => a,
        None => String::from_str(ip),
    };
    Sighting { is_new, hint }
}

/// The saved aliases of KLAP devices among `m`, in order.
pub open spec fn klap_only(m: Seq<AliasView>) -> Seq<AliasView>
    decreases m.len(),
{
    if m.len() == 0 {
        Seq::empty()
    } else {
        let before = klap_only(m.drop_last());
        if m.last().1.1 == Protocol::Klap { before.push(m.last()) } else { before }
    }
}

/// The saved Tapo (KLAP) devices, asked directly since they do not answer
/// the broadcast.
pub fn klap_targets(map: &HostMap) -> (r: Vec<(String, HostEntry)>)
    ensures
        r@.map_values(|e: (String, HostEntry)| alias_view(e)) == klap_only(map@),
{
    let all = list(map);
    let ghost views = all@.map_values(|e: (String, HostEntry)| alias_view(e));
    let mut r: Vec<(String, HostEntry)> = Vec::new();
    let mut rest = all;
    let ghost orig = rest@;
    let n = rest.len();
    let mut i: usize = 0;
    while rest.len() > 0
        invariant
            n == orig.len(),
            i + rest@.len() == orig.len(),
            rest@ == orig.subrange(i as int, orig.len() as int),
            views == orig.map_values(|e: (String, HostEntry)| alias_view(e)),
            r@.map_values(|e: (String, HostEntry)| alias_view(e)) == klap_only(views.take(i as int)),
        decreases rest@.len(),
    {
        let e = rest.remove(0);
        assert(e == orig[i as int]);
        assert(views.take(i + 1).drop_last() =~= views.take(i as int));
        assert(views.take(i + 1).last() == alias_view(e));
        if e.1.protocol == Protocol::Klap {
            let ghost before = r@;
            r.push(e);
            assert(r@.map_values(|e: (String, HostEntry)| alias_view(e))
                =~= before.map_values(|e: (String, HostEntry)| alias_view(e)).push(alias_view(e)));
        }
        i = i + 1;
        assert(rest@ =~= orig.subrange(i as int, orig.len() as int));
    }
    assert(views.take(orig.len() as int) =~= views);
    r
}

/// The closing line of a scan that found `count` devices.
pub open spec fn scan_footer_text(count: nat) -> Seq<char> {
    if count == 0 { "No devices found."@ } else { "Found "@ + decimal(count) + " device(s)"@ }
}

/// The closing line of a scan.
pub fn scan_footer(count: usize) -> (m: String)
    ensures
        m@ == scan_footer_text(count as nat),
{
    if count == 0 {
        String::from_str("No devices found.")
    } else {
        let mut m = String::from_str("Found ");
        append_chars(&mut m, &decimal_chars(count as u64));
        m.append(" device(s)");
        m
    }
}

} // verus!
