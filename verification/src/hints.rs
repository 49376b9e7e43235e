//! The commands suggested under a device's status, per kind of device: the
//! registry's hints, adjusted to what the particular device can do.

use vstd::prelude::*;
use crate::bulb::Bulb;
use crate::devices::{hints, hints_spec, lookup, lookup_spec, power_command, power_hint, quoted, EntryView};
use crate::dimmer::Dimmer;
use crate::hosts::{join, join_strings};
use crate::plug::{feature_has_energy, Plug};
use crate::strip::Strip;
use crate::text::{chars_eq, chars_of, contains_chars, contains_seq};

verus! {

/// The texts of a sequence of strings.
pub open spec fn texts(v: Seq<String>) -> Seq<Seq<char>> {
    v.map_values(|h: String| h@)
}

/// The capabilities a bulb reports, as shown: "color", "color-temp" and
/// "dimmable", each when its flag is 1, joined by ", ".
pub open spec fn caps_label_spec(b: Bulb) -> Seq<char> {
    join(
        (if b.is_color == 1 { seq!["color"@] } else { Seq::empty() })
            + (if b.is_variable_color_temp == 1 { seq!["color-temp"@] } else { Seq::empty() })
            + (if b.is_dimmable == 1 { seq!["dimmable"@] } else { Seq::empty() }),
        ", "@,
    )
}

/// The capabilities a bulb reports, as shown.
pub fn caps_label(bulb: &Bulb) -> (s: String)
    ensures
        s@ == caps_label_spec(*bulb),
{
    let mut caps: Vec<String> = Vec::new();
    let ghost mut parts: Seq<Seq<char>> = Seq::empty();
    if bulb.is_color == 1 {
        caps.push(String::from_str("color"));
        proof { parts = parts + seq!["color"@]; }
    }
    assert(texts(caps@) =~= parts);
    if bulb.is_variable_color_temp == 1 {
        let ghost before = caps@;
        caps.push(String::from_str("color-temp"));
        proof { parts = parts + seq!["color-temp"@]; }
        assert(texts(caps@) =~= texts(before).push("color-temp"@));
    }
    assert(texts(caps@) =~= parts);
    if bulb.is_dimmable == 1 {
        let ghost before = caps@;
        caps.push(String::from_str("dimmable"));
        proof { parts = parts + seq!["dimmable"@]; }
        assert(texts(caps@) =~= texts(before).push("dimmable"@));
    }
    assert(texts(caps@) =~= parts);
    assert(parts =~= (if bulb.is_color == 1 { seq!["color"@] } else { Seq::empty() })
        + (if bulb.is_variable_color_temp == 1 { seq!["color-temp"@] } else { Seq::empty() })
        + (if bulb.is_dimmable == 1 { seq!["dimmable"@] } else { Seq::empty() }));
    join_strings(&caps, ", ")
}

/// The hints for a model: the registry's when the model is known, else
/// just the power command.
pub open spec fn model_hints_spec(model: Seq<char>, alias: Seq<char>, is_on: bool) -> Seq<Seq<char>> {
    match lookup_spec(model) {
        Some(e) => hints_spec(e, alias, is_on),
        None => seq![power_hint(alias, is_on)],
    }
}

/// The hints for a device of model `model` saved as `alias`.
pub fn model_hints(model: &str, alias: &str, is_on: bool) -> (r: Vec<String>)
    ensures
        texts(r@) == model_hints_spec(model@, alias@, is_on),
{
    match lookup(model) {
        Some(e) => hints(&e, alias, is_on),
        None => {
            let mut r: Vec<String> = Vec::new();
            r.push(power_command(alias, is_on));
            assert(texts(r@) =~= seq![power_hint(alias@, is_on)]);
            r
        },
    }
}

/// The hints without those that mention "energy".
pub open spec fn without_energy(hs: Seq<Seq<char>>) -> Seq<Seq<char>>
    decreases hs.len(),
{
    if hs.len() == 0 {
        Seq::empty()
    } else if contains_seq(hs.last(), "energy"@) {
        without_energy(hs.drop_last())
    } else {
        without_energy(hs.drop_last()).push(hs.last())
    }
}

fn drop_energy(hs: Vec<String>) -> (r: Vec<String>)
    ensures
        texts(r@) == without_energy(texts(hs@)),
{
    let energy = chars_of("energy");
    let mut r: Vec<String> = Vec::new();
    let ghost all = texts(hs@);
    let mut i: usize = 0;
    while i < hs.len()
        invariant
            i <= hs@.len(),
            all == texts(hs@),
            energy@ == "energy"@,
            texts(r@) == without_energy(all.take(i as int)),
        decreases hs@.len() - i,
    {
        let ghost before = r@;
        assert(all.take(i + 1).drop_last() =~= all.take(i as int));
        assert(all.take(i + 1).last() == hs@[i as int]@);
        if !contains_chars(&chars_of(hs[i].as_str()), &energy) {
            r.push(hs[i].clone());
            assert(texts(r@) =~= texts(before).push(hs@[i as int]@));
        }
        i = i + 1;
    }
    assert(all.take(hs@.len() as int) =~= all);
    r
}

/// The hints under a bulb's status.
pub fn bulb_hints(bulb: &Bulb, alias: &str) -> (r: Vec<String>)
    ensures
        texts(r@) == model_hints_spec(bulb.model@, alias@, bulb.light_state.on_off == 1),
{
    model_hints(bulb.model.as_str(), alias, bulb.light_state.is_on())
}

/// The hints under a plug's status; without energy commands when the plug
/// does not measure energy.
pub open spec fn plug_hints_spec(p: Plug, alias: Seq<char>) -> Seq<Seq<char>> {
    let h = model_hints_spec(p.model@, alias, p.relay_state == 1);
    if feature_has_energy(p.feature) { h } else { without_energy(h) }
}

/// The hints under a plug's status.
pub fn plug_hints(plug: &Plug, alias: &str) -> (r: Vec<String>)
    ensures
        texts(r@) == plug_hints_spec(*plug, alias@),
{
    let h = model_hints(plug.model.as_str(), alias, plug.is_on());
    if !plug.has_energy_monitoring() {
        drop_energy(h)
    } else {
        h
    }
}

/// The hints under a dimmer's status.
pub fn dimmer_hints(d: &Dimmer, alias: &str) -> (r: Vec<String>)
    ensures
        texts(r@) == model_hints_spec(d.model@, alias@, d.relay_state == 1),
{
    model_hints(d.model.as_str(), alias, d.is_on())
}

fn supports(e: &crate::devices::DeviceEntry, feature: &str) -> (b: bool)
    ensures
        b == e@.supports.contains(feature@),
{
    let f = chars_of(feature);
    let mut i: usize = 0;
    while i < e.supports.len()
        invariant
            i <= e.supports@.len(),
            f@ == feature@,
            forall|j: int| 0 <= j < i ==> e.supports@[j]@ != feature@,
        decreases e.supports@.len() - i,
    {
        if chars_eq(&chars_of(e.supports[i].as_str()), &f) {
            assert(e@.supports[i as int] == feature@);
            return true;
        }
        i = i + 1;
    }
    assert forall|j: int| 0 <= j < e@.supports.len() implies e@.supports[j] != feature@ by {
        assert(e@.supports[j] == e.supports@[j]@);
    }
    false
}

/// The monthly and daily energy commands of a light strip.
pub open spec fn energy_history_hints(alias: Seq<char>) -> Seq<Seq<char>> {
    seq!["denki energy-daily "@ + quoted(alias), "denki energy-monthly "@ + quoted(alias)]
}

/// The hints under a light strip's status: none for an unknown model;
/// otherwise the registry's, without the power command when the model has
/// no power control, and with the daily and monthly energy commands when it
/// measures energy.
pub open spec fn lightstrip_hints_spec(e: Option<EntryView>, alias: Seq<char>, is_on: bool) -> Seq<Seq<char>> {
    match e {
        None => Seq::empty(),
        Some(e) => {
            let h = hints_spec(e, alias, is_on);
            let h1 = if e.supports.contains("power"@) { h } else { h.drop_first() };
            if e.supports.contains("energy"@) { h1 + energy_history_hints(alias) } else { h1 }
        },
    }
}

fn quoted_command(head: &str, alias: &str, tail: &str) -> (r: String)
    ensures
        r@ == head@ + quoted(alias@) + tail@,
{
    let mut r = String::from_str(head);
    r.append("\"");
    r.append(alias);
    r.append("\"");
    r.append(tail);
    assert(r@ =~= head@ + quoted(alias@) + tail@);
    r
}

/// The hints under a light strip's status.
pub fn lightstrip_hints(bulb: &Bulb, alias: &str) -> (r: Vec<String>)
    ensures
        texts(r@) == lightstrip_hints_spec(lookup_spec(bulb.model@), alias@, bulb.light_state.on_off == 1),
{
    match lookup(bulb.model.as_str()) {
        None => Vec::new(),
        Some(e) => {
            let mut h = hints(&e, alias, bulb.light_state.is_on());
            let ghost h0 = texts(h@);
            assert(h0.len() == h@.len());
            assert(h0.len() >= 1);
            if !supports(&e, "power") {
                h.remove(0);
                assert(texts(h@) =~= h0.drop_first());
            }
            if supports(&e, "energy") {
                let ghost h1 = texts(h@);
                h.push(quoted_command("denki energy-daily ", alias, ""));
                h.push(quoted_command("denki energy-monthly ", alias, ""));
                proof {
                    reveal_strlit("");
                }
                assert(texts(h@) =~= h1 + energy_history_hints(alias@));
            }
            h
        },
    }
}

/// Some outlet of the strip is on.
pub open spec fn any_outlet_on(s: Strip) -> bool {
    exists|i: int| 0 <= i < s.children@.len() && #[trigger] s.children@[i].state == 1
}

/// The per-outlet commands of a strip, with the outlet energy command when
/// the strip measures energy.
pub open spec fn outlet_hints(alias: Seq<char>, energy: bool) -> Seq<Seq<char>> {
    let q = quoted(alias);
    seq!["denki on "@ + q + " 1"@, "denki off "@ + q + " 1"@, "denki outlet-rename "@ + q + " 1 \"Name\""@]
        + if energy { seq!["denki energy "@ + q + " 1"@] } else { Seq::empty() }
}

/// The hints under a power strip's status: the registry's (without energy
/// commands when the strip does not measure energy; none for an unknown
/// model), then the per-outlet commands.
pub open spec fn strip_hints_spec(s: Strip, alias: Seq<char>) -> Seq<Seq<char>> {
    let energy = feature_has_energy(s.feature);
    let base = match lookup_spec(s.model@) {
        Some(e) => {
            let h = hints_spec(e, alias, any_outlet_on(s));
            if energy { h } else { without_energy(h) }
        },
        None => Seq::empty(),
    };
    base + outlet_hints(alias, energy)
}

/// The hints under a power strip's status.
pub fn strip_hints(s: &Strip, alias: &str) -> (r: Vec<String>)
    ensures
        texts(r@) == strip_hints_spec(*s, alias@),
{
    let energy = s.has_energy_monitoring();
    let mut h = match lookup(s.model.as_str()) {
        Some(e) => {
            let h = hints(&e, alias, s.is_any_on());
            if !energy { drop_energy(h) } else { h }
        },
        None => Vec::new(),
    };
    let ghost base = texts(h@);
    h.push(quoted_command("denki on ", alias, " 1"));
    h.push(quoted_command("denki off ", alias, " 1"));
    h.push(quoted_command("denki outlet-rename ", alias, " 1 \"Name\""));
    if energy {
        h.push(quoted_command("denki energy ", alias, " 1"));
    }
    assert(texts(h@) =~= base + outlet_hints(alias@, energy));
    h
}

/// A device that does not measure energy is offered no energy command:
/// no hint left by `without_energy` mentions "energy", and every hint that
/// does not mention it is kept, in order.
pub proof fn law_without_energy(hs: Seq<Seq<char>>)
    ensures
        forall|i: int| 0 <= i < without_energy(hs).len() ==> !contains_seq(#[trigger] without_energy(hs)[i], "energy"@),
        forall|i: int| 0 <= i < hs.len() && !contains_seq(#[trigger] hs[i], "energy"@) ==> without_energy(hs).contains(hs[i]),
    decreases hs.len(),
{
    if hs.len() > 0 {
        let d = hs.drop_last();
        law_without_energy(d);
        let w = without_energy(hs);
        let wd = without_energy(d);
        assert forall|i: int| 0 <= i < hs.len() && !contains_seq(#[trigger] hs[i], "energy"@) implies w.contains(hs[i]) by {
            if i < hs.len() - 1 {
                assert(hs[i] == d[i]);
                assert(wd.contains(d[i]));
                let j = choose|j: int| 0 <= j < wd.len() && wd[j] == d[i];
                assert(w[j] == wd[j]);
            } else {
                assert(hs[i] == hs.last());
                assert(w[w.len() - 1] == hs.last());
            }
        }
    }
}

} // verus!
