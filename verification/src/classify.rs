//! Classification of a Kasa device from its system information, and the
//! decisions that read that information: whether energy monitoring is
//! available, and which power state a toggle asks for.
//!
//! Newer devices report their type as `mic_type`, older ones (HS110, HS105)
//! as `type`. Among plug-type devices the order matters: a dimmer is a
//! dimmer before anything else, a device with outlets is a strip, and the
//! rest are plugs.

use vstd::prelude::*;
use crate::devices::{kind_name, DeviceKind};
use crate::json::{member, str_of, u64_of, Json};
use crate::plug::{feature_has_energy, Plug};
use crate::strip::Strip;
use crate::text::{chars_of, contains_chars, contains_seq};

verus! {

/// The system information object of a response.
pub open spec fn sysinfo_of(j: Json) -> Option<Json> {
    match member(j, "system"@) {
        Some(s) => member(s, "get_sysinfo"@),
        None => None,
    }
}

/// The member `key` of an optional object.
pub open spec fn field(si: Option<Json>, key: Seq<char>) -> Option<Json> {
    match si {
        Some(s) => member(s, key),
        None => None,
    }
}

/// The reported type: `mic_type` when present, else `type`; empty when the
/// chosen member is missing or not a string.
pub open spec fn type_text(si: Option<Json>) -> Seq<char> {
    let t = match field(si, "mic_type"@) {
        Some(v) => Some(v),
        None => field(si, "type"@),
    };
    match str_of(t) {
        Some(s) => s,
        None => ""@,
    }
}

/// A string member, or empty.
pub open spec fn text_field(si: Option<Json>, key: Seq<char>) -> Seq<char> {
    match str_of(field(si, key)) {
        Some(s) => s,
        None => ""@,
    }
}

/// The type names a plug or a switch.
pub open spec fn is_plug_type(t: Seq<char>) -> bool {
    contains_seq(t, "PLUG"@) || contains_seq(t, "SWITCH"@)
}

/// The kind that the system information `si` describes.
pub open spec fn classified(si: Option<Json>, k: DeviceKind) -> bool {
    let t = type_text(si);
    if contains_seq(t, "SMARTBULB"@) {
        if field(si, "length"@) is Some { k is LightStrip } else { k is Bulb }
    } else if is_plug_type(t) {
        if contains_seq(text_field(si, "dev_name"@), "Dimmer"@) {
            k is Dimmer
        } else if field(si, "children"@) is Some {
            k is Strip
        } else {
            k is Plug
        }
    } else {
        k matches DeviceKind::Unknown(s) && s@ == t
    }
}

fn text_or_empty(v: Option<&Json>) -> (r: Vec<char>)
    ensures
        r@ == (match str_of(match v { Some(x) => Some(*x), None => None }) {
            Some(s) => s,
            None => ""@,
        }),
{
    proof {
        reveal_strlit("");
    }
    match v {
        Some(x) => match x.as_str() {
            Some(s) => chars_of(s),
            None => Vec::new(),
        },
        None => Vec::new(),
    }
}

fn sysinfo(json: &Json) -> (r: Option<&Json>)
    ensures
        match r {
            Some(v) => sysinfo_of(*json) == Some(*v),
            None => sysinfo_of(*json) is None,
        },
{
    match json.get("system") {
        Some(s) => s.get("get_sysinfo"),
        None => None,
    }
}

fn get_field<'a>(si: Option<&'a Json>, key: &str) -> (r: Option<&'a Json>)
    ensures
        match r {
            Some(v) => field(match si { Some(x) => Some(*x), None => None }, key@) == Some(*v),
            None => field(match si { Some(x) => Some(*x), None => None }, key@) is None,
        },
{
    match si {
        Some(s) => s.get(key),
        None => None,
    }
}

fn type_chars(si: Option<&Json>) -> (r: Vec<char>)
    ensures
        r@ == type_text(match si { Some(x) => Some(*x), None => None }),
{
    match get_field(si, "mic_type") {
        Some(v) => text_or_empty(Some(v)),
        None => text_or_empty(get_field(si, "type")),
    }
}

fn plug_type(t: &Vec<char>) -> (b: bool)
    ensures
        b == is_plug_type(t@),
{
    contains_chars(t, &chars_of("PLUG")) || contains_chars(t, &chars_of("SWITCH"))
}

/// The kind of device that the response `json` describes.
pub fn detect_kind(json: &Json) -> (k: DeviceKind)
    ensures
        classified(sysinfo_of(*json), k),
{
    let si = sysinfo(json);
    let t = type_chars(si);
    let dev_name = text_or_empty(get_field(si, "dev_name"));
    let has_children = get_field(si, "children").is_some();
    let has_length = get_field(si, "length").is_some();
    if contains_chars(&t, &chars_of("SMARTBULB")) {
        if has_length { DeviceKind::LightStrip } else { DeviceKind::Bulb }
    } else if plug_type(&t) {
        if contains_chars(&dev_name, &chars_of("Dimmer")) {
            DeviceKind::Dimmer
        } else if has_children {
            DeviceKind::Strip
        } else {
            DeviceKind::Plug
        }
    } else {
        let mut s = String::new();
        crate::text::append_chars(&mut s, &t);
        DeviceKind::Unknown(s)
    }
}

/// The system information `sysinfo` is that of a plug or a switch.
pub fn is_plug_switch(sysinfo: &Json) -> (b: bool)
    ensures
        b == is_plug_type(type_text(Some(*sysinfo))),
{
    plug_type(&type_chars(Some(sysinfo)))
}

/// The system information `sysinfo` is that of a dimmer: its device name
/// mentions "Dimmer".
pub fn is_dimmer_sysinfo(sysinfo: &Json) -> (b: bool)
    ensures
        b == contains_seq(text_field(Some(*sysinfo), "dev_name"@), "Dimmer"@),
{
    let name = text_or_empty(get_field(Some(sysinfo), "dev_name"));
    contains_chars(&name, &chars_of("Dimmer"))
}

/// How the debug form of an optional string reads (`Some("TIM")`, `None`).
pub uninterp spec fn debug_form(v: Option<Seq<char>>) -> Seq<char>;

/// The debug form of an optional string: "None" for `None`; the quoted and
/// escaped text of a `Some` is left as `debug_form`.
pub open spec fn debug_text_of(v: Option<Seq<char>>) -> Seq<char> {
    match v {
        None => "None"@,
        Some(_) => debug_form(v),
    }
}

/// The view of an optional string.
pub open spec fn opt_text(v: Option<String>) -> Option<Seq<char>> {
    match v {
        Some(s) => Some(s@),
        None => None,
    }
}

/// The standard `Debug` formatting of an `Option<String>`: "None" for
/// `None`; for `Some` the text (with its quoting and escaping) is named and
/// not spelled out.
#[verifier::external_body]
fn debug_text(v: &Option<String>) -> (r: String)
    ensures
        r@ == debug_form(opt_text(*v)),
        v is None ==> r@ == "None"@,
{
    format!("{:?}", v)
}

/// The refusal for a device whose feature string lacks energy monitoring.
pub open spec fn no_energy_message(alias: Seq<char>, model: Seq<char>, feature: Seq<char>) -> Seq<char> {
    alias + " ("@ + model + ") does not have energy monitoring (feature: "@ + feature + ")"@
}

/// The refusal for a device named `alias` of model `model` whose feature
/// string reads `feature` in its debug form.
pub fn no_energy_text(alias: &str, model: &str, feature: &str) -> (m: String)
    ensures
        m@ == no_energy_message(alias@, model@, feature@),
{
    let mut m = String::from_str(alias);
    m.append(" (");
    m.append(model);
    m.append(") does not have energy monitoring (feature: ");
    m.append(feature);
    m.append(")");
    m
}

/// What an energy request on a device of kind `k` is answered, given what
/// its system information parsed to as a plug and as a strip: `None` when
/// energy data can be asked for.
pub open spec fn energy_refusal(k: DeviceKind, plug: Option<Plug>, strip: Option<Strip>) -> Option<Seq<char>> {
    match k {
        DeviceKind::Bulb | DeviceKind::LightStrip => None,
        DeviceKind::Plug => match plug {
            None => Some("could not parse plug sysinfo"@),
            Some(p) => if feature_has_energy(p.feature) {
                None
            } else {
                Some(no_energy_message(p.alias@, p.model@, debug_text_of(opt_text(p.feature))))
            },
        },
        DeviceKind::Strip => match strip {
            None => Some("could not parse strip sysinfo"@),
            Some(s) => if feature_has_energy(s.feature) {
                None
            } else {
                Some(no_energy_message(s.alias@, s.model@, debug_text_of(opt_text(s.feature))))
            },
        },
        _ => Some(kind_name(k) + " does not support energy monitoring"@),
    }
}

/// Energy data can be asked of every bulb and light strip, and of a plug or
/// a power strip exactly when its feature string lists "ENE"; never of a
/// device of another kind, nor of a plug or strip whose information did
/// not parse.
pub proof fn law_energy_follows_feature(k: DeviceKind, plug: Option<Plug>, strip: Option<Strip>)
    ensures
        (k == DeviceKind::Bulb || k == DeviceKind::LightStrip) ==> energy_refusal(k, plug, strip) is None,
        k == DeviceKind::Plug && plug is Some ==> (energy_refusal(k, plug, strip) is None
            <==> (plug->Some_0.feature matches Some(f) && contains_seq(f@, "ENE"@))),
        k == DeviceKind::Strip && strip is Some ==> (energy_refusal(k, plug, strip) is None
            <==> (strip->Some_0.feature matches Some(f) && contains_seq(f@, "ENE"@))),
        (k == DeviceKind::Plug && plug is None) || (k == DeviceKind::Strip && strip is None)
            ==> energy_refusal(k, plug, strip) is Some,
        !(k == DeviceKind::Bulb || k == DeviceKind::LightStrip || k == DeviceKind::Plug || k == DeviceKind::Strip)
            ==> energy_refusal(k, plug, strip) is Some,
{
}

/// Energy monitoring is a property of the device, not of its kind: a KP115
/// has it and an HS105 does not, though both are plugs. `plug` and `strip`
/// are what the system information parsed to as a plug and as a strip.
pub fn require_energy(kind: &DeviceKind, plug: &Option<Plug>, strip: &Option<Strip>) -> (r: Result<(), String>)
    ensures
        match r {
            Ok(()) => energy_refusal(*kind, *plug, *strip) is None,
            Err(m) => energy_refusal(*kind, *plug, *strip) == Some(m@),
        },
        (*kind == DeviceKind::Bulb || *kind == DeviceKind::LightStrip) ==> r is Ok,
        *kind == DeviceKind::Plug && plug is Some ==> (r is Ok <==> (plug->Some_0.feature matches Some(f) && contains_seq(f@, "ENE"@))),
        *kind == DeviceKind::Strip && strip is Some ==> (r is Ok <==> (strip->Some_0.feature matches Some(f) && contains_seq(f@, "ENE"@))),
        (*kind == DeviceKind::Plug && plug is None) || (*kind == DeviceKind::Strip && strip is None) ==> r is Err,
        !(*kind == DeviceKind::Bulb || *kind == DeviceKind::LightStrip || *kind == DeviceKind::Plug || *kind == DeviceKind::Strip) ==> r is Err,
{
    proof {
        law_energy_follows_feature(*kind, *plug, *strip);
    }
    match kind {
        DeviceKind::Bulb | DeviceKind::LightStrip => Ok(()),
        DeviceKind::Plug => match plug {
            None => Err(String::from_str("could not parse plug sysinfo")),
            Some(p) => {
                if p.has_energy_monitoring() {
                    Ok(())
                } else {
                    let f = debug_text(&p.feature);
                    Err(no_energy_text(p.alias.as_str(), p.model.as_str(), f.as_str()))
                }
            },
        },
        DeviceKind::Strip => match strip {
            None => Err(String::from_str("could not parse strip sysinfo")),
            Some(s) => {
                if s.has_energy_monitoring() {
                    Ok(())
                } else {
                    let f = debug_text(&s.feature);
                    Err(no_energy_text(s.alias.as_str(), s.model.as_str(), f.as_str()))
                }
            },
        },
        _ => {
            let mut m = kind.display_name();
            m.append(" does not support energy monitoring");
            Err(m)
        },
    }
}

/// A numeric member of the system information, 0 when missing.
pub open spec fn state_field(j: Json, key: Seq<char>) -> u64 {
    match u64_of(field(sysinfo_of(j), key)) {
        Some(n) => n,
        None => 0,
    }
}

/// The light state's `on_off`, 0 when missing.
pub open spec fn light_on_off(j: Json) -> u64 {
    match u64_of(field(field(sysinfo_of(j), "light_state"@), "on_off"@)) {
        Some(n) => n,
        None => 0,
    }
}

/// The power state that toggling a device asks for: on when it is off now.
/// Lights read their light state, strips whether any outlet is on, and
/// everything else its relay.
pub open spec fn toggle_target_spec(k: DeviceKind, j: Json, strip: Option<Strip>) -> bool {
    match k {
        DeviceKind::Bulb | DeviceKind::LightStrip => light_on_off(j) == 0,
        DeviceKind::Strip => match strip {
            Some(s) => !(exists|i: int| 0 <= i < s.children@.len() && #[trigger] s.children@[i].state == 1),
            None => true,
        },
        _ => state_field(j, "relay_state"@) == 0,
    }
}

fn u64_or_zero(v: Option<&Json>) -> (n: u64)
    ensures
        n == (match u64_of(match v { Some(x) => Some(*x), None => None }) {
            Some(k) => k,
            None => 0,
        }),
{
    match v {
        Some(x) => match x.as_u64() {
            Some(k) => k,
            None => 0,
        },
        None => 0,
    }
}

/// The power state that a toggle of the device in `json` turns it to;
/// `strip` is what the response parsed to as a power strip.
pub fn toggle_target(kind: &DeviceKind, json: &Json, strip: &Option<Strip>) -> (on: bool)
    ensures
        on == toggle_target_spec(*kind, *json, *strip),
{
    match kind {
        DeviceKind::Bulb | DeviceKind::LightStrip => {
            let ls = get_field(sysinfo(json), "light_state");
            u64_or_zero(get_field(ls, "on_off")) == 0
        },
        DeviceKind::Strip => match strip {
            Some(s) => !s.is_any_on(),
            None => true,
        },
        _ => u64_or_zero(get_field(sysinfo(json), "relay_state")) == 0,
    }
}

} // verus!
