//! Device kinds, the capability registry of known models, the capability
//! guards that run before any request, and the command hints derived from
//! the registry.

use vstd::prelude::*;
use crate::text::{
    ascii_lower_seq, chars_eq, chars_of, lower_chars, string_of, sub_chars, trim, trim_chars,
};

verus! {

/// The kind of a device, as classified from its system information.
#[derive(Debug, Clone, PartialEq, Eq)]
pub enum DeviceKind {
    Bulb,
    LightStrip,
    Dimmer,
    Strip,
    Plug,
    /// Tapo devices, reached over KLAP; never produced by classification.
    Tapo,
    /// A device type not yet known, with its reported type string.
    Unknown(String),
}

/// How a kind is named in messages.
pub open spec fn kind_name(k: DeviceKind) -> Seq<char> {
    match k {
        DeviceKind::Bulb => "bulb"@,
        DeviceKind::LightStrip => "light strip"@,
        DeviceKind::Dimmer => "dimmer"@,
        DeviceKind::Strip => "power strip"@,
        DeviceKind::Plug => "plug"@,
        DeviceKind::Tapo => "tapo"@,
        DeviceKind::Unknown(t) => "unknown ("@ + t@ + ")"@,
    }
}

impl DeviceKind {
    /// The name of this kind as shown to the user.
    pub fn display_name(&self) -> (s: String)
        ensures
            s@ == kind_name(*self),
    {
        match self {
            DeviceKind::Bulb => String::from_str("bulb"),
            DeviceKind::LightStrip => String::from_str("light strip"),
            DeviceKind::Dimmer => String::from_str("dimmer"),
            DeviceKind::Strip => String::from_str("power strip"),
            DeviceKind::Plug => String::from_str("plug"),
            DeviceKind::Tapo => String::from_str("tapo"),
            DeviceKind::Unknown(t) => {
                let mut s = String::from_str("unknown (");
                s.append(t.as_str());
                s.append(")");
                s
            },
        }
    }

    /// A copy of this kind.
    pub fn duplicate(&self) -> (r: DeviceKind)
        ensures
            kind_name(r) == kind_name(*self),
            r == *self || self is Unknown,
            (r is Bulb) == (self is Bulb),
            (r is LightStrip) == (self is LightStrip),
            (r is Dimmer) == (self is Dimmer),
            (r is Strip) == (self is Strip),
            (r is Plug) == (self is Plug),
            (r is Tapo) == (self is Tapo),
            (r is Unknown) == (self is Unknown),
    {
        match self {
            DeviceKind::Bulb => DeviceKind::Bulb,
            DeviceKind::LightStrip => DeviceKind::LightStrip,
            DeviceKind::Dimmer => DeviceKind::Dimmer,
            DeviceKind::Strip => DeviceKind::Strip,
            DeviceKind::Plug => DeviceKind::Plug,
            DeviceKind::Tapo => DeviceKind::Tapo,
            DeviceKind::Unknown(t) => DeviceKind::Unknown(String::from_str(t.as_str())),
        }
    }
}

// ── Capability guards ───────────────────────────────────────────────────────

/// Power control: bulbs, plugs, dimmers and power strips.
pub open spec fn power_message(k: DeviceKind) -> Option<Seq<char>> {
    match k {
        DeviceKind::Bulb | DeviceKind::Plug | DeviceKind::Dimmer | DeviceKind::Strip => None,
        DeviceKind::LightStrip => Some(
            "light strip power control is not yet implemented (KL430 uses smartlife.iot.lightStrip)"@,
        ),
        _ => Some(kind_name(k) + " does not support power control"@),
    }
}

/// Dimming: bulbs and dimmers.
pub open spec fn dim_message(k: DeviceKind) -> Option<Seq<char>> {
    match k {
        DeviceKind::Bulb | DeviceKind::Dimmer => None,
        DeviceKind::LightStrip => Some(
            "`dim` is not yet supported on light strips (KL430 uses smartlife.iot.lightStrip, not smartbulb.lightingservice)"@,
        ),
        _ => Some("`dim` is only supported on bulbs and HS220 dimmers, not "@ + kind_name(k)),
    }
}

/// A bulb-only command.
pub open spec fn bulb_only_message(k: DeviceKind, cmd: Seq<char>, models: Seq<char>) -> Option<Seq<char>> {
    match k {
        DeviceKind::Bulb => None,
        _ => Some("`"@ + cmd + "` is only supported on "@ + models + ", not "@ + kind_name(k)),
    }
}

/// A command of relay devices: plugs, dimmers and power strips.
pub open spec fn relay_only_message(k: DeviceKind, cmd: Seq<char>) -> Option<Seq<char>> {
    match k {
        DeviceKind::Plug | DeviceKind::Dimmer | DeviceKind::Strip => None,
        _ => Some("`"@ + cmd
            + "` is only supported on plugs, dimmers, and strips (e.g. KP115, HS220, HS300), not "@
            + kind_name(k)),
    }
}

/// Lighting effects: light strips.
pub open spec fn effects_message(k: DeviceKind) -> Option<Seq<char>> {
    match k {
        DeviceKind::LightStrip => None,
        _ => Some("`effects` is only supported on light strips, not "@ + kind_name(k)),
    }
}

/// The guard result for a refusal message (`None` when allowed).
pub open spec fn guard_result(m: Option<Seq<char>>, r: Result<(), String>) -> bool {
    match (m, r) {
        (None, Ok(())) => true,
        (Some(msg), Err(e)) => e@ == msg,
        _ => false,
    }
}

/// Fails unless the device can be switched on and off.
pub fn can_control_power(kind: &DeviceKind) -> (r: Result<(), String>)
    ensures
        guard_result(power_message(*kind), r),
{
    match kind {
        DeviceKind::Bulb | DeviceKind::Plug | DeviceKind::Dimmer | DeviceKind::Strip => Ok(()),
        DeviceKind::LightStrip => Err(String::from_str(
            "light strip power control is not yet implemented (KL430 uses smartlife.iot.lightStrip)",
        )),
        _ => {
            let mut s = kind.display_name();
            s.append(" does not support power control");
            Err(s)
        },
    }
}

/// Fails unless the device can be dimmed.
pub fn can_dim(kind: &DeviceKind) -> (r: Result<(), String>)
    ensures
        guard_result(dim_message(*kind), r),
{
    match kind {
        DeviceKind::Bulb | DeviceKind::Dimmer => Ok(()),
        DeviceKind::LightStrip => Err(String::from_str(
            "`dim` is not yet supported on light strips (KL430 uses smartlife.iot.lightStrip, not smartbulb.lightingservice)",
        )),
        _ => {
            let mut s = String::from_str("`dim` is only supported on bulbs and HS220 dimmers, not ");
            let n = kind.display_name();
            s.append(n.as_str());
            Err(s)
        },
    }
}

fn require_bulb(kind: &DeviceKind, cmd: &str, models: &str) -> (r: Result<(), String>)
    ensures
        guard_result(bulb_only_message(*kind, cmd@, models@), r),
{
    match kind {
        DeviceKind::Bulb => Ok(()),
        _ => {
            let mut s = String::from_str("`");
            s.append(cmd);
            s.append("` is only supported on ");
            s.append(models);
            s.append(", not ");
            let n = kind.display_name();
            s.append(n.as_str());
            Err(s)
        },
    }
}

fn require_relay_device(kind: &DeviceKind, cmd: &str) -> (r: Result<(), String>)
    ensures
        guard_result(relay_only_message(*kind, cmd@), r),
{
    match kind {
        DeviceKind::Plug | DeviceKind::Dimmer | DeviceKind::Strip => Ok(()),
        _ => {
            let mut s = String::from_str("`");
            s.append(cmd);
            s.append("` is only supported on plugs, dimmers, and strips (e.g. KP115, HS220, HS300), not ");
            let n = kind.display_name();
            s.append(n.as_str());
            Err(s)
        },
    }
}

/// Fails unless the device takes a color temperature (bulbs).
pub fn can_set_color_temp(kind: &DeviceKind) -> (r: Result<(), String>)
    ensures
        guard_result(bulb_only_message(*kind, "color-temp"@, "color bulbs (e.g. KL135)"@), r),
{
    require_bulb(kind, "color-temp", "color bulbs (e.g. KL135)")
}

/// Fails unless the device takes an HSV color (bulbs).
pub fn can_set_color(kind: &DeviceKind) -> (r: Result<(), String>)
    ensures
        guard_result(bulb_only_message(*kind, "color"@, "bulbs"@), r),
{
    require_bulb(kind, "color", "bulbs")
}

/// Fails unless the device reports hardware specs (bulbs).
pub fn can_get_specs(kind: &DeviceKind) -> (r: Result<(), String>)
    ensures
        guard_result(bulb_only_message(*kind, "specs"@, "bulbs"@), r),
{
    require_bulb(kind, "specs", "bulbs")
}

/// Fails unless the device stores light presets (bulbs).
pub fn can_get_presets(kind: &DeviceKind) -> (r: Result<(), String>)
    ensures
        guard_result(bulb_only_message(*kind, "presets"@, "bulbs"@), r),
{
    require_bulb(kind, "presets", "bulbs")
}

/// Fails unless the device has lighting effects (light strips).
pub fn can_get_effects(kind: &DeviceKind) -> (r: Result<(), String>)
    ensures
        guard_result(effects_message(*kind), r),
{
    match kind {
        DeviceKind::LightStrip => Ok(()),
        _ => {
            let mut s = String::from_str("`effects` is only supported on light strips, not ");
            let n = kind.display_name();
            s.append(n.as_str());
            Err(s)
        },
    }
}

/// Fails unless the device keeps schedules (relay devices).
pub fn can_get_schedules(kind: &DeviceKind) -> (r: Result<(), String>)
    ensures
        guard_result(relay_only_message(*kind, "schedules"@), r),
{
    require_relay_device(kind, "schedules")
}

/// Fails unless the device has a controllable LED (relay devices).
pub fn can_control_led(kind: &DeviceKind) -> (r: Result<(), String>)
    ensures
        guard_result(relay_only_message(*kind, "led"@), r),
{
    require_relay_device(kind, "led")
}

/// Fails unless the device has a readable clock (relay devices).
pub fn can_get_clock(kind: &DeviceKind) -> (r: Result<(), String>)
    ensures
        guard_result(relay_only_message(*kind, "clock"@), r),
{
    require_relay_device(kind, "clock")
}

// ── Registry ────────────────────────────────────────────────────────────────

/// A known model and what it supports.
#[derive(Debug, Clone)]
pub struct DeviceEntry {
    pub model: String,
    pub kind: DeviceKind,
    /// Tested on real hardware.
    pub verified: bool,
    /// "klap" for Tapo models; none for Kasa models.
    pub protocol: Option<String>,
    /// Capability names ("power", "dim", "color_temp", "color", "energy",
    /// "specs", "presets", "schedules", "led", "clock", "outlets", "effects").
    pub supports: Vec<String>,
}

/// The abstract content of a registry entry.
pub struct EntryView {
    pub model: Seq<char>,
    pub kind: DeviceKind,
    pub verified: bool,
    pub protocol: Option<Seq<char>>,
    pub supports: Seq<Seq<char>>,
}

/// The abstract content of an optional string.
pub open spec fn opt_view(o: Option<String>) -> Option<Seq<char>> {
    match o {
        Some(s) => Some(s@),
        None => None,
    }
}

impl View for DeviceEntry {
    type V = EntryView;

    open spec fn view(&self) -> EntryView {
        EntryView {
            model: self.model@,
            kind: self.kind,
            verified: self.verified,
            protocol: opt_view(self.protocol),
            supports: self.supports@.map_values(|f: String| f@),
        }
    }
}

/// A registry entry with the given content.
pub open spec fn entry(model: Seq<char>, kind: DeviceKind, verified: bool, protocol: Option<Seq<char>>, supports: Seq<Seq<char>>) -> EntryView {
    EntryView { model, kind, verified, protocol, supports }
}

/// The known models, in registry order.
pub open spec fn registry() -> Seq<EntryView> {
    seq![
        entry("KL135"@, DeviceKind::Bulb, true, None,
            seq!["power"@, "dim"@, "color_temp"@, "color"@, "energy"@, "specs"@, "presets"@]),
        entry("KL430"@, DeviceKind::LightStrip, false, None, seq!["energy"@, "effects"@]),
        entry("KL420L5"@, DeviceKind::LightStrip, false, None, seq!["energy"@, "effects"@]),
        entry("KP115"@, DeviceKind::Plug, true, None,
            seq!["power"@, "energy"@, "schedules"@, "led"@, "clock"@]),
        entry("HS110"@, DeviceKind::Plug, true, None,
            seq!["power"@, "energy"@, "schedules"@, "led"@, "clock"@]),
        entry("HS105"@, DeviceKind::Plug, true, None, seq!["power"@, "schedules"@, "led"@, "clock"@]),
        entry("HS220"@, DeviceKind::Dimmer, false, None,
            seq!["power"@, "dim"@, "schedules"@, "led"@, "clock"@]),
        entry("HS300"@, DeviceKind::Strip, true, None,
            seq!["power"@, "energy"@, "outlets"@, "schedules"@, "led"@, "clock"@]),
        entry("KP303"@, DeviceKind::Strip, false, None,
            seq!["power"@, "outlets"@, "schedules"@, "led"@, "clock"@]),
        entry("P125"@, DeviceKind::Tapo, true, Some("klap"@), seq!["power"@]),
        entry("P125M"@, DeviceKind::Tapo, true, Some("klap"@), seq!["power"@]),
    ]
}

fn strings_of(parts: &[&str]) -> (r: Vec<String>)
    ensures
        r@.map_values(|f: String| f@) == parts@.map_values(|p: &str| p@),
{
    let mut r: Vec<String> = Vec::new();
    let mut i: usize = 0;
    while i < parts.len()
        invariant
            i <= parts@.len(),
            r@.map_values(|f: String| f@) == parts@.map_values(|p: &str| p@).take(i as int),
        decreases parts@.len() - i,
    {
        let ghost before = r@;
        r.push(String::from_str(parts[i]));
        assert(r@.map_values(|f: String| f@) =~= before.map_values(|f: String| f@).push(parts@[i as int]@));
        assert(parts@.map_values(|p: &str| p@).take(i + 1) =~= parts@.map_values(|p: &str| p@).take(i as int).push(parts@[i as int]@));
        i = i + 1;
    }
    assert(parts@.map_values(|p: &str| p@).take(parts@.len() as int) =~= parts@.map_values(|p: &str| p@));
    r
}

fn make_entry(model: &str, kind: DeviceKind, verified: bool, klap: bool, supports: &[&str]) -> (e: DeviceEntry)
    ensures
        e@ == entry(model@, kind, verified, if klap { Some("klap"@) } else { None }, supports@.map_values(|p: &str| p@)),
{
    DeviceEntry {
        model: String::from_str(model),
        kind,
        verified,
        protocol: if klap { Some(String::from_str("klap")) } else { None },
        supports: strings_of(supports),
    }
}

/// All known models, in registry order.
pub fn all() -> (r: Vec<DeviceEntry>)
    ensures
        r@.map_values(|e: DeviceEntry| e@) == registry(),
{
    let mut r: Vec<DeviceEntry> = Vec::new();
    let f0 = ["power", "dim", "color_temp", "color", "energy", "specs", "presets"];
    let e0 = make_entry("KL135", DeviceKind::Bulb, true, false, &f0);
    assert(f0@.map_values(|p: &str| p@) =~= seq!["power"@, "dim"@, "color_temp"@, "color"@, "energy"@, "specs"@, "presets"@]);
    assert(e0@ == registry()[0]);
    r.push(e0);
    let f1 = ["energy", "effects"];
    let e1 = make_entry("KL430", DeviceKind::LightStrip, false, false, &f1);
    assert(f1@.map_values(|p: &str| p@) =~= seq!["energy"@, "effects"@]);
    assert(e1@ == registry()[1]);
    r.push(e1);
    let f2 = ["energy", "effects"];
    let e2 = make_entry("KL420L5", DeviceKind::LightStrip, false, false, &f2);
    assert(f2@.map_values(|p: &str| p@) =~= seq!["energy"@, "effects"@]);
    assert(e2@ == registry()[2]);
    r.push(e2);
    let f3 = ["power", "energy", "schedules", "led", "clock"];
    let e3 = make_entry("KP115", DeviceKind::Plug, true, false, &f3);
    assert(f3@.map_values(|p: &str| p@) =~= seq!["power"@, "energy"@, "schedules"@, "led"@, "clock"@]);
    assert(e3@ == registry()[3]);
    r.push(e3);
    let f4 = ["power", "energy", "schedules", "led", "clock"];
    let e4 = make_entry("HS110", DeviceKind::Plug, true, false, &f4);
    assert(f4@.map_values(|p: &str| p@) =~= seq!["power"@, "energy"@, "schedules"@, "led"@, "clock"@]);
    assert(e4@ == registry()[4]);
    r.push(e4);
    let f5 = ["power", "schedules", "led", "clock"];
    let e5 = make_entry("HS105", DeviceKind::Plug, true, false, &f5);
    assert(f5@.map_values(|p: &str| p@) =~= seq!["power"@, "schedules"@, "led"@, "clock"@]);
    assert(e5@ == registry()[5]);
    r.push(e5);
    let f6 = ["power", "dim", "schedules", "led", "clock"];
    let e6 = make_entry("HS220", DeviceKind::Dimmer, false, false, &f6);
    assert(f6@.map_values(|p: &str| p@) =~= seq!["power"@, "dim"@, "schedules"@, "led"@, "clock"@]);
    assert(e6@ == registry()[6]);
    r.push(e6);
    let f7 = ["power", "energy", "outlets", "schedules", "led", "clock"];
    let e7 = make_entry("HS300", DeviceKind::Strip, true, false, &f7);
    assert(f7@.map_values(|p: &str| p@) =~= seq!["power"@, "energy"@, "outlets"@, "schedules"@, "led"@, "clock"@]);
    assert(e7@ == registry()[7]);
    r.push(e7);
    let f8 = ["power", "outlets", "schedules", "led", "clock"];
    let e8 = make_entry("KP303", DeviceKind::Strip, false, false, &f8);
    assert(f8@.map_values(|p: &str| p@) =~= seq!["power"@, "outlets"@, "schedules"@, "led"@, "clock"@]);
    assert(e8@ == registry()[8]);
    r.push(e8);
    let f9 = ["power"];
    let e9 = make_entry("P125", DeviceKind::Tapo, true, true, &f9);
    assert(f9@.map_values(|p: &str| p@) =~= seq!["power"@]);
    assert(e9@ == registry()[9]);
    r.push(e9);
    let f10 = ["power"];
    let e10 = make_entry("P125M", DeviceKind::Tapo, true, true, &f10);
    assert(f10@.map_values(|p: &str| p@) =~= seq!["power"@]);
    assert(e10@ == registry()[10]);
    r.push(e10);
    assert(r@.map_values(|e: DeviceEntry| e@) =~= registry());
    r
}

/// The part of a model string before the first '(' (the region suffix).
pub open spec fn before_paren(m: Seq<char>) -> Seq<char>
    decreases m.len(),
{
    if m.len() == 0 {
        m
    } else if m[0] == '(' {
        Seq::empty()
    } else {
        seq![m[0]] + before_paren(m.drop_first())
    }
}

/// The registry model that a reported model string names: the region
/// suffix ("KL135(US)") and surrounding whitespace dropped, compared without
/// regard to ASCII case.
pub open spec fn model_matches(e: EntryView, model: Seq<char>) -> bool {
    ascii_lower_seq(e.model) == ascii_lower_seq(trim(before_paren(model)))
}

/// The registry entry for a reported model string: the first whose model
/// matches.
pub open spec fn lookup_spec(model: Seq<char>) -> Option<EntryView> {
    let hits = registry().filter(|e: EntryView| model_matches(e, model));
    if hits.len() > 0 { Some(hits[0]) } else { None }
}

fn base_model(model: &str) -> (r: Vec<char>)
    ensures
        r@ == trim(before_paren(model@)),
{
    let m = chars_of(model);
    let mut i: usize = 0;
    assert(m@.subrange(0, 0) + before_paren(m@.subrange(0, m@.len() as int)) =~= before_paren(m@)) by {
        assert(m@.subrange(0, m@.len() as int) =~= m@);
    }
    while i < m.len() && m[i] != '('
        invariant
            i <= m@.len(),
            before_paren(m@) == m@.subrange(0, i as int) + before_paren(m@.subrange(i as int, m@.len() as int)),
        decreases m@.len() - i,
    {
        let ghost rest = m@.subrange(i as int, m@.len() as int);
        assert(rest.drop_first() =~= m@.subrange(i + 1, m@.len() as int));
        assert(m@.subrange(0, i + 1) =~= m@.subrange(0, i as int) + seq![m@[i as int]]);
        i = i + 1;
    }
    let p = sub_chars(&m, 0, i);
    proof {
        if i < m@.len() {
            assert(m@.subrange(i as int, m@.len() as int)[0] == '(');
        }
        assert(p@ =~= before_paren(m@));
    }
    trim_chars(&p)
}

/// The registry entry for a model string ("KL135(US)" finds KL135; case is
/// ignored).
pub fn lookup(model: &str) -> (r: Option<DeviceEntry>)
    ensures
        match r {
            Some(e) => lookup_spec(model@) == Some(e@),
            None => lookup_spec(model@) is None,
        },
{
    let base = base_model(model);
    let want = lower_chars(&base);
    let mut entries = all();
    let n = entries.len();
    let ghost reg = registry();
    let ghost pm = |e: EntryView| model_matches(e, model@);
    let mut i: usize = 0;
    while i < n
        invariant
            n == entries@.len(),
            entries@.map_values(|e: DeviceEntry| e@) == reg,
            reg == registry(),
            i <= n,
            want@ == ascii_lower_seq(trim(before_paren(model@))),
            pm == (|e: EntryView| model_matches(e, model@)),
            reg.take(i as int).filter(pm).len() == 0,
        decreases n - i,
    {
        let m = lower_chars(&chars_of(entries[i].model.as_str()));
        proof {
            reveal(Seq::filter);
            assert(reg[i as int] == entries@[i as int]@);
            assert(reg.take(i + 1).drop_last() =~= reg.take(i as int));
        }
        if chars_eq(&m, &want) {
            proof {
                assert(reg.take(i + 1).filter(pm) == seq![reg[i as int]]);
                lemma_first_hit(reg, i + 1, pm);
            }
            return Some(entries.remove(i));
        }
        i = i + 1;
    }
    assert(reg.take(n as int) =~= reg);
    None
}

proof fn lemma_first_hit(s: Seq<EntryView>, k: int, pred: spec_fn(EntryView) -> bool)
    requires
        0 <= k <= s.len(),
        s.take(k).filter(pred).len() > 0,
    ensures
        s.filter(pred).len() > 0,
        s.filter(pred)[0] == s.take(k).filter(pred)[0],
    decreases s.len() - k,
{
    if k < s.len() {
        reveal(Seq::filter);
        assert(s.take(k + 1).drop_last() =~= s.take(k));
        lemma_first_hit(s, k + 1, pred);
    } else {
        assert(s.take(k) =~= s);
    }
}

// ── Hints ───────────────────────────────────────────────────────────────────

/// The quoted alias as it appears in a command line.
pub open spec fn quoted(alias: Seq<char>) -> Seq<char> {
    "\""@ + alias + "\""@
}

/// The example command shown for a capability, if it has one.
pub open spec fn hint_for_spec(feature: Seq<char>, alias: Seq<char>) -> Option<Seq<char>> {
    let q = quoted(alias);
    if feature == "dim"@ {
        Some("denki dim "@ + q + " 80"@)
    } else if feature == "color_temp"@ {
        Some("denki color-temp "@ + q + " 2700"@)
    } else if feature == "color"@ {
        Some("denki color "@ + q + " -H 120 -s 80 -v 100"@)
    } else if feature == "energy"@ {
        Some("denki energy "@ + q)
    } else if feature == "effects"@ {
        Some("denki effects "@ + q)
    } else if feature == "schedules"@ {
        Some("denki schedules "@ + q)
    } else if feature == "led"@ {
        Some("denki led "@ + q + " on"@)
    } else if feature == "clock"@ {
        Some("denki clock "@ + q)
    } else if feature == "outlets"@ {
        Some("denki outlets "@ + q)
    } else if feature == "specs"@ {
        Some("denki specs "@ + q)
    } else if feature == "presets"@ {
        Some("denki presets "@ + q)
    } else {
        None
    }
}

fn str_is(s: &[char], lit: &str) -> (b: bool)
    ensures
        b == (s@ == lit@),
{
    chars_eq(s, &chars_of(lit))
}

fn command(head: &str, alias: &str, tail: &str) -> (r: String)
    ensures
        r@ == head@ + quoted(alias@) + tail@,
{
    let mut r = String::from_str(head);
    r.append("\"");
    r.append(alias);
    r.append("\"");
    r.append(tail);
    assert(r@ =~= head@ + quoted(alias@) + tail@);
    r
}

fn command_plain(head: &str, alias: &str) -> (r: String)
    ensures
        r@ == head@ + quoted(alias@),
{
    let mut r = String::from_str(head);
    r.append("\"");
    r.append(alias);
    r.append("\"");
    assert(r@ =~= head@ + quoted(alias@));
    r
}

/// The example command for a capability: "dim" gives
/// `denki dim "<alias>" 80`; capabilities without a command give none.
pub fn hint_for(feature: &str, alias: &str) -> (r: Option<String>)
    ensures
        match r {
            Some(h) => hint_for_spec(feature@, alias@) == Some(h@),
            None => hint_for_spec(feature@, alias@) is None,
        },
{
    let f = chars_of(feature);
    if str_is(&f, "dim") {
        Some(command("denki dim ", alias, " 80"))
    } else if str_is(&f, "color_temp") {
        Some(command("denki color-temp ", alias, " 2700"))
    } else if str_is(&f, "color") {
        Some(command("denki color ", alias, " -H 120 -s 80 -v 100"))
    } else if str_is(&f, "energy") {
        Some(command_plain("denki energy ", alias))
    } else if str_is(&f, "effects") {
        Some(command_plain("denki effects ", alias))
    } else if str_is(&f, "schedules") {
        Some(command_plain("denki schedules ", alias))
    } else if str_is(&f, "led") {
        Some(command("denki led ", alias, " on"))
    } else if str_is(&f, "clock") {
        Some(command_plain("denki clock ", alias))
    } else if str_is(&f, "outlets") {
        Some(command_plain("denki outlets ", alias))
    } else if str_is(&f, "specs") {
        Some(command_plain("denki specs ", alias))
    } else if str_is(&f, "presets") {
        Some(command_plain("denki presets ", alias))
    } else {
        None
    }
}

/// The power command that changes the current state.
pub open spec fn power_hint(alias: Seq<char>, is_on: bool) -> Seq<char> {
    "denki "@ + (if is_on { "off"@ } else { "on"@ }) + " "@ + quoted(alias)
}

/// The example commands of the capabilities `fs` that have one, in order.
pub open spec fn feature_hints(fs: Seq<Seq<char>>, alias: Seq<char>) -> Seq<Seq<char>>
    decreases fs.len(),
{
    if fs.len() == 0 {
        Seq::empty()
    } else {
        let rest = feature_hints(fs.drop_last(), alias);
        match hint_for_spec(fs.last(), alias) {
            Some(h) => rest.push(h),
            None => rest,
        }
    }
}

/// The hints for a model: the power command first, then one command per
/// supported capability that has one.
pub open spec fn hints_spec(e: EntryView, alias: Seq<char>, is_on: bool) -> Seq<Seq<char>> {
    seq![power_hint(alias, is_on)] + feature_hints(e.supports, alias)
}

/// The power command that changes the current state.
pub fn power_command(alias: &str, is_on: bool) -> (r: String)
    ensures
        r@ == power_hint(alias@, is_on),
{
    let r = if is_on { command_plain("denki off ", alias) } else { command_plain("denki on ", alias) };
    proof {
        reveal_strlit("denki off ");
        reveal_strlit("denki on ");
        reveal_strlit("denki ");
        reveal_strlit("off");
        reveal_strlit("on");
        reveal_strlit(" ");
        assert(r@ =~= power_hint(alias@, is_on));
    }
    r
}

/// Suggested commands for a device of model `entry` saved as `alias`.
pub fn hints(entry: &DeviceEntry, alias: &str, is_on: bool) -> (r: Vec<String>)
    ensures
        r@.map_values(|h: String| h@) == hints_spec(entry@, alias@, is_on),
{
    let mut out: Vec<String> = Vec::new();
    out.push(power_command(alias, is_on));
    let ghost fs = entry@.supports;
    let mut i: usize = 0;
    while i < entry.supports.len()
        invariant
            i <= entry.supports@.len(),
            fs == entry.supports@.map_values(|f: String| f@),
            out@.map_values(|h: String| h@) == seq![power_hint(alias@, is_on)] + feature_hints(fs.take(i as int), alias@),
        decreases entry.supports@.len() - i,
    {
        let ghost before = out@;
        proof {
            assert(fs.take(i + 1).drop_last() =~= fs.take(i as int));
            assert(fs.take(i + 1).last() == entry.supports@[i as int]@);
        }
        match hint_for(entry.supports[i].as_str(), alias) {
            Some(h) => {
                out.push(h);
                assert(out@.map_values(|h: String| h@) =~= before.map_values(|h: String| h@).push(h@));
            },
            None => {},
        }
        i = i + 1;
    }
    assert(fs.take(entry.supports@.len() as int) =~= fs);
    out
}

// ── Registry and guards agree ───────────────────────────────────────────────

/// The capabilities that a guard checks before a request.
pub open spec fn guarded_features() -> Seq<Seq<char>> {
    seq!["power"@, "dim"@, "color_temp"@, "color"@, "specs"@, "presets"@, "schedules"@, "led"@, "clock"@]
}

/// Whether the guard of capability `f` lets a device of kind `k` through
/// (capabilities without a guard always pass).
pub open spec fn feature_allowed(k: DeviceKind, f: Seq<char>) -> bool {
    if f == "power"@ {
        power_message(k) is None
    } else if f == "dim"@ {
        dim_message(k) is None
    } else if f == "color_temp"@ {
        bulb_only_message(k, "color-temp"@, "color bulbs (e.g. KL135)"@) is None
    } else if f == "color"@ {
        bulb_only_message(k, "color"@, "bulbs"@) is None
    } else if f == "specs"@ {
        bulb_only_message(k, "specs"@, "bulbs"@) is None
    } else if f == "presets"@ {
        bulb_only_message(k, "presets"@, "bulbs"@) is None
    } else if f == "schedules"@ {
        relay_only_message(k, "schedules"@) is None
    } else if f == "led"@ {
        relay_only_message(k, "led"@) is None
    } else if f == "clock"@ {
        relay_only_message(k, "clock"@) is None
    } else {
        true
    }
}

/// The capability names are pairwise different.
proof fn lemma_feature_names_distinct()
    ensures
        "power"@ != "dim"@,
        "power"@ != "color_temp"@,
        "power"@ != "color"@,
        "power"@ != "energy"@,
        "power"@ != "specs"@,
        "power"@ != "presets"@,
        "power"@ != "schedules"@,
        "power"@ != "led"@,
        "power"@ != "clock"@,
        "power"@ != "outlets"@,
        "power"@ != "effects"@,
        "dim"@ != "color_temp"@,
        "dim"@ != "color"@,
        "dim"@ != "energy"@,
        "dim"@ != "specs"@,
        "dim"@ != "presets"@,
        "dim"@ != "schedules"@,
        "dim"@ != "led"@,
        "dim"@ != "clock"@,
        "dim"@ != "outlets"@,
        "dim"@ != "effects"@,
        "color_temp"@ != "color"@,
        "color_temp"@ != "energy"@,
        "color_temp"@ != "specs"@,
        "color_temp"@ != "presets"@,
        "color_temp"@ != "schedules"@,
        "color_temp"@ != "led"@,
        "color_temp"@ != "clock"@,
        "color_temp"@ != "outlets"@,
        "color_temp"@ != "effects"@,
        "color"@ != "energy"@,
        "color"@ != "specs"@,
        "color"@ != "presets"@,
        "color"@ != "schedules"@,
        "color"@ != "led"@,
        "color"@ != "clock"@,
        "color"@ != "outlets"@,
        "color"@ != "effects"@,
        "energy"@ != "specs"@,
        "energy"@ != "presets"@,
        "energy"@ != "schedules"@,
        "energy"@ != "led"@,
        "energy"@ != "clock"@,
        "energy"@ != "outlets"@,
        "energy"@ != "effects"@,
        "specs"@ != "presets"@,
        "specs"@ != "schedules"@,
        "specs"@ != "led"@,
        "specs"@ != "clock"@,
        "specs"@ != "outlets"@,
        "specs"@ != "effects"@,
        "presets"@ != "schedules"@,
        "presets"@ != "led"@,
        "presets"@ != "clock"@,
        "presets"@ != "outlets"@,
        "presets"@ != "effects"@,
        "schedules"@ != "led"@,
        "schedules"@ != "clock"@,
        "schedules"@ != "outlets"@,
        "schedules"@ != "effects"@,
        "led"@ != "clock"@,
        "led"@ != "outlets"@,
        "led"@ != "effects"@,
        "clock"@ != "outlets"@,
        "clock"@ != "effects"@,
        "outlets"@ != "effects"@,
{
    reveal_strlit("power");
    reveal_strlit("dim");
    reveal_strlit("color_temp");
    reveal_strlit("color");
    reveal_strlit("energy");
    reveal_strlit("specs");
    reveal_strlit("presets");
    reveal_strlit("schedules");
    reveal_strlit("led");
    reveal_strlit("clock");
    reveal_strlit("outlets");
    reveal_strlit("effects");
    assert("power"@.len() == 5);
    assert("dim"@.len() == 3);
    assert("color_temp"@.len() == 10);
    assert("color"@.len() == 5);
    assert("energy"@.len() == 6);
    assert("specs"@.len() == 5);
    assert("presets"@.len() == 7);
    assert("schedules"@.len() == 9);
    assert("led"@.len() == 3);
    assert("clock"@.len() == 5);
    assert("outlets"@.len() == 7);
    assert("effects"@.len() == 7);
    assert("power"@[0] != "color"@[0]);
    assert("power"@[0] != "specs"@[0]);
    assert("power"@[0] != "clock"@[0]);
    assert("dim"@[0] != "led"@[0]);
    assert("color"@[0] != "specs"@[0]);
    assert("color"@[1] != "clock"@[1]);
    assert("specs"@[0] != "clock"@[0]);
    assert("presets"@[0] != "outlets"@[0]);
    assert("presets"@[0] != "effects"@[0]);
    assert("outlets"@[0] != "effects"@[0]);
}

/// The registry and the guards agree for every Kasa model: each capability
/// a model lists passes that model's guard, and each guarded capability it
/// does not list is refused.
pub proof fn law_registry_matches_guards()
    ensures
        forall|i: int, j: int|
            0 <= i < registry().len() && !(registry()[i].kind is Tapo) && 0 <= j < registry()[i].supports.len()
                ==> feature_allowed(registry()[i].kind, #[trigger] registry()[i].supports[j]),
        forall|i: int, g: int|
            0 <= i < registry().len() && !(registry()[i].kind is Tapo) && 0 <= g < guarded_features().len()
                && !#[trigger] registry()[i].supports.contains(guarded_features()[g])
                ==> !feature_allowed(registry()[i].kind, guarded_features()[g]),
{
    let reg = registry();
    lemma_feature_names_distinct();
    assert forall|i: int, j: int|
        0 <= i < reg.len() && !(reg[i].kind is Tapo) && 0 <= j < reg[i].supports.len()
            implies feature_allowed(reg[i].kind, #[trigger] reg[i].supports[j]) by {
        if i == 0 { if j == 0 { assert(feature_allowed(reg[0].kind, reg[0].supports[0])); } else if j == 1 { assert(feature_allowed(reg[0].kind, reg[0].supports[1])); } else if j == 2 { assert(feature_allowed(reg[0].kind, reg[0].supports[2])); } else if j == 3 { assert(feature_allowed(reg[0].kind, reg[0].supports[3])); } else if j == 4 { assert(feature_allowed(reg[0].kind, reg[0].supports[4])); } else if j == 5 { assert(feature_allowed(reg[0].kind, reg[0].supports[5])); } else if j == 6 { assert(feature_allowed(reg[0].kind, reg[0].supports[6])); } }
        else if i == 1 { if j == 0 { assert(feature_allowed(reg[1].kind, reg[1].supports[0])); } else if j == 1 { assert(feature_allowed(reg[1].kind, reg[1].supports[1])); } }
        else if i == 2 { if j == 0 { assert(feature_allowed(reg[2].kind, reg[2].supports[0])); } else if j == 1 { assert(feature_allowed(reg[2].kind, reg[2].supports[1])); } }
        else if i == 3 { if j == 0 { assert(feature_allowed(reg[3].kind, reg[3].supports[0])); } else if j == 1 { assert(feature_allowed(reg[3].kind, reg[3].supports[1])); } else if j == 2 { assert(feature_allowed(reg[3].kind, reg[3].supports[2])); } else if j == 3 { assert(feature_allowed(reg[3].kind, reg[3].supports[3])); } else if j == 4 { assert(feature_allowed(reg[3].kind, reg[3].supports[4])); } }
        else if i == 4 { if j == 0 { assert(feature_allowed(reg[4].kind, reg[4].supports[0])); } else if j == 1 { assert(feature_allowed(reg[4].kind, reg[4].supports[1])); } else if j == 2 { assert(feature_allowed(reg[4].kind, reg[4].supports[2])); } else if j == 3 { assert(feature_allowed(reg[4].kind, reg[4].supports[3])); } else if j == 4 { assert(feature_allowed(reg[4].kind, reg[4].supports[4])); } }
        else if i == 5 { if j == 0 { assert(feature_allowed(reg[5].kind, reg[5].supports[0])); } else if j == 1 { assert(feature_allowed(reg[5].kind, reg[5].supports[1])); } else if j == 2 { assert(feature_allowed(reg[5].kind, reg[5].supports[2])); } else if j == 3 { assert(feature_allowed(reg[5].kind, reg[5].supports[3])); } }
        else if i == 6 { if j == 0 { assert(feature_allowed(reg[6].kind, reg[6].supports[0])); } else if j == 1 { assert(feature_allowed(reg[6].kind, reg[6].supports[1])); } else if j == 2 { assert(feature_allowed(reg[6].kind, reg[6].supports[2])); } else if j == 3 { assert(feature_allowed(reg[6].kind, reg[6].supports[3])); } else if j == 4 { assert(feature_allowed(reg[6].kind, reg[6].supports[4])); } }
        else if i == 7 { if j == 0 { assert(feature_allowed(reg[7].kind, reg[7].supports[0])); } else if j == 1 { assert(feature_allowed(reg[7].kind, reg[7].supports[1])); } else if j == 2 { assert(feature_allowed(reg[7].kind, reg[7].supports[2])); } else if j == 3 { assert(feature_allowed(reg[7].kind, reg[7].supports[3])); } else if j == 4 { assert(feature_allowed(reg[7].kind, reg[7].supports[4])); } else if j == 5 { assert(feature_allowed(reg[7].kind, reg[7].supports[5])); } }
        else if i == 8 { if j == 0 { assert(feature_allowed(reg[8].kind, reg[8].supports[0])); } else if j == 1 { assert(feature_allowed(reg[8].kind, reg[8].supports[1])); } else if j == 2 { assert(feature_allowed(reg[8].kind, reg[8].supports[2])); } else if j == 3 { assert(feature_allowed(reg[8].kind, reg[8].supports[3])); } else if j == 4 { assert(feature_allowed(reg[8].kind, reg[8].supports[4])); } }
        else if i == 9 { if j == 0 { assert(feature_allowed(reg[9].kind, reg[9].supports[0])); } }
        else if i == 10 { if j == 0 { assert(feature_allowed(reg[10].kind, reg[10].supports[0])); } }
    }
    assert forall|i: int, g: int|
        0 <= i < reg.len() && !(reg[i].kind is Tapo) && 0 <= g < guarded_features().len()
            && !#[trigger] reg[i].supports.contains(guarded_features()[g])
            implies !feature_allowed(reg[i].kind, guarded_features()[g]) by {
        let f = guarded_features()[g];
        let sup = reg[i].supports;
        if feature_allowed(reg[i].kind, f) {
            assert(exists|j: int| 0 <= j < sup.len() && sup[j] == f);
        }
    }
}

} // verus!
