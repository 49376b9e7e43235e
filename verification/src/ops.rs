//! The requests that the device operations send, one per API call, and the
//! reading of the few answers that decide something.
//!
//! Bulbs and light strips report energy under `smartlife.iot.common.emeter`
//! (a bare `emeter` answers -2001 on them). The LED switch is inverted:
//! `set_led_off` with `off: 0` lights the LED.

use vstd::prelude::*;
use crate::bulb::LightingEffectState;
use crate::devices::{can_control_power, guard_result, power_message, DeviceKind};
use crate::json::{
    array, bool_of, i64_of, member, member_of, number, object, signed_number, string, Json, JsonNumber,
    JsonView,
};
use crate::klap::signed_decimal;
use crate::text::{append_chars, decimal_chars};

verus! {

// ── Building blocks ──────────────────────────────────────────────────────────

/// An object with members `m`.
pub open spec fn jobj(m: Seq<(Seq<char>, JsonView)>) -> JsonView {
    JsonView::Object(m)
}

/// An object with the single member `k: v`.
pub open spec fn jone(k: Seq<char>, v: JsonView) -> JsonView {
    JsonView::Object(seq![(k, v)])
}

/// The empty object.
pub open spec fn jempty() -> JsonView {
    JsonView::Object(Seq::empty())
}

/// A non-negative integer.
pub open spec fn jnum(n: u64) -> JsonView {
    JsonView::Number(JsonNumber::PosInt(n))
}

/// A string.
pub open spec fn jstr(s: Seq<char>) -> JsonView {
    JsonView::Str(s)
}

/// 1 for true, 0 for false.
pub open spec fn flag(b: bool) -> u64 {
    if b { 1 } else { 0 }
}

fn obj1(k: &str, v: Json) -> (j: Json)
    ensures
        j@ == jone(k@, v@),
{
    let ghost vv = v@;
    let e = member_of(k, v);
    let mut m: Vec<(String, Json)> = Vec::new();
    m.push(e);
    assert(m@.map_values(|e: (String, Json)| (e.0@, e.1@)) =~= seq![(k@, vv)]);
    object(m)
}

fn obj2(k1: &str, v1: Json, k2: &str, v2: Json) -> (j: Json)
    ensures
        j@ == jobj(seq![(k1@, v1@), (k2@, v2@)]),
{
    let ghost w1 = v1@;
    let ghost w2 = v2@;
    let mut m: Vec<(String, Json)> = Vec::new();
    m.push(member_of(k1, v1));
    m.push(member_of(k2, v2));
    assert(m@.map_values(|e: (String, Json)| (e.0@, e.1@)) =~= seq![(k1@, w1), (k2@, w2)]);
    object(m)
}

fn empty_obj() -> (j: Json)
    ensures
        j@ == jempty(),
{
    let m: Vec<(String, Json)> = Vec::new();
    assert(m@.map_values(|e: (String, Json)| (e.0@, e.1@)) =~= Seq::<(Seq<char>, JsonView)>::empty());
    object(m)
}

/// `{ns: {method: params}}`, the shape of every Kasa request.
pub open spec fn call(ns: Seq<char>, method: Seq<char>, params: JsonView) -> JsonView {
    jone(ns, jone(method, params))
}

fn call_exec(ns: &str, method: &str, params: Json) -> (j: Json)
    ensures
        j@ == call(ns@, method@, params@),
{
    obj1(ns, obj1(method, params))
}

/// The outlet context `{"context": {"child_ids": [id]}}` followed by a call.
pub open spec fn outlet_call(child_id: Seq<char>, ns: Seq<char>, method: Seq<char>, params: JsonView) -> JsonView {
    jobj(seq![
        ("context"@, jone("child_ids"@, JsonView::Array(seq![jstr(child_id)]))),
        (ns, jone(method, params)),
    ])
}

fn outlet_call_exec(child_id: &str, ns: &str, method: &str, params: Json) -> (j: Json)
    ensures
        j@ == outlet_call(child_id@, ns@, method@, params@),
{
    let mut items: Vec<Json> = Vec::new();
    items.push(string(child_id));
    assert(items@.map_values(|x: Json| x@) =~= seq![jstr(child_id@)]);
    let ids = array(items);
    obj2("context", obj1("child_ids", ids), ns, obj1(method, params))
}

// ── Kasa requests ────────────────────────────────────────────────────────────

/// The system information request.
pub fn sysinfo_request() -> (j: Json)
    ensures
        j@ == call("system"@, "get_sysinfo"@, jempty()),
{
    call_exec("system", "get_sysinfo", empty_obj())
}

/// Switches a bulb on or off, without transition.
pub fn bulb_power_request(on: bool) -> (j: Json)
    ensures
        j@ == call("smartlife.iot.smartbulb.lightingservice"@, "transition_light_state"@,
            jobj(seq![("on_off"@, jnum(flag(on))), ("transition_period"@, jnum(0))])),
{
    call_exec("smartlife.iot.smartbulb.lightingservice", "transition_light_state",
        obj2("on_off", number(if on { 1 } else { 0 }), "transition_period", number(0)))
}

/// Sets a light strip's state to `state`.
pub fn lightstrip_state_payload(state: Json) -> (j: Json)
    ensures
        j@ == call("smartlife.iot.lightStrip"@, "set_light_state"@, state@),
{
    call_exec("smartlife.iot.lightStrip", "set_light_state", state)
}

/// An object whose members are `keys` with `vals`, pairwise.
pub open spec fn zipped(keys: Seq<&str>, vals: Seq<Json>) -> Seq<(Seq<char>, JsonView)> {
    Seq::new(keys.len(), |i: int| (keys[i]@, vals[i]@))
}

fn obj_of(keys: Vec<&str>, vals: Vec<Json>) -> (j: Json)
    requires
        keys@.len() == vals@.len(),
    ensures
        j@ == jobj(zipped(keys@, vals@)),
{
    let ghost orig = vals@;
    let mut rest = vals;
    let mut m: Vec<(String, Json)> = Vec::new();
    let mut i: usize = 0;
    while i < keys.len()
        invariant
            i <= keys@.len(),
            keys@.len() == orig.len(),
            rest@ == orig.subrange(i as int, orig.len() as int),
            m@.map_values(|e: (String, Json)| (e.0@, e.1@)) == zipped(keys@, orig).take(i as int),
        decreases keys@.len() - i,
    {
        let ghost before = m@;
        let v = rest.remove(0);
        assert(v == orig[i as int]);
        let e = member_of(keys[i], v);
        assert(e.0@ == keys@[i as int]@ && e.1@ == orig[i as int]@);
        m.push(e);
        assert(rest@ =~= orig.subrange(i + 1, orig.len() as int));
        assert(m@.map_values(|e: (String, Json)| (e.0@, e.1@))
            =~= before.map_values(|e: (String, Json)| (e.0@, e.1@)).push((keys@[i as int]@, orig[i as int]@)));
        assert(zipped(keys@, orig).take(i + 1) =~= zipped(keys@, orig).take(i as int).push((keys@[i as int]@, orig[i as int]@)));
        i = i + 1;
    }
    assert(zipped(keys@, orig).take(keys@.len() as int) =~= zipped(keys@, orig));
    object(m)
}

/// A light strip's power state.
pub open spec fn lightstrip_power_spec(on: bool) -> JsonView {
    jobj(seq![("on_off"@, jnum(flag(on))), ("transition_period"@, jnum(0))])
}

/// Switches a light strip on or off.
pub fn lightstrip_power_state(on: bool) -> (j: Json)
    ensures
        j@ == lightstrip_power_spec(on),
{
    obj2("on_off", number(if on { 1 } else { 0 }), "transition_period", number(0))
}

/// A light strip's brightness state; brightness 0 switches it off.
pub open spec fn lightstrip_brightness_spec(level: u8) -> JsonView {
    if level == 0 {
        lightstrip_power_spec(false)
    } else {
        jobj(seq![
            ("brightness"@, jnum(level as u64)), ("on_off"@, jnum(1)), ("ignore_default"@, jnum(1)),
            ("transition_period"@, jnum(0)),
        ])
    }
}

/// Sets a light strip's brightness (0 switches it off).
pub fn lightstrip_brightness_state(level: u8) -> (j: Json)
    ensures
        j@ == lightstrip_brightness_spec(level),
{
    if level == 0 {
        return lightstrip_power_state(false);
    }
    let keys = vec!["brightness", "on_off", "ignore_default", "transition_period"];
    let vals = vec![number(level as u64), number(1), number(1), number(0)];
    let ghost z = zipped(keys@, vals@);
    let j = obj_of(keys, vals);
    assert(z =~= seq![
        ("brightness"@, jnum(level as u64)), ("on_off"@, jnum(1)), ("ignore_default"@, jnum(1)),
        ("transition_period"@, jnum(0)),
    ]);
    j
}

/// A light strip's color-temperature state.
pub open spec fn lightstrip_color_temp_spec(kelvin: u16) -> JsonView {
    jobj(seq![
        ("color_temp"@, jnum(kelvin as u64)), ("hue"@, jnum(0)), ("saturation"@, jnum(0)),
        ("on_off"@, jnum(1)), ("ignore_default"@, jnum(1)), ("transition_period"@, jnum(0)),
    ])
}

/// Sets a light strip's color temperature (clearing hue and saturation).
pub fn lightstrip_color_temp_state(kelvin: u16) -> (j: Json)
    ensures
        j@ == lightstrip_color_temp_spec(kelvin),
{
    let keys = vec!["color_temp", "hue", "saturation", "on_off", "ignore_default", "transition_period"];
    let vals = vec![number(kelvin as u64), number(0), number(0), number(1), number(1), number(0)];
    let ghost z = zipped(keys@, vals@);
    let j = obj_of(keys, vals);
    assert(z =~= seq![
        ("color_temp"@, jnum(kelvin as u64)), ("hue"@, jnum(0)), ("saturation"@, jnum(0)),
        ("on_off"@, jnum(1)), ("ignore_default"@, jnum(1)), ("transition_period"@, jnum(0)),
    ]);
    j
}

/// A light strip's HSV color state; value 0 switches it off.
pub open spec fn lightstrip_color_spec(hue: u16, saturation: u8, value: u8) -> JsonView {
    jobj(seq![
        ("hue"@, jnum(hue as u64)), ("saturation"@, jnum(saturation as u64)),
        ("brightness"@, jnum(value as u64)), ("color_temp"@, jnum(0)), ("on_off"@, jnum(flag(value > 0))),
        ("ignore_default"@, jnum(1)), ("transition_period"@, jnum(0)),
    ])
}

/// Sets a light strip's color (color temperature 0 selects color mode).
pub fn lightstrip_color_state(hue: u16, saturation: u8, value: u8) -> (j: Json)
    ensures
        j@ == lightstrip_color_spec(hue, saturation, value),
{
    let keys = vec!["hue", "saturation", "brightness", "color_temp", "on_off", "ignore_default", "transition_period"];
    let vals = vec![
        number(hue as u64), number(saturation as u64), number(value as u64), number(0),
        number(if value > 0 { 1 } else { 0 }), number(1), number(0),
    ];
    let ghost z = zipped(keys@, vals@);
    let j = obj_of(keys, vals);
    assert(z =~= seq![
        ("hue"@, jnum(hue as u64)), ("saturation"@, jnum(saturation as u64)),
        ("brightness"@, jnum(value as u64)), ("color_temp"@, jnum(0)), ("on_off"@, jnum(flag(value > 0))),
        ("ignore_default"@, jnum(1)), ("transition_period"@, jnum(0)),
    ]);
    j
}

/// The light-strip states, member by member and in order: switching sets
/// `on_off` and a zero transition; a brightness above 0 sets it with the
/// strip on (0 switches the strip off); a color temperature clears hue and
/// saturation with the strip on; an HSV color sets hue, saturation and
/// brightness with color temperature 0, on exactly when the value is above 0.
pub proof fn law_lightstrip_states(on: bool, level: u8, kelvin: u16, hue: u16, saturation: u8, value: u8)
    ensures
        lightstrip_power_spec(on) == JsonView::Object(seq![
            ("on_off"@, JsonView::Number(JsonNumber::PosInt(if on { 1u64 } else { 0u64 }))),
            ("transition_period"@, JsonView::Number(JsonNumber::PosInt(0))),
        ]),
        level > 0 ==> lightstrip_brightness_spec(level) == JsonView::Object(seq![
            ("brightness"@, JsonView::Number(JsonNumber::PosInt(level as u64))),
            ("on_off"@, JsonView::Number(JsonNumber::PosInt(1))),
            ("ignore_default"@, JsonView::Number(JsonNumber::PosInt(1))),
            ("transition_period"@, JsonView::Number(JsonNumber::PosInt(0))),
        ]),
        level == 0 ==> lightstrip_brightness_spec(level) == JsonView::Object(seq![
            ("on_off"@, JsonView::Number(JsonNumber::PosInt(0))),
            ("transition_period"@, JsonView::Number(JsonNumber::PosInt(0))),
        ]),
        lightstrip_color_temp_spec(kelvin) == JsonView::Object(seq![
            ("color_temp"@, JsonView::Number(JsonNumber::PosInt(kelvin as u64))),
            ("hue"@, JsonView::Number(JsonNumber::PosInt(0))),
            ("saturation"@, JsonView::Number(JsonNumber::PosInt(0))),
            ("on_off"@, JsonView::Number(JsonNumber::PosInt(1))),
            ("ignore_default"@, JsonView::Number(JsonNumber::PosInt(1))),
            ("transition_period"@, JsonView::Number(JsonNumber::PosInt(0))),
        ]),
        lightstrip_color_spec(hue, saturation, value) == JsonView::Object(seq![
            ("hue"@, JsonView::Number(JsonNumber::PosInt(hue as u64))),
            ("saturation"@, JsonView::Number(JsonNumber::PosInt(saturation as u64))),
            ("brightness"@, JsonView::Number(JsonNumber::PosInt(value as u64))),
            ("color_temp"@, JsonView::Number(JsonNumber::PosInt(0))),
            ("on_off"@, JsonView::Number(JsonNumber::PosInt(if value > 0 { 1u64 } else { 0u64 }))),
            ("ignore_default"@, JsonView::Number(JsonNumber::PosInt(1))),
            ("transition_period"@, JsonView::Number(JsonNumber::PosInt(0))),
        ]),
{
}

/// The lighting service namespace of bulbs.
pub open spec fn lighting() -> Seq<char> {
    "smartlife.iot.smartbulb.lightingservice"@
}

/// Sets a bulb's brightness.
pub fn bulb_brightness_request(level: u8) -> (j: Json)
    ensures
        j@ == call(lighting(), "transition_light_state"@,
            jobj(seq![("brightness"@, jnum(level as u64)), ("transition_period"@, jnum(0))])),
{
    call_exec("smartlife.iot.smartbulb.lightingservice", "transition_light_state",
        obj2("brightness", number(level as u64), "transition_period", number(0)))
}

/// Sets a bulb's color temperature; hue and saturation 0 clear a previous
/// color mode.
pub fn bulb_color_temp_request(kelvin: u16) -> (j: Json)
    ensures
        j@ == call(lighting(), "transition_light_state"@, jobj(seq![
            ("color_temp"@, jnum(kelvin as u64)), ("hue"@, jnum(0)), ("saturation"@, jnum(0)),
            ("transition_period"@, jnum(0)),
        ])),
{
    let keys = vec!["color_temp", "hue", "saturation", "transition_period"];
    let vals = vec![number(kelvin as u64), number(0), number(0), number(0)];
    let ghost z = zipped(keys@, vals@);
    let state = obj_of(keys, vals);
    assert(z =~= seq![
        ("color_temp"@, jnum(kelvin as u64)), ("hue"@, jnum(0)), ("saturation"@, jnum(0)),
        ("transition_period"@, jnum(0)),
    ]);
    call_exec("smartlife.iot.smartbulb.lightingservice", "transition_light_state", state)
}

/// Sets a bulb's color; color temperature 0 selects color mode (some
/// firmware ignores hue and saturation otherwise).
pub fn bulb_color_request(hue: u16, saturation: u8, value: u8) -> (j: Json)
    ensures
        j@ == call(lighting(), "transition_light_state"@, jobj(seq![
            ("hue"@, jnum(hue as u64)), ("saturation"@, jnum(saturation as u64)),
            ("brightness"@, jnum(value as u64)), ("color_temp"@, jnum(0)), ("transition_period"@, jnum(0)),
        ])),
{
    let keys = vec!["hue", "saturation", "brightness", "color_temp", "transition_period"];
    let vals = vec![number(hue as u64), number(saturation as u64), number(value as u64), number(0), number(0)];
    let ghost z = zipped(keys@, vals@);
    let state = obj_of(keys, vals);
    assert(z =~= seq![
        ("hue"@, jnum(hue as u64)), ("saturation"@, jnum(saturation as u64)),
        ("brightness"@, jnum(value as u64)), ("color_temp"@, jnum(0)), ("transition_period"@, jnum(0)),
    ]);
    call_exec("smartlife.iot.smartbulb.lightingservice", "transition_light_state", state)
}

/// Asks a bulb for its light details.
pub fn bulb_specs_request() -> (j: Json)
    ensures
        j@ == call(lighting(), "get_light_details"@, jempty()),
{
    call_exec("smartlife.iot.smartbulb.lightingservice", "get_light_details", empty_obj())
}

/// Asks a bulb for its preferred states.
pub fn bulb_presets_request() -> (j: Json)
    ensures
        j@ == call(lighting(), "get_preferred_state"@, jempty()),
{
    call_exec("smartlife.iot.smartbulb.lightingservice", "get_preferred_state", empty_obj())
}

/// The energy meter namespace: the common one on bulbs and light strips,
/// the plain one elsewhere.
pub open spec fn meter(light: bool) -> Seq<char> {
    if light { "smartlife.iot.common.emeter"@ } else { "emeter"@ }
}

fn meter_exec(light: bool) -> (s: &'static str)
    ensures
        s@ == meter(light),
{
    if light { "smartlife.iot.common.emeter" } else { "emeter" }
}

/// Asks for the current power reading.
pub fn energy_request(light: bool) -> (j: Json)
    ensures
        j@ == call(meter(light), "get_realtime"@, jempty()),
{
    call_exec(meter_exec(light), "get_realtime", empty_obj())
}

/// The parameters of a daily energy request.
pub open spec fn daystat(year: u16, month: u8) -> JsonView {
    jobj(seq![("month"@, jnum(month as u64)), ("year"@, jnum(year as u64))])
}

/// Asks for the daily energy of a month.
pub fn energy_daily_request(light: bool, year: u16, month: u8) -> (j: Json)
    ensures
        j@ == call(meter(light), "get_daystat"@, daystat(year, month)),
{
    call_exec(meter_exec(light), "get_daystat", obj2("month", number(month as u64), "year", number(year as u64)))
}

/// Asks for the monthly energy of a year.
pub fn energy_monthly_request(light: bool, year: u16) -> (j: Json)
    ensures
        j@ == call(meter(light), "get_monthstat"@, jone("year"@, jnum(year as u64))),
{
    call_exec(meter_exec(light), "get_monthstat", obj1("year", number(year as u64)))
}

/// Asks a light strip for its current lighting effect.
pub fn lighting_effect_request() -> (j: Json)
    ensures
        j@ == call("smartlife.iot.lighting_effect"@, "get_lighting_effect"@, jempty()),
{
    call_exec("smartlife.iot.lighting_effect", "get_lighting_effect", empty_obj())
}

/// Switches a relay (plug, dimmer, whole strip).
pub fn relay_request(on: bool) -> (j: Json)
    ensures
        j@ == call("system"@, "set_relay_state"@, jone("state"@, jnum(flag(on)))),
{
    call_exec("system", "set_relay_state", obj1("state", number(if on { 1 } else { 0 })))
}

/// Sets a dimmer's brightness; the HS220 refuses 0, so 0 opens the relay.
pub open spec fn dimmer_brightness_spec(level: u8) -> JsonView {
    if level == 0 {
        call("system"@, "set_relay_state"@, jone("state"@, jnum(0)))
    } else {
        call("smartlife.iot.dimmer"@, "set_brightness"@, jone("brightness"@, jnum(level as u64)))
    }
}

/// A dimmer is dimmed to a level above 0 by
/// `{"smartlife.iot.dimmer": {"set_brightness": {"brightness": level}}}`
/// and switched off at level 0 by
/// `{"system": {"set_relay_state": {"state": 0}}}`.
pub proof fn law_dimmer_request(level: u8)
    ensures
        level > 0 ==> dimmer_brightness_spec(level) == JsonView::Object(seq![("smartlife.iot.dimmer"@, JsonView::Object(seq![
            ("set_brightness"@, JsonView::Object(seq![("brightness"@, JsonView::Number(JsonNumber::PosInt(level as u64)))])),
        ]))]),
        level == 0 ==> dimmer_brightness_spec(level) == JsonView::Object(seq![("system"@, JsonView::Object(seq![
            ("set_relay_state"@, JsonView::Object(seq![("state"@, JsonView::Number(JsonNumber::PosInt(0)))])),
        ]))]),
{
}

/// Sets a dimmer's brightness (0 switches it off).
pub fn dimmer_brightness_request(level: u8) -> (j: Json)
    ensures
        j@ == dimmer_brightness_spec(level),
        level > 0 ==> j@ == JsonView::Object(seq![("smartlife.iot.dimmer"@, JsonView::Object(seq![
            ("set_brightness"@, JsonView::Object(seq![("brightness"@, JsonView::Number(JsonNumber::PosInt(level as u64)))])),
        ]))]),
        level == 0 ==> j@ == JsonView::Object(seq![("system"@, JsonView::Object(seq![
            ("set_relay_state"@, JsonView::Object(seq![("state"@, JsonView::Number(JsonNumber::PosInt(0)))])),
        ]))]),
{
    proof {
        law_dimmer_request(level);
    }
    if level == 0 {
        relay_request(false)
    } else {
        call_exec("smartlife.iot.dimmer", "set_brightness", obj1("brightness", number(level as u64)))
    }
}

/// Lights or darkens the LED; the device's flag is inverted (`off`).
pub fn led_request(on: bool) -> (j: Json)
    ensures
        j@ == call("system"@, "set_led_off"@, jone("off"@, jnum(flag(!on)))),
{
    call_exec("system", "set_led_off", obj1("off", number(if on { 0 } else { 1 })))
}

/// Asks for the schedule rules.
pub fn schedules_request() -> (j: Json)
    ensures
        j@ == call("schedule"@, "get_rules"@, jempty()),
{
    call_exec("schedule", "get_rules", empty_obj())
}

/// Asks for the device's clock.
pub fn time_request() -> (j: Json)
    ensures
        j@ == call("time"@, "get_time"@, jempty()),
{
    call_exec("time", "get_time", empty_obj())
}

/// Switches the strip outlet `child_id`.
pub fn strip_outlet_relay_request(child_id: &str, on: bool) -> (j: Json)
    ensures
        j@ == outlet_call(child_id@, "system"@, "set_relay_state"@, jone("state"@, jnum(flag(on)))),
{
    outlet_call_exec(child_id, "system", "set_relay_state", obj1("state", number(if on { 1 } else { 0 })))
}

/// Asks for the current power reading of the strip outlet `child_id`.
pub fn strip_outlet_energy_request(child_id: &str) -> (j: Json)
    ensures
        j@ == outlet_call(child_id@, "emeter"@, "get_realtime"@, jempty()),
{
    outlet_call_exec(child_id, "emeter", "get_realtime", empty_obj())
}

/// Asks for the daily energy of a month of the strip outlet `child_id`.
pub fn strip_outlet_energy_daily_request(child_id: &str, year: u16, month: u8) -> (j: Json)
    ensures
        j@ == outlet_call(child_id@, "emeter"@, "get_daystat"@, daystat(year, month)),
{
    outlet_call_exec(child_id, "emeter", "get_daystat", obj2("month", number(month as u64), "year", number(year as u64)))
}

/// Asks for the monthly energy of a year of the strip outlet `child_id`.
pub fn strip_outlet_energy_monthly_request(child_id: &str, year: u16) -> (j: Json)
    ensures
        j@ == outlet_call(child_id@, "emeter"@, "get_monthstat"@, jone("year"@, jnum(year as u64))),
{
    outlet_call_exec(child_id, "emeter", "get_monthstat", obj1("year", number(year as u64)))
}

/// Renames the strip outlet `child_id`.
pub fn strip_outlet_rename_request(child_id: &str, name: &str) -> (j: Json)
    ensures
        j@ == outlet_call(child_id@, "system"@, "set_dev_alias"@, jone("alias"@, jstr(name@))),
{
    outlet_call_exec(child_id, "system", "set_dev_alias", obj1("alias", string(name)))
}

/// Renames the device.
pub fn rename_request(name: &str) -> (j: Json)
    ensures
        j@ == call("system"@, "set_dev_alias"@, jone("alias"@, jstr(name@))),
{
    call_exec("system", "set_dev_alias", obj1("alias", string(name)))
}

/// Reboots the device after a second.
pub fn restart_request() -> (j: Json)
    ensures
        j@ == call("system"@, "reboot"@, jone("delay"@, jnum(1))),
{
    call_exec("system", "reboot", obj1("delay", number(1)))
}

// ── Tapo requests ────────────────────────────────────────────────────────────

/// A Tapo request: `{"method": method, "params": params}`.
pub open spec fn tapo_call(method: Seq<char>, params: JsonView) -> JsonView {
    jobj(seq![("method"@, jstr(method)), ("params"@, params)])
}

/// Asks a Tapo device for its information.
pub fn tapo_device_info_request() -> (j: Json)
    ensures
        j@ == tapo_call("get_device_info"@, jempty()),
{
    obj2("method", string("get_device_info"), "params", empty_obj())
}

/// Asks a Tapo device for its energy usage.
pub fn tapo_energy_usage_request() -> (j: Json)
    ensures
        j@ == tapo_call("get_energy_usage"@, jempty()),
{
    obj2("method", string("get_energy_usage"), "params", empty_obj())
}

/// Switches a Tapo device.
pub fn tapo_power_request(on: bool) -> (j: Json)
    ensures
        j@ == tapo_call("set_device_info"@, jone("device_on"@, JsonView::Bool(on))),
{
    obj2("method", string("set_device_info"), "params", obj1("device_on", Json::Bool(on)))
}

/// The error code of a Tapo answer, 0 when it has none.
pub open spec fn tapo_error_code(resp: Json) -> i64 {
    match i64_of(member(resp, "error_code"@)) {
        Some(c) => c,
        None => 0,
    }
}

/// A Tapo answer with a non-zero error code is a failure.
pub fn check_tapo_error(resp: &Json) -> (r: Result<(), String>)
    ensures
        match r {
            Ok(()) => tapo_error_code(*resp) == 0,
            Err(m) => tapo_error_code(*resp) != 0
                && m@ == "Tapo device error: code "@ + signed_decimal(tapo_error_code(*resp) as int),
        },
{
    let code: i64 = match resp.get("error_code") {
        Some(v) => match v.as_i64() {
            Some(c) => c,
            None => 0,
        },
        None => 0,
    };
    if code != 0 {
        let mut m = String::from_str("Tapo device error: code ");
        if code < 0 {
            m.append("-");
            let mag: u64 = if code == i64::MIN { 0x8000_0000_0000_0000u64 } else { (-code) as u64 };
            append_chars(&mut m, &decimal_chars(mag));
        } else {
            append_chars(&mut m, &decimal_chars(code as u64));
        }
        return Err(m);
    }
    Ok(())
}

/// Whether a Tapo device's information says it is on (false when unsaid).
pub open spec fn tapo_reports_on(info: Json) -> bool {
    match member(info, "result"@) {
        Some(r) => bool_of(member(r, "device_on"@)) == Some(true),
        None => false,
    }
}

/// Whether a Tapo device's information says it is on.
pub fn tapo_is_on(info: &Json) -> (b: bool)
    ensures
        b == tapo_reports_on(*info),
{
    match info.get("result") {
        Some(r) => match r.get("device_on") {
            Some(v) => match v.as_bool() {
                Some(b) => b,
                None => false,
            },
            None => false,
        },
        None => false,
    }
}

// ── Power by kind ────────────────────────────────────────────────────────────

/// The request that switches a Kasa device of kind `k`: bulbs through
/// their lighting service, light strips through theirs, everything else
/// through its relay; refused when the kind has no power control.
pub open spec fn kasa_power_spec(k: DeviceKind, on: bool, r: Result<Json, String>) -> bool {
    match power_message(k) {
        Some(m) => r matches Err(e) && e@ == m,
        None => match r {
            Ok(j) => j@ == match k {
                DeviceKind::Bulb => call(lighting(), "transition_light_state"@,
                    jobj(seq![("on_off"@, jnum(flag(on))), ("transition_period"@, jnum(0))])),
                DeviceKind::LightStrip => call("smartlife.iot.lightStrip"@, "set_light_state"@, lightstrip_power_spec(on)),
                _ => call("system"@, "set_relay_state"@, jone("state"@, jnum(flag(on)))),
            },
            Err(_) => false,
        },
    }
}

/// The request that switches a Kasa device of kind `kind` (see
/// `kasa_power_spec`).
pub fn kasa_power_request(kind: &DeviceKind, on: bool) -> (r: Result<Json, String>)
    ensures
        kasa_power_spec(*kind, on, r),
{
    match can_control_power(kind) {
        Err(e) => {
            return Err(e);
        },
        Ok(()) => {},
    }
    match kind {
        DeviceKind::Bulb => Ok(bulb_power_request(on)),
        DeviceKind::LightStrip => Ok(lightstrip_state_payload(lightstrip_power_state(on))),
        _ => Ok(relay_request(on)),
    }
}

// ── Lighting effects ─────────────────────────────────────────────────────────

/// An array of small numbers.
pub open spec fn num_list(v: Seq<u64>) -> JsonView {
    JsonView::Array(v.map_values(|x: u64| jnum(x)))
}

/// The bytes `v` widened.
pub open spec fn wide8(v: Seq<u8>) -> Seq<u64> {
    v.map_values(|x: u8| x as u64)
}

/// The 16-bit values `v` widened.
pub open spec fn wide16(v: Seq<u16>) -> Seq<u64> {
    v.map_values(|x: u16| x as u64)
}

fn u8_array(v: &Vec<u8>) -> (j: Json)
    ensures
        j@ == num_list(wide8(v@)),
{
    let mut items: Vec<Json> = Vec::new();
    let mut i: usize = 0;
    while i < v.len()
        invariant
            i <= v@.len(),
            items@.map_values(|x: Json| x@) == num_list(wide8(v@.take(i as int)))->Array_0,
        decreases v@.len() - i,
    {
        let ghost before = items@;
        items.push(number(v[i] as u64));
        assert(items@.map_values(|x: Json| x@) =~= before.map_values(|x: Json| x@).push(jnum(v@[i as int] as u64)));
        assert(num_list(wide8(v@.take(i + 1)))->Array_0 =~= num_list(wide8(v@.take(i as int)))->Array_0.push(jnum(v@[i as int] as u64)));
        i = i + 1;
    }
    assert(v@.take(v@.len() as int) =~= v@);
    array(items)
}

fn u16_array(v: &Vec<u16>) -> (j: Json)
    ensures
        j@ == num_list(wide16(v@)),
{
    let mut items: Vec<Json> = Vec::new();
    let mut i: usize = 0;
    while i < v.len()
        invariant
            i <= v@.len(),
            items@.map_values(|x: Json| x@) == num_list(wide16(v@.take(i as int)))->Array_0,
        decreases v@.len() - i,
    {
        let ghost before = items@;
        items.push(number(v[i] as u64));
        assert(items@.map_values(|x: Json| x@) =~= before.map_values(|x: Json| x@).push(jnum(v@[i as int] as u64)));
        assert(num_list(wide16(v@.take(i + 1)))->Array_0 =~= num_list(wide16(v@.take(i as int)))->Array_0.push(jnum(v@[i as int] as u64)));
        i = i + 1;
    }
    assert(v@.take(v@.len() as int) =~= v@);
    array(items)
}

/// An array of byte arrays.
pub open spec fn nested_list(v: Seq<Vec<u8>>) -> JsonView {
    JsonView::Array(v.map_values(|x: Vec<u8>| num_list(wide8(x@))))
}

fn nested_array(v: &Vec<Vec<u8>>) -> (j: Json)
    ensures
        j@ == nested_list(v@),
{
    let mut items: Vec<Json> = Vec::new();
    let mut i: usize = 0;
    while i < v.len()
        invariant
            i <= v@.len(),
            items@.map_values(|x: Json| x@) == nested_list(v@.take(i as int))->Array_0,
        decreases v@.len() - i,
    {
        let ghost before = items@;
        items.push(u8_array(&v[i]));
        assert(items@.map_values(|x: Json| x@) =~= before.map_values(|x: Json| x@).push(num_list(wide8(v@[i as int]@))));
        assert(nested_list(v@.take(i + 1))->Array_0 =~= nested_list(v@.take(i as int))->Array_0.push(num_list(wide8(v@[i as int]@))));
        i = i + 1;
    }
    assert(v@.take(v@.len() as int) =~= v@);
    array(items)
}

/// A member present only when its value is.
pub open spec fn optional(k: Seq<char>, v: Option<JsonView>) -> Seq<(Seq<char>, JsonView)> {
    match v {
        Some(x) => seq![(k, x)],
        None => Seq::empty(),
    }
}

/// The effect descriptor sent to set a lighting effect: `enable` and
/// `name` as given, then the current effect's `custom` and every field of
/// it that is present (absent ones are left out, not sent as null).
pub open spec fn effect_request_spec(e: LightingEffectState, name: Seq<char>, enable: u8) -> JsonView {
    jobj(
        seq![("enable"@, jnum(enable as u64)), ("name"@, jstr(name)), ("custom"@, jnum(e.custom as u64))]
            + optional("id"@, match e.id { Some(x) => Some(jstr(x@)), None => None })
            + optional("brightness"@, match e.brightness { Some(x) => Some(jnum(x as u64)), None => None })
            + optional("segments"@, match e.segments { Some(x) => Some(num_list(wide8(x@))), None => None })
            + optional("expansion_strategy"@, match e.expansion_strategy { Some(x) => Some(jnum(x as u64)), None => None })
            + optional("type"@, match e.effect_type { Some(x) => Some(jstr(x@)), None => None })
            + optional("hue_range"@, match e.hue_range { Some(x) => Some(num_list(wide16(x@))), None => None })
            + optional("saturation_range"@, match e.saturation_range { Some(x) => Some(num_list(wide8(x@))), None => None })
            + optional("brightness_range"@, match e.brightness_range { Some(x) => Some(num_list(wide8(x@))), None => None })
            + optional("duration"@, match e.duration { Some(x) => Some(jnum(x as u64)), None => None })
            + optional("transition"@, match e.transition { Some(x) => Some(jnum(x as u64)), None => None })
            + optional("transition_range"@, match e.transition_range { Some(x) => Some(num_list(wide16(x@))), None => None })
            + optional("init_states"@, match e.init_states { Some(x) => Some(nested_list(x@)), None => None }),
    )
}

fn push_optional(m: &mut Vec<(String, Json)>, k: &str, v: Option<Json>)
    ensures
        final(m)@.map_values(|e: (String, Json)| (e.0@, e.1@)) == old(m)@.map_values(|e: (String, Json)| (e.0@, e.1@))
            + optional(k@, match v { Some(x) => Some(x@), None => None }),
{
    match v {
        Some(x) => {
            let ghost xv = x@;
            let e = member_of(k, x);
            m.push(e);
            assert(final(m)@.map_values(|e: (String, Json)| (e.0@, e.1@)) =~= old(m)@.map_values(|e: (String, Json)| (e.0@, e.1@)) + seq![(k@, xv)]);
        },
        None => {
            assert(m@.map_values(|e: (String, Json)| (e.0@, e.1@)) =~= old(m)@.map_values(|e: (String, Json)| (e.0@, e.1@)) + Seq::empty());
        },
    }
}

fn opt_str(v: &Option<String>) -> (r: Option<Json>)
    ensures
        match r { Some(x) => Some(x@), None => None } == match *v { Some(x) => Some(jstr(x@)), None => None },
{
    match v {
        Some(x) => Some(string(x.as_str())),
        None => None,
    }
}

/// The descriptor that sets lighting effect `name` (enabled when `enable`
/// is 1) on a strip whose current effect is `effect`.
pub fn lightstrip_effect_request(effect: &LightingEffectState, name: &str, enable: u8) -> (j: Json)
    ensures
        j@ == effect_request_spec(*effect, name@, enable),
{
    let mut m: Vec<(String, Json)> = Vec::new();
    m.push(member_of("enable", number(enable as u64)));
    m.push(member_of("name", string(name)));
    m.push(member_of("custom", number(effect.custom as u64)));
    assert(m@.map_values(|e: (String, Json)| (e.0@, e.1@))
        =~= seq![("enable"@, jnum(enable as u64)), ("name"@, jstr(name@)), ("custom"@, jnum(effect.custom as u64))]);
    push_optional(&mut m, "id", opt_str(&effect.id));
    push_optional(&mut m, "brightness", match effect.brightness { Some(x) => Some(number(x as u64)), None => None });
    push_optional(&mut m, "segments", match &effect.segments { Some(x) => Some(u8_array(x)), None => None });
    push_optional(&mut m, "expansion_strategy", match effect.expansion_strategy { Some(x) => Some(number(x as u64)), None => None });
    push_optional(&mut m, "type", opt_str(&effect.effect_type));
    push_optional(&mut m, "hue_range", match &effect.hue_range { Some(x) => Some(u16_array(x)), None => None });
    push_optional(&mut m, "saturation_range", match &effect.saturation_range { Some(x) => Some(u8_array(x)), None => None });
    push_optional(&mut m, "brightness_range", match &effect.brightness_range { Some(x) => Some(u8_array(x)), None => None });
    push_optional(&mut m, "duration", match effect.duration { Some(x) => Some(number(x as u64)), None => None });
    push_optional(&mut m, "transition", match effect.transition { Some(x) => Some(number(x as u64)), None => None });
    push_optional(&mut m, "transition_range", match &effect.transition_range { Some(x) => Some(u16_array(x)), None => None });
    push_optional(&mut m, "init_states", match &effect.init_states { Some(x) => Some(nested_array(x)), None => None });
    object(m)
}

/// Sets lighting effect `name` (see `lightstrip_effect_request`).
pub fn lightstrip_effect_payload(effect: &LightingEffectState, name: &str, enable: u8) -> (j: Json)
    ensures
        j@ == call("smartlife.iot.lighting_effect"@, "set_lighting_effect"@, effect_request_spec(*effect, name@, enable)),
{
    call_exec("smartlife.iot.lighting_effect", "set_lighting_effect", lightstrip_effect_request(effect, name, enable))
}

} // verus!
