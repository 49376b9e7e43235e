use denki::classify::{detect_kind, is_plug_switch, require_energy, toggle_target};
use denki::devices::DeviceKind;
use denki::json::{Json, JsonNumber};
use denki::plug::Plug;
use denki::strip::{Strip, StripChild};

fn to_json(v: &serde_json::Value) -> Json {
    match v {
        serde_json::Value::Null => Json::Null,
        serde_json::Value::Bool(b) => Json::Bool(*b),
        serde_json::Value::Number(n) => {
            if let Some(u) = n.as_u64() {
                Json::Number(JsonNumber::PosInt(u))
            } else if let Some(i) = n.as_i64() {
                Json::Number(JsonNumber::NegInt(i))
            } else {
                Json::Number(JsonNumber::Float)
            }
        }
        serde_json::Value::String(s) => Json::Str(s.clone()),
        serde_json::Value::Array(a) => Json::Array(a.iter().map(to_json).collect()),
        serde_json::Value::Object(m) => Json::Object(m.iter().map(|(k, v)| (k.clone(), to_json(v))).collect()),
    }
}

fn json(text: &str) -> Json {
    to_json(&serde_json::from_str(text).unwrap())
}

fn plug(model: &str, feature: Option<&str>, relay: u8) -> Plug {
    Plug {
        alias: "Test Plug".to_string(),
        model: model.to_string(),
        hw_ver: "1.0".to_string(),
        sw_ver: "1.0.0".to_string(),
        rssi: -50,
        relay_state: relay,
        on_time: 0,
        led_off: 0,
        feature: feature.map(str::to_string),
    }
}

fn child(id: &str, state: u8, alias: &str) -> StripChild {
    StripChild { id: id.to_string(), alias: alias.to_string(), state, on_time: 0 }
}

fn strip(model: &str, feature: &str, children: Vec<StripChild>) -> Strip {
    Strip {
        alias: "Test Strip".to_string(),
        model: model.to_string(),
        hw_ver: "1.0".to_string(),
        sw_ver: "1.0.0".to_string(),
        rssi: -40,
        relay_state: 0,
        feature: Some(feature.to_string()),
        children,
    }
}

fn check_separates_bulbs_and_light_strips() {
    let bulb = json(r#"{"system": {"get_sysinfo": {"mic_type": "IOT.SMARTBULB"}}}"#);
    let strip = json(r#"{"system": {"get_sysinfo": {"mic_type": "IOT.SMARTBULB", "length": 200}}}"#);
    assert_eq!(detect_kind(&bulb), DeviceKind::Bulb);
    assert_eq!(detect_kind(&strip), DeviceKind::LightStrip);
}

fn check_prefers_dimmer_then_strip_then_plug() {
    let dimmer = json(r#"{"system": {"get_sysinfo": {"mic_type": "IOT.SMARTPLUGSWITCH", "dev_name": "Smart Wi-Fi Dimmer"}}}"#);
    let strip = json(r#"{"system": {"get_sysinfo": {"mic_type": "IOT.SMARTPLUGSWITCH", "dev_name": "Power Strip", "children": []}}}"#);
    let plug = json(r#"{"system": {"get_sysinfo": {"type": "IOT.SMARTPLUGSWITCH", "dev_name": "Smart Wi-Fi Plug"}}}"#);
    assert_eq!(detect_kind(&dimmer), DeviceKind::Dimmer);
    assert_eq!(detect_kind(&strip), DeviceKind::Strip);
    assert_eq!(detect_kind(&plug), DeviceKind::Plug);
}

fn check_preserves_unknown_type() {
    let j = json(r#"{"system": {"get_sysinfo": {"mic_type": "IOT.UNKNOWN"}}}"#);
    assert_eq!(detect_kind(&j).display_name(), "unknown (IOT.UNKNOWN)");
}

fn check_missing_type_is_unknown_empty() {
    let j = json(r#"{"system": {"get_sysinfo": {}}}"#);
    assert_eq!(detect_kind(&j), DeviceKind::Unknown(String::new()));
}

#[test]
fn tests_detect_kind_separates_bulbs_and_light_strips() {
    check_separates_bulbs_and_light_strips();
}

#[test]
fn tests_detect_kind_prefers_dimmer_then_strip_then_plug() {
    check_prefers_dimmer_then_strip_then_plug();
}

#[test]
fn tests_detect_kind_preserves_unknown_type() {
    check_preserves_unknown_type();
}

#[test]
fn tests_detect_kind_missing_type_is_unknown_empty() {
    check_missing_type_is_unknown_empty();
}

#[test]
fn kinds_detect_kind_separates_bulbs_and_light_strips() {
    check_separates_bulbs_and_light_strips();
}

#[test]
fn kinds_detect_kind_prefers_dimmer_then_strip_then_plug() {
    check_prefers_dimmer_then_strip_then_plug();
}

#[test]
fn kinds_detect_kind_preserves_unknown_type() {
    check_preserves_unknown_type();
}

#[test]
fn kinds_detect_kind_missing_type_is_unknown_empty() {
    check_missing_type_is_unknown_empty();
}

#[test]
fn plug_switch_gate_reads_mic_type_then_type() {
    assert!(is_plug_switch(&json(r#"{"mic_type": "IOT.SMARTPLUGSWITCH"}"#)));
    assert!(is_plug_switch(&json(r#"{"type": "IOT.SMARTPLUGSWITCH"}"#)));
    assert!(!is_plug_switch(&json(r#"{"mic_type": "IOT.SMARTBULB"}"#)));
    assert!(!is_plug_switch(&json(r#"{}"#)));
}

fn check_energy_plug_with_ene() {
    assert!(require_energy(&DeviceKind::Plug, &Some(plug("KP115(US)", Some("TIM:ENE"), 1)), &None).is_ok());
}

fn check_energy_plug_without_ene() {
    let mut p = plug("HS105(US)", Some("TIM"), 0);
    p.alias = "Simple Plug".to_string();
    let msg = require_energy(&DeviceKind::Plug, &Some(p), &None).unwrap_err();
    assert!(msg.contains("HS105"), "error should name the model: {msg}");
    assert!(msg.contains("energy"), "{msg}");
    assert_eq!(msg, "Simple Plug (HS105(US)) does not have energy monitoring (feature: Some(\"TIM\"))");
}

fn check_energy_lights_ok() {
    assert!(require_energy(&DeviceKind::Bulb, &None, &None).is_ok());
    assert!(require_energy(&DeviceKind::LightStrip, &None, &None).is_ok());
}

fn check_energy_unknown_fails() {
    assert!(require_energy(&DeviceKind::Dimmer, &None, &None).is_err());
    let msg = require_energy(&DeviceKind::Unknown("X".into()), &None, &None).unwrap_err();
    assert_eq!(msg, "unknown (X) does not support energy monitoring");
}

#[test]
fn tests_require_energy_plug_with_ene_feature_succeeds() {
    check_energy_plug_with_ene();
}

#[test]
fn tests_require_energy_plug_without_ene_fails_with_model_name() {
    check_energy_plug_without_ene();
}

#[test]
fn tests_require_energy_bulb_and_lightstrip_always_ok() {
    check_energy_lights_ok();
}

#[test]
fn tests_require_energy_unknown_kind_fails() {
    check_energy_unknown_fails();
}

#[test]
fn guards_require_energy_plug_with_ene_feature_succeeds() {
    check_energy_plug_with_ene();
}

#[test]
fn guards_require_energy_plug_without_ene_fails_with_model_name() {
    check_energy_plug_without_ene();
}

#[test]
fn guards_require_energy_bulb_and_lightstrip_always_ok() {
    check_energy_lights_ok();
}

#[test]
fn guards_require_energy_unknown_kind_fails() {
    check_energy_unknown_fails();
}

#[test]
fn require_energy_bails_when_parse_fails() {
    assert_eq!(require_energy(&DeviceKind::Plug, &None, &None).unwrap_err(), "could not parse plug sysinfo");
    assert_eq!(require_energy(&DeviceKind::Strip, &None, &None).unwrap_err(), "could not parse strip sysinfo");
}

#[test]
fn toggle_target_bulb_on_returns_false() {
    let j = json(r#"{"system": {"get_sysinfo": {"light_state": {"on_off": 1}}}}"#);
    assert!(!toggle_target(&DeviceKind::Bulb, &j, &None));
}

#[test]
fn toggle_target_bulb_off_returns_true() {
    let j = json(r#"{"system": {"get_sysinfo": {"light_state": {"on_off": 0}}}}"#);
    assert!(toggle_target(&DeviceKind::Bulb, &j, &None));
}

#[test]
fn toggle_target_plug_on_returns_false() {
    let j = json(r#"{"system": {"get_sysinfo": {"relay_state": 1}}}"#);
    assert!(!toggle_target(&DeviceKind::Plug, &j, &None));
}

#[test]
fn toggle_target_plug_off_returns_true() {
    let j = json(r#"{"system": {"get_sysinfo": {"relay_state": 0}}}"#);
    assert!(toggle_target(&DeviceKind::Plug, &j, &None));
}

#[test]
fn toggle_target_dimmer_on_returns_false() {
    let j = json(r#"{"system": {"get_sysinfo": {"relay_state": 1}}}"#);
    assert!(!toggle_target(&DeviceKind::Dimmer, &j, &None));
}

#[test]
fn toggle_target_dimmer_off_returns_true() {
    let j = json(r#"{"system": {"get_sysinfo": {"relay_state": 0}}}"#);
    assert!(toggle_target(&DeviceKind::Dimmer, &j, &None));
}

#[test]
fn toggle_target_strip_any_on_returns_false() {
    let s = strip("HS300(US)", "TIM", vec![child("A1", 1, "Outlet 1"), child("A2", 0, "Outlet 2")]);
    assert!(!toggle_target(&DeviceKind::Strip, &Json::Null, &Some(s)));
}

#[test]
fn toggle_target_strip_all_off_returns_true() {
    let s = strip("HS300(US)", "TIM", vec![child("A1", 0, "Outlet 1"), child("A2", 0, "Outlet 2")]);
    assert!(toggle_target(&DeviceKind::Strip, &Json::Null, &Some(s)));
}

#[test]
fn returns_off_when_zero() {
    let mut p = plug("KP115(US)", None, 0);
    p.on_time = 0;
    assert_eq!(p.on_time_fmt(), "off");
}

#[test]
fn delegates_to_fmt_duration_when_nonzero() {
    let mut p = plug("KP115(US)", None, 1);
    p.on_time = 3661;
    assert_eq!(p.on_time_fmt(), "1h 1m");
    p.on_time = 90;
    assert_eq!(p.on_time_fmt(), "1m 30s");
    p.on_time = 45;
    assert_eq!(p.on_time_fmt(), "45s");
}

#[test]
fn short_outlet_ids_get_the_device_id_in_front() {
    let mut s = strip("HS300(US)", "TIM:ENE", vec![child("00", 0, "a"), child("01", 1, "b")]);
    s.expand_child_ids(Some("8006ABCDEF"));
    assert_eq!(s.children[0].id, "8006ABCDEF00");
    assert_eq!(s.children[1].id, "8006ABCDEF01");
}

#[test]
fn parse_preserves_full_child_ids_when_already_long() {
    let long = "8006ABCDEF0123456789ABCDEF0123456789AB00";
    let mut s = strip("HS300(US)", "TIM:ENE", vec![child(long, 0, "a")]);
    s.expand_child_ids(Some("8006ABCDEF"));
    assert_eq!(s.children[0].id, long);
}

#[test]
fn current_year_month_returns_plausible_values() {
    let (year, month) = denki::fmt::current_year_month();
    assert!(year >= 2024, "year should be 2024 or later, got {year}");
    assert!((1..=12).contains(&month), "month should be 1-12, got {month}");
}

#[test]
fn epoch_is_january_1970() {
    assert_eq!(denki::fmt::year_month_from_days(0), (1970, 1));
    assert_eq!(denki::fmt::year_month_from_days(20454), (2026, 1));
}

#[test]
fn energy_refusal_shows_a_missing_feature_as_none() {
    let mut p = plug("HS105(US)", None, 0);
    p.alias = "Bare Plug".to_string();
    let msg = require_energy(&DeviceKind::Plug, &Some(p), &None).unwrap_err();
    assert_eq!(msg, "Bare Plug (HS105(US)) does not have energy monitoring (feature: None)");
}
