use denki::admin::{format_alias_rows, format_clock};
use denki::bulb::{Bulb, LightState, LightingEffectState};
use denki::creds::{malformed_creds_context, missing_creds_context};
use denki::dimmer::Dimmer;
use denki::display::{format_wday, outlet_labels, outlets_on, schedule_rows, short_fw, signal_strength, SignalStrength};
use denki::doctor::{kasa_report, tapo_report, DoctorReport};
use denki::effects::{catalog, choose_effect, resolve};
use denki::group::{heading, no_match, summarize, GroupAction, GroupResult};
use denki::hints::{caps_label, dimmer_hints, lightstrip_hints, plug_hints, strip_hints};
use denki::hosts::{HostEntry, HostMap, Protocol};
use denki::json::{Json, JsonNumber};
use denki::ops::{check_tapo_error, kasa_power_request, lightstrip_effect_payload, lightstrip_state_payload, tapo_is_on};
use denki::plug::Plug;
use denki::resolve::{require_kasa, resolve_in, resolve_outlet, strip_energy_outlet, strip_outlet, Resolved};
use denki::scan::{broadcast_targets, first_reply, klap_targets, record_reply, scan_footer};
use denki::strip::{Strip, StripChild};
use denki::transport::{connect_error, connect_timeout_error, IoKind};

fn to_json(v: &serde_json::Value) -> Json {
    match v {
        serde_json::Value::Null => Json::Null,
        serde_json::Value::Bool(b) => Json::Bool(*b),
        serde_json::Value::Number(n) => {
            if let Some(u) = n.as_u64() {
                Json::Number(JsonNumber::PosInt(u))
            } else if let Some(i) = n.as_i64() {
                Json::Number(JsonNumber::NegInt(i))
            } else {
                Json::Number(JsonNumber::Float)
            }
        }
        serde_json::Value::String(s) => Json::Str(s.clone()),
        serde_json::Value::Array(a) => Json::Array(a.iter().map(to_json).collect()),
        serde_json::Value::Object(m) => Json::Object(m.iter().map(|(k, v)| (k.clone(), to_json(v))).collect()),
    }
}

fn from_json(j: &Json) -> serde_json::Value {
    match j {
        Json::Null => serde_json::Value::Null,
        Json::Bool(b) => serde_json::Value::Bool(*b),
        Json::Number(JsonNumber::PosInt(u)) => serde_json::Value::from(*u),
        Json::Number(JsonNumber::NegInt(i)) => serde_json::Value::from(*i),
        Json::Number(JsonNumber::Float) => serde_json::Value::Null,
        Json::Str(s) => serde_json::Value::String(s.clone()),
        Json::Array(a) => serde_json::Value::Array(a.iter().map(from_json).collect()),
        Json::Object(m) => serde_json::Value::Object(m.iter().map(|(k, v)| (k.clone(), from_json(v))).collect()),
    }
}

fn json(text: &str) -> Json {
    to_json(&serde_json::from_str(text).unwrap())
}

fn value(text: &str) -> serde_json::Value {
    serde_json::from_str(text).unwrap()
}

fn plug_for_hints(model: &str, is_on: bool, ene: bool) -> Plug {
    Plug {
        alias: "Test".to_string(),
        model: model.to_string(),
        hw_ver: "1.0".to_string(),
        sw_ver: "1.0.0".to_string(),
        rssi: -50,
        relay_state: u8::from(is_on),
        on_time: 0,
        led_off: 0,
        feature: Some(if ene { "TIM:ENE" } else { "TIM" }.to_string()),
    }
}

fn strip_for_hints(model: &str, ene: bool) -> Strip {
    Strip {
        alias: "Test".to_string(),
        model: model.to_string(),
        hw_ver: "1.0".to_string(),
        sw_ver: "1.0.0".to_string(),
        rssi: -40,
        relay_state: 0,
        feature: Some(if ene { "TIM:ENE" } else { "TIM" }.to_string()),
        children: vec![],
    }
}

fn lightstrip_for_hints(model: &str, is_on: bool) -> Bulb {
    Bulb {
        alias: "Test Light Strip".to_string(),
        model: model.to_string(),
        hw_ver: "1.0".to_string(),
        sw_ver: "1.0.0".to_string(),
        rssi: -40,
        is_color: 1,
        is_dimmable: 1,
        is_variable_color_temp: 1,
        light_state: LightState {
            on_off: u8::from(is_on),
            brightness: Some(80),
            color_temp: Some(0),
            hue: Some(5),
            saturation: Some(80),
            dft_on_state: None,
        },
        lighting_effect_state: None,
    }
}

fn dimmer_for_hints() -> Dimmer {
    Dimmer {
        alias: "d".to_string(),
        model: "HS220".to_string(),
        hw_ver: "1.0".to_string(),
        sw_ver: "1.0.0".to_string(),
        rssi: -50,
        relay_state: 0,
        brightness: 80,
        feature: None,
    }
}

#[test]
fn plug_hints_ene_plug_includes_energy() {
    let h = plug_hints(&plug_for_hints("KP115", false, true), "plug");
    assert!(h.iter().any(|s| s.contains("energy")), "hints: {h:?}");
}

#[test]
fn plug_hints_no_ene_excludes_energy() {
    let h = plug_hints(&plug_for_hints("HS105", false, false), "plug");
    assert!(!h.iter().any(|s| s.contains("energy")), "hints: {h:?}");
}

#[test]
fn plug_hints_on_plug_starts_with_off() {
    assert_eq!(plug_hints(&plug_for_hints("KP115", true, true), "p")[0], "denki off \"p\"");
}

#[test]
fn plug_hints_off_plug_starts_with_on() {
    assert_eq!(plug_hints(&plug_for_hints("KP115", false, true), "p")[0], "denki on \"p\"");
}

#[test]
fn strip_hints_ene_strip_includes_per_outlet_energy() {
    let h = strip_hints(&strip_for_hints("HS300", true), "strip");
    assert!(h.iter().any(|s| s.contains("energy") && s.contains(" 1")), "hints: {h:?}");
}

#[test]
fn strip_hints_no_ene_excludes_energy() {
    let h = strip_hints(&strip_for_hints("KP303", false), "strip");
    assert!(!h.iter().any(|s| s.contains("energy")), "hints: {h:?}");
}

#[test]
fn strip_hints_always_includes_per_outlet_on_off() {
    let h = strip_hints(&strip_for_hints("HS300", true), "strip");
    assert!(h.iter().any(|s| s.contains("on") && s.contains(" 1")));
    assert!(h.iter().any(|s| s.contains("off") && s.contains(" 1")));
}

#[test]
fn strip_hints_includes_outlet_rename() {
    let h = strip_hints(&strip_for_hints("HS300", true), "strip");
    assert!(h.iter().any(|s| s.contains("outlet-rename")), "hints: {h:?}");
}

#[test]
fn lightstrip_hints_for_kl420l5_include_energy_and_monthly_commands() {
    let h = lightstrip_hints(&lightstrip_for_hints("KL420L5", false), "lights");
    assert!(h.iter().any(|s| s.contains("energy \"lights\"")), "hints: {h:?}");
    assert!(h.iter().any(|s| s.contains("energy-daily \"lights\"")), "hints: {h:?}");
    assert!(h.iter().any(|s| s.contains("energy-monthly \"lights\"")), "hints: {h:?}");
    assert!(!h.iter().any(|s| s == "denki on \"lights\""), "light strip should not advertise power control: {h:?}");
}

#[test]
fn dimmer_hints_includes_dim_and_schedules() {
    let h = dimmer_hints(&dimmer_for_hints(), "d");
    assert!(h.iter().any(|s| s.contains("dim")), "hints: {h:?}");
    assert!(h.iter().any(|s| s.contains("schedules")), "hints: {h:?}");
}

#[test]
fn caps_label_lists_reported_capabilities() {
    let b = lightstrip_for_hints("KL135", true);
    assert_eq!(caps_label(&b), "color, color-temp, dimmable");
    let mut plain = lightstrip_for_hints("KL135", true);
    plain.is_color = 0;
    plain.is_variable_color_temp = 0;
    assert_eq!(caps_label(&plain), "dimmable");
}

#[test]
fn resolve_matches_exact_and_partial_names() {
    assert_eq!(resolve("Rainbow"), Some("Rainbow"));
    assert_eq!(resolve("bubbl"), Some("Bubbling Cauldron"));
    assert_eq!(resolve("Bubbling Cauldron"), Some("Bubbling Cauldron"));
}

#[test]
fn resolve_rejects_unknown_or_ambiguous_names() {
    assert_eq!(resolve(""), None);
    assert_eq!(resolve("x"), None);
    assert_eq!(resolve("rain"), None);
    assert_eq!(resolve("ca"), None);
}

#[test]
fn effect_choice_turns_off_or_lists_the_effects() {
    assert_eq!(choose_effect("OFF"), Ok(None));
    assert_eq!(choose_effect("aurora"), Ok(Some("Aurora")));
    let err = choose_effect("disco").unwrap_err();
    assert!(err.starts_with("No light-strip effect named \"disco\" found. Available effects: Off, Aurora, "), "{err}");
    assert!(err.ends_with("Spring, Valentines"), "{err}");
}

#[test]
fn catalog_marks_the_current_effect() {
    let c = catalog("rainbow");
    assert_eq!(c.len(), 15);
    assert!(c.iter().any(|(e, sel)| *e == "Rainbow" && *sel));
    assert!(c.iter().filter(|(_, sel)| *sel).count() == 1);
    assert!(!catalog("off").iter().any(|(_, sel)| *sel));
}

fn resolved(protocol: Protocol) -> Resolved {
    Resolved { ip: "1.2.3.4".into(), protocol, saved_name: None }
}

#[test]
fn require_kasa_allows_kasa_protocol() {
    assert!(require_kasa(&resolved(Protocol::Kasa), "energy").is_ok());
}

#[test]
fn require_kasa_rejects_klap_protocol() {
    let err = require_kasa(&resolved(Protocol::Klap), "energy").unwrap_err();
    assert!(err.contains("`energy`"), "{err}");
}

fn make_strip(n: usize) -> Strip {
    let children = (1..=n)
        .map(|i| StripChild { id: format!("ABC{i:02}"), state: 0, alias: format!("Outlet {i}"), on_time: 0 })
        .collect();
    Strip {
        alias: "Test Strip".to_string(),
        model: "HS300(US)".to_string(),
        hw_ver: "1.0".to_string(),
        sw_ver: "1.0.0".to_string(),
        rssi: -40,
        relay_state: 0,
        feature: Some("TIM".to_string()),
        children,
    }
}

#[test]
fn resolve_outlet_returns_child_at_1_based_index() {
    let strip = make_strip(3);
    assert_eq!(resolve_outlet(&strip, 1).unwrap().alias, "Outlet 1");
    assert_eq!(resolve_outlet(&strip, 3).unwrap().alias, "Outlet 3");
}

#[test]
fn resolve_outlet_out_of_range_errors() {
    let strip = make_strip(2);
    let msg = resolve_outlet(&strip, 3).unwrap_err();
    assert!(msg.contains("outlet 3"), "{msg}");
    assert!(msg.contains("2 outlets"), "{msg}");
}

#[test]
fn resolve_raw_ip_returns_kasa_protocol() {
    let r = resolve_in("192.168.1.1", true, &HostMap::new()).unwrap();
    assert_eq!(r.ip, "192.168.1.1");
    assert!(matches!(r.protocol, Protocol::Kasa));
    assert!(r.saved_name.is_none());
}

#[test]
fn resolve_unknown_name_error_mentions_ip_and_alias() {
    let msg = resolve_in("ZZZ_no_such_device_99999", false, &HostMap::new()).unwrap_err();
    assert!(msg.contains("192.168.x.x") || msg.contains("IP") || msg.contains("ip"), "{msg}");
    assert!(msg.contains("alias"), "{msg}");
    assert!(msg.contains("denki aliases"), "{msg}");
}

#[test]
fn resolve_unknown_name_error_quotes_the_input() {
    let msg = resolve_in("My Nonexistent Lamp", false, &HostMap::new()).unwrap_err();
    assert!(msg.contains("My Nonexistent Lamp"), "{msg}");
}

#[test]
fn resolve_saved_alias_keeps_the_name_typed() {
    let mut map = HostMap::new();
    map.insert("floor lamp".to_string(), HostEntry { ip: "10.0.0.1".to_string(), protocol: Protocol::Klap });
    let r = resolve_in("floor", false, &map).unwrap();
    assert_eq!(r.ip, "10.0.0.1");
    assert_eq!(r.protocol, Protocol::Klap);
    assert_eq!(r.saved_name.as_deref(), Some("floor"));
}

fn strip_with(model: &str, feature: &str, n: usize) -> Option<Strip> {
    let mut s = make_strip(n);
    s.model = model.to_string();
    s.feature = Some(feature.to_string());
    Some(s)
}

#[test]
fn strip_outlet_succeeds_on_ene_strip() {
    let (id, alias, on) = strip_outlet("1.2.3.4", &strip_with("HS300(US)", "TIM:ENE", 3), 2).unwrap();
    assert_eq!(id, "ABC02");
    assert_eq!(alias, "Outlet 2");
    assert!(!on);
}

#[test]
fn strip_outlet_fails_on_non_strip_json() {
    let err = strip_outlet("1.2.3.4", &None, 1).unwrap_err();
    assert!(err.contains("power strip"), "{err}");
}

#[test]
fn strip_energy_outlet_fails_without_ene() {
    let mut s = strip_with("KP303(US)", "TIM", 1);
    if let Some(x) = s.as_mut() {
        x.alias = "Basic Strip".to_string();
    }
    let msg = strip_energy_outlet("1.2.3.4", &s, 1).unwrap_err();
    assert!(msg.contains("energy monitoring"), "{msg}");
    assert!(msg.contains("KP303"), "{msg}");
}

#[test]
fn strip_outlet_fails_on_out_of_range_outlet() {
    let msg = strip_outlet("1.2.3.4", &strip_with("HS300(US)", "TIM:ENE", 2), 5).unwrap_err();
    assert!(msg.contains("outlet 5"), "{msg}");
    assert!(msg.contains("2 outlets"), "{msg}");
}

#[test]
fn missing_creds_context_mentions_env_and_file_path() {
    let msg = missing_creds_context("/tmp/denki/credentials.json");
    assert!(msg.contains("TAPO_USER"));
    assert!(msg.contains("TAPO_PASS"));
    assert!(msg.contains("denki login <email>"));
    assert!(msg.contains("/tmp/denki/credentials.json"));
}

#[test]
fn malformed_creds_message_mentions_reset_flow() {
    assert!(malformed_creds_context().contains("malformed"));
    assert!(malformed_creds_context().contains("remove it"));
    assert!(malformed_creds_context().contains("denki login <email>"));
}

#[test]
fn timeout_error_mentions_offline_and_addr() {
    let msg = connect_timeout_error("192.168.4.27:9999", 5);
    assert!(msg.contains("192.168.4.27:9999"), "{msg}");
    assert!(msg.contains("offline") || msg.contains("unreachable"), "{msg}");
    assert!(msg.contains("5s"), "{msg}");
}

#[test]
fn connect_error_mentions_offline_hint() {
    let msg = connect_error("192.168.4.27:9999", IoKind::HostUnreachable, "No route to host");
    assert!(msg.contains("192.168.4.27:9999"), "{msg}");
    assert!(msg.contains("No route to host"), "{msg}");
    assert!(msg.contains("offline") || msg.contains("wrong network"), "{msg}");
}

#[test]
fn connect_error_hint_depends_on_the_kind() {
    assert!(connect_error("a", IoKind::TimedOut, "t").ends_with("The device may be offline or not responding."));
    assert!(connect_error("a", IoKind::Other, "t").ends_with("The device may be offline or unreachable."));
}

#[test]
fn format_alias_rows_handles_empty_list() {
    let rendered = format_alias_rows(&[], "/tmp/hosts.json");
    assert!(rendered.contains("No saved aliases"), "{rendered}");
    assert!(rendered.contains("denki alias"), "{rendered}");
}

#[test]
fn format_alias_rows_includes_table_content() {
    let rendered = format_alias_rows(
        &[("Lamp".to_string(), HostEntry { ip: "192.168.1.10".to_string(), protocol: Protocol::Kasa })],
        "/tmp/hosts.json",
    );
    assert!(rendered.contains("Lamp"), "{rendered}");
    assert!(rendered.contains("192.168.1.10"), "{rendered}");
    assert!(rendered.contains("kasa"), "{rendered}");
    assert!(rendered.ends_with("(1 aliases in /tmp/hosts.json)"), "{rendered}");
    let row = format!("{:<30} {:<18} kasa\n", "Lamp", "192.168.1.10");
    assert!(rendered.contains(&row), "{rendered}");
}

#[test]
fn format_clock_handles_complete_payload() {
    let resp = json(r#"{"time": {"get_time": {"year": 2026, "month": 6, "mday": 7, "hour": 22, "min": 44, "sec": 54}}}"#);
    assert_eq!(format_clock(&resp).as_deref(), Some("2026-06-07 22:44:54"));
}

#[test]
fn format_clock_returns_none_without_time() {
    assert!(format_clock(&json("{}")).is_none());
}

fn wday_of(bits: &[u8]) -> Vec<Json> {
    bits.iter().map(|b| Json::Number(JsonNumber::PosInt(u64::from(*b)))).collect()
}

#[test]
fn format_wday_cases() {
    assert_eq!(format_wday(None), "every day");
    assert_eq!(format_wday(Some(&wday_of(&[1, 0, 0, 0, 0, 0, 0]))), "Sun");
    assert_eq!(format_wday(Some(&wday_of(&[0, 1, 0, 0, 0, 0, 0]))), "Mon");
    assert_eq!(format_wday(Some(&wday_of(&[0, 0, 0, 0, 0, 1, 0]))), "Fri");
    assert_eq!(format_wday(Some(&wday_of(&[0, 1, 0, 1, 0, 1, 0]))), "Mon Wed Fri");
    assert_eq!(format_wday(Some(&wday_of(&[1, 1, 1, 1, 1, 1, 1]))), "every day");
    assert_eq!(format_wday(Some(&wday_of(&[0, 0, 0, 0, 0, 0, 0]))), "no days");
}

#[test]
fn schedule_rows_read_each_rule() {
    let resp = json(
        r#"{"schedule": {"get_rules": {"rule_list": [
            {"enable": 1, "name": "Morning", "smin": 450, "sact": 1, "wday": [0,1,1,1,1,1,0]},
            {"enable": 0, "smin": 1380, "sact": 0}
        ]}}}"#,
    );
    let rows = schedule_rows(&resp).unwrap();
    assert_eq!(rows.len(), 2);
    assert!(rows[0].on && rows[0].enabled);
    assert_eq!(rows[0].time, "07:30");
    assert_eq!(rows[0].days, "Mon Tue Wed Thu Fri");
    assert_eq!(rows[0].name, "Morning");
    assert!(!rows[1].on && !rows[1].enabled);
    assert_eq!(rows[1].time, "23:00");
    assert_eq!(rows[1].days, "every day");
    assert_eq!(rows[1].name, "(unnamed)");
    assert!(schedule_rows(&json("{}")).is_none());
}

#[test]
fn status_labels() {
    assert_eq!(short_fw("1.0.9 Build 200225 Rel.112346"), "1.0.9");
    assert_eq!(short_fw(""), "");
    assert_eq!(signal_strength(-50), SignalStrength::Excellent);
    assert_eq!(signal_strength(-65), SignalStrength::Good);
    assert_eq!(signal_strength(-66).label(), "weak");
    let mut s = make_strip(3);
    s.children[1].state = 1;
    assert_eq!(outlets_on(&s), 1);
    let labels = outlet_labels(&s);
    assert_eq!(labels[1], ("2 Outlet 2".to_string(), true));
}

fn effect() -> LightingEffectState {
    LightingEffectState {
        enable: 0,
        name: "Flicker".to_string(),
        custom: 0,
        id: Some("TapoStrip_4HVKmMc6vEzjm36jXaGwMs".to_string()),
        brightness: Some(100),
        segments: Some(vec![1]),
        expansion_strategy: Some(1),
        effect_type: Some("random".to_string()),
        hue_range: Some(vec![30, 40]),
        saturation_range: Some(vec![100, 100]),
        brightness_range: Some(vec![50, 100]),
        duration: Some(0),
        transition: Some(0),
        transition_range: Some(vec![375, 500]),
        init_states: Some(vec![vec![30, 81, 80]]),
    }
}

#[test]
fn lightstrip_effect_payload_overrides_enable_and_name() {
    let payload = from_json(&lightstrip_effect_payload(&effect(), "Rainbow", 1));
    let inner = payload
        .pointer("/smartlife.iot.lighting_effect/set_lighting_effect")
        .expect("payload should contain set_lighting_effect");
    assert_eq!(inner["enable"], value("1"));
    assert_eq!(inner["name"], value("\"Rainbow\""));
    assert_eq!(inner["id"], value("\"TapoStrip_4HVKmMc6vEzjm36jXaGwMs\""));
    assert_eq!(inner["brightness"], value("100"));
    assert_eq!(inner["segments"], value("[1]"));
    assert_eq!(inner["transition_range"], value("[375, 500]"));
}

#[test]
fn lightstrip_effect_payload_can_disable_without_losing_descriptor() {
    let payload = from_json(&lightstrip_effect_payload(&effect(), "Flicker", 0));
    let inner = payload
        .pointer("/smartlife.iot.lighting_effect/set_lighting_effect")
        .expect("payload should contain set_lighting_effect");
    assert_eq!(inner["enable"], value("0"));
    assert_eq!(inner["name"], value("\"Flicker\""));
    assert_eq!(inner["custom"], value("0"));
    assert_eq!(inner["type"], value("\"random\""));
    assert_eq!(inner["init_states"], value("[[30, 81, 80]]"));
}

#[test]
fn lightstrip_effect_payload_serializes_without_nulls() {
    let mut e = effect();
    e.id = None;
    e.hue_range = None;
    let payload = from_json(&lightstrip_effect_payload(&e, "Rainbow", 1));
    let inner = payload.pointer("/smartlife.iot.lighting_effect/set_lighting_effect").unwrap();
    assert!(inner.get("id").is_none());
    assert!(inner.get("hue_range").is_none());
    assert!(inner.get("segments").is_some());
    assert!(inner.get("init_states").is_some());
}

#[test]
fn lightstrip_state_uses_lightstrip_namespace_and_method() {
    let payload = from_json(&lightstrip_state_payload(json(r#"{"brightness": 42, "on_off": 1}"#)));
    assert_eq!(payload.pointer("/smartlife.iot.lightStrip/set_light_state/brightness"), Some(&value("42")));
    assert!(payload.pointer("/smartlife.iot.smartbulb.lightingservice").is_none());
}

#[test]
fn power_requests_follow_the_device_kind() {
    let bulb = from_json(&kasa_power_request(&denki::devices::DeviceKind::Bulb, true).unwrap());
    assert_eq!(bulb, value(r#"{"smartlife.iot.smartbulb.lightingservice": {"transition_light_state": {"on_off": 1, "transition_period": 0}}}"#));
    let plug = from_json(&kasa_power_request(&denki::devices::DeviceKind::Plug, false).unwrap());
    assert_eq!(plug, value(r#"{"system": {"set_relay_state": {"state": 0}}}"#));
    assert!(kasa_power_request(&denki::devices::DeviceKind::LightStrip, true).is_err());
}

#[test]
fn tapo_answers_are_read() {
    assert!(check_tapo_error(&json(r#"{"error_code": 0}"#)).is_ok());
    assert!(check_tapo_error(&json("{}")).is_ok());
    assert_eq!(check_tapo_error(&json(r#"{"error_code": -1010}"#)).unwrap_err(), "Tapo device error: code -1010");
    assert!(tapo_is_on(&json(r#"{"result": {"device_on": true}}"#)));
    assert!(!tapo_is_on(&json(r#"{"result": {}}"#)));
}

#[test]
fn kasa_diagnostics_are_structured_and_sanitized() {
    let resp = json(
        r#"{"system": {"get_sysinfo": {
            "model": "KL135(US)", "mic_type": "IOT.SMARTBULB",
            "hw_ver": "1.0", "sw_ver": "1.2.3", "rssi": -44,
            "deviceId": "secret-device-id", "mac": "00:11:22:33:44:55",
            "light_state": {"on_off": 1}
        }}}"#,
    );
    let report = kasa_report(DoctorReport::pending(None, "192.0.2.1".into(), &Protocol::Kasa), &resp, &None, &None);
    assert_eq!(report.status, "ok");
    assert_eq!(report.model.as_deref(), Some("KL135(US)"));
    assert!(report.capabilities.len() > 1);
    let dump = format!("{report:?}");
    assert!(!dump.contains("secret-device-id"));
    assert!(!dump.contains("00:11:22:33:44:55"));
}

#[test]
fn malformed_kasa_response_is_reported_without_panicking() {
    let report = kasa_report(
        DoctorReport::pending(None, "192.0.2.2".into(), &Protocol::Kasa),
        &json(r#"{"unexpected": true}"#),
        &None,
        &None,
    );
    assert!(report.reachable);
    assert!(report.error.unwrap().contains("get_sysinfo"));
}

#[test]
fn tapo_diagnostics_warn_about_overheating() {
    let d = denki::tapo::TapoDevice {
        model: "P125M".to_string(),
        hw_ver: "1.0".to_string(),
        fw_ver: "1.2.3".to_string(),
        device_on: true,
        on_time: 1,
        rssi: -50,
        signal_level: 3,
        nickname: "x".to_string(),
        overheated: true,
        device_id: "id".to_string(),
    };
    let r = tapo_report(DoctorReport::pending(Some("plug".into()), "10.0.0.2".into(), &Protocol::Klap), &d);
    assert_eq!(r.status, "ok");
    assert_eq!(r.power_on, Some(true));
    assert_eq!(r.verified_model, Some(true));
    assert_eq!(r.warnings, vec!["Device reports an overheated state.".to_string()]);
}

#[test]
fn group_run_is_summed_up() {
    assert_eq!(no_match("kitchen"), "No aliases matched pattern \"kitchen\".\nCheck current aliases with: denki aliases");
    assert_eq!(heading(GroupAction::Toggle, 3, "lamp", true, 4), "Would turn toggle 3 alias(es) matching \"lamp\":");
    assert_eq!(heading(GroupAction::On, 2, "lamp", false, 4), "Turning on 2 alias(es) matching \"lamp\" (up to 4 at once):");
    let results = vec![
        GroupResult { alias: "a".to_string(), result: Ok(true) },
        GroupResult { alias: "b".to_string(), result: Err("simulated transport failure".to_string()) },
        GroupResult { alias: "c".to_string(), result: Ok(false) },
    ];
    let s = summarize(&results);
    assert_eq!(s.succeeded, 2);
    assert_eq!(s.failures, vec!["b".to_string()]);
    assert_eq!(s.error.as_deref(), Some("Group action failed for 1 alias(es): b"));
    assert!(summarize(&vec![]).error.is_none());
}

#[test]
fn scan_saves_new_devices_and_skips_repeats() {
    let mut map = HostMap::new();
    let reply = json(r#"{"system": {"get_sysinfo": {"alias": "Coat Rack"}}}"#);
    let first = record_reply(&mut map, "192.168.7.203", &reply);
    assert!(first.is_new);
    assert_eq!(first.hint, "Coat Rack");
    let again = record_reply(&mut map, "192.168.7.203", &reply);
    assert!(!again.is_new);
    let anonymous = record_reply(&mut map, "192.168.7.9", &json("{}"));
    assert!(!anonymous.is_new);
    assert_eq!(anonymous.hint, "192.168.7.9");

    let mut seen = Vec::new();
    assert!(first_reply(&mut seen, "10.0.0.1"));
    assert!(!first_reply(&mut seen, "10.0.0.1"));
    assert_eq!(broadcast_targets(&vec![[192, 168, 4, 255], [255, 255, 255, 255]]), vec!["192.168.4.255:9999".to_string()]);
    assert_eq!(scan_footer(0), "No devices found.");
    assert_eq!(scan_footer(3), "Found 3 device(s)");

    map.insert("tapo".to_string(), HostEntry { ip: "10.0.0.5".to_string(), protocol: Protocol::Klap });
    let klap = klap_targets(&map);
    assert_eq!(klap.len(), 1);
    assert_eq!(klap[0].0, "tapo");
}

#[test]
fn every_resolved_effect_is_builtin() {
    let builtin = denki::effects::builtin_effects();
    for name in ["rain", "rainbow", "Aurora", "cauldron", "ICICLE", "x", "hanukkah", "spring"] {
        if let Some(e) = resolve(name) {
            assert!(builtin.contains(&e), "{e}");
        }
    }
}

#[test]
fn a_report_without_system_information_keeps_the_pending_fields() {
    let report = kasa_report(
        DoctorReport::pending(None, "192.0.2.2".into(), &Protocol::Kasa),
        &json(r#"{"unexpected": true}"#),
        &None,
        &None,
    );
    assert_eq!(report.status, "error");
    assert!(report.model.is_none() && report.kind.is_none());
    assert!(report.power_on.is_none() && report.signal_dbm.is_none());
    assert!(report.capabilities.is_empty() && report.warnings.is_empty());
    assert!(report.verified_model.is_none());
}
