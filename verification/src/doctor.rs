//! The diagnostics report of one device: what answered, what model it is,
//! what the registry knows of it, and what went wrong. Identifiers such as
//! the device id or MAC address are never copied into it.

use vstd::prelude::*;
use crate::bulb::Bulb;
use crate::classify::{classified, detect_kind, field, sysinfo_of};
use crate::devices::{kind_name, lookup, lookup_spec, DeviceKind};
use crate::hosts::{protocol_name, Protocol};
use crate::json::{i64_of, str_of, u64_of, Json};
use crate::strip::Strip;
use crate::tapo::TapoDevice;

verus! {

/// A diagnostics report.
#[derive(Debug)]
pub struct DoctorReport {
    pub schema_version: u8,
    /// "ok" once the device answered with its information, else "error".
    pub status: &'static str,
    pub alias: Option<String>,
    pub ip: String,
    pub protocol: String,
    pub reachable: bool,
    pub model: Option<String>,
    pub kind: Option<String>,
    pub hardware_version: Option<String>,
    pub firmware_version: Option<String>,
    pub signal_dbm: Option<i64>,
    pub power_on: Option<bool>,
    pub capabilities: Vec<String>,
    pub verified_model: Option<bool>,
    pub warnings: Vec<String>,
    pub error: Option<String>,
}

/// The texts of a sequence of strings.
pub open spec fn texts(v: Seq<String>) -> Seq<Seq<char>> {
    v.map_values(|s: String| s@)
}

/// The text of an optional string.
pub open spec fn opt_text(v: Option<String>) -> Option<Seq<char>> {
    match v {
        Some(s) => Some(s@),
        None => None,
    }
}

impl DoctorReport {
    /// The report before the device is asked: an error until it answers.
    pub fn pending(alias: Option<String>, ip: String, protocol: &Protocol) -> (r: DoctorReport)
        ensures
            r.schema_version == 1,
            r.status@ == "error"@,
            r.alias == alias,
            r.ip == ip,
            r.protocol@ == protocol_name(*protocol),
            !r.reachable,
            r.model is None && r.kind is None && r.hardware_version is None && r.firmware_version is None,
            r.signal_dbm is None && r.power_on is None && r.verified_model is None && r.error is None,
            r.capabilities@.len() == 0 && r.warnings@.len() == 0,
    {
        DoctorReport {
            schema_version: 1,
            status: "error",
            alias,
            ip,
            protocol: protocol.name(),
            reachable: false,
            model: None,
            kind: None,
            hardware_version: None,
            firmware_version: None,
            signal_dbm: None,
            power_on: None,
            capabilities: Vec::new(),
            verified_model: None,
            warnings: Vec::new(),
            error: None,
        }
    }
}

/// The warning for a model that the registry lists but that was not tested
/// on hardware.
pub open spec fn unverified_warning() -> Seq<char> {
    "This model is supported but not verified on physical hardware."@
}

/// The warning for a model that the registry does not list.
pub open spec fn unknown_model_warning(model: Seq<char>) -> Seq<char> {
    "Model "@ + model + " is not present in the denki capability registry."@
}

/// The capabilities after the registry was asked about `model`: the
/// registry's when it lists the model, else unchanged.
pub open spec fn caps_after(caps: Seq<Seq<char>>, model: Option<Seq<char>>) -> Seq<Seq<char>> {
    match model {
        Some(m) => match lookup_spec(m) {
            Some(e) => e.supports,
            None => caps,
        },
        None => caps,
    }
}

/// Whether the model is verified, after the registry was asked about it.
pub open spec fn verified_after(v: Option<bool>, model: Option<Seq<char>>) -> Option<bool> {
    match model {
        Some(m) => match lookup_spec(m) {
            Some(e) => Some(e.verified),
            None => v,
        },
        None => v,
    }
}

/// The warnings after the registry was asked about `model`: one more when
/// the model is unverified or unknown.
pub open spec fn warnings_after(ws: Seq<Seq<char>>, model: Option<Seq<char>>) -> Seq<Seq<char>> {
    match model {
        Some(m) => match lookup_spec(m) {
            Some(e) => if e.verified { ws } else { ws.push(unverified_warning()) },
            None => ws.push(unknown_model_warning(m)),
        },
        None => ws,
    }
}

/// `after` is `before` with what the registry says of `before`'s model.
pub open spec fn registry_applied(before: DoctorReport, after: DoctorReport) -> bool {
    &&& after.schema_version == before.schema_version && after.status == before.status
    &&& after.alias == before.alias && after.ip == before.ip && after.protocol == before.protocol
    &&& after.reachable == before.reachable && after.model == before.model && after.kind == before.kind
    &&& after.hardware_version == before.hardware_version && after.firmware_version == before.firmware_version
    &&& after.signal_dbm == before.signal_dbm && after.power_on == before.power_on
    &&& after.error == before.error
    &&& texts(after.capabilities@) == caps_after(texts(before.capabilities@), opt_text(before.model))
    &&& after.verified_model == verified_after(before.verified_model, opt_text(before.model))
    &&& texts(after.warnings@) == warnings_after(texts(before.warnings@), opt_text(before.model))
}

/// Adds what the registry says of the report's model.
pub fn apply_registry(report: DoctorReport) -> (r: DoctorReport)
    ensures
        registry_applied(report, r),
{
    let mut report = report;
    let ghost before = report;
    let entry = match &report.model {
        None => {
            return report;
        },
        Some(m) => lookup(m.as_str()),
    };
    match entry {
        Some(e) => {
            report.capabilities = e.supports;
            report.verified_model = Some(e.verified);
            if !e.verified {
                let ghost w = report.warnings@;
                report.warnings.push(String::from_str("This model is supported but not verified on physical hardware."));
                assert(texts(report.warnings@) =~= texts(w).push(unverified_warning()));
            }
        },
        None => {
            let mut w = String::from_str("Model ");
            match &report.model {
                Some(m) => w.append(m.as_str()),
                None => {},
            }
            w.append(" is not present in the denki capability registry.");
            let ghost ws = report.warnings@;
            report.warnings.push(w);
            assert(texts(report.warnings@) =~= texts(ws).push(unknown_model_warning(before.model->Some_0@)));
        },
    }
    report
}

/// A string member of the system information.
pub open spec fn info_text(j: Json, key: Seq<char>) -> Option<Seq<char>> {
    str_of(field(sysinfo_of(j), key))
}

/// The power state read from a Kasa answer: lights from their light state
/// (as read into a `Bulb`), strips from their outlets (as read into a
/// `Strip`), others from their relay.
pub open spec fn kasa_power(k: DeviceKind, j: Json, bulb: Option<Bulb>, strip: Option<Strip>) -> Option<bool> {
    match k {
        DeviceKind::Bulb | DeviceKind::LightStrip => match bulb {
            Some(b) => Some(b.light_state.on_off == 1),
            None => None,
        },
        DeviceKind::Strip => match strip {
            Some(s) => Some(exists|i: int| 0 <= i < s.children@.len() && #[trigger] s.children@[i].state == 1),
            None => None,
        },
        _ => match u64_of(field(sysinfo_of(j), "relay_state"@)) {
            Some(n) => Some(n == 1),
            None => None,
        },
    }
}

fn text_field(info: &Json, key: &str) -> (r: Option<String>)
    ensures
        opt_text(r) == str_of(crate::json::member(*info, key@)),
{
    match info.get(key) {
        Some(v) => match v.as_str() {
            Some(s) => Some(String::from_str(s)),
            None => None,
        },
        None => None,
    }
}

/// The report completed from a Kasa answer `json`; `bulb` and `strip` are
/// what the answer read into as a bulb and as a strip. The device answered;
/// without system information the report says so and is otherwise left as
/// it was.
/// Otherwise it is "ok" with the model, kind, versions, signal and power
/// state, and then what the registry says of the model.
pub fn kasa_report(report: DoctorReport, json: &Json, bulb: &Option<Bulb>, strip: &Option<Strip>) -> (r: DoctorReport)
    ensures
        r.reachable,
        r.schema_version == report.schema_version && r.alias == report.alias && r.ip == report.ip
            && r.protocol == report.protocol,
        sysinfo_of(*json) is None ==> {
            &&& r.status == report.status && r.model == report.model && r.kind == report.kind
            &&& r.hardware_version == report.hardware_version && r.firmware_version == report.firmware_version
            &&& r.signal_dbm == report.signal_dbm && r.power_on == report.power_on
            &&& r.capabilities@ == report.capabilities@ && r.verified_model == report.verified_model
            &&& r.warnings@ == report.warnings@
            &&& opt_text(r.error) == Some("Response did not contain system.get_sysinfo"@)
        },
        sysinfo_of(*json) is Some ==> {
            &&& r.status@ == "ok"@ && r.error == report.error
            &&& opt_text(r.model) == info_text(*json, "model"@)
            &&& exists|k: DeviceKind| classified(sysinfo_of(*json), k)
                && opt_text(r.kind) == Some(kind_name(k)) && r.power_on == kasa_power(k, *json, *bulb, *strip)
            &&& opt_text(r.hardware_version) == info_text(*json, "hw_ver"@)
            &&& opt_text(r.firmware_version) == info_text(*json, "sw_ver"@)
            &&& r.signal_dbm == i64_of(field(sysinfo_of(*json), "rssi"@))
            &&& texts(r.capabilities@) == caps_after(texts(report.capabilities@), opt_text(r.model))
            &&& r.verified_model == verified_after(report.verified_model, opt_text(r.model))
            &&& texts(r.warnings@) == warnings_after(texts(report.warnings@), opt_text(r.model))
        },
{
    let mut report = report;
    report.reachable = true;
    let info = match json.get("system") {
        Some(s) => s.get("get_sysinfo"),
        None => None,
    };
    let info = match info {
        None => {
            report.error = Some(String::from_str("Response did not contain system.get_sysinfo"));
            return report;
        },
        Some(i) => i,
    };
    report.status = "ok";
    report.model = text_field(info, "model");
    let kind = detect_kind(json);
    report.kind = Some(kind.display_name());
    report.power_on = match kind {
        DeviceKind::Bulb | DeviceKind::LightStrip => match bulb {
            Some(b) => Some(b.light_state.is_on()),
            None => None,
        },
        DeviceKind::Strip => match strip {
            Some(s) => Some(s.is_any_on()),
            None => None,
        },
        _ => match info.get("relay_state") {
            Some(v) => match v.as_u64() {
                Some(n) => Some(n == 1),
                None => None,
            },
            None => None,
        },
    };
    report.hardware_version = text_field(info, "hw_ver");
    report.firmware_version = text_field(info, "sw_ver");
    report.signal_dbm = match info.get("rssi") {
        Some(v) => v.as_i64(),
        None => None,
    };
    let r = apply_registry(report);
    assert(classified(sysinfo_of(*json), kind));
    r
}

/// The report completed from a Tapo device's information: "ok" with its
/// model, versions, signal and power state, what the registry says of the
/// model, and a warning when the device is overheated.
pub fn tapo_report(report: DoctorReport, device: &TapoDevice) -> (r: DoctorReport)
    ensures
        r.reachable && r.status@ == "ok"@,
        r.schema_version == report.schema_version && r.alias == report.alias && r.ip == report.ip
            && r.protocol == report.protocol && r.error == report.error,
        opt_text(r.model) == Some(device.model@),
        opt_text(r.kind) == Some("tapo"@),
        opt_text(r.hardware_version) == Some(device.hw_ver@),
        opt_text(r.firmware_version) == Some(device.fw_ver@),
        r.signal_dbm == Some(device.rssi as i64),
        r.power_on == Some(device.device_on),
        texts(r.capabilities@) == caps_after(texts(report.capabilities@), Some(device.model@)),
        r.verified_model == verified_after(report.verified_model, Some(device.model@)),
        texts(r.warnings@) == warnings_after(texts(report.warnings@), Some(device.model@))
            + if device.overheated { seq!["Device reports an overheated state."@] } else { Seq::empty() },
{
    let mut report = report;
    report.reachable = true;
    report.status = "ok";
    report.model = Some(device.model.clone());
    report.kind = Some(String::from_str("tapo"));
    report.hardware_version = Some(device.hw_ver.clone());
    report.firmware_version = Some(device.fw_ver.clone());
    report.signal_dbm = Some(device.rssi as i64);
    report.power_on = Some(device.device_on);
    let mut r = apply_registry(report);
    let ghost ws = texts(r.warnings@);
    if device.overheated {
        r.warnings.push(String::from_str("Device reports an overheated state."));
        assert(texts(r.warnings@) =~= ws + seq!["Device reports an overheated state."@]);
    } else {
        assert(texts(r.warnings@) =~= ws + Seq::<Seq<char>>::empty());
    }
    r
}

} // verus!
