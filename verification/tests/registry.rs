use denki::devices::{
    can_control_led, can_control_power, can_dim, can_get_clock, can_get_presets, can_get_schedules,
    can_get_specs, can_set_color, can_set_color_temp, hint_for, hints, lookup, DeviceKind,
};

fn supports(model: &str, feature: &str) -> bool {
    lookup(model).unwrap().supports.iter().any(|f| f == feature)
}

// A command line with the grammar of the `denki` subcommands that hints suggest.
fn cli() -> clap::Command {
    fn host() -> clap::Arg {
        clap::Arg::new("host").value_name("DEVICE").required(true)
    }
    clap::Command::new("denki")
        .subcommand_required(true)
        .subcommand(
            clap::Command::new("dim")
                .arg(host())
                .arg(clap::Arg::new("level").required(true).value_parser(clap::builder::RangedU64ValueParser::<u8>::new().range(0..=100))),
        )
        .subcommand(
            clap::Command::new("color-temp")
                .arg(host())
                .arg(clap::Arg::new("kelvin").required(true).value_parser(clap::builder::RangedU64ValueParser::<u16>::new().range(2500..=9000))),
        )
        .subcommand(
            clap::Command::new("color")
                .arg(host())
                .arg(clap::Arg::new("hue").long("hue").short('H').required(true).value_parser(clap::builder::RangedU64ValueParser::<u16>::new().range(0..=360)))
                .arg(clap::Arg::new("saturation").long("saturation").short('s').required(true).value_parser(clap::builder::RangedU64ValueParser::<u8>::new().range(0..=100)))
                .arg(clap::Arg::new("value").long("value").short('v').required(true).value_parser(clap::builder::RangedU64ValueParser::<u8>::new().range(0..=100))),
        )
        .subcommand(
            clap::Command::new("energy")
                .arg(host())
                .arg(clap::Arg::new("outlet").value_parser(clap::builder::RangedU64ValueParser::<u8>::new().range(1..))),
        )
        .subcommand(clap::Command::new("schedules").arg(host()))
        .subcommand(
            clap::Command::new("led")
                .arg(host())
                .arg(clap::Arg::new("state").required(true).value_parser(["on", "off"])),
        )
        .subcommand(clap::Command::new("clock").arg(host()))
        .subcommand(clap::Command::new("outlets").arg(host()))
        .subcommand(clap::Command::new("specs").arg(host()))
        .subcommand(clap::Command::new("presets").arg(host()))
        .subcommand(
            clap::Command::new("outlet-rename")
                .arg(host())
                .arg(clap::Arg::new("outlet").required(true).value_parser(clap::builder::RangedU64ValueParser::<u8>::new().range(1..)))
                .arg(clap::Arg::new("name").required(true)),
        )
}

fn parse_hint(hint: &str) -> Result<clap::ArgMatches, clap::Error> {
    let args: Vec<String> = hint
        .split_whitespace()
        .map(|t| t.trim_matches('"').to_string())
        .collect();
    cli().try_get_matches_from(args)
}

#[test]
fn tests_lookup_exact_model_name() {
    assert!(lookup("KL135").is_some());
    assert!(lookup("KP115").is_some());
    assert!(lookup("HS105").is_some());
}

#[test]
fn tests_lookup_strips_country_suffix() {
    let entry = lookup("KL135(US)").expect("KL135(US) should match KL135");
    assert_eq!(entry.model, "KL135");
    assert!(matches!(entry.kind, DeviceKind::Bulb));
}

#[test]
fn tests_lookup_is_case_insensitive() {
    assert!(lookup("kl135").is_some());
    assert!(lookup("KL135").is_some());
    assert!(lookup("kP115").is_some());
}

#[test]
fn tests_lookup_unknown_model_returns_none() {
    assert!(lookup("ZZ999").is_none());
    assert!(lookup("").is_none());
}

#[test]
fn lookup_lookup_exact_model_name() {
    assert!(lookup("KL135").is_some());
    assert!(lookup("KP115").is_some());
    assert!(lookup("HS105").is_some());
}

#[test]
fn lookup_lookup_strips_country_suffix() {
    let entry = lookup("KL135(US)").expect("KL135(US) should match KL135");
    assert_eq!(entry.model, "KL135");
    assert!(matches!(entry.kind, DeviceKind::Bulb));
}

#[test]
fn lookup_lookup_is_case_insensitive() {
    assert!(lookup("kl135").is_some());
    assert!(lookup("KL135").is_some());
    assert!(lookup("kP115").is_some());
}

#[test]
fn lookup_lookup_unknown_model_returns_none() {
    assert!(lookup("ZZ999").is_none());
    assert!(lookup("").is_none());
}

#[test]
fn kl135_supports_dim_color_and_energy() {
    for feature in ["dim", "color_temp", "color", "energy", "specs", "presets"] {
        assert!(supports("KL135", feature), "KL135 should support '{feature}'");
    }
}

#[test]
fn kl135_does_not_support_schedules_or_led() {
    for feature in ["schedules", "led", "clock"] {
        assert!(!supports("KL135", feature), "KL135 should NOT support '{feature}'");
    }
}

#[test]
fn kp115_supports_energy() {
    assert!(supports("KP115", "energy"));
}

#[test]
fn hs105_does_not_support_energy() {
    assert!(!supports("HS105", "energy"), "HS105 has no energy chip");
}

#[test]
fn kl430_does_not_support_dim_or_power() {
    for feature in ["dim", "power", "color_temp", "color"] {
        assert!(!supports("KL430", feature), "KL430 should NOT support '{feature}' (not yet implemented)");
    }
    assert!(supports("KL430", "effects"), "KL430 should support lighting effects");
}

#[test]
fn kl420l5_is_registered_as_a_lightstrip_with_energy_only() {
    let entry = lookup("KL420L5").unwrap();
    assert!(matches!(entry.kind, DeviceKind::LightStrip));
    assert!(!entry.verified);
    assert!(entry.supports.iter().any(|f| f == "energy"));
    assert!(entry.supports.iter().any(|f| f == "effects"));
    for feature in ["power", "dim", "color_temp", "color"] {
        assert!(!entry.supports.iter().any(|f| f == feature), "KL420L5 should NOT support '{feature}' yet");
    }
}

fn check_verified_devices_are_marked() {
    for model in ["KL135", "KP115", "HS105", "HS110", "P125"] {
        let entry = lookup(model).unwrap();
        assert!(entry.verified, "{model} should be marked verified = true");
    }
}

fn check_unverified_devices_are_marked() {
    for model in ["HS220", "KL430"] {
        let entry = lookup(model).unwrap();
        assert!(!entry.verified, "{model} should be marked verified = false");
    }
}

fn check_p125_uses_klap_protocol() {
    let entry = lookup("P125").unwrap();
    assert_eq!(entry.protocol.as_deref(), Some("klap"));
}

fn check_kasa_devices_have_no_protocol_field() {
    for model in ["KL135", "KP115", "HS105"] {
        let entry = lookup(model).unwrap();
        assert!(entry.protocol.is_none(), "{model}: Kasa devices should not set protocol");
    }
}

#[test]
fn tests_verified_devices_are_marked() {
    check_verified_devices_are_marked();
}

#[test]
fn tests_unverified_devices_are_marked() {
    check_unverified_devices_are_marked();
}

#[test]
fn tests_p125_uses_klap_protocol() {
    check_p125_uses_klap_protocol();
}

#[test]
fn tests_kasa_devices_have_no_protocol_field() {
    check_kasa_devices_have_no_protocol_field();
}

#[test]
fn hints_verified_devices_are_marked() {
    check_verified_devices_are_marked();
}

#[test]
fn hints_unverified_devices_are_marked() {
    check_unverified_devices_are_marked();
}

#[test]
fn hints_p125_uses_klap_protocol() {
    check_p125_uses_klap_protocol();
}

#[test]
fn hints_kasa_devices_have_no_protocol_field() {
    check_kasa_devices_have_no_protocol_field();
}

fn check_hints_power_first() {
    let entry = lookup("KP115").unwrap();
    assert_eq!(hints(&entry, "plug", true)[0], "denki off \"plug\"");
    assert_eq!(hints(&entry, "plug", false)[0], "denki on \"plug\"");
}

#[test]
fn hints_power_first_reflects_state() {
    check_hints_power_first();
}

#[test]
fn hints_power_first_reflect_state() {
    check_hints_power_first();
}

fn check_hints_kp115() {
    let entry = lookup("KP115").unwrap();
    let h = hints(&entry, "plug", false);
    assert!(h.iter().any(|s| s.contains("energy")));
    assert!(!h.iter().any(|s| s.contains("outlet")));
}

fn check_hints_hs105() {
    let entry = lookup("HS105").unwrap();
    let h = hints(&entry, "plug", false);
    assert!(h.iter().any(|s| s.contains("schedules")));
    assert!(!h.iter().any(|s| s.contains("energy")));
}

fn check_hints_hs300() {
    let entry = lookup("HS300").unwrap();
    let h = hints(&entry, "strip", false);
    assert!(h.iter().any(|s| s.contains("outlets")));
}

fn check_hints_kl135() {
    let entry = lookup("KL135").unwrap();
    let h = hints(&entry, "bulb", false);
    assert!(h.iter().any(|s| s.contains("color-temp")));
    assert!(h.iter().any(|s| s.contains("dim")));
    assert!(h.iter().any(|s| s.contains("color")));
}

#[test]
fn tests_hints_kp115_includes_energy_but_not_outlets() {
    check_hints_kp115();
}

#[test]
fn tests_hints_hs105_includes_schedules_but_not_energy() {
    check_hints_hs105();
}

#[test]
fn tests_hints_hs300_includes_outlets() {
    check_hints_hs300();
}

#[test]
fn tests_hints_kl135_includes_color_and_dim() {
    check_hints_kl135();
}

#[test]
fn hints_hints_kp115_includes_energy_but_not_outlets() {
    check_hints_kp115();
}

#[test]
fn hints_hints_hs105_includes_schedules_but_not_energy() {
    check_hints_hs105();
}

#[test]
fn hints_hints_hs300_includes_outlets() {
    check_hints_hs300();
}

#[test]
fn hints_hints_kl135_includes_color_and_dim() {
    check_hints_kl135();
}

fn check_hint_parses(feature: &str, alias: &str) {
    let hint = hint_for(feature, alias).unwrap();
    assert!(parse_hint(&hint).is_ok(), "hint failed to parse: {hint}");
}

#[test]
fn tests_hint_dim_parses() {
    check_hint_parses("dim", "bulb");
}

#[test]
fn tests_hint_color_temp_parses() {
    check_hint_parses("color_temp", "bulb");
}

#[test]
fn tests_hint_color_parses() {
    check_hint_parses("color", "bulb");
}

#[test]
fn tests_hint_energy_parses() {
    check_hint_parses("energy", "plug");
}

#[test]
fn tests_hint_schedules_parses() {
    check_hint_parses("schedules", "plug");
}

#[test]
fn tests_hint_led_parses() {
    check_hint_parses("led", "plug");
}

#[test]
fn tests_hint_clock_parses() {
    check_hint_parses("clock", "plug");
}

#[test]
fn tests_hint_outlets_parses() {
    check_hint_parses("outlets", "strip");
}

#[test]
fn tests_hint_specs_parses() {
    check_hint_parses("specs", "bulb");
}

#[test]
fn tests_hint_presets_parses() {
    check_hint_parses("presets", "bulb");
}

#[test]
fn tests_hint_outlet_rename_parses() {
    let args = ["denki", "outlet-rename", "strip", "2", "NAS"];
    assert!(cli().try_get_matches_from(args).is_ok());
}

#[test]
fn hints_hint_dim_parses() {
    check_hint_parses("dim", "bulb");
}

#[test]
fn hints_hint_color_temp_parses() {
    check_hint_parses("color_temp", "bulb");
}

#[test]
fn hints_hint_color_parses() {
    check_hint_parses("color", "bulb");
}

#[test]
fn hints_hint_energy_parses() {
    check_hint_parses("energy", "plug");
}

#[test]
fn hints_hint_schedules_parses() {
    check_hint_parses("schedules", "plug");
}

#[test]
fn hints_hint_led_parses() {
    check_hint_parses("led", "plug");
}

#[test]
fn hints_hint_clock_parses() {
    check_hint_parses("clock", "plug");
}

#[test]
fn hints_hint_outlets_parses() {
    check_hint_parses("outlets", "strip");
}

#[test]
fn hints_hint_specs_parses() {
    check_hint_parses("specs", "bulb");
}

#[test]
fn hints_hint_presets_parses() {
    check_hint_parses("presets", "bulb");
}

#[test]
fn hints_hint_outlet_rename_parses() {
    let args = ["denki", "outlet-rename", "strip", "2", "NAS"];
    assert!(cli().try_get_matches_from(args).is_ok());
}

fn check_hint_for_unknown_feature() {
    assert!(hint_for("nonexistent", "x").is_none());
    assert!(hint_for("power", "x").is_none());
    assert!(hint_for("", "x").is_none());
}

#[test]
fn tests_hint_for_unknown_feature_returns_none() {
    check_hint_for_unknown_feature();
}

#[test]
fn hints_hint_for_unknown_feature_returns_none() {
    check_hint_for_unknown_feature();
}

#[test]
fn can_control_power_accepts_bulb_plug_dimmer_strip() {
    assert!(can_control_power(&DeviceKind::Bulb).is_ok());
    assert!(can_control_power(&DeviceKind::Plug).is_ok());
    assert!(can_control_power(&DeviceKind::Dimmer).is_ok());
    assert!(can_control_power(&DeviceKind::Strip).is_ok());
    assert!(can_control_power(&DeviceKind::LightStrip).is_err());
    assert!(can_control_power(&DeviceKind::Unknown("IOT.X".into())).is_err());
}

#[test]
fn can_dim_accepts_bulb_and_dimmer_only() {
    assert!(can_dim(&DeviceKind::Bulb).is_ok());
    assert!(can_dim(&DeviceKind::Dimmer).is_ok());
    assert!(can_dim(&DeviceKind::LightStrip).is_err());
    assert!(can_dim(&DeviceKind::Plug).is_err());
    assert!(can_dim(&DeviceKind::Strip).is_err());
    assert!(can_dim(&DeviceKind::Unknown("IOT.X".into())).is_err());
}

#[test]
fn tests_can_dim_error_names_the_command() {
    let err = can_dim(&DeviceKind::Plug).unwrap_err();
    assert!(err.contains("`dim`"), "{err}");
}

#[test]
fn guards_can_dim_error_names_the_command() {
    let err = can_dim(&DeviceKind::Plug).unwrap_err();
    assert!(err.contains("`dim`"), "{err}");
}

#[test]
fn can_dim_lightstrip_error_explains_namespace() {
    let err = can_dim(&DeviceKind::LightStrip).unwrap_err();
    assert!(err.contains("not yet supported"), "{err}");
    assert!(err.contains("lightStrip"), "{err}");
}

fn check_bulb_only_guard(guard: fn(&DeviceKind) -> Result<(), String>, cmd: &str) {
    assert!(guard(&DeviceKind::Bulb).is_ok(), "{cmd}: should accept bulb");
    for kind in [DeviceKind::Dimmer, DeviceKind::Plug, DeviceKind::Strip, DeviceKind::LightStrip] {
        let err = guard(&kind).unwrap_err();
        assert!(err.contains(cmd), "{cmd}: error should name the command for {}: {err}", kind.display_name());
    }
}

#[test]
fn bulb_only_guards_accept_bulb_reject_others_color_temp() {
    check_bulb_only_guard(can_set_color_temp, "`color-temp`");
}

#[test]
fn bulb_only_guards_accept_bulb_reject_others_color() {
    check_bulb_only_guard(can_set_color, "`color`");
}

#[test]
fn bulb_only_guards_accept_bulb_reject_others_specs() {
    check_bulb_only_guard(can_get_specs, "`specs`");
}

#[test]
fn bulb_only_guards_accept_bulb_reject_others_presets() {
    check_bulb_only_guard(can_get_presets, "`presets`");
}

#[test]
fn can_set_color_temp_error_mentions_kl135() {
    let err = can_set_color_temp(&DeviceKind::Plug).unwrap_err();
    assert!(err.contains("KL135"), "{err}");
}

fn check_relay_guard(guard: fn(&DeviceKind) -> Result<(), String>, cmd: &str) {
    assert!(guard(&DeviceKind::Plug).is_ok(), "{cmd}: plug");
    assert!(guard(&DeviceKind::Dimmer).is_ok(), "{cmd}: dimmer");
    assert!(guard(&DeviceKind::Strip).is_ok(), "{cmd}: strip");
    assert!(guard(&DeviceKind::LightStrip).is_err(), "{cmd}: light strip");
    let msg = guard(&DeviceKind::Bulb).unwrap_err();
    assert!(msg.contains(cmd), "{cmd}: error should name command: {msg}");
    assert!(
        msg.contains("KP115") || msg.contains("HS220") || msg.contains("HS300"),
        "{cmd}: error should mention supported models: {msg}"
    );
}

#[test]
fn relay_device_guards_accept_plug_dimmer_strip_schedules() {
    check_relay_guard(can_get_schedules, "`schedules`");
}

#[test]
fn relay_device_guards_accept_plug_dimmer_strip_led() {
    check_relay_guard(can_control_led, "`led`");
}

#[test]
fn relay_device_guards_accept_plug_dimmer_strip_clock() {
    check_relay_guard(can_get_clock, "`clock`");
}

#[test]
fn registry_lists_every_known_model_once() {
    let models: Vec<String> = denki::devices::all().iter().map(|d| d.model.clone()).collect();
    for expected in ["KL135", "KP115", "HS105", "HS110", "HS220", "HS300", "KL430", "KL420L5", "P125"] {
        assert_eq!(models.iter().filter(|m| m.as_str() == expected).count(), 1, "{expected}");
    }
}

const GUARDED: &[&str] = &["power", "dim", "color_temp", "color", "specs", "presets", "schedules", "led", "clock"];

fn check(kind: &DeviceKind, feature: &str) -> Result<(), String> {
    match feature {
        "power" => can_control_power(kind),
        "dim" => can_dim(kind),
        "color_temp" => can_set_color_temp(kind),
        "color" => can_set_color(kind),
        "specs" => can_get_specs(kind),
        "presets" => can_get_presets(kind),
        "schedules" => can_get_schedules(kind),
        "led" => can_control_led(kind),
        "clock" => can_get_clock(kind),
        "energy" | "outlets" | "effects" => Ok(()),
        other => panic!("unknown feature '{other}' in the registry"),
    }
}

#[test]
fn listed_features_are_permitted_by_guards() {
    for dev in denki::devices::all() {
        if dev.kind == DeviceKind::Tapo {
            continue;
        }
        for feature in &dev.supports {
            let result = check(&dev.kind, feature);
            assert!(result.is_ok(), "{} lists '{}' but the guard rejects it: {:?}", dev.model, feature, result);
        }
    }
}

#[test]
fn unlisted_guarded_features_are_denied() {
    for dev in denki::devices::all() {
        if dev.kind == DeviceKind::Tapo {
            continue;
        }
        for &feature in GUARDED {
            if dev.supports.iter().any(|f| f == feature) {
                continue;
            }
            assert!(check(&dev.kind, feature).is_err(), "{} does not list '{}' but the guard permits it", dev.model, feature);
        }
    }
}
