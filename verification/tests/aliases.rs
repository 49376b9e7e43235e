use denki::hosts::{
    find_normalized_alias_collision, lookup, lookup_many, normalize, normalize_alias_name,
    save_if_new_in, HostEntry, HostMap, Protocol,
};

fn entry(ip: &str, protocol: Protocol) -> HostEntry {
    HostEntry { ip: ip.to_string(), protocol }
}

#[test]
fn normalize_alias_name_trims_whitespace() {
    assert_eq!(normalize_alias_name("  Desk Lamp  ").unwrap(), "Desk Lamp");
}

#[test]
fn normalize_alias_name_rejects_empty() {
    assert!(normalize_alias_name("   ").is_err());
}

#[test]
fn normalize_alias_name_rejects_empty_string() {
    assert!(normalize_alias_name("").is_err());
}

#[test]
fn find_normalized_alias_collision_detects_similarity() {
    let mut map = HostMap::new();
    map.insert("Desk Lamp".to_string(), entry("10.0.0.1", Protocol::Kasa));
    let hit = find_normalized_alias_collision(&map, "desk    lamp");
    assert_eq!(hit.as_deref(), Some("Desk Lamp"));
}

#[test]
fn lookup_many_returns_exact_match_first() {
    let mut map = HostMap::new();
    map.insert("Office Color 1".to_string(), entry("192.168.4.65", Protocol::Kasa));
    map.insert("Office".to_string(), entry("192.168.4.12", Protocol::Kasa));
    map.insert("Living Room Lamp".to_string(), entry("192.168.4.20", Protocol::Kasa));

    let hits = lookup_many("Office", &map);
    assert_eq!(hits.len(), 1);
    assert_eq!(hits[0].0, "Office");
}

#[test]
fn lookup_many_returns_substring_matches() {
    let mut map = HostMap::new();
    map.insert("Office Color 1".to_string(), entry("192.168.4.65", Protocol::Kasa));
    map.insert("Office Color 2".to_string(), entry("192.168.4.25", Protocol::Kasa));
    map.insert("Living Room Lamp".to_string(), entry("192.168.4.20", Protocol::Kasa));

    let hits = lookup_many("office", &map);
    assert_eq!(hits.len(), 2);
    assert!(hits.iter().any(|(name, _)| name == "Office Color 1"));
    assert!(hits.iter().any(|(name, _)| name == "Office Color 2"));
}

#[test]
fn exact_match_returns_entry() {
    let mut map = HostMap::new();
    map.insert("floor lamp".to_string(), entry("10.0.0.1", Protocol::Kasa));
    let found = lookup("floor lamp", &map).unwrap();
    assert_eq!(found.unwrap().ip, "10.0.0.1");
}

#[test]
fn ambiguous_match_returns_err_with_both_names() {
    let mut map = HostMap::new();
    map.insert("floor lamp".to_string(), entry("10.0.0.1", Protocol::Kasa));
    map.insert("desk lamp".to_string(), entry("10.0.0.2", Protocol::Kasa));

    let err = lookup("lamp", &map).unwrap_err();
    let msg = err.message();
    assert!(msg.contains("ambiguous"), "{msg}");
    assert!(msg.contains("matches:"), "{msg}");
    assert!(msg.contains("floor lamp"), "{msg}");
    assert!(msg.contains("desk lamp"), "{msg}");
}

#[test]
fn unambiguous_substring_returns_entry() {
    let mut map = HostMap::new();
    map.insert("floor lamp".to_string(), entry("10.0.0.1", Protocol::Kasa));
    map.insert("ceiling fan".to_string(), entry("10.0.0.2", Protocol::Kasa));

    let found = lookup("floor", &map).unwrap();
    assert_eq!(found.unwrap().ip, "10.0.0.1");
}

#[test]
fn unknown_name_returns_none() {
    let mut map = HostMap::new();
    map.insert("floor lamp".to_string(), entry("10.0.0.1", Protocol::Kasa));

    assert!(lookup("kitchen", &map).unwrap().is_none());
}

#[test]
fn auto_save_adds_new_device() {
    let mut map = HostMap::new();
    let saved = save_if_new_in("Coat Rack", "192.168.7.203", &mut map);
    assert!(saved);
    assert_eq!(map.get("Coat Rack").unwrap().ip, "192.168.7.203");
}

#[test]
fn auto_save_preserves_existing_alias() {
    let mut map = HostMap::new();
    map.insert("hummer".to_string(), entry("192.168.4.36", Protocol::Kasa));

    // Sysinfo reports "Hummer" but the IP is already saved as "hummer": skip.
    let saved = save_if_new_in("Hummer", "192.168.4.36", &mut map);
    assert!(!saved);
    assert!(map.get("hummer").is_some());
    assert!(map.get("Hummer").is_none());
}

#[test]
fn auto_save_skips_blank_sysinfo_name() {
    let mut map = HostMap::new();
    let saved = save_if_new_in("", "192.168.4.99", &mut map);
    assert!(!saved);
    assert!(map.is_empty());
}

#[test]
fn alias_matching_is_case_and_punctuation_insensitive() {
    fn matches(alias: &str, query: &str) -> bool {
        let a = normalize(alias);
        let q = normalize(query);
        !q.is_empty() && (a == q || a.contains(&q))
    }
    assert!(matches("Living Room Right Lamp", "living room"));
    assert!(matches("Coat-Rack Lights", "coat rack"));
    assert!(matches("Kitchen Wax Melter", "KITCHEN"));
    assert!(!matches("Back Porch Reading Lamp", "coat rack"));
}

#[test]
fn set_then_lookup_finds_the_saved_entry() {
    let mut map = HostMap::new();
    denki::hosts::set(&mut map, "tapo plug", "192.168.7.254", true, Protocol::Klap).unwrap();
    let found = lookup("tapo plug", &map).unwrap().unwrap();
    assert_eq!(found.ip, "192.168.7.254");
    assert_eq!(found.protocol, Protocol::Klap);
}

#[test]
fn set_refuses_a_name_too_similar_to_an_existing_alias() {
    let mut map = HostMap::new();
    denki::hosts::set(&mut map, "Desk Lamp", "10.0.0.1", true, Protocol::Kasa).unwrap();
    let err = denki::hosts::set(&mut map, "desk-lamp", "10.0.0.2", true, Protocol::Kasa).unwrap_err();
    assert!(err.message().contains("too similar"), "{}", err.message());
}

#[test]
fn set_refuses_an_empty_name() {
    let mut map = HostMap::new();
    let err = denki::hosts::set(&mut map, "   ", "10.0.0.1", true, Protocol::Kasa).unwrap_err();
    assert_eq!(err.message(), "Alias name cannot be empty");
}

#[test]
fn remove_then_lookup_finds_nothing() {
    let mut map = HostMap::new();
    map.insert("lamp".to_string(), entry("10.0.0.1", Protocol::Kasa));
    assert!(denki::hosts::remove(&mut map, "lamp"));
    assert!(!denki::hosts::remove(&mut map, "lamp"));
    assert!(lookup("lamp", &map).unwrap().is_none());
}

#[test]
fn alias_for_ip_is_found_by_address() {
    let mut map = HostMap::new();
    map.insert("lamp".to_string(), entry("10.0.0.1", Protocol::Kasa));
    assert_eq!(denki::hosts::lookup_by_ip_in("10.0.0.1", &map).as_deref(), Some("lamp"));
    assert!(denki::hosts::lookup_by_ip_in("10.0.0.2", &map).is_none());
}

#[test]
fn normalizing_twice_changes_nothing() {
    for name in ["  Coat-Rack  Lights!", "Office Color 1", "", "--", "Kitchen_Wax_Melter"] {
        let once = normalize(name);
        assert_eq!(normalize(&once), once);
    }
    assert_eq!(normalize("  Coat-Rack  Lights!"), "coat rack lights");
}

#[test]
fn set_refuses_an_address_that_is_not_an_ip() {
    let mut map = HostMap::new();
    let err = denki::hosts::set(&mut map, "x", "not-an-ip", false, Protocol::Kasa).unwrap_err();
    assert_eq!(err.message(), "Invalid IP address for alias: \"not-an-ip\"");
    assert!(lookup("x", &map).unwrap().is_none());
    assert!(denki::hosts::list(&map).is_empty());
    let err = denki::hosts::check_new_alias("  ", "not-an-ip", false).unwrap_err();
    assert_eq!(err.message(), "Alias name cannot be empty");
    assert_eq!(denki::hosts::check_new_alias(" lamp ", "10.0.0.1", true).unwrap(), "lamp");
}
