use displayd::daemon::{
    cache_entry, cached_default, choose_default, contains_text, default_after_removal,
    begin_level_change, drm_connector_name, reconnect_choice, MonitorRoster, ReconnectChoice, level_step, needs_discovery, settle_level_change, LevelStep, removed_connectors, request_kind, resolve_connector, CachedMonitor,
    MonitorId, RequestKind,
};
use displayd::edid::parse::{EdidData, ProductionDate};
use std::path::PathBuf;

fn strings(list: &[&str]) -> Vec<String> {
    list.iter().map(|s| s.to_string()).collect()
}

fn cached(connector: &str, default: bool) -> CachedMonitor {
    CachedMonitor { connector: connector.to_string(), path: PathBuf::from("/dev/i2c-1"), default }
}

#[test]
fn monitor_id_from_edid() {
    let edid = EdidData {
        id: "GSM".to_string(),
        name: Some("LG".to_string()),
        product_code: 0x5b7f,
        serial_number: 0x0001e240,
        production_date: ProductionDate::ModelYear { year: 2021 },
    };
    let id = MonitorId::from_edid(&edid);
    assert_eq!(id.manufacturer, "GSM");
    assert_eq!(id.product, 0x5b7f);
    assert_eq!(id.serial, Some(0x0001e240));
}

#[test]
fn cached_default_is_the_first_marked() {
    assert_eq!(cached_default(&vec![]), None);
    assert_eq!(cached_default(&vec![cached("DP-1", false)]), None);
    let list = vec![cached("DP-1", false), cached("DP-2", true), cached("HDMI-1", true)];
    assert_eq!(cached_default(&list).as_deref(), Some("DP-2"));
}

#[test]
fn choose_default_keeps_a_present_cached_default() {
    let found = strings(&["DP-1", "DP-2"]);
    assert_eq!(choose_default(Some("DP-2".to_string()), &found).as_deref(), Some("DP-2"));
    assert_eq!(choose_default(Some("HDMI-1".to_string()), &found).as_deref(), Some("DP-1"));
    assert_eq!(choose_default(None, &found).as_deref(), Some("DP-1"));
    assert_eq!(choose_default(Some("DP-1".to_string()), &vec![]), None);
}

#[test]
fn cache_entries_mark_the_default() {
    let e = cache_entry("DP-1".to_string(), PathBuf::from("/dev/i2c-7"), &Some("DP-1".to_string()));
    assert!(e.default);
    assert_eq!(e.connector, "DP-1");
    assert_eq!(e.path, PathBuf::from("/dev/i2c-7"));
    let e = cache_entry("DP-2".to_string(), PathBuf::from("/dev/i2c-8"), &Some("DP-1".to_string()));
    assert!(!e.default);
    let e = cache_entry("DP-2".to_string(), PathBuf::from("/dev/i2c-8"), &None);
    assert!(!e.default);
}

#[test]
fn drm_connector_names() {
    assert_eq!(drm_connector_name("card1-DP-2").as_deref(), Some("DP-2"));
    assert_eq!(drm_connector_name("card0-HDMI-A-1").as_deref(), Some("HDMI-A-1"));
    assert_eq!(drm_connector_name("card0-").as_deref(), Some(""));
    assert_eq!(drm_connector_name("card1"), None);
    assert_eq!(drm_connector_name("renderD128"), None);
    assert_eq!(drm_connector_name("version"), None);
    assert_eq!(drm_connector_name("car"), None);
}

#[test]
fn hotplug_removal_and_discovery() {
    let existing = strings(&["DP-1", "DP-2", "HDMI-1"]);
    let connected = strings(&["DP-2", "eDP-1"]);
    assert_eq!(removed_connectors(&existing, &connected), strings(&["DP-1", "HDMI-1"]));
    assert!(needs_discovery(&existing, &connected));
    assert!(!needs_discovery(&existing, &strings(&["DP-1"])));
    assert!(removed_connectors(&existing, &existing).is_empty());
    assert!(contains_text(&existing, &"DP-2".to_string()));
    assert!(!contains_text(&existing, &"DP-3".to_string()));
}

#[test]
fn default_after_unplugging() {
    let removed = strings(&["DP-1"]);
    let remaining = strings(&["DP-2", "HDMI-1"]);
    assert_eq!(default_after_removal(Some("DP-1".to_string()), &removed, &remaining).as_deref(), Some("DP-2"));
    assert_eq!(default_after_removal(Some("DP-1".to_string()), &removed, &vec![]), None);
    assert_eq!(default_after_removal(Some("HDMI-1".to_string()), &removed, &remaining).as_deref(), Some("HDMI-1"));
    assert_eq!(default_after_removal(None, &removed, &remaining), None);
}

#[test]
fn resolve_requested_or_default() {
    assert_eq!(resolve_connector(Some("DP-1".to_string()), Some("DP-2".to_string())), Ok("DP-1".to_string()));
    assert_eq!(resolve_connector(None, Some("DP-2".to_string())), Ok("DP-2".to_string()));
    assert_eq!(resolve_connector(None, None), Err("No default monitor is available".to_string()));
}

#[test]
fn request_kinds() {
    let kind = |s: &str| request_kind(&s.to_string());
    assert_eq!(kind("list"), RequestKind::List);
    assert_eq!(kind("info"), RequestKind::Info);
    assert_eq!(kind("brightness"), RequestKind::Brightness);
    assert_eq!(kind("contrast"), RequestKind::Contrast);
    assert_eq!(kind("dim"), RequestKind::Dim);
    assert_eq!(kind("restore"), RequestKind::Restore);
    assert_eq!(kind("subscribe"), RequestKind::Subscribe);
    assert_eq!(kind("List"), RequestKind::Unknown);
    assert_eq!(kind(""), RequestKind::Unknown);
}

#[test]
fn level_steps() {
    assert_eq!(level_step(None, 100), LevelStep::Report);
    assert_eq!(level_step(Some(100), 100), LevelStep::Write(100));
    assert_eq!(level_step(Some(0), 0), LevelStep::Write(0));
    assert_eq!(level_step(Some(101), 100), LevelStep::OutOfRange { maximum: 100 });
}

#[test]
fn level_change_rolls_back_a_failed_write() {
    let mut level = 40u16;
    assert_eq!(begin_level_change(&mut level, 100, Some(70)), LevelStep::Write(70));
    assert_eq!(level, 70);
    assert!(!settle_level_change(&mut level, 40, false));
    assert_eq!(level, 40);

    assert_eq!(begin_level_change(&mut level, 100, Some(70)), LevelStep::Write(70));
    assert!(settle_level_change(&mut level, 40, true));
    assert_eq!(level, 70);

    assert_eq!(begin_level_change(&mut level, 100, Some(101)), LevelStep::OutOfRange { maximum: 100 });
    assert_eq!(level, 70);
    assert_eq!(begin_level_change(&mut level, 100, None), LevelStep::Report);
    assert_eq!(level, 70);
}

#[test]
fn hotplug_round_keeps_a_fitting_default() {
    let existing = strings(&["DP-1", "DP-2"]);
    let connected = strings(&["DP-2", "HDMI-1"]);
    let removed = removed_connectors(&existing, &connected);
    assert_eq!(removed, strings(&["DP-1"]));
    let remaining = strings(&["DP-2"]);
    let default = default_after_removal(Some("DP-1".to_string()), &removed, &remaining);
    assert_eq!(default.as_deref(), Some("DP-2"));
    assert!(needs_discovery(&remaining, &connected));
    let monitors = strings(&["DP-2", "HDMI-1"]);

    let removed = removed_connectors(&strings(&["DP-1"]), &strings(&["HDMI-1"]));
    let default = default_after_removal(Some("DP-1".to_string()), &removed, &vec![]);
    assert_eq!(default, None);
}

#[test]
fn roster_starts_with_a_fitting_default() {
    let roster = MonitorRoster::new(strings(&["DP-1", "DP-2"]), Some("DP-2".to_string()));
    assert_eq!(roster.connectors(), &strings(&["DP-1", "DP-2"]));
    assert_eq!(roster.default_monitor().as_deref(), Some("DP-2"));
    let roster = MonitorRoster::new(strings(&["DP-1", "DP-2"]), Some("HDMI-1".to_string()));
    assert_eq!(roster.default_monitor().as_deref(), Some("DP-1"));
    let roster = MonitorRoster::new(vec![], Some("HDMI-1".to_string()));
    assert_eq!(roster.default_monitor(), None);
}

#[test]
fn roster_unplug_and_plug() {
    let mut roster = MonitorRoster::new(strings(&["DP-1", "DP-2", "HDMI-1"]), Some("DP-1".to_string()));
    let connected = strings(&["DP-2", "eDP-1"]);
    let removed = roster.unplug(&connected);
    assert_eq!(removed, strings(&["DP-1", "HDMI-1"]));
    assert_eq!(roster.connectors(), &strings(&["DP-2"]));
    assert_eq!(roster.default_monitor().as_deref(), Some("DP-2"));

    assert!(!roster.admits(&"DP-2".to_string(), &connected));
    assert!(!roster.admits(&"HDMI-1".to_string(), &connected));
    assert!(roster.admits(&"eDP-1".to_string(), &connected));
    assert!(!roster.plug("HDMI-1".to_string(), &connected));
    assert!(roster.plug("eDP-1".to_string(), &connected));
    assert!(!roster.plug("eDP-1".to_string(), &connected));
    assert_eq!(roster.connectors(), &strings(&["DP-2", "eDP-1"]));
    assert_eq!(roster.default_monitor().as_deref(), Some("DP-2"));

    let removed = roster.unplug(&vec![]);
    assert_eq!(removed, strings(&["DP-2", "eDP-1"]));
    assert_eq!(roster.default_monitor(), None);
    assert!(roster.plug("DP-3".to_string(), &strings(&["DP-3"])));
    assert_eq!(roster.default_monitor().as_deref(), Some("DP-3"));
}

#[test]
fn reconnect_choices() {
    let expected = "DP-2".to_string();
    assert_eq!(reconnect_choice(&expected, &Some("DP-2".to_string()), &vec![]), ReconnectChoice::Original);
    assert_eq!(reconnect_choice(&expected, &Some("DP-1".to_string()), &vec![]), ReconnectChoice::Lost);
    let scanned = vec![Some("DP-1".to_string()), None, Some("DP-2".to_string()), Some("DP-2".to_string())];
    assert_eq!(reconnect_choice(&expected, &None, &scanned), ReconnectChoice::Scanned(2));
    assert_eq!(reconnect_choice(&expected, &Some("HDMI-1".to_string()), &scanned), ReconnectChoice::Scanned(2));
    assert_eq!(reconnect_choice(&expected, &None, &vec![None, Some("DP-1".to_string())]), ReconnectChoice::Lost);
}
