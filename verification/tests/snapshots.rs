use atk_tray_monitor::device::DeviceCandidate;
use atk_tray_monitor::snapshot::{
    decode_battery_response, disconnected_snapshot, empty_diagnostics,
    enrich_snapshot_with_diagnostics, initial_snapshot, iso_now, normalize_snapshot_level,
    refreshed_snapshot, scan_failure_snapshot, scan_snapshot, snapshot_from_response,
    snapshots_are_recent, timestamp_text, BatterySnapshot,
};

fn candidate() -> DeviceCandidate {
    DeviceCandidate {
        vendor_id: 0x373B,
        product_id: 0x1031,
        usage_page: 0xFF00,
        usage: 0x0001,
        label: "ATK X1 [373B:1031 uFF00:0001]".to_string(),
        score: 230,
    }
}

fn reading(level: u8, charging: bool, label: &str, at: &str) -> BatterySnapshot {
    BatterySnapshot {
        level,
        charge: if charging { 1 } else { 0 },
        voltage_decivolts: 40,
        is_charging: charging,
        connected: true,
        status: "ok".to_string(),
        device_label: label.to_string(),
        updated_at: at.to_string(),
        source: "libatk-rs".to_string(),
        diagnostics: empty_diagnostics("libatk-rs"),
    }
}

#[test]
fn decode_reads_first_three_bytes() {
    assert_eq!(decode_battery_response(&[80, 1, 41, 9, 9]), (80, 1, 41));
    assert_eq!(decode_battery_response(&[55]), (55, 0, 0));
    assert_eq!(decode_battery_response(&[]), (0, 0, 0));
}

#[test]
fn iso_now_is_a_decimal_number() {
    let now = iso_now();
    let seconds: u64 = now.parse().unwrap();
    assert!(seconds > 1_600_000_000);
    assert_eq!(seconds.to_string(), now);
}

#[test]
fn timestamp_text_renders_seconds() {
    assert_eq!(timestamp_text(Some(1725029869)), "1725029869");
    assert_eq!(timestamp_text(Some(0)), "0");
    assert_eq!(timestamp_text(None), "0");
}

#[test]
fn empty_diagnostics_has_only_a_backend() {
    let d = empty_diagnostics("libatk-rs");
    assert_eq!(d.backend, "libatk-rs");
    assert_eq!(d.candidate_count, 0);
    assert!(d.candidates.is_empty());
    assert!(d.selected_candidate.is_none());
    assert!(d.last_error.is_none());
}

#[test]
fn response_snapshot_caps_level_and_reads_charge() {
    let s = snapshot_from_response(&candidate(), &[150, 2, 39]);
    assert_eq!(s.level, 100);
    assert_eq!(s.charge, 2);
    assert_eq!(s.voltage_decivolts, 39);
    assert!(s.is_charging);
    assert!(s.connected);
    assert_eq!(s.status, "Lecture reussie via libatk-rs sur 373b:1031 (usage ff00:0001).");
    assert_eq!(s.device_label, "ATK X1");
    assert_eq!(s.source, "libatk-rs");
    assert_eq!(s.diagnostics.backend, "libatk-rs");
    assert!(s.updated_at.parse::<u64>().is_ok());
}

#[test]
fn response_snapshot_not_charging() {
    let s = snapshot_from_response(&candidate(), &[64, 0]);
    assert_eq!(s.level, 64);
    assert!(!s.is_charging);
    assert_eq!(s.voltage_decivolts, 0);
}

#[test]
fn disconnected_snapshot_reports_message() {
    let s = disconnected_snapshot("No device", "ATK device", "hid-scan", vec![candidate()]);
    assert_eq!(s.level, 0);
    assert!(!s.connected);
    assert!(!s.is_charging);
    assert_eq!(s.status, "No device");
    assert_eq!(s.device_label, "ATK device");
    assert_eq!(s.source, "hid-scan");
    assert_eq!(s.diagnostics.candidate_count, 1);
    assert_eq!(s.diagnostics.candidates, vec![candidate()]);
    assert_eq!(s.diagnostics.last_error, Some("No device".to_string()));
    assert_eq!(s.diagnostics.backend, "hid-scan");
    assert!(s.updated_at.parse::<u64>().is_ok());
}

#[test]
fn initial_snapshot_is_bootstrap() {
    let s = initial_snapshot();
    assert_eq!(s.status, "Initialisation de la detection ATK...");
    assert_eq!(s.source, "bootstrap");
    assert!(!s.connected);
}

#[test]
fn enrich_records_the_scan() {
    let s = reading(70, false, "ATK X1", "100");
    let e = enrich_snapshot_with_diagnostics(s, vec![candidate(), candidate()], None);
    assert_eq!(e.level, 70);
    assert_eq!(e.diagnostics.selected_candidate, Some("ATK X1".to_string()));
    assert_eq!(e.diagnostics.candidate_count, 2);
    assert_eq!(e.diagnostics.backend, "libatk-rs");
    assert!(e.diagnostics.last_error.is_none());
}

#[test]
fn scan_snapshot_of_success_and_failure() {
    let ok = scan_snapshot(vec![candidate()], Ok(reading(70, false, "ATK X1", "100")));
    assert!(ok.connected);
    assert_eq!(ok.diagnostics.candidate_count, 1);
    assert_eq!(ok.diagnostics.selected_candidate, Some("ATK X1".to_string()));

    let failed = scan_snapshot(vec![candidate()], Err("X: no answer".to_string()));
    assert!(!failed.connected);
    assert_eq!(failed.status, "X: no answer");
    assert_eq!(failed.source, "hid-scan");
    assert_eq!(failed.device_label, "ATK device");
    assert_eq!(failed.diagnostics.candidate_count, 1);

    let none = scan_failure_snapshot("nothing");
    assert_eq!(none.diagnostics.candidate_count, 0);
    assert_eq!(none.diagnostics.last_error, Some("nothing".to_string()));
}

#[test]
fn recent_snapshots() {
    let a = reading(40, true, "ATK X1", "1000");
    let b = reading(84, true, "ATK X1", "1900");
    let c = reading(84, true, "ATK X1", "1901");
    let d = reading(84, true, "ATK X1", "not a time");
    assert!(snapshots_are_recent(&a, &b, 900));
    assert!(!snapshots_are_recent(&a, &c, 900));
    assert!(snapshots_are_recent(&b, &a, 0));
    assert!(!snapshots_are_recent(&a, &d, 900));
    let plus = reading(84, true, "ATK X1", "+1100");
    assert!(snapshots_are_recent(&a, &plus, 900));
}

#[test]
fn normalize_halves_doubled_charging_reading() {
    let previous = reading(40, true, "ATK X1", "1000");
    let mut current = reading(84, true, "ATK X1", "1100");
    normalize_snapshot_level(&mut current, &previous);
    assert_eq!(current.level, 42);
    assert_eq!(current.status, "ok Niveau normalise pendant la charge.");
}

#[test]
fn normalize_is_idempotent() {
    let previous = reading(40, true, "ATK X1", "1000");
    let mut current = reading(84, true, "ATK X1", "1100");
    normalize_snapshot_level(&mut current, &previous);
    let once = current.clone();
    normalize_snapshot_level(&mut current, &previous);
    assert_eq!(current, once);
}

#[test]
fn normalize_leaves_other_readings() {
    let previous = reading(40, true, "ATK X1", "1000");

    let mut not_charging = reading(84, false, "ATK X1", "1100");
    normalize_snapshot_level(&mut not_charging, &previous);
    assert_eq!(not_charging.level, 84);

    let mut other_device = reading(84, true, "ATK X2", "1100");
    normalize_snapshot_level(&mut other_device, &previous);
    assert_eq!(other_device.level, 84);

    let mut too_late = reading(84, true, "ATK X1", "1901");
    normalize_snapshot_level(&mut too_late, &previous);
    assert_eq!(too_late.level, 84);

    let mut small_jump = reading(69, true, "ATK X1", "1100");
    normalize_snapshot_level(&mut small_jump, &previous);
    assert_eq!(small_jump.level, 69);

    let mut far_half = reading(100, true, "ATK X1", "1100");
    normalize_snapshot_level(&mut far_half, &reading(20, true, "ATK X1", "1000"));
    assert_eq!(far_half.level, 100);

    let mut after_disconnect = reading(84, true, "ATK X1", "1100");
    let mut gone = previous.clone();
    gone.connected = false;
    normalize_snapshot_level(&mut after_disconnect, &gone);
    assert_eq!(after_disconnect.level, 84);
    assert_eq!(after_disconnect.status, "ok");
}

#[test]
fn refresh_stores_smoothed_or_failure_snapshot() {
    let latest = reading(40, true, "ATK X1", "1000");
    let stored = refreshed_snapshot(Ok(reading(84, true, "ATK X1", "1100")), &latest);
    assert_eq!(stored.level, 42);
    let failed = refreshed_snapshot(Err("timeout".to_string()), &latest);
    assert!(!failed.connected);
    assert_eq!(failed.status, "timeout");
    assert_eq!(failed.source, "hid-scan");
}
