use atk_tray_monitor::device::DeviceCandidate;
use atk_tray_monitor::icon::{fill_rect, render_tray_battery_icon, stroke_rect, tray_tooltip};
use atk_tray_monitor::menu::{
    current_language, format_version_menu_text, language_code, language_from_code,
    language_menu_id, menu_action, threshold_menu_id, threshold_menu_label, threshold_options,
    tray_menu_labels, Language, MenuAction,
};
use atk_tray_monitor::report::build_diagnostics_report;
use atk_tray_monitor::snapshot::{empty_diagnostics, BatteryDiagnostics, BatterySnapshot};

fn pixel(rgba: &[u8], x: usize, y: usize) -> [u8; 4] {
    let o = (y * 32 + x) * 4;
    [rgba[o], rgba[o + 1], rgba[o + 2], rgba[o + 3]]
}

fn reading(level: u8, charging: bool, connected: bool) -> BatterySnapshot {
    BatterySnapshot {
        level,
        charge: if charging { 1 } else { 0 },
        voltage_decivolts: 39,
        is_charging: charging,
        connected,
        status: "ok".to_string(),
        device_label: "ATK X1".to_string(),
        updated_at: "1725029869".to_string(),
        source: "libatk-rs".to_string(),
        diagnostics: empty_diagnostics("libatk-rs"),
    }
}

#[test]
fn fill_rect_paints_inside_only() {
    let mut canvas = vec![0u8; 4 * 4 * 4];
    fill_rect(&mut canvas, 4, 1, 1, 2, 2, [9, 8, 7, 6]);
    for y in 0..4 {
        for x in 0..4 {
            let o = (y * 4 + x) * 4;
            let inside = (1..3).contains(&x) && (1..3).contains(&y);
            let expected = if inside { [9, 8, 7, 6] } else { [0, 0, 0, 0] };
            assert_eq!(&canvas[o..o + 4], &expected);
        }
    }
}

#[test]
fn fill_rect_clips_at_canvas_edge() {
    let mut canvas = vec![0u8; 3 * 3 * 4];
    fill_rect(&mut canvas, 3, 2, 2, 5, 5, [1, 2, 3, 4]);
    assert_eq!(&canvas[32..36], &[1, 2, 3, 4]);
    assert_eq!(canvas[..32].iter().filter(|b| **b != 0).count(), 0);
}

#[test]
fn fill_rect_empty_rectangle_changes_nothing() {
    let mut canvas = vec![5u8; 16];
    fill_rect(&mut canvas, 2, 0, 0, 0, 2, [1, 1, 1, 1]);
    assert_eq!(canvas, vec![5u8; 16]);
}

#[test]
fn stroke_rect_paints_outline() {
    let mut canvas = vec![0u8; 5 * 5 * 4];
    stroke_rect(&mut canvas, 5, 1, 1, 3, 3, [7, 7, 7, 7]);
    let painted = |x: usize, y: usize| canvas[(y * 5 + x) * 4] == 7;
    assert!(painted(1, 1) && painted(3, 1) && painted(1, 3) && painted(3, 3));
    assert!(painted(2, 1) && painted(1, 2) && painted(3, 2) && painted(2, 3));
    assert!(!painted(2, 2));
    assert!(!painted(0, 0) && !painted(4, 4));
}

#[test]
fn stroke_rect_of_empty_rectangle_changes_nothing() {
    let mut canvas = vec![0u8; 16];
    stroke_rect(&mut canvas, 2, 0, 0, 2, 0, [7, 7, 7, 7]);
    assert_eq!(canvas, vec![0u8; 16]);
}

#[test]
fn icon_without_reading_is_grey() {
    let icon = render_tray_battery_icon(None);
    assert_eq!(icon.len(), 32 * 32 * 4);
    assert_eq!(pixel(&icon, 6, 8), [148, 163, 184, 255]);
    assert_eq!(pixel(&icon, 25, 12), [148, 163, 184, 255]);
    assert_eq!(pixel(&icon, 8, 10), [148, 163, 184, 20]);
    assert_eq!(pixel(&icon, 0, 0), [0, 0, 0, 0]);
}

#[test]
fn icon_full_battery_is_green() {
    let s = reading(100, false, true);
    let icon = render_tray_battery_icon(Some(&s));
    assert_eq!(pixel(&icon, 6, 8), [236, 240, 241, 255]);
    assert_eq!(pixel(&icon, 8, 10), [74, 222, 128, 255]);
    assert_eq!(pixel(&icon, 21, 19), [74, 222, 128, 255]);
}

#[test]
fn icon_low_battery_is_red_and_partial() {
    let s = reading(10, false, true);
    let icon = render_tray_battery_icon(Some(&s));
    // ceil(10 * 14 / 100) = 2 pixels filled
    assert_eq!(pixel(&icon, 9, 12), [248, 113, 113, 255]);
    assert_eq!(pixel(&icon, 10, 12), [255, 255, 255, 28]);
}

#[test]
fn icon_medium_battery_is_yellow() {
    let s = reading(50, false, true);
    let icon = render_tray_battery_icon(Some(&s));
    assert_eq!(pixel(&icon, 8, 10), [250, 204, 21, 255]);
    assert_eq!(pixel(&icon, 14, 10), [250, 204, 21, 255]);
    assert_eq!(pixel(&icon, 15, 10), [255, 255, 255, 28]);
}

#[test]
fn icon_charging_shows_bolt() {
    let s = reading(30, true, true);
    let icon = render_tray_battery_icon(Some(&s));
    assert_eq!(pixel(&icon, 13, 10), [255, 255, 255, 220]);
    assert_eq!(pixel(&icon, 16, 19), [255, 255, 255, 220]);
    assert_eq!(pixel(&icon, 8, 10), [56, 189, 248, 255]);
}

#[test]
fn icon_gauge_never_shrinks_when_level_rises() {
    let mut previous = 0;
    for level in 0..=100u8 {
        let s = reading(level, false, true);
        let icon = render_tray_battery_icon(Some(&s));
        let filled = (8..22)
            .filter(|x| {
                let p = pixel(&icon, *x, 15);
                p != [255, 255, 255, 28]
            })
            .count();
        assert!(filled >= previous);
        assert_eq!(filled == 0, level == 0);
        previous = filled;
    }
    assert_eq!(previous, 14);
}

#[test]
fn tooltip_texts() {
    assert_eq!(tray_tooltip(&reading(87, false, true)), "ATK Tray Monitor 87%");
    assert_eq!(tray_tooltip(&reading(87, false, false)), "ATK Tray Monitor indisponible");
}

#[test]
fn labels_by_language() {
    assert_eq!(tray_menu_labels("fr").open, "Ouvrir");
    assert_eq!(tray_menu_labels("fr").threshold, "Seuil d'alerte");
    assert_eq!(tray_menu_labels("de").low_battery_notifications, "Benachrichtigung bei niedrigem Akkustand");
    assert_eq!(tray_menu_labels("es").quit, "Salir");
    assert_eq!(tray_menu_labels("it").version, "Versione");
    assert_eq!(tray_menu_labels("en").settings, "Settings");
    assert_eq!(tray_menu_labels("pt").open, "Open");
    assert_eq!(tray_menu_labels("").quit, "Quit");
}

#[test]
fn version_menu_text() {
    assert_eq!(format_version_menu_text("Version", "1.2.3"), "Version 1.2.3");
    assert_eq!(format_version_menu_text("Versione", ""), "Versione ");
}

#[test]
fn languages_and_codes() {
    assert_eq!(current_language(Some("de")), Language::German);
    assert_eq!(current_language(Some("pt")), Language::English);
    assert_eq!(current_language(None), Language::English);
    for language in [
        Language::German,
        Language::English,
        Language::Spanish,
        Language::French,
        Language::Italian,
    ] {
        assert_eq!(language_from_code(language_code(language)), Some(language));
        assert_eq!(
            menu_action(&language_menu_id(language)),
            MenuAction::SelectLanguage(language)
        );
    }
    assert_eq!(language_menu_id(Language::French), "settings_language_fr");
}

#[test]
fn thresholds_and_their_items() {
    assert_eq!(threshold_options(), vec![5, 10, 15, 20, 25, 30, 40, 50]);
    assert_eq!(threshold_menu_id(25), "settings_threshold_25");
    assert_eq!(threshold_menu_label(5), "5%");
    for value in threshold_options() {
        assert_eq!(menu_action(&threshold_menu_id(value)), MenuAction::SelectThreshold(value));
    }
    assert_eq!(menu_action("settings_threshold_7"), MenuAction::Ignore);
    assert_eq!(menu_action("settings_threshold_"), MenuAction::Ignore);
}

#[test]
fn fixed_menu_items() {
    assert_eq!(menu_action("open"), MenuAction::Open);
    assert_eq!(menu_action("hide"), MenuAction::Hide);
    assert_eq!(menu_action("refresh"), MenuAction::Refresh);
    assert_eq!(menu_action("copy_diagnostics"), MenuAction::CopyDiagnostics);
    assert_eq!(menu_action("settings_launch_on_startup"), MenuAction::ToggleLaunchOnStartup);
    assert_eq!(menu_action("settings_start_minimized"), MenuAction::ToggleStartMinimized);
    assert_eq!(
        menu_action("settings_low_battery_notifications"),
        MenuAction::ToggleLowBatteryNotifications
    );
    assert_eq!(menu_action("quit"), MenuAction::Quit);
    assert_eq!(menu_action("version"), MenuAction::Ignore);
    assert_eq!(menu_action("settings_language_pt"), MenuAction::Ignore);
}

#[test]
fn report_without_candidates() {
    let s = reading(87, false, true);
    let expected = "ATK Tray Monitor diagnostic\n\
Horodatage: 1725029869\n\
Source: libatk-rs\n\
Backend: libatk-rs\n\
Connecte: oui\n\
Niveau: 87%\n\
Charge: 0\n\
Tension: 3.9V\n\
Cible retenue: aucune\n\
Erreur: aucune\n\
Candidats: 0\n\
\n\
Aucun candidat HID compatible detecte";
    assert_eq!(build_diagnostics_report(&s), expected);
}

#[test]
fn report_with_candidates() {
    let mut s = reading(0, false, false);
    s.voltage_decivolts = 40;
    s.diagnostics = BatteryDiagnostics {
        selected_candidate: Some("ATK X1".to_string()),
        candidate_count: 2,
        candidates: vec![
            DeviceCandidate {
                vendor_id: 0x373B,
                product_id: 0x1031,
                usage_page: 0xFF00,
                usage: 1,
                label: "ATK X1 [373B:1031 uFF00:0001]".to_string(),
                score: 230,
            },
            DeviceCandidate {
                vendor_id: 0x0A,
                product_id: 0xBC,
                usage_page: 1,
                usage: 2,
                label: "HID Device".to_string(),
                score: 15,
            },
        ],
        last_error: Some("boom".to_string()),
        backend: "hid-scan".to_string(),
    };
    let report = build_diagnostics_report(&s);
    let lines: Vec<&str> = report.split('\n').collect();
    assert_eq!(lines.len(), 14);
    assert_eq!(lines[4], "Connecte: non");
    assert_eq!(lines[7], "Tension: 4.0V");
    assert_eq!(lines[8], "Cible retenue: ATK X1");
    assert_eq!(lines[9], "Erreur: boom");
    assert_eq!(lines[10], "Candidats: 2");
    assert_eq!(lines[11], "");
    assert_eq!(
        lines[12],
        "1. ATK X1 [373B:1031 uFF00:0001] | score=230 | VID=373B PID=1031 U=FF00:0001"
    );
    assert_eq!(lines[13], "2. HID Device | score=15 | VID=000A PID=00BC U=0001:0002");
}

#[test]
fn report_voltage_matches_float_rendering() {
    for raw in 0..=255u8 {
        let mut s = reading(1, false, true);
        s.voltage_decivolts = raw;
        let report = build_diagnostics_report(&s);
        let expected = format!("Tension: {:.1}V", raw as f32 / 10.0);
        assert!(report.contains(&expected), "{raw}");
    }
}
