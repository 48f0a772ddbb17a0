use atk_tray_monitor::device::{
    friendly_device_label, is_candidate, locate_candidates, query_failure_message, query_step,
    sanitize_device_label, score_candidate, DeviceCandidate, HidDeviceInfo,
};

fn device(
    manufacturer: Option<&str>,
    product: Option<&str>,
    vendor_id: u16,
    product_id: u16,
    usage_page: u16,
    usage: u16,
) -> HidDeviceInfo {
    HidDeviceInfo {
        manufacturer: manufacturer.map(|s| s.to_string()),
        product: product.map(|s| s.to_string()),
        vendor_id,
        product_id,
        usage_page,
        usage,
    }
}

#[test]
fn score_adds_every_bonus() {
    assert_eq!(score_candidate(true, true, 0xFF00, 0x0001, "atk mouse"), 255);
}

#[test]
fn score_of_plain_interface_is_zero() {
    assert_eq!(score_candidate(false, false, 0x0001, 0x0002, "logitech keyboard"), 0);
}

#[test]
fn score_receiver_penalty() {
    // 60 + 30 + 15 + 10 = 115, less 25
    assert_eq!(score_candidate(false, true, 0xFF00, 0x0002, "atk receiver mouse"), 90);
}

#[test]
fn score_penalty_saturates_at_zero() {
    assert_eq!(score_candidate(false, false, 0x0001, 0x0002, "vxe dongle"), 0);
}

#[test]
fn score_light_version_penalty() {
    // usage 1 (20) + keyword (15) + mouse (10) = 45, less 25
    assert_eq!(score_candidate(false, false, 0x0001, 0x0001, "mad r mouse light version"), 20);
}

#[test]
fn sanitize_removes_identifiers_and_collapses_spaces() {
    assert_eq!(
        sanitize_device_label("  Razer   Viper\t Mini [1532:008A u0001:0002]"),
        "Razer Viper Mini"
    );
}

#[test]
fn sanitize_maps_dongle_names_to_generic_mouse() {
    assert_eq!(sanitize_device_label("ATK Dongle [373B:1031 uFF00:0001]"), "ATK mouse");
    assert_eq!(sanitize_device_label("Compx 2.4G RECEIVER"), "ATK mouse");
}

#[test]
fn sanitize_keeps_other_products() {
    assert_eq!(sanitize_device_label("VXE MAD R [373B:105B u0001:0002]"), "VXE MAD R");
    assert_eq!(sanitize_device_label("ATK F1 Pro"), "ATK F1 Pro");
    assert_eq!(
        sanitize_device_label("ATK F1 LEVIATAN [373B:105B uFF00:0001]"),
        "ATK F1 LEVIATAN"
    );
}

#[test]
fn sanitize_empty_label_gives_default() {
    assert_eq!(sanitize_device_label(""), "ATK device");
    assert_eq!(sanitize_device_label("   [373B:1031 uFF00:0001]"), "ATK device");
}

#[test]
fn sanitize_is_idempotent_on_examples() {
    for label in [
        "  Razer   Viper [x]",
        "ATK Dongle",
        "",
        "VXE MAD R",
        "ATK device",
        "ATK mouse",
    ] {
        let once = sanitize_device_label(label);
        assert_eq!(sanitize_device_label(&once), once);
    }
}

#[test]
fn friendly_label_of_candidate() {
    let candidate = DeviceCandidate {
        vendor_id: 0x373B,
        product_id: 0x1031,
        usage_page: 0xFF00,
        usage: 1,
        label: "ATK X1 Ultimate [373B:1031 uFF00:0001]".to_string(),
        score: 230,
    };
    assert_eq!(friendly_device_label(&candidate), "ATK X1 Ultimate");
}

#[test]
fn locate_ranks_and_labels_candidates() {
    let devices = vec![
        device(Some("Logitech"), Some("Keyboard"), 0x046D, 0xC31C, 0x0001, 0x0006),
        device(Some("Compx"), Some("VXE Mouse"), 0x3554, 0xF58A, 0x0001, 0x0002),
        device(None, None, 0x373B, 0x1031, 0xFF00, 0x0001),
        device(Some("ATK"), Some("F1 LEVIATAN"), 0x373B, 0x1031, 0xFF00, 0x0001),
        device(Some("Other"), Some("Thing"), 0x1234, 0x5678, 0xFF00, 0x0001),
    ];
    let candidates = locate_candidates(&devices).unwrap();
    assert_eq!(candidates.len(), 3);

    // Known id: 100 + 60 + 30 + 20 + 20, no keyword in the empty names.
    assert_eq!(candidates[0].vendor_id, 0x373B);
    assert_eq!(candidates[0].score, 230);
    assert_eq!(candidates[0].label, "ATK Device [373B:1031 uFF00:0001]");

    // Protocol shape only: 30 + 20 + 20.
    assert_eq!(candidates[1].vendor_id, 0x1234);
    assert_eq!(candidates[1].score, 70);
    assert_eq!(candidates[1].label, "Other Thing [1234:5678 uFF00:0001]");

    // Keyword "vxe" after lower-casing, usage page 1: 15 + 10.
    assert_eq!(candidates[2].vendor_id, 0x3554);
    assert_eq!(candidates[2].score, 25);
    assert_eq!(candidates[2].label, "Compx VXE Mouse [3554:F58A u0001:0002]");
}

#[test]
fn locate_keeps_first_of_each_interface() {
    let devices = vec![
        device(Some("ATK"), Some("First"), 0x373B, 0x105B, 0x0001, 0x0002),
        device(Some("ATK"), Some("Second"), 0x373B, 0x105B, 0x0001, 0x0002),
    ];
    let candidates = locate_candidates(&devices).unwrap();
    assert_eq!(candidates.len(), 1);
    assert_eq!(candidates[0].label, "ATK First [373B:105B u0001:0002]");
}

#[test]
fn locate_orders_equal_scores_by_ids() {
    let devices = vec![
        device(Some("HID"), Some("B"), 0x2000, 0x0002, 0xFF00, 0x0001),
        device(Some("HID"), Some("A"), 0x2000, 0x0001, 0xFF00, 0x0001),
        device(Some("HID"), Some("C"), 0x1000, 0x0009, 0xFF00, 0x0001),
    ];
    let candidates = locate_candidates(&devices).unwrap();
    let ids: Vec<(u16, u16)> = candidates.iter().map(|c| (c.vendor_id, c.product_id)).collect();
    assert_eq!(ids, vec![(0x1000, 0x0009), (0x2000, 0x0001), (0x2000, 0x0002)]);
}

#[test]
fn locate_lowercases_names_before_matching_keywords() {
    let devices = vec![device(Some("LEVIATAN Gaming"), Some("Mouse"), 0x1111, 0x2222, 0x0001, 0x0002)];
    let candidates = locate_candidates(&devices).unwrap();
    assert_eq!(candidates[0].score, 25);
    assert_eq!(candidates[0].label, "LEVIATAN Gaming Mouse [1111:2222 u0001:0002]");
}

#[test]
fn locate_trims_the_label() {
    let devices = vec![device(Some("  "), None, 0x4444, 0x0001, 0xFF00, 0x0001)];
    let candidates = locate_candidates(&devices).unwrap();
    assert_eq!(candidates[0].label, "Device [4444:0001 uFF00:0001]");
}

#[test]
fn locate_without_candidates_fails() {
    let devices = vec![device(Some("Logitech"), Some("Keyboard"), 0x046D, 0xC31C, 0x0001, 0x0006)];
    assert_eq!(
        locate_candidates(&devices),
        Err("Aucun peripherique ATK compatible detecte sur le bus HID. Branchez le dongle ou le cable, puis relancez le diagnostic pour inspecter les interfaces exposees.".to_string())
    );
    assert!(locate_candidates(&Vec::new()).is_err());
}

#[test]
fn query_failures_are_joined() {
    let errors = vec!["A: timeout".to_string(), "B: refused".to_string()];
    assert_eq!(query_failure_message(&errors), "A: timeout | B: refused");
    assert_eq!(query_failure_message(&Vec::new()), "Aucun candidat compatible n'a repondu.");
}

#[test]
fn known_ids_rank_before_other_vendors() {
    let devices = vec![
        device(Some("VXE"), Some("ATK mouse"), 0x1234, 0x0001, 0xFF00, 0x0001),
        device(Some("Receiver"), Some("Dongle"), 0x373B, 0x105B, 0x0001, 0x0002),
    ];
    let candidates = locate_candidates(&devices).unwrap();
    assert_eq!(candidates[0].vendor_id, 0x373B);
    assert!(candidates[0].score >= 135);
    assert!(candidates[1].score <= 95);
}

#[test]
fn readable_names_hold_no_brackets() {
    for label in ["A [B] [C]", "[x", "x [", "ATK Dongle [1]", "  Plain  "] {
        assert!(!sanitize_device_label(label).contains('['));
    }
}

#[test]
fn candidate_filter() {
    assert!(is_candidate(true, false, 0, 0, ""));
    assert!(is_candidate(false, true, 0, 0, ""));
    assert!(is_candidate(false, false, 0xFF00, 0x0001, ""));
    assert!(!is_candidate(false, false, 0xFF00, 0x0002, "razer mouse"));
    assert!(is_candidate(false, false, 0x0001, 0x0002, "compx vxe mouse"));
    assert!(is_candidate(false, false, 0x0001, 0x0002, "mad r"));
    assert!(!is_candidate(false, false, 0x0001, 0x0002, "VXE"));
}

#[test]
fn query_loop_steps() {
    let mut errors = Vec::new();
    assert_eq!(query_step::<u8>(&mut errors, Err("A: timeout".to_string())), None);
    assert_eq!(query_step::<u8>(&mut errors, Err("B: refused".to_string())), None);
    assert_eq!(errors, vec!["A: timeout".to_string(), "B: refused".to_string()]);
    assert_eq!(query_step(&mut errors, Ok(7u8)), Some(7));
    assert_eq!(errors.len(), 2);
}
