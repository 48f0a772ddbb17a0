use atk_tray_monitor::startup::{
    launched_from_autostart, load_updater_config, parsed_endpoints, should_show_on_launch,
    split_endpoints,
    u8_setting_or, BATTERY_REFRESH_INTERVAL_SECONDS, DEFAULT_LANGUAGE, DEFAULT_LOW_BATTERY_THRESHOLD,
};
use atk_tray_monitor::text::{
    chars_of, collapse_chars, contains_chars, decimal_chars, join_strings, parse_u64_text,
    str_equal, string_from_chars, trim_chars,
};

fn chars(s: &str) -> Vec<char> {
    s.chars().collect()
}

#[test]
fn parse_accepts_what_rust_accepts() {
    for text in ["0", "42", "+42", "007", "18446744073709551615", "", "+", "-1", "12a", " 1",
        "18446744073709551616", "++1", "1+"]
    {
        assert_eq!(parse_u64_text(text), text.parse::<u64>().ok(), "{text:?}");
    }
}

#[test]
fn decimal_roundtrip() {
    for n in [0u64, 7, 10, 99, 100, 1725029869, u64::MAX] {
        let text: String = decimal_chars(n).into_iter().collect();
        assert_eq!(text, n.to_string());
        assert_eq!(parse_u64_text(&text), Some(n));
    }
}

#[test]
fn trimming_and_collapsing() {
    assert_eq!(trim_chars(&chars("\u{3000} a b \t")), chars("a b"));
    assert_eq!(trim_chars(&chars("   ")), chars(""));
    assert_eq!(collapse_chars(&chars("  a \u{a0}\n b  c ")), chars("a b c"));
    let text = " x\u{2003}y\tz ";
    let words: Vec<&str> = text.split_whitespace().collect();
    assert_eq!(collapse_chars(&chars(text)), chars(&words.join(" ")));
}

#[test]
fn searching_and_comparing() {
    assert!(contains_chars(&chars("atk mouse"), &chars("mouse")));
    assert!(contains_chars(&chars("atk"), &chars("")));
    assert!(!contains_chars(&chars("at"), &chars("atk")));
    assert!(!contains_chars(&chars("a tk"), &chars("atk")));
    assert!(str_equal("en", "en"));
    assert!(!str_equal("en", "es"));
    assert_eq!(string_from_chars(&chars_of("héllo")), "héllo");
}

#[test]
fn joining() {
    let list = vec!["a".to_string(), "b".to_string(), "c".to_string()];
    assert_eq!(join_strings(&list, " | "), "a | b | c");
    assert_eq!(join_strings(&Vec::new(), ","), "");
}

#[test]
fn autostart_flag_detection() {
    let args = vec!["app".to_string(), "--autostart".to_string()];
    assert!(launched_from_autostart(&args));
    assert!(!launched_from_autostart(&vec!["app".to_string(), "--autostart=1".to_string()]));
    assert!(!launched_from_autostart(&Vec::new()));
}

#[test]
fn launch_visibility() {
    assert!(!should_show_on_launch(true, true));
    assert!(should_show_on_launch(true, false));
    assert!(should_show_on_launch(false, true));
    assert!(should_show_on_launch(false, false));
}

#[test]
fn stored_threshold() {
    assert_eq!(u8_setting_or(Some(30), DEFAULT_LOW_BATTERY_THRESHOLD), 30);
    assert_eq!(u8_setting_or(Some(256), DEFAULT_LOW_BATTERY_THRESHOLD), 20);
    assert_eq!(u8_setting_or(None, DEFAULT_LOW_BATTERY_THRESHOLD), 20);
    assert_eq!(DEFAULT_LANGUAGE, "en");
    assert_eq!(BATTERY_REFRESH_INTERVAL_SECONDS, 20);
}

#[test]
fn endpoint_lists() {
    assert_eq!(split_endpoints(" https://a/x.json ; ;https://b/y.json;"), vec![
        "https://a/x.json".to_string(),
        "https://b/y.json".to_string(),
    ]);
    assert!(split_endpoints(" ; ").is_empty());
    assert!(split_endpoints("").is_empty());
}

#[test]
fn updater_configuration() {
    let config = load_updater_config(None, None, "  KEY\n", None, None).unwrap();
    assert_eq!(config.pubkey, "KEY");
    assert_eq!(config.endpoints, vec![
        "https://github.com/NansMM/atk-tray-monitor/releases/latest/download/latest.json"
            .to_string(),
    ]);

    let config = load_updater_config(Some("A"), Some("B"), "C", None, Some("u1;u2")).unwrap();
    assert_eq!(config.pubkey, "A");
    assert_eq!(config.endpoints, vec!["u1".to_string(), "u2".to_string()]);

    let config = load_updater_config(None, Some("B"), "", Some("x"), Some("y")).unwrap();
    assert_eq!(config.pubkey, "B");
    assert_eq!(config.endpoints, vec!["x".to_string()]);

    assert!(load_updater_config(None, None, " \n", None, None).is_none());
    assert!(load_updater_config(Some("A"), None, "", Some(" ; "), None).is_none());
}

#[test]
fn endpoints_must_all_parse() {
    assert_eq!(parsed_endpoints(vec![Some(1), Some(2)]), Some(vec![1, 2]));
    assert_eq!(parsed_endpoints(vec![Some(1), None, Some(3)]), None);
    assert_eq!(parsed_endpoints::<u8>(Vec::new()), Some(Vec::new()));
}
