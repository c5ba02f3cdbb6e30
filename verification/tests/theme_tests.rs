use lp_diff::theme::{ThemeArg, ThemeMode, detect_mode_from_colorfgbg, detect_mode_from_osc11, reply_complete};

#[test]
fn osc11_replies_are_read_by_luminance() {
    assert_eq!(detect_mode_from_osc11(b"\x1b]11;rgb:ffff/ffff/ffff\x07"), Some(ThemeMode::Light));
    assert_eq!(detect_mode_from_osc11(b"\x1b]11;rgb:0000/0000/0000\x1b\\"), Some(ThemeMode::Dark));
    assert_eq!(detect_mode_from_osc11(b"\x1b]11;rgb:28/2c/34\x07\x1b[?62;22c"), Some(ThemeMode::Dark), "two-digit channels");
    assert_eq!(detect_mode_from_osc11(b"\x1b]11;rgb:fdf6/e3e3/c7c7\x07"), Some(ThemeMode::Light), "solarised light");
}

#[test]
fn osc11_without_a_colour_is_unknown() {
    assert_eq!(detect_mode_from_osc11(b""), None, "no reply");
    assert_eq!(detect_mode_from_osc11(b"\x1b[?62;22c"), None, "only the device attributes came back");
    assert_eq!(detect_mode_from_osc11(b"\x1b]11;rgb:zz/00/00\x07"), None, "not hex");
    assert_eq!(detect_mode_from_osc11(b"\x1b]11;rgb:ffff/ffff\x07"), None, "a channel short");
}

#[test]
fn test_colorfgbg_light_backgrounds() {
    assert_eq!(detect_mode_from_colorfgbg("0;15"), Some(ThemeMode::Light));
    assert_eq!(detect_mode_from_colorfgbg("0;7"), Some(ThemeMode::Light));
    assert_eq!(detect_mode_from_colorfgbg("0;default;15"), Some(ThemeMode::Light));
}

#[test]
fn test_colorfgbg_dark_backgrounds() {
    assert_eq!(detect_mode_from_colorfgbg("15;0"), Some(ThemeMode::Dark));
    assert_eq!(detect_mode_from_colorfgbg("7;8"), Some(ThemeMode::Dark));
}

#[test]
fn test_colorfgbg_malformed() {
    assert_eq!(detect_mode_from_colorfgbg(""), None);
    assert_eq!(detect_mode_from_colorfgbg("garbage"), None);
    assert_eq!(detect_mode_from_colorfgbg("15;"), None);
    assert_eq!(detect_mode_from_colorfgbg("15;256"), None);
}

#[test]
fn osc11_channels_are_scaled_by_their_own_width() {
    // One hex digit per channel: 8/15 is just over one half.
    assert_eq!(detect_mode_from_osc11(b"\x1b]11;rgb:8/8/8\x07"), Some(ThemeMode::Light));
    assert_eq!(detect_mode_from_osc11(b"\x1b]11;rgb:7/7/7\x07"), Some(ThemeMode::Dark));
    assert_eq!(detect_mode_from_osc11(b"\x1b]11;rgb:ffff/ffff/ffff/ffff\x07"), None, "a fourth channel");
    assert_eq!(detect_mode_from_osc11(b"\x1b]11;rgb:fffff/ffff/ffff\x07"), None, "five hex digits");
}

#[test]
fn the_background_query_stops_at_the_device_attributes_reply() {
    assert!(!reply_complete(b""));
    assert!(!reply_complete(b"\x1b]11;rgb:0000/0000/0000\x07"));
    assert!(!reply_complete(b"\x1b[?62;22"), "the reply is not finished until its c");
    assert!(reply_complete(b"\x1b]11;rgb:0000/0000/0000\x07\x1b[?62;22c"));
}

#[test]
fn an_explicit_theme_wins_and_no_color_forces_mono() {
    assert_eq!(ThemeArg::Light.resolve(true, Some("0;0")), ThemeMode::Light);
    assert_eq!(ThemeArg::Dark.resolve(false, Some("0;15")), ThemeMode::Dark);
    assert_eq!(ThemeArg::Auto.resolve(true, Some("0;15")), ThemeMode::Mono);
    assert_eq!(ThemeArg::Auto.resolve(false, Some("0;15")), ThemeMode::Light);
    assert_eq!(ThemeArg::Auto.resolve(false, Some("garbage")), ThemeMode::Dark);
    assert_eq!(ThemeArg::Auto.resolve(false, None), ThemeMode::Dark);
}
