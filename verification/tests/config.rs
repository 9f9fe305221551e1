use phase::config::{sanitized_bpm, Theme, CONFIG_VERSION, MAX_CONFIG_BPM, MIN_CONFIG_BPM};
use phase::trainer::normalized_range;

#[test]
fn configured_tempo_is_clamped() {
    assert_eq!(sanitized_bpm(0), 30);
    assert_eq!(sanitized_bpm(29), 30);
    assert_eq!(sanitized_bpm(30), 30);
    assert_eq!(sanitized_bpm(144), 144);
    assert_eq!(sanitized_bpm(300), 300);
    assert_eq!(sanitized_bpm(301), 300);
    assert_eq!(sanitized_bpm(u16::MAX), 300);
    assert_eq!((MIN_CONFIG_BPM, MAX_CONFIG_BPM), (30, 300));
}

#[test]
fn sane_settings_survive_sanitizing() {
    assert_eq!(sanitized_bpm(sanitized_bpm(144)), 144);
    assert_eq!(sanitized_bpm(sanitized_bpm(7)), sanitized_bpm(7));
    assert_eq!(normalized_range((48, 72)), (48, 72));
    assert_eq!(normalized_range((72, 48)), (48, 72));
    assert_eq!(normalized_range((200, 10)), (10, 127));
    assert_eq!(normalized_range(normalized_range((200, 10))), (10, 127));
}

#[test]
fn default_configuration_version_and_theme() {
    assert_eq!(CONFIG_VERSION, 1);
    assert_eq!(Theme::Cyberpunk, Theme::Cyberpunk);
}
