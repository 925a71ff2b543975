use sorkin::settings::{EncoderConfig, Quality};

#[test]
fn default_config_is_automatic_realtime_opaque_with_audio() {
    let config = EncoderConfig::default();
    assert_eq!(config.thread_count, 0);
    assert_eq!(config.quality, Quality::Realtime);
    assert!(!config.alpha_channel);
    assert!(config.enable_audio);
}

#[test]
fn absent_settings_take_the_defaults() {
    let config = EncoderConfig::from_project_settings(None, None, None, None);
    assert_eq!(config, EncoderConfig::default());
}

#[test]
fn present_settings_are_taken() {
    let config = EncoderConfig::from_project_settings(Some(8), Some("Best"), Some(true), Some(false));
    assert_eq!(
        config,
        EncoderConfig {
            thread_count: 8,
            quality: Quality::Best,
            alpha_channel: true,
            enable_audio: false
        }
    );
    let config = EncoderConfig::from_project_settings(None, Some("Good"), None, Some(true));
    assert_eq!(
        config,
        EncoderConfig {
            thread_count: 0,
            quality: Quality::Good,
            alpha_channel: false,
            enable_audio: true
        }
    );
}

#[test]
fn an_unknown_quality_is_realtime() {
    for name in ["", "good", "GOOD", "Goo", "Goods", "best", "Realtime", "Fast", "Bes\u{74}\u{0301}"] {
        assert_eq!(Quality::from_name(name), Quality::Realtime, "{name}");
    }
    assert_eq!(Quality::from_name("Good"), Quality::Good);
    assert_eq!(Quality::from_name("Best"), Quality::Best);
}

#[test]
fn quality_names_and_levels() {
    assert_eq!(Quality::Realtime.deadline(), "realtime");
    assert_eq!(Quality::Good.deadline(), "good");
    assert_eq!(Quality::Best.deadline(), "best");
    assert_eq!(Quality::Realtime.compression_level(), 10);
    assert_eq!(Quality::Good.compression_level(), 5);
    assert_eq!(Quality::Best.compression_level(), 0);
}
